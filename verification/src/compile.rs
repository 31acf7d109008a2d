//! The configuration of the Solidity compiler `solc`: the command line it is
//! run with, and how its outcome is read. Running it is left to the caller.
use vstd::prelude::*;
use crate::cli::MutateParams;
use crate::operators::string_views;
use crate::text::join_with;

verus! {

/// `itertools::join` on strings: the items, each written as it is, with
/// `sep` between consecutive ones. The contract claims exactly that.
#[verifier::external_body]
fn join_strings(items: &Vec<String>, sep: &str) -> (r: String)
    ensures
        r@ == join_with(string_views(items@), sep@),
{
    itertools::join(items, sep)
}

/// Compilation configuration, kept across compilations of single files.
#[derive(Debug, Clone)]
pub struct Solc {
    /// The solc executable
    pub solc: String,
    /// Where compiler output goes
    pub output_directory: String,
    /// `--base-path` argument
    pub basepath: Option<String>,
    /// `--allow-paths` argument, joined with commas
    pub allow_paths: Option<Vec<String>>,
    /// `--include-path` argument
    pub include_path: Option<String>,
    /// Remappings, passed as they are
    pub remappings: Option<Vec<String>>,
    /// Whether to pass `--optimize`
    pub optimize: bool,
}

/// The exit code, standard output and standard error of a finished compiler.
pub type CompilerRet = (i32, Vec<u8>, Vec<u8>);

/// The exit code (none where a signal ended the process), standard output and
/// standard error of a command.
pub type CommandOutput = (Option<i32>, Vec<u8>, Vec<u8>);

/// Why a compiler run gave no exit code.
#[derive(Debug, Clone, Copy, PartialEq, Eq, Structural)]
pub enum CompileError {
    /// Solc terminated with a signal
    TerminatedBySignal,
}

/// A flag followed by its value, where there is a value.
pub open spec fn flag_with(flag: Seq<char>, v: Option<Seq<char>>) -> Seq<Seq<char>> {
    match v {
        Some(x) => seq![flag, x],
        None => Seq::empty(),
    }
}

/// The `--allow-paths` value: the paths joined with commas.
pub open spec fn allow_paths_value(a: Option<Vec<String>>) -> Option<Seq<char>> {
    match a {
        Some(v) => Some(join_with(string_views(v@), ","@)),
        None => None,
    }
}

/// The view of an optional string.
pub open spec fn opt_view(o: Option<String>) -> Option<Seq<char>> {
    match o {
        Some(s) => Some(s@),
        None => None,
    }
}

/// The elements of an optional vector.
pub open spec fn opt_vec_view(o: Option<Vec<String>>) -> Option<Seq<String>> {
    match o {
        Some(v) => Some(v@),
        None => None,
    }
}

/// The arguments solc is run with to compile `file` into `dir`.
pub open spec fn compilation_flags(s: Solc, file: Seq<char>, dir: Seq<char>, stop_after_parse: bool) -> Seq<
    Seq<char>,
> {
    seq!["--ast-compact-json"@, file, "--output-dir"@, dir, "--overwrite"@]
        + (if stop_after_parse { seq!["--stop-after"@, "parsing"@] } else { Seq::empty() })
        + flag_with("--base-path"@, opt_view(s.basepath))
        + flag_with("--allow-paths"@, allow_paths_value(s.allow_paths))
        + flag_with("--include-path"@, opt_view(s.include_path))
        + (match s.remappings { Some(r) => string_views(r@), None => Seq::empty() })
        + (if s.optimize { seq!["--optimize"@] } else { Seq::empty() })
}

/// Appends `x` to `v`.
fn push_flag(v: &mut Vec<String>, x: String)
    ensures
        string_views(final(v)@) == string_views(old(v)@).push(x@),
{
    v.push(x);
    assert(string_views(v@) =~= string_views(old(v)@).push(x@));
}

impl Solc {
    /// A configuration that runs `solc` with output in `output_directory`
    /// and no optional flags.
    pub fn new(solc: String, output_directory: String) -> (r: Solc)
        ensures
            r.solc == solc,
            r.output_directory == output_directory,
            r.basepath is None,
            r.allow_paths is None,
            r.include_path is None,
            r.remappings is None,
            !r.optimize,
    {
        Solc {
            solc,
            output_directory,
            basepath: None,
            allow_paths: None,
            include_path: None,
            remappings: None,
            optimize: false,
        }
    }

    /// The output directory.
    pub fn output_directory(&self) -> (r: &String)
        ensures
            *r == self.output_directory,
    {
        &self.output_directory
    }

    /// The base path, if one was given.
    pub fn basepath(&self) -> (r: Option<&String>)
        ensures
            match self.basepath {
                Some(b) => r == Some(&b),
                None => r is None,
            },
    {
        match &self.basepath {
            Some(bp) => Some(bp),
            None => None,
        }
    }

    /// Sets the base path.
    pub fn with_basepath(&mut self, basepath: String) -> (r: &Self)
        ensures
            *final(self) == (Solc { basepath: Some(basepath), ..*old(self) }),
            *r == *final(self),
    {
        self.basepath = Some(basepath);
        self
    }

    /// Sets the allowed paths.
    pub fn with_allow_paths(&mut self, allow_paths: Vec<String>) -> (r: &Self)
        ensures
            *final(self) == (Solc { allow_paths: Some(allow_paths), ..*old(self) }),
            *r == *final(self),
    {
        self.allow_paths = Some(allow_paths);
        self
    }

    /// Sets the include path.
    pub fn with_include_path(&mut self, include_path: String) -> (r: &Self)
        ensures
            *final(self) == (Solc { include_path: Some(include_path), ..*old(self) }),
            *r == *final(self),
    {
        self.include_path = Some(include_path);
        self
    }

    /// Sets the remappings.
    pub fn with_remappings(&mut self, remappings: Vec<String>) -> (r: &Self)
        ensures
            *final(self) == (Solc { remappings: Some(remappings), ..*old(self) }),
            *r == *final(self),
    {
        self.remappings = Some(remappings);
        self
    }

    /// Sets whether to optimize.
    pub fn with_optimize(&mut self, optimize: bool) -> (r: &Self)
        ensures
            *final(self) == (Solc { optimize: optimize, ..*old(self) }),
            *r == *final(self),
    {
        self.optimize = optimize;
        self
    }

    /// Takes from a run's parameters where solc looks for imported files and
    /// how it compiles: the first import path is the base path, the import
    /// maps are the remappings (where there are any), the allowed paths and
    /// the optimize flag are those of the parameters.
    pub fn with_vfs_roots_from_params(&mut self, params: &MutateParams) -> (r: &Self)
        ensures
            final(self).solc == old(self).solc,
            final(self).output_directory == old(self).output_directory,
            final(self).basepath == (if params.import_paths@.len() > 0 {
                Some(params.import_paths@[0])
            } else {
                old(self).basepath
            }),
            opt_vec_view(final(self).allow_paths) == (match params.solc_allow_paths {
                Some(a) => Some(a@),
                None => opt_vec_view(old(self).allow_paths),
            }),
            final(self).include_path == old(self).include_path,
            opt_vec_view(final(self).remappings) == (if params.import_maps@.len() > 0 {
                Some(params.import_maps@)
            } else {
                opt_vec_view(old(self).remappings)
            }),
            final(self).optimize == params.solc_optimize,
            *r == *final(self),
    {
        if params.import_paths.len() > 0 {
            self.basepath = Some(params.import_paths[0].clone());
        }
        match &params.solc_allow_paths {
            Some(a) => {
                self.allow_paths = Some(a.clone());
                assert(a@ =~= self.allow_paths.unwrap()@);
            },
            None => {},
        }
        if params.import_maps.len() > 0 {
            let m = params.import_maps.clone();
            assert(m@ =~= params.import_maps@);
            self.remappings = Some(m);
        }
        self.optimize = params.solc_optimize;
        self
    }

    /// The arguments solc is run with to compile `solidity_file` into
    /// `ast_dir`, stopping after parsing where asked.
    pub fn make_compilation_flags(&self, solidity_file: &str, ast_dir: &str, stop_after_parse: bool) -> (r:
        Vec<String>)
        ensures
            string_views(r@) == compilation_flags(*self, solidity_file@, ast_dir@, stop_after_parse),
    {
        let mut flags: Vec<String> = Vec::new();
        push_flag(&mut flags, "--ast-compact-json".to_string());
        push_flag(&mut flags, solidity_file.to_string());
        push_flag(&mut flags, "--output-dir".to_string());
        push_flag(&mut flags, ast_dir.to_string());
        push_flag(&mut flags, "--overwrite".to_string());
        let ghost g0 = string_views(flags@);
        if stop_after_parse {
            push_flag(&mut flags, "--stop-after".to_string());
            push_flag(&mut flags, "parsing".to_string());
        }
        let ghost g1 = string_views(flags@);
        if let Some(basepath) = &self.basepath {
            push_flag(&mut flags, "--base-path".to_string());
            push_flag(&mut flags, basepath.clone());
        }
        let ghost g2 = string_views(flags@);
        if let Some(allow_paths) = &self.allow_paths {
            push_flag(&mut flags, "--allow-paths".to_string());
            let comma_separated = join_strings(allow_paths, ",");
            push_flag(&mut flags, comma_separated);
        }
        let ghost g3 = string_views(flags@);
        if let Some(include_path) = &self.include_path {
            push_flag(&mut flags, "--include-path".to_string());
            push_flag(&mut flags, include_path.clone());
        }
        let ghost g4 = string_views(flags@);
        if let Some(remaps) = &self.remappings {
            let mut i: usize = 0;
            while i < remaps.len()
                invariant
                    i <= remaps@.len(),
                    string_views(flags@) == g4 + string_views(remaps@).take(i as int),
                decreases remaps@.len() - i,
            {
                push_flag(&mut flags, remaps[i].clone());
                assert(string_views(remaps@).take(i + 1) =~= string_views(remaps@).take(i as int).push(
                    remaps@[i as int]@,
                ));
                i = i + 1;
            }
            assert(string_views(remaps@).take(remaps@.len() as int) =~= string_views(remaps@));
        }
        let ghost g5 = string_views(flags@);
        if self.optimize {
            push_flag(&mut flags, "--optimize".to_string());
        }
        proof {
            let s = *self;
            let f = solidity_file@;
            let d = ast_dir@;
            assert(g0 =~= seq!["--ast-compact-json"@, f, "--output-dir"@, d, "--overwrite"@]);
            assert(g1 =~= g0 + (if stop_after_parse { seq!["--stop-after"@, "parsing"@] } else { Seq::empty() }));
            assert(g2 =~= g1 + flag_with("--base-path"@, opt_view(s.basepath)));
            assert(g3 =~= g2 + flag_with("--allow-paths"@, allow_paths_value(s.allow_paths)));
            assert(g4 =~= g3 + flag_with("--include-path"@, opt_view(s.include_path)));
            assert(g5 =~= g4 + (match s.remappings { Some(r) => string_views(r@), None => Seq::empty() }));
            assert(string_views(flags@) =~= g5 + (if s.optimize { seq!["--optimize"@] } else { Seq::empty() }));
        }
        flags
    }

    /// Reads the outcome of a compiler run: its exit code, output and errors,
    /// or an error where a signal ended it.
    pub fn compile(&self, outcome: CommandOutput) -> (r: Result<CompilerRet, CompileError>)
        ensures
            match outcome.0 {
                Some(code) => r == Ok::<CompilerRet, CompileError>((code, outcome.1, outcome.2)),
                None => r == Err::<CompilerRet, CompileError>(CompileError::TerminatedBySignal),
            },
    {
        let (code, stdout, stderr) = outcome;
        match code {
            Some(c) => Ok((c, stdout, stderr)),
            None => Err(CompileError::TerminatedBySignal),
        }
    }
}

} // verus!
