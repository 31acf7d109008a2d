//! How what a user wrote becomes the parameters of a run: warnings about
//! deprecated and experimental parameters, options that the command line
//! passes on to each record of a configuration file, and the final form of
//! paths, import paths and import maps.
use vstd::prelude::*;
use crate::cli::MutateParams;
use crate::compile::{opt_vec_view, opt_view};
use crate::operators::string_views;
use crate::paths::{default_gambit_output_directory, default_outdir_name, normalize_path, normalized_path,
    path_push, path_push_str};
use crate::text::strs_equal;
use crate::util::{normalize_mutation_operator_name, normalized_op_name};

verus! {

/// The views of triples of strings.
pub open spec fn triple_views(v: Seq<(String, String, String)>) -> Seq<(Seq<char>, Seq<char>, Seq<char>)> {
    Seq::new(v.len(), |i: int| (v[i].0@, v[i].1@, v[i].2@))
}

/// A parameter's name as a user wrote it: with `--` on the command line.
pub open spec fn param_spelling(name: Seq<char>, is_cli: bool) -> Seq<char> {
    if is_cli {
        "--"@ + name
    } else {
        name
    }
}

/// One deprecation warning where `present`: parameter, version, message.
pub open spec fn deprecation_if(present: bool, name: Seq<char>, is_cli: bool, message: Seq<char>) -> Seq<
    (Seq<char>, Seq<char>, Seq<char>),
> {
    if present {
        seq![(param_spelling(name, is_cli), "1.0.0"@, message)]
    } else {
        Seq::empty()
    }
}

/// The deprecation warnings for a run's parameters.
pub open spec fn deprecations(p: MutateParams, is_cli: bool) -> Seq<(Seq<char>, Seq<char>, Seq<char>)> {
    deprecation_if(p.sourceroot is Some, "sourceroot"@, is_cli, "sourceroot is no longer used and will be ignored"@)
        + deprecation_if(p.solc_base_path is Some, "solc_base_path"@, is_cli, "Use import_path instead"@)
        + deprecation_if(p.solc_include_paths@.len() > 0, "solc_include_path"@, is_cli, "Use import_path instead"@)
        + deprecation_if(p.solc_remappings is Some, "solc_remapping"@, is_cli, "Use import_path instead"@)
}

/// Appends a triple of strings.
fn push_triple(v: &mut Vec<(String, String, String)>, a: String, b: String, c: String)
    ensures
        triple_views(final(v)@) == triple_views(old(v)@).push((a@, b@, c@)),
{
    v.push((a, b, c));
    assert(triple_views(v@) =~= triple_views(old(v)@).push((a@, b@, c@)));
}

/// A parameter's name as a user wrote it.
fn spelled(name: &str, is_cli: bool) -> (r: String)
    ensures
        r@ == param_spelling(name@, is_cli),
{
    if is_cli {
        let mut s = "--".to_string();
        s.append(name);
        s
    } else {
        name.to_string()
    }
}

/// Deprecation warnings for a run's parameters (parameter, version,
/// message): `sourceroot`, `solc_base_path`, `solc_include_path` and
/// `solc_remapping`, where given; written with `--` for the command line.
pub fn deprecation_warnings(params: &MutateParams, is_cli: bool) -> (r: Vec<(String, String, String)>)
    ensures
        triple_views(r@) == deprecations(*params, is_cli),
{
    let mut r: Vec<(String, String, String)> = Vec::new();
    if params.sourceroot.is_some() {
        push_triple(
            &mut r,
            spelled("sourceroot", is_cli),
            "1.0.0".to_string(),
            "sourceroot is no longer used and will be ignored".to_string(),
        );
    }
    let ghost a = triple_views(r@);
    if params.solc_base_path.is_some() {
        push_triple(&mut r, spelled("solc_base_path", is_cli), "1.0.0".to_string(), "Use import_path instead".to_string());
    }
    let ghost b = triple_views(r@);
    if params.solc_include_paths.len() > 0 {
        push_triple(
            &mut r,
            spelled("solc_include_path", is_cli),
            "1.0.0".to_string(),
            "Use import_path instead".to_string(),
        );
    }
    let ghost c = triple_views(r@);
    if params.solc_remappings.is_some() {
        push_triple(&mut r, spelled("solc_remapping", is_cli), "1.0.0".to_string(), "Use import_path instead".to_string());
    }
    proof {
        let p = *params;
        assert(a =~= deprecation_if(p.sourceroot is Some, "sourceroot"@, is_cli, "sourceroot is no longer used and will be ignored"@));
        assert(b =~= a + deprecation_if(p.solc_base_path is Some, "solc_base_path"@, is_cli, "Use import_path instead"@));
        assert(c =~= b + deprecation_if(p.solc_include_paths@.len() > 0, "solc_include_path"@, is_cli, "Use import_path instead"@));
        assert(triple_views(r@) =~= c + deprecation_if(p.solc_remappings is Some, "solc_remapping"@, is_cli, "Use import_path instead"@));
    }
    r
}

/// The normalized names of all operators a run names, operators first.
pub open spec fn all_op_names(p: MutateParams) -> Seq<Seq<char>> {
    let names = (match p.mutations {
        Some(m) => m@,
        None => Seq::empty(),
    }) + (match p.fallback_mutations {
        Some(f) => f@,
        None => Seq::empty(),
    });
    Seq::new(names.len(), |i: int| normalized_op_name(names[i]@))
}

/// The experimental features a run uses (feature, version): fallback
/// operators, and the expression-value-replacement operator.
pub open spec fn experimental_features(p: MutateParams) -> Seq<(Seq<char>, Seq<char>)> {
    (if p.fallback_mutations is Some {
        seq![("fallback_mutations"@, "1.0.0"@)]
    } else {
        Seq::empty()
    }) + (if all_op_names(p).contains(normalized_op_name("evr"@)) {
        seq![("MutationType:"@ + normalized_op_name("evr"@), "1.0.0"@)]
    } else {
        Seq::empty()
    })
}

/// The views of pairs of strings.
pub open spec fn pairs_view(v: Seq<(String, String)>) -> Seq<(Seq<char>, Seq<char>)> {
    Seq::new(v.len(), |i: int| (v[i].0@, v[i].1@))
}

/// Whether some name in `names`, normalized, is `x`.
fn names_contain(names: &Vec<String>, x: &String) -> (r: bool)
    ensures
        r == exists|i: int| 0 <= i < names@.len() && normalized_op_name(#[trigger] names@[i]@) == x@,
{
    let mut i: usize = 0;
    while i < names.len()
        invariant
            i <= names@.len(),
            forall|j: int| 0 <= j < i ==> normalized_op_name(#[trigger] names@[j]@) != x@,
        decreases names@.len() - i,
    {
        let n = normalize_mutation_operator_name(&names[i]);
        if strs_equal(n.as_str(), x.as_str()) {
            return true;
        }
        i = i + 1;
    }
    false
}

/// Warnings about experimental features a run uses (feature, version):
/// fallback operators, and the expression-value-replacement operator among
/// the operators or the fallback operators.
pub fn experimental_feature_warnings(params: &MutateParams) -> (r: Vec<(String, String)>)
    ensures
        pairs_view(r@) == experimental_features(*params),
{
    let mut r: Vec<(String, String)> = Vec::new();
    if params.fallback_mutations.is_some() {
        r.push(("fallback_mutations".to_string(), "1.0.0".to_string()));
    }
    let ghost a = pairs_view(r@);
    let evr = normalize_mutation_operator_name(&"evr".to_string());
    let in_ops = match &params.mutations {
        Some(m) => names_contain(m, &evr),
        None => false,
    };
    let in_fallback = match &params.fallback_mutations {
        Some(f) => names_contain(f, &evr),
        None => false,
    };
    proof {
        let p = *params;
        let m = match p.mutations {
            Some(m) => m@,
            None => Seq::<String>::empty(),
        };
        let f = match p.fallback_mutations {
            Some(f) => f@,
            None => Seq::<String>::empty(),
        };
        let all = all_op_names(p);
        assert((m + f).len() == all.len());
        if in_ops {
            let i = choose|i: int| 0 <= i < m.len() && normalized_op_name(#[trigger] m[i]@) == evr@;
            assert(all[i] == evr@);
        }
        if in_fallback {
            let i = choose|i: int| 0 <= i < f.len() && normalized_op_name(#[trigger] f[i]@) == evr@;
            assert(all[m.len() + i] == evr@);
        }
        if all.contains(evr@) {
            let k = choose|k: int| 0 <= k < all.len() && all[k] == evr@;
            if k < m.len() {
                assert(normalized_op_name(m[k]@) == evr@);
            } else {
                assert(normalized_op_name(f[k - m.len()]@) == evr@);
            }
        }
    }
    if in_ops || in_fallback {
        let mut feature = "MutationType:".to_string();
        feature.append(evr.as_str());
        r.push((feature, "1.0.0".to_string()));
    }
    assert(pairs_view(r@) =~= experimental_features(*params));
    r
}

/// The command-line options that a run from a configuration file passes on
/// to each record.
pub open spec fn passed_through(r: MutateParams, p: MutateParams, cli: MutateParams, outdir: Option<String>) -> bool {
    &&& r.log_invalid == (p.log_invalid || cli.log_invalid)
    &&& r.no_export == (p.no_export || cli.no_export)
    &&& r.skip_validate == (p.skip_validate || cli.skip_validate)
    &&& r.no_overwrite == (p.no_overwrite || cli.no_overwrite)
    &&& opt_view(r.solc) == (if cli.solc is Some { opt_view(cli.solc) } else { opt_view(p.solc) })
    &&& opt_view(r.outdir) == (if outdir is Some { opt_view(outdir) } else { opt_view(p.outdir) })
    &&& r.json == p.json
    &&& r.filename == p.filename
    &&& r.num_mutants == p.num_mutants
    &&& r.random_seed == p.random_seed
    &&& r.seed == p.seed
    &&& r.sourceroot == p.sourceroot
    &&& r.mutations == p.mutations
    &&& r.fallback_mutations == p.fallback_mutations
    &&& r.solc_optimize == p.solc_optimize
    &&& r.functions == p.functions
    &&& r.contract == p.contract
    &&& r.import_paths == p.import_paths
    &&& r.import_maps == p.import_maps
    &&& r.solc_base_path == p.solc_base_path
    &&& r.solc_include_paths == p.solc_include_paths
    &&& r.solc_allow_paths == p.solc_allow_paths
    &&& r.solc_remappings == p.solc_remappings
    &&& r.solc_raw_args == p.solc_raw_args
}

/// Passes the command line's `log_invalid`, `no_export`, `skip_validate`,
/// `no_overwrite` (where set), its `solc` (where given) and an output
/// directory (where given) on to a record of a configuration file.
pub fn apply_pass_through(p: &mut MutateParams, cli: &MutateParams, outdir: &Option<String>)
    ensures
        passed_through(*final(p), *old(p), *cli, *outdir),
{
    if cli.log_invalid {
        p.log_invalid = true;
    }
    if cli.no_export {
        p.no_export = true;
    }
    if cli.skip_validate {
        p.skip_validate = true;
    }
    if cli.no_overwrite {
        p.no_overwrite = true;
    }
    if let Some(s) = &cli.solc {
        p.solc = Some(s.clone());
    }
    if let Some(o) = outdir {
        p.outdir = Some(o.clone());
    }
}

/// The output directory passed on from the command line to a configuration
/// file's records: the given one, taken relative to the working directory
/// `cwd` (as the caller resolved it).
pub fn pass_through_outdir(cwd: &str, outdir: &Option<String>) -> (r: Option<String>)
    ensures
        match outdir {
            Some(o) => r is Some && r->0@ == path_push(cwd@, o@),
            None => r is None,
        },
{
    match outdir {
        Some(o) => Some(path_push_str(cwd, o.as_str())),
        None => None,
    }
}

/// `v` with `x` added at the end, unless it is already there.
pub open spec fn push_unique(v: Seq<Seq<char>>, x: Seq<char>) -> Seq<Seq<char>> {
    if v.contains(x) {
        v
    } else {
        v.push(x)
    }
}

/// `v` with each of `xs` added in turn, unless already there.
pub open spec fn push_all_unique(v: Seq<Seq<char>>, xs: Seq<Seq<char>>) -> Seq<Seq<char>>
    decreases xs.len(),
{
    if xs.len() == 0 {
        v
    } else {
        push_unique(push_all_unique(v, xs.drop_last()), xs.last())
    }
}

/// The import paths of a run: the resolved import paths, then the resolved
/// base path and include paths where not already there.
pub open spec fn merged_import_paths(ips: Seq<Seq<char>>, base: Option<Seq<char>>, incs: Seq<Seq<char>>) -> Seq<
    Seq<char>,
> {
    let a = match base {
        Some(b) => push_unique(ips, b),
        None => ips,
    };
    push_all_unique(a, incs)
}

/// The import maps of a run: its import maps, then its remappings.
pub open spec fn merged_import_maps(maps: Seq<String>, remaps: Option<Vec<String>>) -> Seq<Seq<char>> {
    string_views(maps) + match remaps {
        Some(r) => string_views(r@),
        None => Seq::empty(),
    }
}

/// Adds `x` to `v` unless it is already there.
fn push_unique_exec(v: &mut Vec<String>, x: String)
    ensures
        string_views(final(v)@) == push_unique(string_views(old(v)@), x@),
{
    let ghost s = string_views(v@);
    let mut i: usize = 0;
    while i < v.len()
        invariant
            i <= v@.len(),
            s == string_views(v@),
            forall|j: int| 0 <= j < i ==> s[j] != x@,
        decreases v@.len() - i,
    {
        if strs_equal(v[i].as_str(), x.as_str()) {
            assert(s[i as int] == x@);
            assert(s.contains(x@));
            return;
        }
        i = i + 1;
    }
    assert(!s.contains(x@));
    v.push(x);
    assert(string_views(v@) =~= s.push(x@));
}

/// The import paths of a run (see [`merged_import_paths`]).
pub fn merge_import_paths(import_paths: Vec<String>, base_path: Option<String>, include_paths: &Vec<String>) -> (r:
    Vec<String>)
    ensures
        string_views(r@) == merged_import_paths(
            string_views(import_paths@),
            opt_view(base_path),
            string_views(include_paths@),
        ),
{
    let mut r = import_paths;
    if let Some(b) = base_path {
        push_unique_exec(&mut r, b);
    }
    let ghost a = string_views(r@);
    let ghost incs = string_views(include_paths@);
    let mut i: usize = 0;
    while i < include_paths.len()
        invariant
            i <= include_paths@.len(),
            incs == string_views(include_paths@),
            string_views(r@) == push_all_unique(a, incs.take(i as int)),
        decreases include_paths@.len() - i,
    {
        push_unique_exec(&mut r, include_paths[i].clone());
        assert(incs.take(i + 1).drop_last() =~= incs.take(i as int));
        i = i + 1;
    }
    assert(incs.take(include_paths@.len() as int) =~= incs);
    r
}

/// The import maps of a run (see [`merged_import_maps`]).
pub fn merge_import_maps(import_maps: &Vec<String>, remappings: &Option<Vec<String>>) -> (r: Vec<String>)
    ensures
        string_views(r@) == merged_import_maps(import_maps@, *remappings),
{
    let mut r: Vec<String> = Vec::new();
    let mut i: usize = 0;
    while i < import_maps.len()
        invariant
            i <= import_maps@.len(),
            string_views(r@) == string_views(import_maps@).take(i as int),
        decreases import_maps@.len() - i,
    {
        let x = import_maps[i].clone();
        let ghost before = string_views(r@);
        r.push(x);
        assert(string_views(r@) =~= before.push(x@));
        assert(string_views(import_maps@).take(i + 1) =~= string_views(import_maps@).take(i as int).push(x@));
        i = i + 1;
    }
    assert(string_views(import_maps@).take(import_maps@.len() as int) =~= string_views(import_maps@));
    if let Some(remaps) = remappings {
        let ghost a = string_views(r@);
        let mut j: usize = 0;
        while j < remaps.len()
            invariant
                j <= remaps@.len(),
                string_views(r@) == a + string_views(remaps@).take(j as int),
            decreases remaps@.len() - j,
        {
            let x = remaps[j].clone();
            let ghost before = string_views(r@);
            r.push(x);
            assert(string_views(r@) =~= before.push(x@));
            assert(string_views(remaps@).take(j + 1) =~= string_views(remaps@).take(j as int).push(x@));
            j = j + 1;
        }
        assert(string_views(remaps@).take(remaps@.len() as int) =~= string_views(remaps@));
    }
    assert(string_views(r@) =~= merged_import_maps(import_maps@, *remappings));
    r
}

/// Paths of a run's parameters as the caller resolved them against the file
/// system (each to its canonical form).
pub struct ResolvedPaths {
    /// The file to mutate
    pub filename: String,
    /// The allowed paths, where given
    pub allow_paths: Option<Vec<String>>,
    /// The import paths that could be resolved, in order
    pub import_paths: Vec<String>,
    /// The base path, where given
    pub base_path: Option<String>,
    /// The include paths, in order
    pub include_paths: Vec<String>,
}

/// Whether a path is absolute.
pub open spec fn is_absolute(p: Seq<char>) -> bool {
    p.len() > 0 && p[0] == '/'
}

/// The output directory of a record of a configuration file in directory
/// `parent`: an absolute one normalized, a relative one taken relative to
/// `parent` and normalized, and `./gambit_out` normalized where none is given.
pub open spec fn config_outdir_of(outdir: Option<String>, parent: Seq<char>) -> Seq<char> {
    match outdir {
        Some(o) => if is_absolute(o@) {
            normalized_path(o@)
        } else {
            normalized_path(path_push(parent, o@))
        },
        None => normalized_path(path_push("."@, default_outdir_name())),
    }
}

/// The output directory of a run from the command line: the given one, or
/// the default, normalized.
pub open spec fn cli_outdir_of(outdir: Option<String>) -> Seq<char> {
    match outdir {
        Some(o) => normalized_path(o@),
        None => normalized_path(default_outdir_name()),
    }
}

/// The parameters that resolution leaves as they are.
pub open spec fn kept_settings(r: MutateParams, p: MutateParams) -> bool {
    &&& r.json == p.json
    &&& r.num_mutants == p.num_mutants
    &&& r.random_seed == p.random_seed
    &&& r.seed == p.seed
    &&& r.sourceroot == p.sourceroot
    &&& r.mutations == p.mutations
    &&& r.fallback_mutations == p.fallback_mutations
    &&& r.no_export == p.no_export
    &&& r.no_overwrite == p.no_overwrite
    &&& r.solc == p.solc
    &&& r.solc_optimize == p.solc_optimize
    &&& r.functions == p.functions
    &&& r.contract == p.contract
    &&& r.skip_validate == p.skip_validate
    &&& r.log_invalid == p.log_invalid
    &&& r.solc_raw_args == p.solc_raw_args
}

/// The paths of resolved parameters: the file, the output directory
/// `outdir`, the import paths `ips`, the import maps `maps`, the allowed
/// paths, and no deprecated solc paths left.
pub open spec fn resolved_params(
    r: MutateParams,
    p: MutateParams,
    rp: ResolvedPaths,
    outdir: Seq<char>,
    ips: Seq<Seq<char>>,
    maps: Seq<Seq<char>>,
) -> bool {
    &&& kept_settings(r, p)
    &&& r.filename == Some(rp.filename)
    &&& opt_view(r.outdir) == Some(outdir)
    &&& string_views(r.import_paths@) == ips
    &&& string_views(r.import_maps@) == maps
    &&& opt_vec_view(r.solc_allow_paths) == opt_vec_view(rp.allow_paths)
    &&& r.solc_base_path is None
    &&& r.solc_include_paths@.len() == 0
    &&& r.solc_remappings is None
}

/// The import paths that resolution gives before a default is added.
pub open spec fn resolved_import_paths(rp: ResolvedPaths) -> Seq<Seq<char>> {
    merged_import_paths(string_views(rp.import_paths@), opt_view(rp.base_path), string_views(rp.include_paths@))
}

/// The output directory of a record of a configuration file in directory
/// `parent` (see [`config_outdir_of`]).
pub fn config_outdir(outdir: &Option<String>, parent: &str) -> (r: String)
    ensures
        r@ == config_outdir_of(*outdir, parent@),
{
    match outdir {
        Some(o) => {
            let c = o.as_str();
            if c.len() > 0 && crate::text::chars_of(c)[0] == '/' {
                normalize_path(c)
            } else {
                normalize_path(path_push_str(parent, c).as_str())
            }
        },
        None => normalize_path(path_push_str(".", default_gambit_output_directory().as_str()).as_str()),
    }
}

/// The output directory of a run from the command line (see
/// [`cli_outdir_of`]).
pub fn cli_outdir(outdir: &Option<String>) -> (r: String)
    ensures
        r@ == cli_outdir_of(*outdir),
{
    match outdir {
        Some(o) => normalize_path(o.as_str()),
        None => normalize_path(default_gambit_output_directory().as_str()),
    }
}

/// The final parameters of a record of a configuration file in directory
/// `json_parent`, from the paths the caller resolved: the output directory
/// (see [`config_outdir_of`]), the import paths (the directory itself where
/// none are left; the flag says so), the import maps with the remappings
/// after them, and no deprecated solc paths left.
pub fn finalize_config_params(p: MutateParams, json_parent: &str, resolved: ResolvedPaths) -> (r: (
    MutateParams,
    bool,
))
    ensures
        r.1 == (resolved_import_paths(resolved).len() == 0),
        resolved_params(
            r.0,
            p,
            resolved,
            config_outdir_of(p.outdir, json_parent@),
            if r.1 {
                seq![json_parent@]
            } else {
                resolved_import_paths(resolved)
            },
            merged_import_maps(p.import_maps@, p.solc_remappings),
        ),
{
    let outdir = config_outdir(&p.outdir, json_parent);
    let import_maps = merge_import_maps(&p.import_maps, &p.solc_remappings);
    let ghost rp = resolved;
    let ResolvedPaths { filename, allow_paths, import_paths, base_path, include_paths } = resolved;
    let mut ips = merge_import_paths(import_paths, base_path, &include_paths);
    let empty = ips.len() == 0;
    if empty {
        ips.push(json_parent.to_string());
        assert(string_views(ips@) =~= seq![json_parent@]);
    }
    let r = MutateParams {
        filename: Some(filename),
        outdir: Some(outdir),
        import_paths: ips,
        import_maps,
        solc_allow_paths: allow_paths,
        solc_base_path: None,
        solc_include_paths: Vec::new(),
        solc_remappings: None,
        ..p
    };
    (r, empty)
}

/// Why a run from the command line gets no import path.
#[derive(Debug, Clone, Copy, PartialEq, Eq, Structural)]
pub enum ParamsError {
    /// Could not canonicalize default import path '.'
    NoDefaultImportPath,
}

/// The final parameters of a run from the command line, from the paths the
/// caller resolved: the output directory (see [`cli_outdir_of`]), the import
/// paths (the working directory `cwd` where none are left, an error where
/// that could not be resolved either), the import maps as given (the
/// remappings are dropped), and no deprecated solc paths left.
pub fn finalize_cli_params(p: MutateParams, resolved: ResolvedPaths, cwd: Option<String>) -> (r: Result<
    MutateParams,
    ParamsError,
>)
    ensures
        resolved_import_paths(resolved).len() == 0 && cwd is None ==> r == Err::<MutateParams, ParamsError>(
            ParamsError::NoDefaultImportPath,
        ),
        resolved_import_paths(resolved).len() > 0 || cwd is Some ==> (r matches Ok(q) && resolved_params(
            q,
            p,
            resolved,
            cli_outdir_of(p.outdir),
            if resolved_import_paths(resolved).len() == 0 {
                seq![cwd.unwrap()@]
            } else {
                resolved_import_paths(resolved)
            },
            string_views(p.import_maps@),
        )),
{
    let outdir = cli_outdir(&p.outdir);
    let ResolvedPaths { filename, allow_paths, import_paths, base_path, include_paths } = resolved;
    let mut ips = merge_import_paths(import_paths, base_path, &include_paths);
    if ips.len() == 0 {
        match cwd {
            Some(c) => {
                ips.push(c);
                assert(string_views(ips@) =~= seq![cwd.unwrap()@]);
            },
            None => {
                return Err(ParamsError::NoDefaultImportPath);
            },
        }
    }
    Ok(
        MutateParams {
            filename: Some(filename),
            outdir: Some(outdir),
            import_paths: ips,
            solc_allow_paths: allow_paths,
            solc_base_path: None,
            solc_include_paths: Vec::new(),
            solc_remappings: None,
            ..p
        },
    )
}

} // verus!

verus! {

/// Whether the elements of `s` are pairwise distinct.
pub open spec fn distinct_paths(s: Seq<Seq<char>>) -> bool {
    forall|a: int, b: int| 0 <= a < b < s.len() ==> s[a] != s[b]
}

proof fn lemma_push_unique(v: Seq<Seq<char>>, x: Seq<char>)
    ensures
        push_unique(v, x).take(v.len() as int) == v,
        push_unique(v, x).contains(x),
        forall|y: Seq<char>| #[trigger] push_unique(v, x).contains(y) <==> (v.contains(y) || y == x),
        distinct_paths(v) ==> distinct_paths(push_unique(v, x)),
{
    let r = push_unique(v, x);
    if !v.contains(x) {
        assert(r.take(v.len() as int) =~= v);
        assert(r[v.len() as int] == x);
        assert forall|y: Seq<char>| r.contains(y) <==> (v.contains(y) || y == x) by {
            if r.contains(y) {
                let k = choose|k: int| 0 <= k < r.len() && r[k] == y;
                if k < v.len() {
                    assert(v[k] == y);
                }
            }
            if v.contains(y) {
                let k = choose|k: int| 0 <= k < v.len() && v[k] == y;
                assert(r[k] == y);
            }
        }
        if distinct_paths(v) {
            assert forall|a: int, b: int| 0 <= a < b < r.len() implies r[a] != r[b] by {
                if b == v.len() && r[a] == x {
                    assert(v[a] == x);
                }
            }
        }
    } else {
        assert(r.take(v.len() as int) =~= v);
    }
}

proof fn lemma_push_all_unique(v: Seq<Seq<char>>, xs: Seq<Seq<char>>)
    ensures
        push_all_unique(v, xs).len() >= v.len(),
        push_all_unique(v, xs).take(v.len() as int) == v,
        forall|y: Seq<char>| #[trigger] push_all_unique(v, xs).contains(y) <==> (v.contains(y) || xs.contains(y)),
        distinct_paths(v) ==> distinct_paths(push_all_unique(v, xs)),
    decreases xs.len(),
{
    if xs.len() > 0 {
        let w = push_all_unique(v, xs.drop_last());
        lemma_push_all_unique(v, xs.drop_last());
        lemma_push_unique(w, xs.last());
        let r = push_all_unique(v, xs);
        assert(r.take(w.len() as int) == w);
        assert(r.take(v.len() as int) =~= w.take(v.len() as int));
        assert forall|y: Seq<char>| r.contains(y) <==> (v.contains(y) || xs.contains(y)) by {
            if xs.drop_last().contains(y) {
                let k = choose|k: int| 0 <= k < xs.drop_last().len() && xs.drop_last()[k] == y;
                assert(xs[k] == y);
            }
            if xs.contains(y) {
                let k = choose|k: int| 0 <= k < xs.len() && xs[k] == y;
                if k < xs.len() - 1 {
                    assert(xs.drop_last()[k] == y);
                }
            }
        }
    }
}

/// Merging import paths keeps the resolved import paths first and in order,
/// adds the base path and each include path unless already there, adds
/// nothing else, and adds no duplicates.
pub proof fn law_merged_import_paths(ips: Seq<Seq<char>>, base: Option<Seq<char>>, incs: Seq<Seq<char>>)
    ensures
        merged_import_paths(ips, base, incs).take(ips.len() as int) == ips,
        forall|y: Seq<char>|
            #[trigger] merged_import_paths(ips, base, incs).contains(y) <==> (ips.contains(y) || base == Some(y)
                || incs.contains(y)),
        distinct_paths(ips) ==> distinct_paths(merged_import_paths(ips, base, incs)),
{
    let a = match base {
        Some(b) => push_unique(ips, b),
        None => ips,
    };
    match base {
        Some(b) => {
            lemma_push_unique(ips, b);
        },
        None => {},
    }
    lemma_push_all_unique(a, incs);
    let m = merged_import_paths(ips, base, incs);
    assert(a.len() >= ips.len());
    assert(m.take(ips.len() as int) =~= a.take(ips.len() as int));
}

} // verus!
