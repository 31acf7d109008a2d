//! What is written for the mutants of a run: each exported mutant's file,
//! the mutant log, and the records of the results file. Writing them is
//! left to the caller.
use vstd::prelude::*;
use crate::literal::{decimal_text, digits_of};
use crate::mutation::{display_name, rendered_mutant, short_name_of, Mutant};
use crate::paths::{path_push, path_push_str};

verus! {

/// The unified diff from `old` to `new` under the given headers, as the
/// `similar` crate writes it for a line diff.
pub uninterp spec fn unified_diff_of(
    old: Seq<char>,
    new: Seq<char>,
    old_header: Seq<char>,
    new_header: Seq<char>,
) -> Seq<char>;

/// `similar::TextDiff::from_lines(old, new).unified_diff().header(..)`
/// written to a string. The contract names the result: it depends on the
/// two texts and the two headers alone.
#[verifier::external_body]
fn unified_diff(old: &str, new: &str, old_header: &str, new_header: &str) -> (r: String)
    ensures
        r@ == unified_diff_of(old@, new@, old_header@, new_header@),
{
    similar::TextDiff::from_lines(old, new).unified_diff().header(old_header, new_header).to_string()
}

/// Errors about the contents of a results directory.
#[derive(Debug, Clone)]
pub enum MutantWriterError {
    NoSuchDirectory(String),
    NoSuchFile(String),
    InvalidMutantDirFormat(String),
}

impl MutantWriterError {
    /// The error's message.
    pub fn message(&self) -> (r: String)
        ensures
            r@ == (match self {
                MutantWriterError::NoSuchDirectory(m) => "NoSuchDirectory: "@ + m@,
                MutantWriterError::NoSuchFile(m) => "NoSuchFile: "@ + m@,
                MutantWriterError::InvalidMutantDirFormat(d) => "Invalid Mutant Directory: Expected a numeric name but found "@
                    + d@,
            }),
    {
        let (mut s, m) = match self {
            MutantWriterError::NoSuchDirectory(m) => ("NoSuchDirectory: ".to_string(), m),
            MutantWriterError::NoSuchFile(m) => ("NoSuchFile: ".to_string(), m),
            MutantWriterError::InvalidMutantDirFormat(d) => (
                "Invalid Mutant Directory: Expected a numeric name but found ".to_string(),
                d,
            ),
        };
        s.append(m.as_str());
        s
    }
}

/// Logs and exports the mutants of a run to an output directory.
#[derive(Debug, Clone)]
pub struct MutantWriter {
    /// The output directory to write mutants to
    pub outdir: String,
}

/// The path under which a mutant is exported (its path relative to its import
/// root, or its full path).
pub open spec fn export_path(m: Mutant) -> Seq<char> {
    match m.mutant_loc.sol_path {
        Some(p) => p@,
        None => m.mutant_loc.path@,
    }
}

/// The file a mutant with id `mid` is exported to: `<dir>/<mid>/<path>`.
pub open spec fn mutant_filename(dir: Seq<char>, mid: nat, m: Mutant) -> Seq<char> {
    path_push(path_push(dir, digits_of(mid)), export_path(m))
}

/// A mutant's text: its source with the replacement and a comment line.
#[verifier::opaque]
pub open spec fn mutant_text(m: Mutant) -> Seq<char> {
    rendered_mutant(
        m.source@,
        m.mutant_loc.loc.start as int,
        m.mutant_loc.loc.end as int,
        m.repl@,
        m.mutant_loc.line_no as int,
        display_name(m.op),
    )
}

/// `line:col` in decimal.
pub open spec fn line_col_text(line: nat, col: nat) -> Seq<char> {
    digits_of(line) + ":"@ + digits_of(col)
}

/// A row of a mutant log: id, operator's short name, path, `line:col`, the
/// original text and the replacement.
pub open spec fn log_row(mid: nat, m: Mutant, line: nat, col: nat) -> Seq<Seq<char>> {
    seq![digits_of(mid), short_name_of(m.op), export_path(m), line_col_text(line, col), m.orig@, m.repl@]
}

/// The views of a vector of strings.
pub open spec fn row_view(v: Seq<String>) -> Seq<Seq<char>> {
    Seq::new(v.len(), |i: int| v[i]@)
}

/// `line:col` in decimal.
fn line_col(line: usize, col: usize) -> (r: String)
    ensures
        r@ == line_col_text(line as nat, col as nat),
{
    let mut s = decimal_text(line);
    s.append(":");
    s.append(decimal_text(col).as_str());
    s
}

/// A log row for mutant `m` with id `mid` at `line:col`.
fn row(mid: usize, m: &Mutant, line: usize, col: usize) -> (r: Vec<String>)
    ensures
        row_view(r@) == log_row(mid as nat, *m, line as nat, col as nat),
{
    let r = vec![
        decimal_text(mid),
        m.op.short_name(),
        m.vfs_path(),
        line_col(line, col),
        m.orig.clone(),
        m.repl.clone(),
    ];
    assert(row_view(r@) =~= log_row(mid as nat, *m, line as nat, col as nat));
    r
}

/// The row of the mutant log for mutant `m` with id `mid`: line and column
/// counted from one.
pub fn mutant_log_record(mid: usize, m: &Mutant) -> (r: Vec<String>)
    requires
        m.mutant_loc.line_no < usize::MAX,
        m.mutant_loc.col_no < usize::MAX,
    ensures
        row_view(r@) == log_row(mid as nat, *m, (m.mutant_loc.line_no + 1) as nat, (m.mutant_loc.col_no + 1) as nat),
{
    let (line, col) = m.get_line_column();
    row(mid, m, line + 1, col + 1)
}

/// The row of the invalid-mutant log for mutant `m` with id `mid`: line and
/// column as the mutant holds them.
pub fn invalid_log_record(mid: usize, m: &Mutant) -> (r: Vec<String>)
    ensures
        row_view(r@) == log_row(mid as nat, *m, m.mutant_loc.line_no as nat, m.mutant_loc.col_no as nat),
{
    let (line, col) = m.get_line_column();
    row(mid, m, line, col)
}

/// A record of the results file.
#[derive(Debug, Clone)]
pub struct ResultRecord {
    /// Where the mutant is exported to, under `mutants`
    pub name: String,
    /// The operator's long name
    pub description: String,
    /// The operator's short name
    pub op: String,
    /// The mutant's id
    pub id: String,
    /// The diff from the original to the mutant
    pub diff: String,
    /// The path of the original file
    pub original: String,
    /// The original text
    pub orig: String,
    /// The replacement
    pub repl: String,
    /// The line, counted from one
    pub line: usize,
    /// The column, counted from one
    pub col: usize,
}

/// Whether `r` is the results record of mutant `m` with id `mid`.
pub open spec fn result_of(r: ResultRecord, mid: nat, m: Mutant) -> bool {
    &&& r.name@ == mutant_filename("mutants"@, mid, m)
    &&& r.description@ == display_name(m.op)
    &&& r.op@ == short_name_of(m.op)
    &&& r.id@ == digits_of(mid)
    &&& r.diff@ == unified_diff_of(m.source@, mutant_text(m), "original"@, "mutant"@)
    &&& r.original@ == export_path(m)
    &&& r.orig@ == m.orig@
    &&& r.repl@ == m.repl@
    &&& r.line == m.mutant_loc.line_no + 1
    &&& r.col == m.mutant_loc.col_no + 1
}

/// Whether a mutant can be logged and exported: it renders, and its line and
/// column counted from one are machine integers.
pub open spec fn writable(m: Mutant) -> bool {
    &&& m.renders()
    &&& m.mutant_loc.line_no < usize::MAX
    &&& m.mutant_loc.col_no < usize::MAX
}

/// Everything written for the mutants of a run.
pub struct WritePlan {
    /// The directory of exported mutants, replaced as a whole
    pub mutants_dir: String,
    /// Each exported mutant's file and text
    pub exports: Vec<(String, String)>,
    /// The mutant log's file
    pub log_path: String,
    /// The mutant log's rows
    pub log: Vec<Vec<String>>,
    /// The results file
    pub results_path: String,
    /// The results file's records
    pub results: Vec<ResultRecord>,
}

/// The ids (counted from one) of the mutants marked for export, in order.
pub open spec fn exported_ids(mutants: Seq<(Mutant, bool)>) -> Seq<nat>
    decreases mutants.len(),
{
    if mutants.len() == 0 {
        Seq::empty()
    } else if mutants.last().1 {
        exported_ids(mutants.drop_last()).push(mutants.len())
    } else {
        exported_ids(mutants.drop_last())
    }
}

proof fn lemma_exported_ids_bounds(s: Seq<(Mutant, bool)>)
    ensures
        forall|k: int|
            0 <= k < exported_ids(s).len() ==> 1 <= #[trigger] exported_ids(s)[k] <= s.len(),
        exported_ids(s).len() <= s.len(),
    decreases s.len(),
{
    if s.len() > 0 {
        lemma_exported_ids_bounds(s.drop_last());
    }
}

impl MutantWriter {
    /// A writer for output directory `outdir`.
    pub fn new(outdir: String) -> (r: MutantWriter)
        ensures
            r.outdir == outdir,
    {
        MutantWriter { outdir }
    }

    /// The file a mutant with id `mid` is exported to, under `mutants_dir`.
    pub fn get_mutant_filename(mutants_dir: &str, mid: usize, mutant: &Mutant) -> (r: String)
        ensures
            r@ == mutant_filename(mutants_dir@, mid as nat, *mutant),
    {
        let d = path_push_str(mutants_dir, decimal_text(mid).as_str());
        path_push_str(d.as_str(), mutant.vfs_path().as_str())
    }

    /// The diff from a mutant's original to its text.
    pub fn diff_mutant(mutant: &Mutant) -> (r: String)
        requires
            mutant.renders(),
        ensures
            r@ == unified_diff_of(mutant.source@, mutant_text(*mutant), "original"@, "mutant"@),
    {
        proof {
            reveal(mutant_text);
        }
        let orig = mutant.original_source();
        let text = mutant.mutant_source();
        unified_diff(orig.as_str(), text.as_str(), "original", "mutant")
    }

    /// What is written for mutant `m` with id `mid`: its file and text where
    /// it is exported, its log row and its results record.
    fn mutant_outputs(mutants_dir: &String, mid: usize, m: &Mutant, export: bool) -> (r: (
        Option<(String, String)>,
        Vec<String>,
        ResultRecord,
    ))
        requires
            writable(*m),
        ensures
            export ==> (r.0 matches Some(e) && e.0@ == mutant_filename(mutants_dir@, mid as nat, *m) && e.1@
                == mutant_text(*m)),
            !export ==> r.0 is None,
            row_view(r.1@) == log_row(
                mid as nat,
                *m,
                (m.mutant_loc.line_no + 1) as nat,
                (m.mutant_loc.col_no + 1) as nat,
            ),
            result_of(r.2, mid as nat, *m),
    {
        proof {
            reveal(mutant_text);
        }
        let e = if export {
            let f = MutantWriter::get_mutant_filename(mutants_dir.as_str(), mid, m);
            let t = m.mutant_source();
            Some((f, t))
        } else {
            None
        };
        let row = mutant_log_record(mid, m);
        let (line, col) = m.get_line_column();
        let rec = ResultRecord {
            name: MutantWriter::get_mutant_filename("mutants", mid, m),
            description: m.op.to_string(),
            op: m.op.short_name(),
            id: decimal_text(mid),
            diff: MutantWriter::diff_mutant(m),
            original: m.vfs_path(),
            orig: m.orig.clone(),
            repl: m.repl.clone(),
            line: line + 1,
            col: col + 1,
        };
        (e, row, rec)
    }

    /// What is written for `mutants` (each with whether to export it), with
    /// ids counted from one in order: the file and text of each exported
    /// mutant under `<outdir>/mutants`, a row of `<outdir>/mutants.log` and a
    /// record of `<outdir>/gambit_results.json` for every mutant.
    pub fn write_mutants(&self, mutants: &Vec<(Mutant, bool)>) -> (r: WritePlan)
        requires
            mutants@.len() < usize::MAX,
            forall|i: int| 0 <= i < mutants@.len() ==> writable(#[trigger] mutants@[i].0),
        ensures
            r.mutants_dir@ == path_push(self.outdir@, "mutants"@),
            r.log_path@ == path_push(self.outdir@, "mutants.log"@),
            r.results_path@ == path_push(self.outdir@, "gambit_results.json"@),
            r.exports@.len() == exported_ids(mutants@).len(),
            forall|k: int|
                #![trigger r.exports@[k]]
                0 <= k < r.exports@.len() ==> {
                    let mid = exported_ids(mutants@)[k];
                    &&& 1 <= mid <= mutants@.len()
                    &&& r.exports@[k].0@ == mutant_filename(r.mutants_dir@, mid, mutants@[mid - 1].0)
                    &&& r.exports@[k].1@ == mutant_text(mutants@[mid - 1].0)
                },
            r.log@.len() == mutants@.len(),
            r.results@.len() == mutants@.len(),
            forall|i: int|
                #![trigger r.log@[i]]
                0 <= i < mutants@.len() ==> row_view(r.log@[i]@) == log_row(
                    (i + 1) as nat,
                    mutants@[i].0,
                    (mutants@[i].0.mutant_loc.line_no + 1) as nat,
                    (mutants@[i].0.mutant_loc.col_no + 1) as nat,
                ),
            forall|i: int|
                #![trigger r.results@[i]]
                0 <= i < mutants@.len() ==> result_of(r.results@[i], (i + 1) as nat, mutants@[i].0),
    {
        let mutants_dir = path_push_str(self.outdir.as_str(), "mutants");
        let mut exports: Vec<(String, String)> = Vec::new();
        let mut log: Vec<Vec<String>> = Vec::new();
        let mut results: Vec<ResultRecord> = Vec::new();
        let mut i: usize = 0;
        while i < mutants.len()
            invariant
                i <= mutants@.len() < usize::MAX,
                forall|j: int| 0 <= j < mutants@.len() ==> writable(#[trigger] mutants@[j].0),
                mutants_dir@ == path_push(self.outdir@, "mutants"@),
                exports@.len() == exported_ids(mutants@.take(i as int)).len(),
                forall|k: int|
                    #![trigger exports@[k]]
                    0 <= k < exports@.len() ==> {
                        let mid = exported_ids(mutants@.take(i as int))[k];
                        &&& 1 <= mid <= i
                        &&& exports@[k].0@ == mutant_filename(mutants_dir@, mid, mutants@[mid - 1].0)
                        &&& exports@[k].1@ == mutant_text(mutants@[mid - 1].0)
                    },
                log@.len() == i,
                results@.len() == i,
                forall|j: int|
                    #![trigger log@[j]]
                    0 <= j < i ==> row_view(log@[j]@) == log_row(
                        (j + 1) as nat,
                        mutants@[j].0,
                        (mutants@[j].0.mutant_loc.line_no + 1) as nat,
                        (mutants@[j].0.mutant_loc.col_no + 1) as nat,
                    ),
                forall|j: int|
                    #![trigger results@[j]]
                    0 <= j < i ==> result_of(results@[j], (j + 1) as nat, mutants@[j].0),
            decreases mutants@.len() - i,
        {
            let mid = i + 1;
            let m = &mutants[i].0;
            assert(writable(mutants@[i as int].0));
            let ghost t = mutants@.take(i as int);
            let ghost t2 = mutants@.take(i + 1);
            proof {
                lemma_exported_ids_bounds(t2);
                assert(t2.drop_last() =~= t);
                assert(t2.last() == mutants@[i as int]);
                assert(exported_ids(t2) == if mutants@[i as int].1 {
                    exported_ids(t).push((i + 1) as nat)
                } else {
                    exported_ids(t)
                });
            }
            let ghost before = exports@;
            let (e, row, rec) = MutantWriter::mutant_outputs(&mutants_dir, mid, m, mutants[i].1);
            if let Some(x) = e {
                exports.push(x);
            }
            proof {
                assert forall|k: int|
                    #![trigger exports@[k]]
                    0 <= k < exports@.len() implies {
                        let mid = exported_ids(t2)[k];
                        &&& 1 <= mid <= i + 1
                        &&& exports@[k].0@ == mutant_filename(mutants_dir@, mid, mutants@[mid - 1].0)
                        &&& exports@[k].1@ == mutant_text(mutants@[mid - 1].0)
                    } by {
                    if k < before.len() {
                        assert(exports@[k] == before[k]);
                        assert(exported_ids(t2)[k] == exported_ids(t)[k]);
                    }
                }
            }
            log.push(row);
            results.push(rec);
            i = i + 1;
            assert(mutants@.take(i as int) == t2);
        }
        assert(mutants@.take(mutants@.len() as int) =~= mutants@);
        proof {
            lemma_exported_ids_bounds(mutants@);
        }
        WritePlan {
            mutants_dir,
            exports,
            log_path: path_push_str(self.outdir.as_str(), "mutants.log"),
            log,
            results_path: path_push_str(self.outdir.as_str(), "gambit_results.json"),
            results,
        }
    }
}

} // verus!
