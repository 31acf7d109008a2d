//! Summaries of a finished mutation run: reading the entries of its results,
//! choosing which to show, and counting mutants per operator.
use vstd::prelude::*;
use crate::cli::SummaryParams;
use crate::text::strs_equal;

verus! {

/// What is shown of one mutant.
#[derive(Debug)]
pub struct MutantSummaryEntry {
    /// The mutant's id
    pub mid: String,
    /// Where the mutant was exported to
    pub mutant_export_location: String,
    /// The mutant's diff against the original
    pub diff: String,
    /// The operator's long name
    pub op_long: String,
    /// The operator's short name
    pub op_short: String,
    /// The original text
    pub orig: String,
    /// The replacement text
    pub repl: String,
}

/// How the summary command works.
#[derive(Debug)]
pub enum SummaryMode {
    /// Print high level stats and exit
    PrintStatistics,
    /// Print the mutants with the given ids
    PrintSomeMids(Vec<String>),
    /// Print all mutants
    PrintAllMids,
}

/// A field of an entry of the results: its key, and its value where that is
/// a string.
pub type JsonField = (String, Option<String>);

/// The value of the first field named `key`, if there is one.
pub open spec fn field_value(fields: Seq<JsonField>, key: Seq<char>) -> Option<Option<String>>
    decreases fields.len(),
{
    if fields.len() == 0 {
        None
    } else if fields[0].0@ == key {
        Some(fields[0].1)
    } else {
        field_value(fields.drop_first(), key)
    }
}

/// Whether the field named `key` is there and holds a string.
pub open spec fn has_string_field(fields: Seq<JsonField>, key: Seq<char>) -> bool {
    field_value(fields, key) matches Some(Some(_))
}

/// The string held by the field named `key`.
pub open spec fn string_field(fields: Seq<JsonField>, key: Seq<char>) -> Seq<char> {
    field_value(fields, key).unwrap().unwrap()@
}

/// Whether an entry of the results has every field a summary reads.
pub open spec fn complete_entry(fields: Seq<JsonField>) -> bool {
    &&& has_string_field(fields, "id"@)
    &&& has_string_field(fields, "diff"@)
    &&& has_string_field(fields, "name"@)
    &&& has_string_field(fields, "description"@)
    &&& has_string_field(fields, "op"@)
    &&& has_string_field(fields, "orig"@)
    &&& has_string_field(fields, "repl"@)
}

/// Whether `e` holds the fields of an entry of the results.
pub open spec fn entry_of(e: MutantSummaryEntry, fields: Seq<JsonField>) -> bool {
    &&& e.mid@ == string_field(fields, "id"@)
    &&& e.diff@ == string_field(fields, "diff"@)
    &&& e.mutant_export_location@ == string_field(fields, "name"@)
    &&& e.op_long@ == string_field(fields, "description"@)
    &&& e.op_short@ == string_field(fields, "op"@)
    &&& e.orig@ == string_field(fields, "orig"@)
    &&& e.repl@ == string_field(fields, "repl"@)
}

/// The string held by the field named `key`.
fn get_field(fields: &Vec<JsonField>, key: &str) -> (r: String)
    requires
        has_string_field(fields@, key@),
    ensures
        r@ == string_field(fields@, key@),
{
    let mut i: usize = 0;
    assert(fields@.skip(0) =~= fields@);
    while i < fields.len()
        invariant
            i <= fields@.len(),
            field_value(fields@, key@) == field_value(fields@.skip(i as int), key@),
            has_string_field(fields@, key@),
        decreases fields@.len() - i,
    {
        assert(fields@.skip(i as int)[0] == fields@[i as int]);
        if strs_equal(fields[i].0.as_str(), key) {
            match &fields[i].1 {
                Some(v) => {
                    return v.clone();
                },
                None => {
                    assert(false);
                    return String::new();
                },
            }
        }
        assert(fields@.skip(i as int).drop_first() =~= fields@.skip(i + 1));
        i = i + 1;
    }
    assert(false);
    String::new()
}

/// The summary of entry `i` of the results: `None` where the entry is not an
/// object (`None` here), else the entry's `id`, `name`, `diff`,
/// `description`, `op`, `orig` and `repl`, which must be there as strings.
pub fn get_mutant_summary(i: usize, mutant_json: &Option<Vec<JsonField>>) -> (r: Option<MutantSummaryEntry>)
    requires
        match mutant_json {
            Some(fields) => complete_entry(fields@),
            None => true,
        },
    ensures
        match mutant_json {
            Some(fields) => r matches Some(e) && entry_of(e, fields@),
            None => r is None,
        },
{
    match mutant_json {
        Some(m) => {
            let mid = get_field(m, "id");
            let diff = get_field(m, "diff");
            let name = get_field(m, "name");
            let op_long = get_field(m, "description");
            let op_short = get_field(m, "op");
            let orig = get_field(m, "orig");
            let repl = get_field(m, "repl");
            Some(
                MutantSummaryEntry {
                    mid,
                    mutant_export_location: name,
                    diff,
                    op_long,
                    op_short,
                    orig,
                    repl,
                },
            )
        },
        None => None,
    }
}

/// The summary mode that parameters ask for: the given mutant ids, else all
/// mutants where asked, else statistics.
pub fn summary_mode(params: &SummaryParams) -> (r: SummaryMode)
    ensures
        match params.mids {
            Some(m) => r matches SummaryMode::PrintSomeMids(v) && v@ == m@,
            None => if params.print_all_mids {
                r is PrintAllMids
            } else {
                r is PrintStatistics
            },
        },
{
    match &params.mids {
        Some(m) => {
            let v = m.clone();
            assert(v@ =~= m@);
            SummaryMode::PrintSomeMids(v)
        },
        None => if params.print_all_mids {
            SummaryMode::PrintAllMids
        } else {
            SummaryMode::PrintStatistics
        },
    }
}

/// Whether an entry is shown for the asked ids (all entries where no ids are
/// asked).
pub open spec fn shown(e: MutantSummaryEntry, mids: Option<Seq<Seq<char>>>) -> bool {
    match mids {
        Some(m) => m.contains(e.mid@),
        None => true,
    }
}

/// The entries shown, in order: those that are objects and are asked for.
pub open spec fn shown_entries(entries: Seq<Option<MutantSummaryEntry>>, mids: Option<Seq<Seq<char>>>) -> Seq<
    MutantSummaryEntry,
>
    decreases entries.len(),
{
    if entries.len() == 0 {
        Seq::empty()
    } else {
        let prev = shown_entries(entries.drop_last(), mids);
        match entries.last() {
            Some(e) => if shown(e, mids) {
                prev.push(e)
            } else {
                prev
            },
            None => prev,
        }
    }
}

/// How many entries have operator `op`.
pub open spec fn op_count(entries: Seq<Option<MutantSummaryEntry>>, op: Seq<char>) -> nat
    decreases entries.len(),
{
    if entries.len() == 0 {
        0
    } else {
        op_count(entries.drop_last(), op) + match entries.last() {
            Some(e) => if e.op_short@ == op {
                1nat
            } else {
                0nat
            },
            None => 0nat,
        }
    }
}

/// The operators of the entries, each once, in order of first appearance.
pub open spec fn ops_seen(entries: Seq<Option<MutantSummaryEntry>>) -> Seq<Seq<char>>
    decreases entries.len(),
{
    if entries.len() == 0 {
        Seq::empty()
    } else {
        let prev = ops_seen(entries.drop_last());
        match entries.last() {
            Some(e) => if prev.contains(e.op_short@) {
                prev
            } else {
                prev.push(e.op_short@)
            },
            None => prev,
        }
    }
}

/// How many entries are objects.
pub open spec fn entry_count(entries: Seq<Option<MutantSummaryEntry>>) -> nat
    decreases entries.len(),
{
    if entries.len() == 0 {
        0
    } else {
        entry_count(entries.drop_last()) + if entries.last() is Some {
            1nat
        } else {
            0nat
        }
    }
}

/// What a summary shows.
#[derive(Debug)]
pub enum SummaryReport {
    /// Each operator with its number of mutants, in order of first
    /// appearance, and the total number of mutants
    Statistics(Vec<(String, usize)>, usize),
    /// The entries to print
    Entries(Vec<MutantSummaryEntry>),
}

/// Whether `stats` counts the mutants of each operator of `entries`, in order
/// of first appearance.
pub open spec fn counts_ops(stats: Seq<(String, usize)>, entries: Seq<Option<MutantSummaryEntry>>) -> bool {
    &&& stats.len() == ops_seen(entries).len()
    &&& forall|k: int|
        0 <= k < stats.len() ==> (#[trigger] stats[k]).0@ == ops_seen(entries)[k] && stats[k].1 == op_count(
            entries,
            ops_seen(entries)[k],
        )
}

/// A copy of an entry.
fn copy_entry(e: &MutantSummaryEntry) -> (r: MutantSummaryEntry)
    ensures
        r == *e,
{
    MutantSummaryEntry {
        mid: e.mid.clone(),
        mutant_export_location: e.mutant_export_location.clone(),
        diff: e.diff.clone(),
        op_long: e.op_long.clone(),
        op_short: e.op_short.clone(),
        orig: e.orig.clone(),
        repl: e.repl.clone(),
    }
}

/// Whether `mids` holds `x`.
fn holds(mids: &Vec<String>, x: &String) -> (r: bool)
    ensures
        r == mids@.map_values(|m: String| m@).contains(x@),
{
    let ghost v = mids@.map_values(|m: String| m@);
    let mut i: usize = 0;
    while i < mids.len()
        invariant
            i <= mids@.len(),
            v == mids@.map_values(|m: String| m@),
            forall|j: int| 0 <= j < i ==> v[j] != x@,
        decreases mids@.len() - i,
    {
        if strs_equal(mids[i].as_str(), x.as_str()) {
            assert(v[i as int] == x@);
            return true;
        }
        i = i + 1;
    }
    false
}

/// The entries shown for the asked ids (all where none are asked), in order.
pub fn select_entries(entries: &Vec<Option<MutantSummaryEntry>>, mids: &Option<Vec<String>>) -> (r: Vec<
    MutantSummaryEntry,
>)
    ensures
        r@ == shown_entries(
            entries@,
            match mids {
                Some(m) => Some(m@.map_values(|x: String| x@)),
                None => None,
            },
        ),
{
    let ghost ms = match mids {
        Some(m) => Some(m@.map_values(|x: String| x@)),
        None => None,
    };
    let mut r: Vec<MutantSummaryEntry> = Vec::new();
    let mut i: usize = 0;
    while i < entries.len()
        invariant
            i <= entries@.len(),
            ms == (match mids {
                Some(m) => Some(m@.map_values(|x: String| x@)),
                None => None::<Seq<Seq<char>>>,
            }),
            r@ == shown_entries(entries@.take(i as int), ms),
        decreases entries@.len() - i,
    {
        assert(entries@.take(i + 1).drop_last() =~= entries@.take(i as int));
        match &entries[i] {
            Some(e) => {
                let keep = match mids {
                    Some(m) => holds(m, &e.mid),
                    None => true,
                };
                if keep {
                    r.push(copy_entry(e));
                }
            },
            None => {},
        }
        i = i + 1;
    }
    assert(entries@.take(entries@.len() as int) =~= entries@);
    r
}

proof fn lemma_ops_seen_distinct(entries: Seq<Option<MutantSummaryEntry>>)
    ensures
        forall|a: int, b: int|
            0 <= a < b < ops_seen(entries).len() ==> ops_seen(entries)[a] != ops_seen(entries)[b],
    decreases entries.len(),
{
    if entries.len() > 0 {
        lemma_ops_seen_distinct(entries.drop_last());
        let prev = ops_seen(entries.drop_last());
        match entries.last() {
            Some(e) => {
                if !prev.contains(e.op_short@) {
                    assert forall|a: int, b: int|
                        0 <= a < b < ops_seen(entries).len() implies ops_seen(entries)[a] != ops_seen(
                        entries,
                    )[b] by {
                        if b == prev.len() {
                            if prev[a] == e.op_short@ {
                                assert(prev.contains(e.op_short@));
                            }
                        }
                    }
                }
            },
            None => {},
        }
    }
}

/// The position of operator `op` in `stats`, if it is there.
fn find_op(stats: &Vec<(String, usize)>, op: &String) -> (r: Option<usize>)
    ensures
        match r {
            Some(k) => k < stats@.len() && stats@[k as int].0@ == op@,
            None => forall|j: int| 0 <= j < stats@.len() ==> (#[trigger] stats@[j]).0@ != op@,
        },
{
    let mut k: usize = 0;
    while k < stats.len()
        invariant
            k <= stats@.len(),
            forall|j: int| 0 <= j < k ==> (#[trigger] stats@[j]).0@ != op@,
        decreases stats@.len() - k,
    {
        if strs_equal(stats[k].0.as_str(), op.as_str()) {
            return Some(k);
        }
        k = k + 1;
    }
    None
}

/// Each operator of the entries with its number of mutants, in order of
/// first appearance, and the number of entries that are objects.
pub fn op_statistics(entries: &Vec<Option<MutantSummaryEntry>>) -> (r: (Vec<(String, usize)>, usize))
    ensures
        counts_ops(r.0@, entries@),
        r.1 == entry_count(entries@),
{
    let mut stats: Vec<(String, usize)> = Vec::new();
    let mut total: usize = 0;
    let mut i: usize = 0;
    while i < entries.len()
        invariant
            i <= entries@.len(),
            counts_ops(stats@, entries@.take(i as int)),
            total == entry_count(entries@.take(i as int)),
            total <= i,
            forall|k: int| 0 <= k < stats@.len() ==> (#[trigger] stats@[k]).1 <= i,
        decreases entries@.len() - i,
    {
        let ghost t = entries@.take(i as int);
        let ghost t2 = entries@.take(i + 1);
        assert(t2.drop_last() =~= t);
        proof {
            lemma_ops_seen_distinct(t);
        }
        match &entries[i] {
            Some(e) => {
                let found = find_op(&stats, &e.op_short);
                if let Some(k) = found {
                    let c = stats[k].1;
                    let name = stats[k].0.clone();
                    let ghost before = stats@;
                    stats.set(k, (name, c + 1));
                    assert(ops_seen(t).contains(e.op_short@)) by {
                        assert(ops_seen(t)[k as int] == e.op_short@);
                    }
                    assert forall|j: int| 0 <= j < stats@.len() implies (#[trigger] stats@[j]).0@ == ops_seen(
                        t2,
                    )[j] && stats@[j].1 == op_count(t2, ops_seen(t2)[j]) by {
                        if j != k {
                            assert(before[j].0@ == ops_seen(t)[j]);
                            assert(ops_seen(t)[j] != ops_seen(t)[k as int]);
                        }
                    }
                } else {
                    let ghost before = stats@;
                    assert(!ops_seen(t).contains(e.op_short@)) by {
                        if ops_seen(t).contains(e.op_short@) {
                            let j = choose|j: int| 0 <= j < ops_seen(t).len() && ops_seen(t)[j] == e.op_short@;
                            assert(stats@[j].0@ == ops_seen(t)[j]);
                        }
                    }
                    stats.push((e.op_short.clone(), 1));
                    assert forall|j: int| 0 <= j < stats@.len() implies (#[trigger] stats@[j]).0@ == ops_seen(
                        t2,
                    )[j] && stats@[j].1 == op_count(t2, ops_seen(t2)[j]) by {
                        if j < before.len() {
                            assert(before[j].0@ == ops_seen(t)[j]);
                            assert(ops_seen(t)[j] != e.op_short@);
                        } else {
                            assert(op_count(t, e.op_short@) == 0) by {
                                lemma_count_unseen(t, e.op_short@);
                            }
                        }
                    }
                }
                total = total + 1;
            },
            None => {},
        }
        i = i + 1;
    }
    assert(entries@.take(entries@.len() as int) =~= entries@);
    (stats, total)
}

proof fn lemma_count_unseen(entries: Seq<Option<MutantSummaryEntry>>, op: Seq<char>)
    requires
        !ops_seen(entries).contains(op),
    ensures
        op_count(entries, op) == 0,
    decreases entries.len(),
{
    if entries.len() > 0 {
        let prev = ops_seen(entries.drop_last());
        assert(!prev.contains(op)) by {
            if prev.contains(op) {
                let j = choose|j: int| 0 <= j < prev.len() && prev[j] == op;
                assert(ops_seen(entries)[j] == op);
            }
        }
        lemma_count_unseen(entries.drop_last(), op);
        match entries.last() {
            Some(e) => {
                if e.op_short@ == op {
                    assert(prev.contains(op) || ops_seen(entries) == prev.push(op));
                    assert(ops_seen(entries)[prev.len() as int] == op);
                }
            },
            None => {},
        }
    }
}

/// What a summary of `entries` shows for `params`: the entries with the
/// asked ids, all entries where asked, else the statistics.
pub fn summarize(params: &SummaryParams, entries: &Vec<Option<MutantSummaryEntry>>) -> (r: SummaryReport)
    ensures
        match params.mids {
            Some(m) => r matches SummaryReport::Entries(v) && v@ == shown_entries(
                entries@,
                Some(m@.map_values(|x: String| x@)),
            ),
            None => if params.print_all_mids {
                r matches SummaryReport::Entries(v) && v@ == shown_entries(entries@, None)
            } else {
                r matches SummaryReport::Statistics(s, n) && counts_ops(s@, entries@) && n == entry_count(entries@)
            },
        },
{
    match summary_mode(params) {
        SummaryMode::PrintSomeMids(m) => {
            let v = select_entries(entries, &Some(m));
            SummaryReport::Entries(v)
        },
        SummaryMode::PrintAllMids => SummaryReport::Entries(select_entries(entries, &None)),
        SummaryMode::PrintStatistics => {
            let (s, n) = op_statistics(entries);
            SummaryReport::Statistics(s, n)
        },
    }
}

/// Runs the summary command on the entries of a run's results (see
/// [`summarize`]).
pub fn run_summary(params: SummaryParams, entries: &Vec<Option<MutantSummaryEntry>>) -> (r: SummaryReport)
    ensures
        match params.mids {
            Some(m) => r matches SummaryReport::Entries(v) && v@ == shown_entries(
                entries@,
                Some(m@.map_values(|x: String| x@)),
            ),
            None => if params.print_all_mids {
                r matches SummaryReport::Entries(v) && v@ == shown_entries(entries@, None)
            } else {
                r matches SummaryReport::Statistics(s, n) && counts_ops(s@, entries@) && n == entry_count(entries@)
            },
        },
{
    summarize(&params, entries)
}

} // verus!

verus! {

/// The sum of the counts of operators `ops` among `entries`.
pub open spec fn sum_counts(entries: Seq<Option<MutantSummaryEntry>>, ops: Seq<Seq<char>>) -> nat
    decreases ops.len(),
{
    if ops.len() == 0 {
        0
    } else {
        sum_counts(entries, ops.drop_last()) + op_count(entries, ops.last())
    }
}

/// How many times `o` occurs in `ops`.
pub open spec fn hits(ops: Seq<Seq<char>>, o: Seq<char>) -> nat
    decreases ops.len(),
{
    if ops.len() == 0 {
        0
    } else {
        hits(ops.drop_last(), o) + if ops.last() == o {
            1nat
        } else {
            0nat
        }
    }
}

proof fn lemma_hits_distinct(ops: Seq<Seq<char>>, o: Seq<char>)
    requires
        forall|a: int, b: int| 0 <= a < b < ops.len() ==> ops[a] != ops[b],
    ensures
        hits(ops, o) == if ops.contains(o) {
            1nat
        } else {
            0nat
        },
    decreases ops.len(),
{
    if ops.len() > 0 {
        let prev = ops.drop_last();
        lemma_hits_distinct(prev, o);
        if ops.last() == o {
            assert(ops.contains(o));
            if prev.contains(o) {
                let j = choose|j: int| 0 <= j < prev.len() && prev[j] == o;
                assert(ops[j] == ops[ops.len() - 1]);
            }
        } else {
            if ops.contains(o) {
                let j = choose|j: int| 0 <= j < ops.len() && ops[j] == o;
                assert(prev[j] == o);
            }
            if prev.contains(o) {
                let j = choose|j: int| 0 <= j < prev.len() && prev[j] == o;
                assert(ops[j] == o);
            }
        }
    }
}

proof fn lemma_sum_step(entries: Seq<Option<MutantSummaryEntry>>, x: Option<MutantSummaryEntry>, ops: Seq<Seq<char>>)
    ensures
        sum_counts(entries.push(x), ops) == sum_counts(entries, ops) + match x {
            Some(e) => hits(ops, e.op_short@),
            None => 0nat,
        },
    decreases ops.len(),
{
    assert(entries.push(x).drop_last() =~= entries);
    if ops.len() > 0 {
        lemma_sum_step(entries, x, ops.drop_last());
    }
}

/// The statistics of a summary add up: the counts of all operators seen sum
/// to the number of mutants.
pub proof fn law_statistics_total(entries: Seq<Option<MutantSummaryEntry>>)
    ensures
        sum_counts(entries, ops_seen(entries)) == entry_count(entries),
    decreases entries.len(),
{
    if entries.len() > 0 {
        let prev = entries.drop_last();
        let x = entries.last();
        law_statistics_total(prev);
        assert(prev.push(x) =~= entries);
        lemma_ops_seen_distinct(prev);
        let ops = ops_seen(prev);
        lemma_sum_step(prev, x, ops);
        match x {
            Some(e) => {
                lemma_hits_distinct(ops, e.op_short@);
                if !ops.contains(e.op_short@) {
                    lemma_count_unseen(prev, e.op_short@);
                    assert(ops_seen(entries) == ops.push(e.op_short@));
                    assert(ops.push(e.op_short@).drop_last() =~= ops);
                    assert(entries.drop_last() =~= prev);
                }
            },
            None => {},
        }
    }
}

} // verus!
