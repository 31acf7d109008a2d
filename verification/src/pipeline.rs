//! The decisions of a mutation run over several parameter records: which
//! records share an output directory, whether that directory may be
//! overwritten, and how each record's mutants are sampled and validated.
use vstd::prelude::*;
use crate::cli::MutateParams;
use crate::paths::{default_gambit_output_directory, default_outdir_name};
use crate::text::strs_equal;

verus! {

/// The output directory a record writes to: its own, else the default.
pub open spec fn outdir_key(p: MutateParams) -> Seq<char> {
    match p.outdir {
        Some(o) => o@,
        None => default_outdir_name(),
    }
}

/// The output directories of records, each once, in order of first
/// appearance.
pub open spec fn outdirs_seen(ps: Seq<MutateParams>) -> Seq<Seq<char>>
    decreases ps.len(),
{
    if ps.len() == 0 {
        Seq::empty()
    } else {
        let prev = outdirs_seen(ps.drop_last());
        if prev.contains(outdir_key(ps.last())) {
            prev
        } else {
            prev.push(outdir_key(ps.last()))
        }
    }
}

/// The groups of records by output directory: the directories in order of
/// first appearance, and for each record the position of its directory.
pub struct OutdirGroups {
    pub outdirs: Vec<String>,
    pub group_of: Vec<usize>,
}

/// Whether `g` groups `ps` by output directory.
pub open spec fn groups_records(g: OutdirGroups, ps: Seq<MutateParams>) -> bool {
    &&& g.outdirs@.map_values(|s: String| s@) == outdirs_seen(ps)
    &&& g.group_of@.len() == ps.len()
    &&& forall|i: int|
        0 <= i < ps.len() ==> (#[trigger] g.group_of@[i]) < g.outdirs@.len() && g.outdirs@[g.group_of@[i] as int]@
            == outdir_key(ps[i])
}

proof fn lemma_outdirs_distinct(ps: Seq<MutateParams>)
    ensures
        forall|a: int, b: int|
            0 <= a < b < outdirs_seen(ps).len() ==> outdirs_seen(ps)[a] != outdirs_seen(ps)[b],
        outdirs_seen(ps).len() <= ps.len(),
    decreases ps.len(),
{
    if ps.len() > 0 {
        lemma_outdirs_distinct(ps.drop_last());
        let prev = outdirs_seen(ps.drop_last());
        let k = outdir_key(ps.last());
        if !prev.contains(k) {
            assert forall|a: int, b: int|
                0 <= a < b < outdirs_seen(ps).len() implies outdirs_seen(ps)[a] != outdirs_seen(ps)[b] by {
                if b == prev.len() && prev[a] == k {
                    assert(prev.contains(k));
                }
            }
        }
    }
}

/// The output directory of a record.
fn outdir_of(p: &MutateParams) -> (r: String)
    ensures
        r@ == outdir_key(*p),
{
    match &p.outdir {
        Some(o) => o.clone(),
        None => default_gambit_output_directory(),
    }
}

/// The position of `x` in `v`, if it is there.
fn position_of(v: &Vec<String>, x: &String) -> (r: Option<usize>)
    ensures
        match r {
            Some(k) => k < v@.len() && v@[k as int]@ == x@,
            None => forall|j: int| 0 <= j < v@.len() ==> (#[trigger] v@[j])@ != x@,
        },
{
    let mut k: usize = 0;
    while k < v.len()
        invariant
            k <= v@.len(),
            forall|j: int| 0 <= j < k ==> (#[trigger] v@[j])@ != x@,
        decreases v@.len() - k,
    {
        if strs_equal(v[k].as_str(), x.as_str()) {
            return Some(k);
        }
        k = k + 1;
    }
    None
}

/// Groups records by output directory (the default one where none is
/// given), directories in order of first appearance. Records that share a
/// directory are run together and number their mutants together.
pub fn outdir_groups(params: &Vec<MutateParams>) -> (r: OutdirGroups)
    ensures
        groups_records(r, params@),
{
    let mut outdirs: Vec<String> = Vec::new();
    let mut group_of: Vec<usize> = Vec::new();
    let mut i: usize = 0;
    while i < params.len()
        invariant
            i <= params@.len(),
            outdirs@.map_values(|s: String| s@) == outdirs_seen(params@.take(i as int)),
            group_of@.len() == i,
            forall|j: int|
                0 <= j < i ==> (#[trigger] group_of@[j]) < outdirs@.len() && outdirs@[group_of@[j] as int]@
                    == outdir_key(params@[j]),
        decreases params@.len() - i,
    {
        let ghost t = params@.take(i as int);
        let ghost t2 = params@.take(i + 1);
        proof {
            assert(t2.drop_last() =~= t);
            assert(t2.last() == params@[i as int]);
            lemma_outdirs_distinct(t);
        }
        let key = outdir_of(&params[i]);
        let ghost seen = outdirs@.map_values(|s: String| s@);
        match position_of(&outdirs, &key) {
            Some(k) => {
                assert(seen[k as int] == key@);
                assert(seen.contains(key@));
                group_of.push(k);
            },
            None => {
                assert(!seen.contains(key@)) by {
                    if seen.contains(key@) {
                        let j = choose|j: int| 0 <= j < seen.len() && seen[j] == key@;
                        assert(outdirs@[j]@ == key@);
                    }
                }
                let k = outdirs.len();
                outdirs.push(key);
                assert(outdirs@.map_values(|s: String| s@) =~= seen.push(key@));
                group_of.push(k);
            },
        }
        i = i + 1;
    }
    assert(params@.take(params@.len() as int) =~= params@);
    OutdirGroups { outdirs, group_of }
}

/// The positions of the records in group `g`, in order.
pub fn group_members(group_of: &Vec<usize>, g: usize) -> (r: Vec<usize>)
    ensures
        forall|k: int| 0 <= k < r@.len() ==> (#[trigger] r@[k]) < group_of@.len() && group_of@[r@[k] as int] == g,
        forall|i: int| 0 <= i < group_of@.len() && group_of@[i] == g ==> r@.contains(i as usize),
        forall|a: int, b: int| 0 <= a < b < r@.len() ==> r@[a] < r@[b],
{
    let mut r: Vec<usize> = Vec::new();
    let mut i: usize = 0;
    while i < group_of.len()
        invariant
            i <= group_of@.len(),
            forall|k: int| 0 <= k < r@.len() ==> (#[trigger] r@[k]) < i && group_of@[r@[k] as int] == g,
            forall|j: int| 0 <= j < i && group_of@[j] == g ==> r@.contains(j as usize),
            forall|a: int, b: int| 0 <= a < b < r@.len() ==> r@[a] < r@[b],
        decreases group_of@.len() - i,
    {
        if group_of[i] == g {
            let ghost before = r@;
            r.push(i);
            assert forall|j: int| 0 <= j < i + 1 && group_of@[j] == g implies r@.contains(j as usize) by {
                if j < i {
                    let k = choose|k: int| 0 <= k < before.len() && before[k] == j as usize;
                    assert(r@[k] == j as usize);
                } else {
                    assert(r@[before.len() as int] == i);
                }
            }
        }
        i = i + 1;
    }
    r
}

/// Whether some record in group `g` asks not to overwrite its output
/// directory: then none of the group's records overwrites it.
pub fn group_no_overwrite(params: &Vec<MutateParams>, group_of: &Vec<usize>, g: usize) -> (r: bool)
    requires
        group_of@.len() == params@.len(),
    ensures
        r == exists|i: int| 0 <= i < params@.len() && group_of@[i] == g && (#[trigger] params@[i]).no_overwrite,
{
    let mut i: usize = 0;
    while i < params.len()
        invariant
            i <= params@.len(),
            group_of@.len() == params@.len(),
            forall|j: int| 0 <= j < i && group_of@[j] == g ==> !(#[trigger] params@[j]).no_overwrite,
        decreases params@.len() - i,
    {
        if group_of[i] == g && params[i].no_overwrite {
            assert(params@[i as int].no_overwrite);
            return true;
        }
        i = i + 1;
    }
    false
}

/// What is done with a group's output directory before its records run.
#[derive(Debug, Clone, Copy, PartialEq, Eq, Structural)]
pub enum OutdirAction {
    /// The directory does not exist yet: create it
    Create,
    /// The directory exists and may be overwritten: remove it, then create it
    RemoveThenCreate,
    /// The directory exists and must not be overwritten: warn and skip the
    /// group
    Skip,
}

/// What is done with a group's output directory, given whether the group
/// refuses overwriting and whether the directory exists: a missing directory
/// is created; an existing one is removed and created anew unless
/// overwriting is refused, in which case the group is skipped.
pub fn outdir_action(no_overwrite: bool, exists: bool) -> (r: OutdirAction)
    ensures
        r == (if !exists {
            OutdirAction::Create
        } else if no_overwrite {
            OutdirAction::Skip
        } else {
            OutdirAction::RemoveThenCreate
        }),
{
    if !exists {
        OutdirAction::Create
    } else if no_overwrite {
        OutdirAction::Skip
    } else {
        OutdirAction::RemoveThenCreate
    }
}

/// How a record's mutants are narrowed down.
#[derive(Debug, Clone, Copy, PartialEq, Eq, Structural)]
pub enum ValidationPlan {
    /// Draw this many mutants at random, with this seed (none: from entropy),
    /// validating the drawn ones where asked
    Sample { seed: Option<u64>, validate: bool, num_mutants: usize },
    /// Keep every mutant, unvalidated
    KeepAll,
    /// Validate every mutant
    ValidateAll,
}

/// How a record's mutants are narrowed down: sampled where a number of
/// mutants is asked (with its seed unless a random seed is asked,
/// validating unless validation is skipped), else kept as they are where
/// validation is skipped, else validated.
pub fn validation_plan(params: &MutateParams) -> (r: ValidationPlan)
    ensures
        r == (match params.num_mutants {
            Some(n) => ValidationPlan::Sample {
                seed: if params.random_seed {
                    None
                } else {
                    Some(params.seed)
                },
                validate: !params.skip_validate,
                num_mutants: n,
            },
            None => if params.skip_validate {
                ValidationPlan::KeepAll
            } else {
                ValidationPlan::ValidateAll
            },
        }),
{
    match params.num_mutants {
        Some(n) => {
            let seed = if params.random_seed {
                None
            } else {
                Some(params.seed)
            };
            ValidationPlan::Sample { seed, validate: !params.skip_validate, num_mutants: n }
        },
        None => if params.skip_validate {
            ValidationPlan::KeepAll
        } else {
            ValidationPlan::ValidateAll
        },
    }
}

/// The positions of the valid and of the invalid mutants, each in order.
pub open spec fn positions_where(valid: Seq<bool>, want: bool) -> Seq<usize>
    decreases valid.len(),
{
    if valid.len() == 0 {
        Seq::empty()
    } else if valid.last() == want {
        positions_where(valid.drop_last(), want).push((valid.len() - 1) as usize)
    } else {
        positions_where(valid.drop_last(), want)
    }
}

/// Splits mutants by the outcome of their validation: the positions of the
/// valid ones and of the invalid ones, each in order.
pub fn split_by_validity(valid: &Vec<bool>) -> (r: (Vec<usize>, Vec<usize>))
    ensures
        r.0@ == positions_where(valid@, true),
        r.1@ == positions_where(valid@, false),
{
    let mut good: Vec<usize> = Vec::new();
    let mut bad: Vec<usize> = Vec::new();
    let mut i: usize = 0;
    while i < valid.len()
        invariant
            i <= valid@.len(),
            good@ == positions_where(valid@.take(i as int), true),
            bad@ == positions_where(valid@.take(i as int), false),
        decreases valid@.len() - i,
    {
        assert(valid@.take(i + 1).drop_last() =~= valid@.take(i as int));
        if valid[i] {
            good.push(i);
        } else {
            bad.push(i);
        }
        i = i + 1;
    }
    assert(valid@.take(valid@.len() as int) =~= valid@);
    (good, bad)
}

} // verus!

verus! {

/// Validation splits mutants in two: a mutant's position is among the valid
/// ones exactly when it was found valid, among the invalid ones exactly when
/// it was not, and both lists are in increasing order.
pub proof fn law_validity_split(valid: Seq<bool>)
    requires
        valid.len() <= usize::MAX,
    ensures
        forall|i: int|
            0 <= i < valid.len() ==> (positions_where(valid, true).contains(i as usize) <==> valid[i]),
        forall|i: int|
            0 <= i < valid.len() ==> (positions_where(valid, false).contains(i as usize) <==> !valid[i]),
        positions_where(valid, true).len() + positions_where(valid, false).len() == valid.len(),
        forall|a: int, b: int|
            0 <= a < b < positions_where(valid, true).len() ==> positions_where(valid, true)[a]
                < positions_where(valid, true)[b],
        forall|a: int, b: int|
            0 <= a < b < positions_where(valid, false).len() ==> positions_where(valid, false)[a]
                < positions_where(valid, false)[b],
    decreases valid.len(),
{
    lemma_positions(valid, true);
    lemma_positions(valid, false);
    lemma_positions_count(valid);
}

proof fn lemma_positions_count(valid: Seq<bool>)
    ensures
        positions_where(valid, true).len() + positions_where(valid, false).len() == valid.len(),
    decreases valid.len(),
{
    if valid.len() > 0 {
        lemma_positions_count(valid.drop_last());
    }
}

proof fn lemma_positions(valid: Seq<bool>, want: bool)
    requires
        valid.len() <= usize::MAX,
    ensures
        forall|i: int|
            0 <= i < valid.len() ==> (positions_where(valid, want).contains(i as usize) <==> valid[i] == want),
        forall|k: int|
            0 <= k < positions_where(valid, want).len() ==> (#[trigger] positions_where(valid, want)[k]) < valid.len(),
        forall|a: int, b: int|
            0 <= a < b < positions_where(valid, want).len() ==> positions_where(valid, want)[a] < positions_where(
                valid,
                want,
            )[b],
    decreases valid.len(),
{
    if valid.len() > 0 {
        let prev = valid.drop_last();
        lemma_positions(prev, want);
        let p = positions_where(prev, want);
        let q = positions_where(valid, want);
        let n = valid.len() - 1;
        if valid.last() == want {
            assert(q == p.push(n as usize));
        } else {
            assert(q == p);
        }
        assert forall|a: int, b: int| 0 <= a < b < q.len() implies q[a] < q[b] by {
            if b < p.len() {
                assert(q[a] == p[a]);
                assert(q[b] == p[b]);
                assert(p[a] < p[b]);
            } else {
                assert(q[a] == p[a]);
                assert(p[a] < prev.len());
                assert(q[b] == n as usize);
            }
        }
        assert forall|i: int| 0 <= i < valid.len() implies (q.contains(i as usize) <==> valid[i] == want) by {
            if i < n {
                assert(prev[i] == valid[i]);
                if q.contains(i as usize) {
                    let k = choose|k: int| 0 <= k < q.len() && q[k] == i as usize;
                    if k < p.len() {
                        assert(p[k] == i as usize);
                        assert(p.contains(i as usize));
                    } else {
                        assert(q[k] == n as usize);
                    }
                }
                if p.contains(i as usize) {
                    let k = choose|k: int| 0 <= k < p.len() && p[k] == i as usize;
                    assert(q[k] == i as usize);
                }
            } else {
                if q.contains(i as usize) {
                    let k = choose|k: int| 0 <= k < q.len() && q[k] == i as usize;
                    if k < p.len() {
                        assert(p[k] < prev.len());
                        assert(q[k] == p[k]);
                    }
                }
                if valid[i] == want {
                    assert(q[p.len() as int] == n as usize);
                }
            }
        }
    }
}

} // verus!
