//! Random down-sampling of mutants.
use vstd::prelude::*;
use rand::rngs::OsRng;
use rand::{Rng, SeedableRng};
use rand_chacha::ChaCha8Rng;

verus! {

/// The generator that down-sampling draws from.
#[verifier::external_type_specification]
#[verifier::external_body]
pub struct ExChaCha8Rng(ChaCha8Rng);

/// A generator seeded with `seed` (`ChaCha8Rng::seed_from_u64`).
#[verifier::external_body]
fn rng_from_seed(seed: u64) -> ChaCha8Rng {
    ChaCha8Rng::seed_from_u64(seed)
}

/// The error that the operating system's random source reports.
#[verifier::external_type_specification]
#[verifier::external_body]
pub struct ExRandError(rand::Error);

/// A generator seeded from the operating system's random source
/// (`ChaCha8Rng::from_rng(OsRng)`), or the error that the source reported.
/// Nothing is claimed of which comes back: that depends on the machine.
#[verifier::external_body]
fn rng_from_entropy() -> Result<ChaCha8Rng, rand::Error> {
    ChaCha8Rng::from_rng(OsRng)
}

/// Why a down-sampling could not start.
#[derive(Debug)]
pub enum SamplingError {
    /// No seed was given and the operating system's random source failed,
    /// with the error it reported.
    EntropyUnavailable(rand::Error),
}

/// A random index below `n` (`Rng::gen_range` on `0..n`, which panics on an
/// empty range). The contract claims only that the index is below `n`: which
/// index comes out depends on the generator's state.
#[verifier::external_body]
fn rng_index(rng: &mut ChaCha8Rng, n: usize) -> (r: usize)
    requires
        n > 0,
    ensures
        r < n,
{
    rng.gen_range(0..n)
}

/// Whether the elements of `s` are pairwise distinct.
pub open spec fn all_distinct(s: Seq<usize>) -> bool {
    forall|i: int, j: int| 0 <= i < j < s.len() ==> s[i] != s[j]
}

/// Whether `s` is strictly increasing.
pub open spec fn strictly_sorted(s: Seq<usize>) -> bool {
    forall|i: int, j: int| 0 <= i < j < s.len() ==> s[i] < s[j]
}

/// Whether `s` and `t` hold the same elements.
pub open spec fn same_elements(s: Seq<usize>, t: Seq<usize>) -> bool {
    forall|x: usize| s.contains(x) <==> t.contains(x)
}

/// Randomly down-samples mutants, optionally validating them.
pub struct RandomDownSampleFilter {
    /// The seed, or `None` for a seed taken from the operating system.
    pub seed: Option<u64>,
    /// Should filtered mutants be validated with an external compiler run?
    /// This is more expensive but disabling this option may produce invalid
    /// mutants.
    pub validate: bool,
}

/// A down-sampling in progress: the indices not drawn yet, the drawn ones
/// found valid and invalid (in the order drawn), and the one drawn and not
/// yet judged.
pub struct DownSampling {
    /// The number of mutants sampled from.
    pub total: usize,
    /// The number of valid mutants wanted.
    pub target: usize,
    /// Indices not drawn yet.
    pub remaining: Vec<usize>,
    /// Drawn indices found valid, in the order drawn.
    pub sampled: Vec<usize>,
    /// Drawn indices found invalid, in the order drawn.
    pub invalid: Vec<usize>,
    /// The index drawn and not yet judged.
    pub pending: Option<usize>,
    /// The generator.
    pub rng: ChaCha8Rng,
}

impl DownSampling {
    /// All indices, each in one place.
    pub open spec fn all(&self) -> Seq<usize> {
        self.remaining@ + self.sampled@ + self.invalid@ + match self.pending {
            Some(p) => seq![p],
            None => Seq::empty(),
        }
    }

    /// The indices drawn and judged or pending.
    pub open spec fn drawn(&self) -> Seq<usize> {
        self.sampled@ + self.invalid@ + match self.pending {
            Some(p) => seq![p],
            None => Seq::empty(),
        }
    }

    /// Every index below `total` is in exactly one place, and no more valid
    /// mutants were kept than wanted.
    pub open spec fn wf(&self) -> bool {
        &&& self.all().len() == self.total
        &&& all_distinct(self.all())
        &&& forall|i: int| 0 <= i < self.all().len() ==> #[trigger] self.all()[i] < self.total
        &&& self.sampled@.len() <= self.target
    }

    /// Whether drawing has ended: enough valid mutants, or none left.
    pub open spec fn done(&self) -> bool {
        self.remaining@.len() == 0 || self.sampled@.len() >= self.target
    }

    /// Draws the next index to judge: a random one of those not drawn yet,
    /// unless enough valid mutants were found or none are left.
    pub fn next_candidate(&mut self) -> (r: Option<usize>)
        requires
            old(self).wf(),
            old(self).pending is None,
        ensures
            final(self).wf(),
            final(self).total == old(self).total,
            final(self).target == old(self).target,
            final(self).sampled@ == old(self).sampled@,
            final(self).invalid@ == old(self).invalid@,
            final(self).pending == r,
            r is None <==> old(self).done(),
            r is None ==> final(self).remaining@ == old(self).remaining@,
            r matches Some(x) ==> exists|k: int|
                0 <= k < old(self).remaining@.len() && old(self).remaining@[k] == x
                    && final(self).remaining@ == old(self).remaining@.remove(k),
    {
        if self.remaining.len() == 0 || self.sampled.len() >= self.target {
            return None;
        }
        let n = self.remaining.len();
        let k = rng_index(&mut self.rng, n);
        let ghost before = self.remaining@;
        let x = self.remaining.remove(k);
        self.pending = Some(x);
        proof {
            let old_all = before + self.sampled@ + self.invalid@;
            let new_all = self.all();
            assert(new_all =~= before.remove(k as int) + self.sampled@ + self.invalid@ + seq![x]);
            assert forall|a: int, b: int| 0 <= a < b < new_all.len() implies new_all[a] != new_all[b] by {
                let m = before.len() - 1;
                let pos = |t: int| if t < m {
                    if t < k { t } else { t + 1 }
                } else if t < new_all.len() - 1 {
                    t + 1
                } else {
                    k as int
                };
                assert(new_all[a] == old_all[pos(a)]);
                assert(new_all[b] == old_all[pos(b)]);
            }
            assert forall|a: int| 0 <= a < new_all.len() implies #[trigger] new_all[a] < self.total by {
                let m = before.len() - 1;
                let pos = if a < m {
                    if a < k { a } else { a + 1 }
                } else if a < new_all.len() - 1 {
                    a + 1
                } else {
                    k as int
                };
                assert(new_all[a] == old_all[pos]);
            }
        }
        Some(x)
    }

    /// Records the judgement of the pending index: kept as valid, or put
    /// with the invalid ones.
    pub fn record(&mut self, valid: bool)
        requires
            old(self).wf(),
            old(self).pending is Some,
            old(self).sampled@.len() < old(self).target,
        ensures
            final(self).wf(),
            final(self).total == old(self).total,
            final(self).target == old(self).target,
            final(self).remaining@ == old(self).remaining@,
            final(self).pending is None,
            valid ==> final(self).sampled@ == old(self).sampled@.push(old(self).pending->0)
                && final(self).invalid@ == old(self).invalid@,
            !valid ==> final(self).invalid@ == old(self).invalid@.push(old(self).pending->0)
                && final(self).sampled@ == old(self).sampled@,
    {
        let x = self.pending.unwrap();
        let ghost old_all = self.all();
        let ghost r = self.remaining@;
        let ghost s = self.sampled@;
        let ghost v = self.invalid@;
        if valid {
            self.sampled.push(x);
        } else {
            self.invalid.push(x);
        }
        self.pending = None;
        proof {
            let new_all = self.all();
            let pos = |t: int|
                if valid {
                    if t < r.len() + s.len() {
                        t
                    } else if t == r.len() + s.len() {
                        (r.len() + s.len() + v.len()) as int
                    } else {
                        t - 1
                    }
                } else {
                    t
                };
            assert(new_all.len() == old_all.len());
            assert forall|a: int| 0 <= a < new_all.len() implies #[trigger] new_all[a] == old_all[pos(a)] by {
            }
            assert forall|a: int, b: int| 0 <= a < b < new_all.len() implies new_all[a] != new_all[b] by {
                assert(new_all[a] == old_all[pos(a)]);
                assert(new_all[b] == old_all[pos(b)]);
            }
            assert forall|a: int| 0 <= a < new_all.len() implies #[trigger] new_all[a] < self.total by {
                assert(new_all[a] == old_all[pos(a)]);
            }
        }
    }

    /// The valid indices in increasing order, and the invalid ones in the
    /// order drawn.
    pub fn finish(self) -> (r: (Vec<usize>, Vec<usize>))
        requires
            self.wf(),
            self.pending is None,
        ensures
            strictly_sorted(r.0@),
            r.0@.len() == self.sampled@.len(),
            same_elements(r.0@, self.sampled@),
            r.1@ == self.invalid@,
    {
        proof {
            lemma_distinct_middle(self.remaining@, self.sampled@, self.invalid@);
        }
        (sorted_copy(&self.sampled), self.invalid)
    }
}

/// The middle part of a sequence of distinct elements is distinct.
pub proof fn lemma_distinct_middle(a: Seq<usize>, b: Seq<usize>, c: Seq<usize>)
    requires
        all_distinct(a + b + c + Seq::<usize>::empty()),
    ensures
        all_distinct(b),
{
    let all = a + b + c + Seq::<usize>::empty();
    assert forall|i: int, j: int| 0 <= i < j < b.len() implies b[i] != b[j] by {
        assert(b[i] == all[a.len() + i]);
        assert(b[j] == all[a.len() + j]);
    }
}

/// Inserts `x` into the strictly increasing `v`, keeping it so.
fn sorted_insert(v: &mut Vec<usize>, x: usize)
    requires
        strictly_sorted(old(v)@),
        !old(v)@.contains(x),
    ensures
        strictly_sorted(final(v)@),
        final(v)@.len() == old(v)@.len() + 1,
        forall|y: usize| final(v)@.contains(y) <==> (old(v)@.contains(y) || y == x),
{
    let mut p: usize = 0;
    while p < v.len() && v[p] < x
        invariant
            p <= v@.len(),
            forall|j: int| 0 <= j < p ==> v@[j] < x,
        decreases v@.len() - p,
    {
        p = p + 1;
    }
    let ghost before = v@;
    proof {
        if p < before.len() {
            assert(before[p as int] != x);
            assert(before[p as int] > x);
        }
    }
    v.insert(p, x);
    proof {
        let after = v@;
        assert(after =~= before.insert(p as int, x));
        assert forall|i: int, j: int| 0 <= i < j < after.len() implies after[i] < after[j] by {
            if j < p {
            } else if j == p {
            } else if i < p {
                assert(before[i] < x);
                assert(before[p as int] > x);
                assert(after[j] == before[j - 1]);
                assert(before[p as int] <= before[j - 1]);
            } else if i == p {
                assert(after[j] == before[j - 1]);
                assert(before[p as int] <= before[j - 1]);
            } else {
                assert(after[i] == before[i - 1]);
                assert(after[j] == before[j - 1]);
            }
        }
        assert forall|y: usize| after.contains(y) <==> (before.contains(y) || y == x) by {
            if after.contains(y) {
                let k = choose|k: int| 0 <= k < after.len() && after[k] == y;
                if k < p {
                    assert(before[k] == y);
                } else if k > p {
                    assert(before[k - 1] == y);
                }
            }
            if before.contains(y) {
                let k = choose|k: int| 0 <= k < before.len() && before[k] == y;
                if k < p {
                    assert(after[k] == y);
                } else {
                    assert(after[k + 1] == y);
                }
            }
            if y == x {
                assert(after[p as int] == x);
            }
        }
    }
}

/// The elements of `s`, which are distinct, in increasing order.
fn sorted_copy(s: &Vec<usize>) -> (r: Vec<usize>)
    requires
        all_distinct(s@),
    ensures
        strictly_sorted(r@),
        r@.len() == s@.len(),
        same_elements(r@, s@),
{
    let mut r: Vec<usize> = Vec::new();
    let mut i: usize = 0;
    while i < s.len()
        invariant
            i <= s@.len(),
            all_distinct(s@),
            strictly_sorted(r@),
            r@.len() == i,
            forall|y: usize| r@.contains(y) <==> s@.take(i as int).contains(y),
        decreases s@.len() - i,
    {
        proof {
            if r@.contains(s@[i as int]) {
                let k = choose|k: int| 0 <= k < i && s@.take(i as int)[k] == s@[i as int];
                assert(s@[k] == s@[i as int]);
            }
        }
        sorted_insert(&mut r, s[i]);
        proof {
            assert forall|y: usize| r@.contains(y) <==> s@.take(i + 1).contains(y) by {
                let t = s@.take(i + 1);
                if s@.take(i as int).contains(y) {
                    let k = choose|k: int| 0 <= k < i && s@.take(i as int)[k] == y;
                    assert(t[k] == y);
                }
                if t.contains(y) {
                    let k = choose|k: int| 0 <= k < i + 1 && t[k] == y;
                    if k < i {
                        assert(s@.take(i as int)[k] == y);
                    }
                }
                assert(t[i as int] == s@[i as int]);
            }
        }
        i = i + 1;
    }
    assert(s@.take(s@.len() as int) == s@);
    r
}

/// The indices `0..n`, in order.
fn indices(n: usize) -> (r: Vec<usize>)
    ensures
        r@.len() == n,
        forall|i: int| 0 <= i < n ==> #[trigger] r@[i] == i,
{
    let mut r: Vec<usize> = Vec::new();
    let mut i: usize = 0;
    while i < n
        invariant
            i <= n,
            r@.len() == i,
            forall|j: int| 0 <= j < i ==> #[trigger] r@[j] == j,
        decreases n - i,
    {
        r.push(i);
        i = i + 1;
    }
    r
}

impl RandomDownSampleFilter {
    /// A filter with the given seed that validates or not.
    pub fn new(seed: Option<u64>, validate: bool) -> (r: Self)
        ensures
            r.seed == seed,
            r.validate == validate,
    {
        RandomDownSampleFilter { seed, validate }
    }

    /// Whether drawn mutants are validated.
    pub fn validate(&self) -> (r: bool)
        ensures
            r == self.validate,
    {
        self.validate
    }

    /// Starts down-sampling `n` mutants to `num_mutants` valid ones, with a
    /// generator seeded from `seed`, or from the operating system's random
    /// source where no seed is given. With a seed it always starts; without
    /// one it fails exactly when that source fails.
    pub fn start(&self, n: usize, num_mutants: usize) -> (r: Result<DownSampling, SamplingError>)
        ensures
            self.seed is Some ==> r is Ok,
            r matches Ok(s) ==> {
                &&& s.wf()
                &&& s.total == n
                &&& s.target == num_mutants
                &&& s.remaining@.len() == n
                &&& forall|i: int| 0 <= i < n ==> #[trigger] s.remaining@[i] == i
                &&& s.sampled@.len() == 0
                &&& s.invalid@.len() == 0
                &&& s.pending is None
            },
    {
        let rng = match self.seed {
            None => match rng_from_entropy() {
                Ok(g) => g,
                Err(e) => return Err(SamplingError::EntropyUnavailable(e)),
            },
            Some(seed) => rng_from_seed(seed),
        };
        let remaining = indices(n);
        let s = DownSampling {
            total: n,
            target: num_mutants,
            remaining,
            sampled: Vec::new(),
            invalid: Vec::new(),
            pending: None,
            rng,
        };
        proof {
            assert(s.all() =~= remaining@);
        }
        Ok(s)
    }

    /// Draws `num_mutants` of `n` mutants at random, without validating
    /// them, and returns their indices in increasing order. It fails only
    /// where [`Self::start`] does.
    pub fn sample(&self, n: usize, num_mutants: usize) -> (res: Result<Vec<usize>, SamplingError>)
        ensures
            self.seed is Some ==> res is Ok,
            res matches Ok(r) ==> {
                &&& strictly_sorted(r@)
                &&& r@.len() == if num_mutants < n {
                    num_mutants
                } else {
                    n
                }
                &&& forall|i: int| 0 <= i < r@.len() ==> #[trigger] r@[i] < n
            },
    {
        let mut s = match self.start(n, num_mutants) {
            Ok(s) => s,
            Err(e) => return Err(e),
        };
        while s.remaining.len() > 0 && s.sampled.len() < s.target
            invariant
                s.wf(),
                s.total == n,
                s.target == num_mutants,
                s.pending is None,
                s.invalid@.len() == 0,
                s.sampled@.len() + s.remaining@.len() == n,
            decreases s.remaining@.len(),
        {
            let c = s.next_candidate();
            s.record(true);
        }
        let ghost samp = s.sampled@;
        proof {
            lemma_distinct_middle(s.remaining@, s.sampled@, s.invalid@);
            assert forall|i: int| 0 <= i < samp.len() implies #[trigger] samp[i] < n by {
                assert(samp[i] == s.all()[s.remaining@.len() + i]);
            }
        }
        let (r, _) = s.finish();
        proof {
            assert forall|i: int| 0 <= i < r@.len() implies #[trigger] r@[i] < n by {
                assert(r@.contains(r@[i]));
                assert(samp.contains(r@[i]));
            }
        }
        Ok(r)
    }
}

} // verus!
