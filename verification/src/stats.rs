//! Batch counters.
//!
//! One `Stats` value accounts for the work a run has done: articles emitted,
//! cross-reference candidates seen before filtering, survivors after
//! filtering, and jobs completed, beside a fixed job-range descriptor set
//! once at startup.  Counters only grow; every increment saturates at the
//! machine limit instead of wrapping, so accumulation is a pure function of
//! the amounts added.  Workers keep a local `Stats` each and the totals are
//! combined with [`Stats::merge`]; the lemmas below show that the combined
//! totals do not depend on the order in which workers' results arrive.

use vstd::prelude::*;

verus! {

/// Monotonic counters for one batch run.
#[derive(Clone, Copy, Debug, PartialEq, Eq)]
pub struct Stats {
    /// Articles emitted.
    pub articles_count: usize,
    /// Cross-reference identifier candidates seen before filtering.
    pub refs_before_filtering: usize,
    /// Cross-reference identifiers that survived filtering.
    pub refs_after_filtering: usize,
    /// Job range of this run: start index and job count, set once at startup.
    pub jobs_range: (usize, usize),
    /// Jobs completed so far.
    pub completed_job: usize,
}

/// A count capped at the machine limit.
pub open spec fn sat_cap(n: nat) -> nat {
    if n > usize::MAX {
        usize::MAX as nat
    } else {
        n
    }
}

/// Addition that saturates at the machine limit instead of wrapping.
pub open spec fn sat_add(a: nat, b: nat) -> nat {
    sat_cap(a + b)
}

/// The counters of `a` and `b` combined; the job range stays `a`'s, since the
/// range describes the run, not the work done.
pub open spec fn spec_merge(a: Stats, b: Stats) -> Stats {
    Stats {
        articles_count: sat_add(a.articles_count as nat, b.articles_count as nat) as usize,
        refs_before_filtering: sat_add(
            a.refs_before_filtering as nat,
            b.refs_before_filtering as nat,
        ) as usize,
        refs_after_filtering: sat_add(
            a.refs_after_filtering as nat,
            b.refs_after_filtering as nat,
        ) as usize,
        jobs_range: a.jobs_range,
        completed_job: sat_add(a.completed_job as nat, b.completed_job as nat) as usize,
    }
}

/// Saturating addition on machine words.
pub fn sat_add_usize(a: usize, b: usize) -> (r: usize)
    ensures
        r as nat == sat_add(a as nat, b as nat),
{
    if a > usize::MAX - b {
        usize::MAX
    } else {
        a + b
    }
}

impl Stats {
    /// Fresh counters: everything at zero.
    pub fn new() -> (s: Stats)
        ensures
            s.articles_count == 0,
            s.refs_before_filtering == 0,
            s.refs_after_filtering == 0,
            s.jobs_range == (0usize, 0usize),
            s.completed_job == 0,
    {
        Stats {
            articles_count: 0,
            refs_before_filtering: 0,
            refs_after_filtering: 0,
            jobs_range: (0, 0),
            completed_job: 0,
        }
    }

    /// Record `n` more articles emitted.
    pub fn add_articles(&mut self, n: usize)
        ensures
            final(self).articles_count as nat == sat_add(
                old(self).articles_count as nat,
                n as nat,
            ),
            final(self).refs_before_filtering == old(self).refs_before_filtering,
            final(self).refs_after_filtering == old(self).refs_after_filtering,
            final(self).jobs_range == old(self).jobs_range,
            final(self).completed_job == old(self).completed_job,
    {
        self.articles_count = sat_add_usize(self.articles_count, n);
    }

    /// Record `n` more cross-reference candidates seen before filtering.
    pub fn add_refs_before(&mut self, n: usize)
        ensures
            final(self).refs_before_filtering as nat == sat_add(
                old(self).refs_before_filtering as nat,
                n as nat,
            ),
            final(self).articles_count == old(self).articles_count,
            final(self).refs_after_filtering == old(self).refs_after_filtering,
            final(self).jobs_range == old(self).jobs_range,
            final(self).completed_job == old(self).completed_job,
    {
        self.refs_before_filtering = sat_add_usize(self.refs_before_filtering, n);
    }

    /// Record `n` more cross-reference identifiers that survived filtering.
    pub fn add_refs_after(&mut self, n: usize)
        ensures
            final(self).refs_after_filtering as nat == sat_add(
                old(self).refs_after_filtering as nat,
                n as nat,
            ),
            final(self).articles_count == old(self).articles_count,
            final(self).refs_before_filtering == old(self).refs_before_filtering,
            final(self).jobs_range == old(self).jobs_range,
            final(self).completed_job == old(self).completed_job,
    {
        self.refs_after_filtering = sat_add_usize(self.refs_after_filtering, n);
    }

    /// Record one more finished job.
    pub fn job_completed(&mut self)
        ensures
            final(self).completed_job as nat == sat_add(old(self).completed_job as nat, 1),
            final(self).articles_count == old(self).articles_count,
            final(self).refs_before_filtering == old(self).refs_before_filtering,
            final(self).refs_after_filtering == old(self).refs_after_filtering,
            final(self).jobs_range == old(self).jobs_range,
    {
        self.completed_job = sat_add_usize(self.completed_job, 1);
    }

    /// Fix the job range of this run: start index and job count.
    pub fn set_jobs_range(&mut self, start: usize, count: usize)
        ensures
            final(self).jobs_range == (start, count),
            final(self).articles_count == old(self).articles_count,
            final(self).refs_before_filtering == old(self).refs_before_filtering,
            final(self).refs_after_filtering == old(self).refs_after_filtering,
            final(self).completed_job == old(self).completed_job,
    {
        self.jobs_range = (start, count);
    }

    /// Fold another worker's counters into this one.
    pub fn merge(&mut self, other: &Stats)
        ensures
            *final(self) == spec_merge(*old(self), *other),
    {
        self.articles_count = sat_add_usize(self.articles_count, other.articles_count);
        self.refs_before_filtering = sat_add_usize(
            self.refs_before_filtering,
            other.refs_before_filtering,
        );
        self.refs_after_filtering = sat_add_usize(
            self.refs_after_filtering,
            other.refs_after_filtering,
        );
        self.completed_job = sat_add_usize(self.completed_job, other.completed_job);
    }
}

/// Merging counters is commutative on every counter: whichever of two
/// workers' results is folded in first, the combined totals are the same.
pub proof fn lemma_merge_commutative(a: Stats, b: Stats)
    ensures
        spec_merge(a, b).articles_count == spec_merge(b, a).articles_count,
        spec_merge(a, b).refs_before_filtering == spec_merge(b, a).refs_before_filtering,
        spec_merge(a, b).refs_after_filtering == spec_merge(b, a).refs_after_filtering,
        spec_merge(a, b).completed_job == spec_merge(b, a).completed_job,
{
}

/// Merging counters is associative: grouping workers' results in any way
/// yields the same combined value.
pub proof fn lemma_merge_associative(a: Stats, b: Stats, c: Stats)
    ensures
        spec_merge(spec_merge(a, b), c) == spec_merge(a, spec_merge(b, c)),
{
}

/// Workers' counters folded into `init`, one after the other.
pub open spec fn merged_all(init: Stats, ds: Seq<Stats>) -> Stats
    decreases ds.len(),
{
    if ds.len() == 0 {
        init
    } else {
        spec_merge(merged_all(init, ds.drop_last()), ds.last())
    }
}

/// The plain sum of the articles counters of a collection of workers.
pub open spec fn total_articles(ds: Seq<Stats>) -> nat
    decreases ds.len(),
{
    if ds.len() == 0 {
        0
    } else {
        total_articles(ds.drop_last()) + ds.last().articles_count as nat
    }
}

/// The plain sum of the before-filtering counters.
pub open spec fn total_refs_before(ds: Seq<Stats>) -> nat
    decreases ds.len(),
{
    if ds.len() == 0 {
        0
    } else {
        total_refs_before(ds.drop_last()) + ds.last().refs_before_filtering as nat
    }
}

/// The plain sum of the after-filtering counters.
pub open spec fn total_refs_after(ds: Seq<Stats>) -> nat
    decreases ds.len(),
{
    if ds.len() == 0 {
        0
    } else {
        total_refs_after(ds.drop_last()) + ds.last().refs_after_filtering as nat
    }
}

/// The plain sum of the completed-jobs counters.
pub open spec fn total_completed(ds: Seq<Stats>) -> nat
    decreases ds.len(),
{
    if ds.len() == 0 {
        0
    } else {
        total_completed(ds.drop_last()) + ds.last().completed_job as nat
    }
}

/// Folded counters are the saturated sums of the workers' counters: a pure
/// function of the amounts accumulated, not of the order of arrival.
pub proof fn lemma_merged_all_totals(init: Stats, ds: Seq<Stats>)
    ensures
        merged_all(init, ds).articles_count as nat == sat_add(
            init.articles_count as nat,
            total_articles(ds),
        ),
        merged_all(init, ds).refs_before_filtering as nat == sat_add(
            init.refs_before_filtering as nat,
            total_refs_before(ds),
        ),
        merged_all(init, ds).refs_after_filtering as nat == sat_add(
            init.refs_after_filtering as nat,
            total_refs_after(ds),
        ),
        merged_all(init, ds).completed_job as nat == sat_add(
            init.completed_job as nat,
            total_completed(ds),
        ),
        merged_all(init, ds).jobs_range == init.jobs_range,
    decreases ds.len(),
{
    if ds.len() > 0 {
        lemma_merged_all_totals(init, ds.drop_last());
    }
}

/// Taking one worker out of a collection takes exactly its counters out of
/// the sums.
proof fn lemma_totals_remove(ds: Seq<Stats>, j: int)
    requires
        0 <= j < ds.len(),
    ensures
        total_articles(ds) == total_articles(ds.remove(j)) + ds[j].articles_count,
        total_refs_before(ds) == total_refs_before(ds.remove(j)) + ds[j].refs_before_filtering,
        total_refs_after(ds) == total_refs_after(ds.remove(j)) + ds[j].refs_after_filtering,
        total_completed(ds) == total_completed(ds.remove(j)) + ds[j].completed_job,
    decreases ds.len(),
{
    if j == ds.len() - 1 {
        assert(ds.remove(j) =~= ds.drop_last());
    } else {
        assert(ds.remove(j).drop_last() =~= ds.drop_last().remove(j));
        assert(ds.remove(j).last() == ds.last());
        assert(ds.drop_last()[j] == ds[j]);
        lemma_totals_remove(ds.drop_last(), j);
    }
}

/// Two collections holding the same workers' counters, in whatever order,
/// have the same sums.
proof fn lemma_totals_permutation(a: Seq<Stats>, b: Seq<Stats>)
    requires
        a.to_multiset() == b.to_multiset(),
    ensures
        total_articles(a) == total_articles(b),
        total_refs_before(a) == total_refs_before(b),
        total_refs_after(a) == total_refs_after(b),
        total_completed(a) == total_completed(b),
    decreases a.len(),
{
    broadcast use vstd::seq_lib::group_to_multiset_ensures;

    if a.len() == 0 {
        assert(b.to_multiset().len() == 0);
        assert(b.len() == 0);
    } else {
        let x = a.last();
        let a2 = a.drop_last();
        assert(a.contains(x));
        assert(b.to_multiset().count(x) > 0);
        assert(b.contains(x));
        let j = choose|j: int| 0 <= j < b.len() && b[j] == x;
        let b2 = b.remove(j);
        assert(a2 =~= a.remove(a.len() - 1));
        assert(a2.to_multiset() =~= a.to_multiset().remove(x));
        assert(b2.to_multiset() =~= b.to_multiset().remove(x));
        lemma_totals_permutation(a2, b2);
        lemma_totals_remove(b, j);
    }
}

/// Merging a collection of workers' counters is independent of scheduling:
/// two arrival orders of the same results fold to the same value.
pub proof fn lemma_merge_schedule_independent(init: Stats, a: Seq<Stats>, b: Seq<Stats>)
    requires
        a.to_multiset() == b.to_multiset(),
    ensures
        merged_all(init, a) == merged_all(init, b),
{
    lemma_merged_all_totals(init, a);
    lemma_merged_all_totals(init, b);
    lemma_totals_permutation(a, b);
}

} // verus!
