//! The stats aggregator: fold a run's verdicts into fleet-level counters and
//! derive the cache ratio and mean cache age.
//!
//! Anomalies count toward `total` but toward none of the hit/miss/unknown
//! buckets; errors count as unknown. The anomaly count is kept in a separate
//! field so that the four buckets always partition the total.

use vstd::prelude::*;
use vstd::arithmetic::div_mod::{lemma_div_is_ordered, lemma_fundamental_div_mod_converse_div};
use vstd::multiset::Multiset;
use crate::classify::{Verdict, VerdictModel};

verus! {

/// The fleet-level accumulator.
#[derive(Copy, Clone, Debug, PartialEq, Eq, Structural)]
pub struct RunStats {
    pub total: u32,
    pub hit: u32,
    pub miss: u32,
    pub unknown: u32,
    pub anomaly: u32,
    pub total_age: u64,
}

/// The verdict counts as a cache hit.
pub open spec fn is_hit(v: VerdictModel) -> bool {
    v matches VerdictModel::Hit { .. }
}

/// The verdict counts as a cache miss.
pub open spec fn is_miss(v: VerdictModel) -> bool {
    v == VerdictModel::Miss
}

/// The verdict counts toward the unknown bucket: unknown status or a
/// transport error.
pub open spec fn is_unknown_like(v: VerdictModel) -> bool {
    ||| v matches VerdictModel::Unknown { .. }
    ||| v matches VerdictModel::Error { .. }
}

/// The verdict is an HTML-wall anomaly.
pub open spec fn is_anomaly(v: VerdictModel) -> bool {
    v matches VerdictModel::AnomalyHtmlWall { .. }
}

/// The seconds a verdict adds to the running age total: a hit's valid age,
/// nothing otherwise.
pub open spec fn age_of(v: VerdictModel) -> u64 {
    match v {
        VerdictModel::Hit { age: Some(a) } => a,
        _ => 0,
    }
}

/// Addition on `u64` that stops at the largest value instead of wrapping.
pub open spec fn sat_add(a: u64, b: u64) -> u64 {
    if a + b <= u64::MAX {
        (a + b) as u64
    } else {
        u64::MAX
    }
}

/// How many verdicts of `vs` satisfy `p`.
pub open spec fn count_where(vs: Seq<VerdictModel>, p: spec_fn(VerdictModel) -> bool) -> int
    decreases vs.len(),
{
    if vs.len() == 0 {
        0
    } else {
        count_where(vs.drop_last(), p) + (if p(vs.last()) {
            1int
        } else {
            0int
        })
    }
}

/// Sum of the age contributions of `vs`, saturating at `u64::MAX`.
pub open spec fn sat_age_sum(vs: Seq<VerdictModel>) -> u64
    decreases vs.len(),
{
    if vs.len() == 0 {
        0
    } else {
        sat_add(sat_age_sum(vs.drop_last()), age_of(vs.last()))
    }
}

/// Every verdict falls in exactly one of the four buckets, so the four
/// counts partition the length of any verdict sequence, and each is
/// non-negative.
pub proof fn lemma_verdict_partition(vs: Seq<VerdictModel>)
    ensures
        count_where(vs, |v: VerdictModel| is_hit(v)) + count_where(
            vs,
            |v: VerdictModel| is_miss(v),
        ) + count_where(vs, |v: VerdictModel| is_unknown_like(v)) + count_where(
            vs,
            |v: VerdictModel| is_anomaly(v),
        ) == vs.len(),
        0 <= count_where(vs, |v: VerdictModel| is_hit(v)),
        0 <= count_where(vs, |v: VerdictModel| is_miss(v)),
        0 <= count_where(vs, |v: VerdictModel| is_unknown_like(v)),
        0 <= count_where(vs, |v: VerdictModel| is_anomaly(v)),
    decreases vs.len(),
{
    if vs.len() > 0 {
        lemma_verdict_partition(vs.drop_last());
    }
}

/// A bucket count only depends on how often each verdict occurs: it equals
/// the size of the matching part of the sequence's multiset.
proof fn lemma_count_where_multiset(vs: Seq<VerdictModel>, p: spec_fn(VerdictModel) -> bool)
    ensures
        count_where(vs, p) == vs.to_multiset().filter(p).len(),
    decreases vs.len(),
{
    broadcast use vstd::seq_lib::group_to_multiset_ensures;
    broadcast use vstd::multiset::group_multiset_axioms;

    if vs.len() == 0 {
        assert(vs.to_multiset().filter(p) =~= Multiset::<VerdictModel>::empty());
    } else {
        let t = vs.drop_last();
        let x = vs.last();
        lemma_count_where_multiset(t, p);
        assert(vs =~= t.push(x));
        let m = t.to_multiset();
        assert(vs.to_multiset() == m.insert(x));
        if p(x) {
            assert(m.insert(x).filter(p) =~= m.filter(p).insert(x));
        } else {
            assert(m.insert(x).filter(p) =~= m.filter(p));
        }
    }
}

/// Completion order cannot affect the aggregate: two verdict sequences that
/// hold the same verdicts, however ordered, fold to the same total and the
/// same four buckets.
pub proof fn lemma_counts_order_independent(a: Seq<VerdictModel>, b: Seq<VerdictModel>)
    requires
        a.to_multiset() == b.to_multiset(),
    ensures
        a.len() == b.len(),
        count_where(a, |v: VerdictModel| is_hit(v)) == count_where(
            b,
            |v: VerdictModel| is_hit(v),
        ),
        count_where(a, |v: VerdictModel| is_miss(v)) == count_where(
            b,
            |v: VerdictModel| is_miss(v),
        ),
        count_where(a, |v: VerdictModel| is_unknown_like(v)) == count_where(
            b,
            |v: VerdictModel| is_unknown_like(v),
        ),
        count_where(a, |v: VerdictModel| is_anomaly(v)) == count_where(
            b,
            |v: VerdictModel| is_anomaly(v),
        ),
{
    broadcast use vstd::seq_lib::group_to_multiset_ensures;

    assert(a.len() == a.to_multiset().len());
    assert(b.len() == b.to_multiset().len());
    lemma_count_where_multiset(a, |v: VerdictModel| is_hit(v));
    lemma_count_where_multiset(b, |v: VerdictModel| is_hit(v));
    lemma_count_where_multiset(a, |v: VerdictModel| is_miss(v));
    lemma_count_where_multiset(b, |v: VerdictModel| is_miss(v));
    lemma_count_where_multiset(a, |v: VerdictModel| is_unknown_like(v));
    lemma_count_where_multiset(b, |v: VerdictModel| is_unknown_like(v));
    lemma_count_where_multiset(a, |v: VerdictModel| is_anomaly(v));
    lemma_count_where_multiset(b, |v: VerdictModel| is_anomaly(v));
}

/// The views of a vector of verdicts.
pub open spec fn verdict_views(vs: Seq<Verdict>) -> Seq<VerdictModel> {
    Seq::new(vs.len(), |i: int| vs[i]@)
}

impl RunStats {
    /// The four buckets partition the total.
    pub open spec fn wf(self) -> bool {
        self.hit + self.miss + self.unknown + self.anomaly == self.total
    }

    /// The empty accumulator.
    pub fn new() -> (s: RunStats)
        ensures
            s == (RunStats { total: 0, hit: 0, miss: 0, unknown: 0, anomaly: 0, total_age: 0 }),
    {
        RunStats { total: 0, hit: 0, miss: 0, unknown: 0, anomaly: 0, total_age: 0 }
    }

    /// Fold one verdict into the accumulator.
    pub fn record(&mut self, v: &Verdict)
        requires
            old(self).total < u32::MAX,
            old(self).wf(),
        ensures
            final(self).wf(),
            final(self).total == old(self).total + 1,
            final(self).hit == old(self).hit + (if is_hit(v@) {
                1int
            } else {
                0int
            }),
            final(self).miss == old(self).miss + (if is_miss(v@) {
                1int
            } else {
                0int
            }),
            final(self).unknown == old(self).unknown + (if is_unknown_like(v@) {
                1int
            } else {
                0int
            }),
            final(self).anomaly == old(self).anomaly + (if is_anomaly(v@) {
                1int
            } else {
                0int
            }),
            final(self).total_age == sat_add(old(self).total_age, age_of(v@)),
    {
        self.total = self.total + 1;
        match v {
            Verdict::Hit { age } => {
                self.hit = self.hit + 1;
                match age {
                    Some(a) => {
                        if self.total_age <= u64::MAX - *a {
                            self.total_age = self.total_age + *a;
                        } else {
                            self.total_age = u64::MAX;
                        }
                    },
                    None => {},
                }
            },
            Verdict::Miss => {
                self.miss = self.miss + 1;
            },
            Verdict::Unknown { .. } => {
                self.unknown = self.unknown + 1;
            },
            Verdict::AnomalyHtmlWall { .. } => {
                self.anomaly = self.anomaly + 1;
            },
            Verdict::Error { .. } => {
                self.unknown = self.unknown + 1;
            },
        }
    }
}

/// Fold a whole run's verdicts into fresh statistics.
pub fn fold(verdicts: &Vec<Verdict>) -> (s: RunStats)
    requires
        verdicts@.len() <= u32::MAX,
    ensures
        s.wf(),
        s.total == verdicts@.len(),
        s.hit == count_where(verdict_views(verdicts@), |v: VerdictModel| is_hit(v)),
        s.miss == count_where(verdict_views(verdicts@), |v: VerdictModel| is_miss(v)),
        s.unknown == count_where(verdict_views(verdicts@), |v: VerdictModel| is_unknown_like(v)),
        s.anomaly == count_where(verdict_views(verdicts@), |v: VerdictModel| is_anomaly(v)),
        s.total_age == sat_age_sum(verdict_views(verdicts@)),
{
    let mut s = RunStats::new();
    let mut i: usize = 0;
    proof {
        assert(verdict_views(verdicts@.take(0)) =~= Seq::<VerdictModel>::empty());
    }
    while i < verdicts.len()
        invariant
            0 <= i <= verdicts@.len(),
            verdicts@.len() <= u32::MAX,
            s.wf(),
            s.total == i,
            s.hit == count_where(verdict_views(verdicts@.take(i as int)), |v: VerdictModel| is_hit(v)),
            s.miss == count_where(
                verdict_views(verdicts@.take(i as int)),
                |v: VerdictModel| is_miss(v),
            ),
            s.unknown == count_where(
                verdict_views(verdicts@.take(i as int)),
                |v: VerdictModel| is_unknown_like(v),
            ),
            s.anomaly == count_where(
                verdict_views(verdicts@.take(i as int)),
                |v: VerdictModel| is_anomaly(v),
            ),
            s.total_age == sat_age_sum(verdict_views(verdicts@.take(i as int))),
        decreases verdicts@.len() - i,
    {
        let v: &Verdict = &verdicts[i];
        proof {
            let pre = verdict_views(verdicts@.take(i as int));
            let post = verdict_views(verdicts@.take(i + 1));
            assert(post.drop_last() =~= pre);
            assert(post.last() == verdicts@[i as int]@);
        }
        s.record(v);
        i = i + 1;
    }
    proof {
        assert(verdicts@.take(verdicts@.len() as int) =~= verdicts@);
    }
    s
}

/// The rounded percentage `round(hit / total * 100)`, written with integer
/// division: `(200 * hit + total) / (2 * total)` rounds half up.
pub open spec fn spec_ratio_pct(hit: int, total: int) -> int {
    (200 * hit + total) / (2 * total)
}

impl RunStats {
    /// The fleet cache ratio in rounded percent; only defined for a
    /// non-empty run, never a division by zero.
    pub fn cache_ratio_pct(&self) -> (r: Option<u32>)
        requires
            self.wf(),
        ensures
            r == (if self.total == 0 {
                None
            } else {
                Some(spec_ratio_pct(self.hit as int, self.total as int) as u32)
            }),
            r matches Some(p) ==> p <= 100,
    {
        if self.total == 0 {
            return None;
        }
        let h: u64 = self.hit as u64;
        let t: u64 = self.total as u64;
        let v: u64 = (200 * h + t) / (2 * t);
        proof {
            assert(200 * h + t <= 201 * t);
            lemma_div_is_ordered(200 * h + t, 201 * t, 2 * t);
            assert(201 * t == 100 * (2 * t) + t) by (nonlinear_arith);
            lemma_fundamental_div_mod_converse_div(201 * t, 2 * t, 100, t as int);
            assert(v <= 100);
        }
        Some(v as u32)
    }

    /// The mean cache age over the hits; only defined when there was at
    /// least one hit.
    pub fn mean_hit_age(&self) -> (r: Option<u64>)
        ensures
            r == (if self.hit == 0 {
                None
            } else {
                Some((self.total_age as int / self.hit as int) as u64)
            }),
    {
        if self.hit == 0 {
            None
        } else {
            Some(self.total_age / (self.hit as u64))
        }
    }
}

} // verus!
