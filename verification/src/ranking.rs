//! Bounded best-configurations ranking.
//!
//! The configuration search keeps the N highest-gain configurations seen
//! across episodes, keyed by the *truncated integer* gain: inserting a key
//! already present overwrites that entry (a deliberate coarse
//! de-duplication), and when the structure grows past its bound the entries
//! with the smallest keys are evicted until exactly N remain. The model is
//! a strictly-descending sorted sequence; [`insert_ranked`] is one
//! insertion, [`insert_all`] a whole run of them, and
//! [`lemma_top_n_retention`] states the retention law: of any run of
//! distinct-gain insertions, exactly the N highest-gain entries survive and
//! every evicted entry has a smaller gain than every survivor.

use crate::evaluator::SMAConfig;
use vstd::prelude::*;

verus! {

/// One ranked entry: the truncated integer gain and the configuration that
/// earned it.
pub type RankedEntry = (i64, SMAConfig);

/// Keys strictly descending: sorted by gain, highest first, no duplicates.
pub open spec fn sorted_desc(s: Seq<RankedEntry>) -> bool {
    forall|i: int, j: int| 0 <= i < j < s.len() ==> s[i].0 > s[j].0
}

/// Whether some entry carries the given gain key.
pub open spec fn has_key(s: Seq<RankedEntry>, k: i64) -> bool {
    exists|i: int| 0 <= i < s.len() && s[i].0 == k
}

/// Insertion into a descending-sorted sequence; an entry with an equal key
/// is overwritten.
pub open spec fn insert_sorted(s: Seq<RankedEntry>, k: i64, c: SMAConfig) -> Seq<RankedEntry>
    decreases s.len(),
{
    if s.len() == 0 {
        seq![(k, c)]
    } else if k > s[0].0 {
        seq![(k, c)] + s
    } else if k == s[0].0 {
        seq![(k, c)] + s.drop_first()
    } else {
        seq![s[0]] + insert_sorted(s.drop_first(), k, c)
    }
}

/// The `n` highest entries of a descending-sorted sequence.
pub open spec fn top_n(s: Seq<RankedEntry>, n: nat) -> Seq<RankedEntry> {
    if s.len() <= n {
        s
    } else {
        s.take(n as int)
    }
}

/// One ranked insertion: insert, then evict the smallest keys down to the
/// bound.
pub open spec fn insert_ranked(s: Seq<RankedEntry>, k: i64, c: SMAConfig, n: nat) -> Seq<
    RankedEntry,
> {
    top_n(insert_sorted(s, k, c), n)
}

/// A whole run of ranked insertions, in order.
pub open spec fn insert_all(s: Seq<RankedEntry>, items: Seq<RankedEntry>, n: nat) -> Seq<
    RankedEntry,
>
    decreases items.len(),
{
    if items.len() == 0 {
        s
    } else {
        insert_all(insert_ranked(s, items[0].0, items[0].1, n), items.drop_first(), n)
    }
}

/// What one sorted insertion does: the result is sorted, one entry longer
/// unless the key was overwritten, and holds exactly the new entry plus
/// every old entry with a different key.
pub proof fn lemma_insert_sorted_basic(s: Seq<RankedEntry>, k: i64, c: SMAConfig)
    requires
        sorted_desc(s),
    ensures
        sorted_desc(insert_sorted(s, k, c)),
        insert_sorted(s, k, c).len() == s.len() + (if has_key(s, k) {
            0int
        } else {
            1int
        }),
        insert_sorted(s, k, c).contains((k, c)),
        forall|x: RankedEntry|
            insert_sorted(s, k, c).contains(x) <==> (x == (k, c) || (s.contains(x) && x.0 != k)),
    decreases s.len(),
{
    let t = insert_sorted(s, k, c);
    if s.len() == 0 {
        assert(t[0] == (k, c));
        assert forall|x: RankedEntry| t.contains(x) implies (x == (k, c) || (s.contains(x) && x.0
            != k)) by {
            let i = choose|i: int| 0 <= i < t.len() && t[i] == x;
            assert(i == 0);
        }
    } else if k > s[0].0 {
        assert(t[0] == (k, c));
        assert forall|j: int| 0 <= j < s.len() implies s[j].0 < k by {
            if j > 0 {
                assert(s[0].0 > s[j].0);
            }
        }
        assert forall|x: RankedEntry| t.contains(x) implies (x == (k, c) || (s.contains(x) && x.0
            != k)) by {
            let i = choose|i: int| 0 <= i < t.len() && t[i] == x;
            if i >= 1 {
                assert(s[i - 1] == x);
            }
        }
        assert forall|x: RankedEntry| (x == (k, c) || (s.contains(x) && x.0 != k)) implies
            t.contains(x) by {
            if x == (k, c) {
                assert(t[0] == x);
            } else {
                let i = choose|i: int| 0 <= i < s.len() && s[i] == x;
                assert(t[i + 1] == x);
            }
        }
        assert(!has_key(s, k));
    } else if k == s[0].0 {
        assert(t[0] == (k, c));
        let rest = s.drop_first();
        assert forall|j: int| 0 <= j < rest.len() implies rest[j].0 < k by {
            assert(rest[j] == s[j + 1]);
        }
        assert forall|x: RankedEntry| t.contains(x) implies (x == (k, c) || (s.contains(x) && x.0
            != k)) by {
            let i = choose|i: int| 0 <= i < t.len() && t[i] == x;
            if i >= 1 {
                assert(rest[i - 1] == x);
                assert(s[i] == x);
            }
        }
        assert forall|x: RankedEntry| (x == (k, c) || (s.contains(x) && x.0 != k)) implies
            t.contains(x) by {
            if x == (k, c) {
                assert(t[0] == x);
            } else {
                let i = choose|i: int| 0 <= i < s.len() && s[i] == x;
                assert(i >= 1);
                assert(t[i] == x);
            }
        }
        assert(has_key(s, k));
    } else {
        let rest = s.drop_first();
        assert forall|i: int, j: int| 0 <= i < j < rest.len() implies rest[i].0 > rest[j].0 by {
            assert(rest[i] == s[i + 1] && rest[j] == s[j + 1]);
        }
        lemma_insert_sorted_basic(rest, k, c);
        let t1 = insert_sorted(rest, k, c);
        assert(t == seq![s[0]] + t1);
        assert(t[0] == s[0]);
        // every entry below the head is smaller than the head
        assert forall|j: int| 1 <= j < t.len() implies t[j].0 < s[0].0 by {
            assert(t[j] == t1[j - 1]);
            assert(t1.contains(t1[j - 1]));
            let x = t1[j - 1];
            assert(x == (k, c) || (rest.contains(x) && x.0 != k));
            if x != (k, c) {
                let i = choose|i: int| 0 <= i < rest.len() && rest[i] == x;
                assert(s[i + 1] == x);
            }
        }
        assert forall|i: int, j: int| 0 <= i < j < t.len() implies t[i].0 > t[j].0 by {
            if i >= 1 {
                assert(t[i] == t1[i - 1] && t[j] == t1[j - 1]);
            }
        }
        // membership
        assert forall|x: RankedEntry| t.contains(x) implies (x == (k, c) || (s.contains(x) && x.0
            != k)) by {
            let i = choose|i: int| 0 <= i < t.len() && t[i] == x;
            if i == 0 {
                assert(x == s[0]);
                assert(s.contains(x));
                assert(x.0 > k);
            } else {
                assert(t1[i - 1] == x);
                assert(t1.contains(x));
                if x != (k, c) {
                    assert(rest.contains(x));
                    let j = choose|j: int| 0 <= j < rest.len() && rest[j] == x;
                    assert(s[j + 1] == x);
                }
            }
        }
        assert forall|x: RankedEntry| (x == (k, c) || (s.contains(x) && x.0 != k)) implies
            t.contains(x) by {
            if x == (k, c) {
                assert(t1.contains(x));
                let i = choose|i: int| 0 <= i < t1.len() && t1[i] == x;
                assert(t[i + 1] == x);
            } else {
                let i = choose|i: int| 0 <= i < s.len() && s[i] == x;
                if i == 0 {
                    assert(t[0] == x);
                } else {
                    assert(rest[i - 1] == x);
                    assert(rest.contains(x));
                    assert(t1.contains(x));
                    let j = choose|j: int| 0 <= j < t1.len() && t1[j] == x;
                    assert(t[j + 1] == x);
                }
            }
        }
        // length: the head's key differs from k, so key presence agrees
        // between s and its tail
        assert(s[0].0 != k);
        if has_key(s, k) {
            let i = choose|i: int| 0 <= i < s.len() && s[i].0 == k;
            assert(i >= 1);
            assert(rest[i - 1].0 == k);
            assert(has_key(rest, k));
        }
        if has_key(rest, k) {
            let i = choose|i: int| 0 <= i < rest.len() && rest[i].0 == k;
            assert(s[i + 1].0 == k);
            assert(has_key(s, k));
        }
    }
}

/// A prefix of a descending-sorted sequence is descending-sorted.
pub proof fn lemma_sorted_take(s: Seq<RankedEntry>, m: int)
    requires
        sorted_desc(s),
        0 <= m <= s.len(),
    ensures
        sorted_desc(s.take(m)),
{
    assert forall|i: int, j: int| 0 <= i < j < s.take(m).len() implies s.take(m)[i].0 > s.take(
        m,
    )[j].0 by {
        assert(s.take(m)[i] == s[i] && s.take(m)[j] == s[j]);
    }
}

/// The shape of one sorted insertion, split at the first position `p` whose
/// key does not exceed the inserted key: everything before `p` survives in
/// place, the new entry lands at `p`, and the remainder follows — minus the
/// overwritten entry if the key at `p` was equal.
pub proof fn lemma_insert_sorted_split(s: Seq<RankedEntry>, k: i64, c: SMAConfig, p: int)
    requires
        sorted_desc(s),
        0 <= p <= s.len(),
        forall|j: int| 0 <= j < p ==> s[j].0 > k,
        p < s.len() ==> s[p].0 <= k,
    ensures
        insert_sorted(s, k, c) == s.take(p) + seq![(k, c)] + s.skip(
            if p < s.len() && s[p].0 == k {
                p + 1
            } else {
                p
            },
        ),
    decreases s.len(),
{
    let q: int = if p < s.len() && s[p].0 == k {
        p + 1
    } else {
        p
    };
    if p == 0 {
        if s.len() == 0 {
            assert(insert_sorted(s, k, c) =~= s.take(0) + seq![(k, c)] + s.skip(0));
        } else if s[0].0 == k {
            assert(insert_sorted(s, k, c) =~= s.take(0) + seq![(k, c)] + s.skip(1));
        } else {
            assert(s[0].0 < k);
            assert(insert_sorted(s, k, c) =~= s.take(0) + seq![(k, c)] + s.skip(0));
        }
    } else {
        let rest = s.drop_first();
        assert forall|i: int, j: int| 0 <= i < j < rest.len() implies rest[i].0 > rest[j].0 by {
            assert(rest[i] == s[i + 1] && rest[j] == s[j + 1]);
        }
        assert forall|j: int| 0 <= j < p - 1 implies rest[j].0 > k by {
            assert(rest[j] == s[j + 1]);
        }
        assert(p - 1 < rest.len() ==> rest[p - 1] == s[p]);
        lemma_insert_sorted_split(rest, k, c, p - 1);
        assert(s[0].0 > k);
        assert(insert_sorted(s, k, c) == seq![s[0]] + insert_sorted(rest, k, c));
        let q1: int = if p - 1 < rest.len() && rest[p - 1].0 == k {
            p
        } else {
            p - 1
        };
        assert(q1 == q - 1);
        assert(seq![s[0]] + (rest.take(p - 1) + seq![(k, c)] + rest.skip(q1)) =~= s.take(p) + seq![
            (k, c),
        ] + s.skip(q));
    }
}

/// The retention invariant carried across a run of insertions: `s` is the
/// current ranking, `seen` what has been inserted so far, `rest` what is
/// still to come. The ranking is sorted, holds `min(n, seen.len())`
/// entries, all drawn from `seen`, every entry it dropped has a smaller
/// key than everything it kept, and while `seen` fits the bound nothing
/// has been dropped at all.
proof fn lemma_retention_aux(
    s: Seq<RankedEntry>,
    seen: Seq<RankedEntry>,
    rest: Seq<RankedEntry>,
    n: nat,
)
    requires
        1 <= n,
        sorted_desc(s),
        s.len() == (if seen.len() <= n {
            seen.len() as int
        } else {
            n as int
        }),
        forall|x: RankedEntry| s.contains(x) ==> seen.contains(x),
        forall|x: RankedEntry, y: RankedEntry|
            s.contains(x) && seen.contains(y) && !s.contains(y) ==> x.0 > y.0,
        seen.len() <= n ==> (forall|x: RankedEntry| seen.contains(x) ==> s.contains(x)),
        forall|i: int, j: int|
            0 <= i < j < (seen + rest).len() ==> (seen + rest)[i].0 != (seen + rest)[j].0,
    ensures
        ({
            let r = insert_all(s, rest, n);
            &&& sorted_desc(r)
            &&& r.len() == (if seen.len() + rest.len() <= n {
                (seen.len() + rest.len()) as int
            } else {
                n as int
            })
            &&& forall|x: RankedEntry| r.contains(x) ==> (seen + rest).contains(x)
            &&& forall|x: RankedEntry, y: RankedEntry|
                r.contains(x) && (seen + rest).contains(y) && !r.contains(y) ==> x.0 > y.0
            &&& seen.len() + rest.len() <= n ==> (forall|x: RankedEntry|
                (seen + rest).contains(x) ==> r.contains(x))
        }),
    decreases rest.len(),
{
    if rest.len() == 0 {
        assert(seen + rest =~= seen);
        assert(insert_all(s, rest, n) == s);
    } else {
        let e0 = rest[0];
        let k = rest[0].0;
        let c = rest[0].1;
        assert(e0 == (k, c));
        let combined = seen + rest;
        let seen1 = seen.push(e0);
        let rest1 = rest.drop_first();
        assert(seen1 + rest1 =~= combined);
        assert(combined[seen.len() as int] == e0);
        // the new key is fresh with respect to everything seen
        assert forall|x: RankedEntry| seen.contains(x) implies x.0 != k by {
            let i = choose|i: int| 0 <= i < seen.len() && seen[i] == x;
            assert(combined[i] == x);
        }
        assert(!has_key(s, k)) by {
            if has_key(s, k) {
                let i = choose|i: int| 0 <= i < s.len() && s[i].0 == k;
                assert(s.contains(s[i]));
            }
        }
        lemma_insert_sorted_basic(s, k, c);
        let t = insert_sorted(s, k, c);
        let s1 = insert_ranked(s, k, c, n);
        assert(t.len() == s.len() + 1);
        // shape of the new ranking
        if t.len() <= n {
            assert(s1 == t);
        } else {
            assert(s1 == t.take(n as int));
            lemma_sorted_take(t, n as int);
            assert forall|x: RankedEntry| s1.contains(x) implies t.contains(x) by {
                let i = choose|i: int| 0 <= i < s1.len() && s1[i] == x;
                assert(t[i] == x);
            }
        }
        assert(s1.len() == (if seen1.len() <= n {
            seen1.len() as int
        } else {
            n as int
        }));
        // everything retained was seen
        assert forall|x: RankedEntry| s1.contains(x) implies seen1.contains(x) by {
            assert(t.contains(x));
            if x == e0 {
                assert(seen1[seen.len() as int] == x);
            } else {
                assert(s.contains(x));
                let i = choose|i: int| 0 <= i < seen.len() && seen[i] == x;
                assert(seen1[i] == x);
            }
        }
        // while everything fits, nothing is dropped
        if seen1.len() <= n {
            assert forall|x: RankedEntry| seen1.contains(x) implies s1.contains(x) by {
                assert(s1 == t);
                let i = choose|i: int| 0 <= i < seen1.len() && seen1[i] == x;
                if i < seen.len() {
                    assert(seen.contains(x));
                    assert(s.contains(x));
                } else {
                    assert(x == e0);
                }
            }
        }
        // dominance: every dropped entry is smaller than every retained one
        assert forall|x: RankedEntry, y: RankedEntry|
            s1.contains(x) && seen1.contains(y) && !s1.contains(y) implies x.0 > y.0 by {
            if t.contains(y) {
                // dropped by this step's truncation
                assert(t.len() > n);
                assert(s1 == t.take(n as int));
                let jy = choose|j: int| 0 <= j < t.len() && t[j] == y;
                assert(jy >= n) by {
                    if jy < n {
                        assert(s1[jy] == y);
                    }
                }
                let ix = choose|i: int| 0 <= i < s1.len() && s1[i] == x;
                assert(t[ix] == x);
                assert(t[ix].0 > t[jy].0);
            } else {
                // dropped in an earlier step
                assert(seen.contains(y) && !s.contains(y));
                assert(seen.len() > n) by {
                    if seen.len() <= n {
                        assert(s.contains(y));
                        assert(t.contains(y));
                    }
                }
                if s.contains(x) {
                } else {
                    assert(x == e0);
                    assert(s.len() == n as int);
                    assert(t.len() == n + 1);
                    assert(s1 == t.take(n as int));
                    let z = t[n as int];
                    assert(!s1.contains(z)) by {
                        if s1.contains(z) {
                            let j = choose|j: int| 0 <= j < s1.len() && s1[j] == z;
                            assert(t[j] == z);
                            assert(t[j].0 > t[n as int].0);
                        }
                    }
                    assert(t.contains(z));
                    assert(z != e0);
                    assert(s.contains(z));
                    assert(z.0 > y.0);
                    let ix = choose|i: int| 0 <= i < s1.len() && s1[i] == x;
                    assert(t[ix] == x);
                    assert(t[ix].0 > t[n as int].0);
                }
            }
        }
        lemma_retention_aux(s1, seen1, rest1, n);
        assert(insert_all(s, rest, n) == insert_all(s1, rest1, n));
        assert(seen1 + rest1 == combined);
        assert(seen1.len() + rest1.len() == seen.len() + rest.len());
    }
}

/// Top-N retention: over any run of insertions with pairwise-distinct
/// gains, starting from an empty ranking, exactly `min(n, items.len())`
/// entries survive; every survivor was inserted, every evicted entry has a
/// smaller gain than every survivor (so the highest gains are retained and
/// the evicted never reappear), and while the run fits the bound nothing
/// is evicted at all.
pub proof fn lemma_top_n_retention(items: Seq<RankedEntry>, n: nat)
    requires
        1 <= n,
        forall|i: int, j: int| 0 <= i < j < items.len() ==> items[i].0 != items[j].0,
    ensures
        ({
            let r = insert_all(Seq::<RankedEntry>::empty(), items, n);
            &&& sorted_desc(r)
            &&& r.len() == (if items.len() <= n {
                items.len() as int
            } else {
                n as int
            })
            &&& forall|x: RankedEntry| r.contains(x) ==> items.contains(x)
            &&& forall|x: RankedEntry, y: RankedEntry|
                r.contains(x) && items.contains(y) && !r.contains(y) ==> x.0 > y.0
            &&& items.len() <= n ==> (forall|x: RankedEntry| items.contains(x) ==> r.contains(x))
        }),
{
    assert(Seq::<RankedEntry>::empty() + items =~= items);
    lemma_retention_aux(Seq::<RankedEntry>::empty(), Seq::<RankedEntry>::empty(), items, n);
}

/// A bounded top-N retention structure: the N highest-gain configurations
/// seen so far, keyed by truncated integer gain, highest first.
pub struct BestConfigsRanking {
    entries: Vec<RankedEntry>,
    top_n: usize,
}

impl BestConfigsRanking {
    /// The retained entries, highest gain first.
    pub closed spec fn spec_entries(self) -> Seq<RankedEntry> {
        self.entries@
    }

    /// The retention bound.
    pub closed spec fn spec_top_n(self) -> nat {
        self.top_n as nat
    }

    /// Invariant: a positive bound, keys strictly descending, and no more
    /// entries than the bound.
    pub open spec fn wf(self) -> bool {
        &&& 1 <= self.spec_top_n()
        &&& sorted_desc(self.spec_entries())
        &&& self.spec_entries().len() <= self.spec_top_n()
    }

    /// An empty ranking retaining at most `top_n` entries.
    pub fn new(top_n: usize) -> (r: BestConfigsRanking)
        requires
            1 <= top_n,
        ensures
            r.wf(),
            r.spec_entries() == Seq::<RankedEntry>::empty(),
            r.spec_top_n() == top_n as nat,
    {
        BestConfigsRanking { entries: Vec::new(), top_n }
    }

    /// How many entries are retained.
    pub fn len(&self) -> (r: usize)
        ensures
            r == self.spec_entries().len(),
    {
        self.entries.len()
    }

    /// The retained entries, highest gain first.
    pub fn entries(&self) -> (r: &Vec<RankedEntry>)
        ensures
            r@ == self.spec_entries(),
    {
        &self.entries
    }

    /// Insert a configuration under its truncated integer gain: an entry
    /// with the same key is overwritten, and the smallest keys are evicted
    /// until the bound holds again.
    pub fn insert(&mut self, gain: i64, config: SMAConfig)
        requires
            old(self).wf(),
        ensures
            final(self).wf(),
            final(self).spec_top_n() == old(self).spec_top_n(),
            final(self).spec_entries() == insert_ranked(
                old(self).spec_entries(),
                gain,
                config,
                old(self).spec_top_n(),
            ),
    {
        let mut out: Vec<RankedEntry> = Vec::new();
        let mut i: usize = 0;
        while i < self.entries.len() && self.entries[i].0 > gain
            invariant
                i <= self.entries@.len(),
                forall|j: int| 0 <= j < i ==> self.entries@[j].0 > gain,
                out@ == self.entries@.take(i as int),
            decreases self.entries@.len() - i,
        {
            let e = (self.entries[i].0, self.entries[i].1);
            out.push(e);
            i += 1;
            proof {
                assert(out@ =~= self.entries@.take(i as int));
            }
        }
        let ghost s = self.entries@;
        let ghost p = i as int;
        out.push((gain, config));
        if i < self.entries.len() && self.entries[i].0 == gain {
            i += 1;
        }
        let ghost q = i as int;
        proof {
            assert(q == if p < s.len() && s[p].0 == gain {
                p + 1
            } else {
                p
            });
            assert(out@ =~= s.take(p) + seq![(gain, config)] + s.subrange(q, q));
        }
        while i < self.entries.len()
            invariant
                self.entries@ == s,
                0 <= p <= s.len(),
                forall|j: int| 0 <= j < p ==> s[j].0 > gain,
                p < s.len() ==> s[p].0 <= gain,
                q == (if p < s.len() && s[p].0 == gain {
                    p + 1
                } else {
                    p
                }),
                q <= i <= s.len(),
                out@ == s.take(p) + seq![(gain, config)] + s.subrange(q, i as int),
            decreases s.len() - i,
        {
            let e = (self.entries[i].0, self.entries[i].1);
            out.push(e);
            i += 1;
            proof {
                assert(out@ =~= s.take(p) + seq![(gain, config)] + s.subrange(q, i as int));
            }
        }
        proof {
            assert(s.subrange(q, s.len() as int) =~= s.skip(q));
            lemma_insert_sorted_split(s, gain, config, p);
            assert(out@ == insert_sorted(s, gain, config));
            lemma_insert_sorted_basic(s, gain, config);
        }
        out.truncate(self.top_n);
        proof {
            let t = insert_sorted(s, gain, config);
            if t.len() <= self.top_n as int {
                assert(top_n(t, self.top_n as nat) == t);
                if t.len() == self.top_n as int {
                    assert(out@ =~= t);
                }
            } else {
                lemma_sorted_take(t, self.top_n as int);
            }
        }
        self.entries = out;
    }
}

} // verus!
