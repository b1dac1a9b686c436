use vstd::prelude::*;

use super::dirty::{marked, DirtyRange};

verus! {

/// A run of `count` consecutive joint slots starting at `offset`.
#[derive(Clone, Copy, Debug, PartialEq, Eq)]
pub struct PerObjectJointAllocation {
    pub offset: u32,
    pub count: u32,
}

pub open spec fn range_end(r: PerObjectJointAllocation) -> int {
    r.offset + r.count
}

/// The order in which free ranges are kept: by offset, then by count.
pub open spec fn key_le(a: PerObjectJointAllocation, b: PerObjectJointAllocation) -> bool {
    a.offset < b.offset || (a.offset == b.offset && a.count <= b.count)
}

/// `x` inserted before the first element that it does not exceed.
pub open spec fn insert_sorted(x: PerObjectJointAllocation, s: Seq<PerObjectJointAllocation>) -> Seq<PerObjectJointAllocation>
    decreases s.len(),
{
    if s.len() == 0 {
        seq![x]
    } else if key_le(x, s[0]) {
        seq![x] + s
    } else {
        seq![s[0]] + insert_sorted(x, s.drop_first())
    }
}

/// Insertion sort of the ranges by `key_le`.
pub open spec fn sort_ranges(s: Seq<PerObjectJointAllocation>) -> Seq<PerObjectJointAllocation>
    decreases s.len(),
{
    if s.len() == 0 {
        s
    } else {
        insert_sorted(s.last(), sort_ranges(s.drop_last()))
    }
}

/// Appends `r` to an already merged list, fusing it with the last range when
/// that range ends exactly where `r` starts.
pub open spec fn merge_step(merged: Seq<PerObjectJointAllocation>, r: PerObjectJointAllocation) -> Seq<PerObjectJointAllocation> {
    if merged.len() > 0 && range_end(merged.last()) == r.offset {
        merged.drop_last().push(PerObjectJointAllocation {
            offset: merged.last().offset,
            count: (merged.last().count + r.count) as u32,
        })
    } else {
        merged.push(r)
    }
}

/// Left-to-right fusion of touching neighbours.
pub open spec fn merge_ranges(s: Seq<PerObjectJointAllocation>) -> Seq<PerObjectJointAllocation>
    decreases s.len(),
{
    if s.len() == 0 {
        s
    } else {
        merge_step(merge_ranges(s.drop_last()), s.last())
    }
}

/// The free list after coalescing: sorted, then touching ranges fused.
pub open spec fn coalesced(s: Seq<PerObjectJointAllocation>) -> Seq<PerObjectJointAllocation> {
    merge_ranges(sort_ranges(s))
}

/// Every range ends within 32-bit offsets.
pub open spec fn bounded(s: Seq<PerObjectJointAllocation>) -> bool {
    forall|i: int| 0 <= i < s.len() ==> range_end(#[trigger] s[i]) <= u32::MAX
}

/// Ranges are non-empty, in increasing order and separated by at least one
/// slot: the shape that coalescing produces from disjoint ranges.
pub open spec fn normalized(s: Seq<PerObjectJointAllocation>) -> bool {
    &&& bounded(s)
    &&& forall|i: int| 0 <= i < s.len() ==> (#[trigger] s[i]).count > 0
    &&& forall|i: int, j: int| 0 <= i < j < s.len() ==> range_end(#[trigger] s[i]) < (#[trigger] s[j]).offset
}

/// Index of the first range with at least `n` slots.
pub open spec fn first_fit(s: Seq<PerObjectJointAllocation>, n: u32) -> Option<int>
    decreases s.len(),
{
    if s.len() == 0 {
        None
    } else if s[0].count >= n {
        Some(0)
    } else {
        match first_fit(s.drop_first(), n) {
            Some(i) => Some(i + 1),
            None => None,
        }
    }
}

/// The free list after taking `n` slots from the front of range `i`.
pub open spec fn take_from(s: Seq<PerObjectJointAllocation>, i: int, n: u32) -> Seq<PerObjectJointAllocation> {
    if s[i].count == n {
        s.remove(i)
    } else {
        s.update(i, PerObjectJointAllocation { offset: (s[i].offset + n) as u32, count: (s[i].count - n) as u32 })
    }
}

pub proof fn lemma_first_fit(s: Seq<PerObjectJointAllocation>, n: u32)
    ensures
        first_fit(s, n) matches Some(i) ==> 0 <= i < s.len() && s[i].count >= n
            && forall|j: int| 0 <= j < i ==> (#[trigger] s[j]).count < n,
        first_fit(s, n) is None ==> forall|j: int| 0 <= j < s.len() ==> (#[trigger] s[j]).count < n,
    decreases s.len(),
{
    if s.len() > 0 {
        lemma_first_fit(s.drop_first(), n);
        if s[0].count < n {
            assert forall|j: int| 1 <= j < s.len() implies s[j] == s.drop_first()[j - 1] by {}
        }
    }
}

proof fn lemma_insert_sorted_at(x: PerObjectJointAllocation, s: Seq<PerObjectJointAllocation>, p: int)
    requires
        0 <= p <= s.len(),
        forall|j: int| 0 <= j < p ==> !key_le(x, #[trigger] s[j]),
        p < s.len() ==> key_le(x, s[p]),
    ensures
        insert_sorted(x, s) == s.insert(p, x),
    decreases s.len(),
{
    if s.len() == 0 {
        assert(insert_sorted(x, s) =~= s.insert(p, x));
    } else if p == 0 {
        assert(insert_sorted(x, s) =~= s.insert(p, x));
    } else {
        let t = s.drop_first();
        assert forall|j: int| 0 <= j < p - 1 implies !key_le(x, #[trigger] t[j]) by {
            assert(t[j] == s[j + 1]);
        }
        lemma_insert_sorted_at(x, t, p - 1);
        assert(insert_sorted(x, s) =~= s.insert(p, x));
    }
}

proof fn lemma_insert_sorted_bounded(x: PerObjectJointAllocation, s: Seq<PerObjectJointAllocation>)
    requires
        bounded(s),
        range_end(x) <= u32::MAX,
    ensures
        bounded(insert_sorted(x, s)),
        insert_sorted(x, s).len() == s.len() + 1,
    decreases s.len(),
{
    if s.len() > 0 && !key_le(x, s[0]) {
        let t = s.drop_first();
        assert forall|i: int| 0 <= i < t.len() implies range_end(#[trigger] t[i]) <= u32::MAX by {
            assert(t[i] == s[i + 1]);
        }
        lemma_insert_sorted_bounded(x, t);
        let r = insert_sorted(x, s);
        assert forall|i: int| 0 <= i < r.len() implies range_end(#[trigger] r[i]) <= u32::MAX by {
            if i > 0 {
                assert(r[i] == insert_sorted(x, t)[i - 1]);
            }
        }
    } else if s.len() > 0 {
        let r = insert_sorted(x, s);
        assert forall|i: int| 0 <= i < r.len() implies range_end(#[trigger] r[i]) <= u32::MAX by {
            if i > 0 {
                assert(r[i] == s[i - 1]);
            }
        }
    }
}

/// Sorting keeps the ranges within 32-bit offsets and keeps their number.
pub proof fn lemma_sort_bounded(s: Seq<PerObjectJointAllocation>)
    requires
        bounded(s),
    ensures
        bounded(sort_ranges(s)),
        sort_ranges(s).len() == s.len(),
    decreases s.len(),
{
    if s.len() > 0 {
        let t = s.drop_last();
        assert forall|i: int| 0 <= i < t.len() implies range_end(#[trigger] t[i]) <= u32::MAX by {
            assert(t[i] == s[i]);
        }
        lemma_sort_bounded(t);
        assert(range_end(s[s.len() - 1]) <= u32::MAX);
        lemma_insert_sorted_bounded(s.last(), sort_ranges(t));
    }
}

pub open spec fn strictly_sorted(s: Seq<PerObjectJointAllocation>) -> bool {
    forall|i: int, j: int| 0 <= i < j < s.len() ==> (#[trigger] s[i]).offset < (#[trigger] s[j]).offset
}

proof fn lemma_sort_of_strictly_sorted(s: Seq<PerObjectJointAllocation>)
    requires
        strictly_sorted(s),
    ensures
        sort_ranges(s) == s,
    decreases s.len(),
{
    if s.len() > 0 {
        let t = s.drop_last();
        assert(strictly_sorted(t)) by {
            assert forall|i: int, j: int| 0 <= i < j < t.len() implies (#[trigger] t[i]).offset < (#[trigger] t[j]).offset by {
                assert(t[i] == s[i] && t[j] == s[j]);
            }
        }
        lemma_sort_of_strictly_sorted(t);
        let x = s.last();
        assert forall|j: int| 0 <= j < t.len() implies !key_le(x, #[trigger] t[j]) by {
            assert(t[j] == s[j]);
            assert(s[j].offset < s[s.len() - 1].offset);
        }
        lemma_insert_sorted_at(x, t, t.len() as int);
        assert(t.insert(t.len() as int, x) =~= s);
    }
}

proof fn lemma_merge_of_separated(s: Seq<PerObjectJointAllocation>)
    requires
        forall|i: int, j: int| 0 <= i < j < s.len() ==> range_end(#[trigger] s[i]) < (#[trigger] s[j]).offset,
    ensures
        merge_ranges(s) == s,
    decreases s.len(),
{
    if s.len() > 0 {
        let t = s.drop_last();
        assert forall|i: int, j: int| 0 <= i < j < t.len() implies range_end(#[trigger] t[i]) < (#[trigger] t[j]).offset by {
            assert(t[i] == s[i] && t[j] == s[j]);
        }
        lemma_merge_of_separated(t);
        if t.len() > 0 {
            assert(t.last() == s[s.len() - 2]);
            assert(range_end(s[s.len() - 2]) < s[s.len() - 1].offset);
        }
        assert(t.push(s.last()) =~= s);
    }
}

/// `u` is `s` with range `i` split in two touching halves `a` and `b`.
proof fn lemma_merge_of_split_prefix(s: Seq<PerObjectJointAllocation>, u: Seq<PerObjectJointAllocation>, i: int, m: int)
    requires
        normalized(s),
        0 <= i < s.len(),
        u.len() == s.len() + 1,
        forall|j: int| 0 <= j < i ==> u[j] == s[j],
        forall|j: int| i + 1 < j < u.len() ==> u[j] == s[j - 1],
        u[i].offset == s[i].offset,
        u[i].count > 0,
        range_end(u[i]) == u[i + 1].offset,
        range_end(u[i + 1]) == range_end(s[i]),
        0 <= m <= u.len(),
    ensures
        m <= i ==> merge_ranges(u.take(m)) == s.take(m),
        m == i + 1 ==> merge_ranges(u.take(m)) == s.take(i).push(u[i]),
        m >= i + 2 ==> merge_ranges(u.take(m)) == s.take(m - 1),
    decreases m,
{
    if m == 0 {
        assert(u.take(0) =~= Seq::<PerObjectJointAllocation>::empty());
        assert(s.take(0) =~= Seq::<PerObjectJointAllocation>::empty());
    } else {
        lemma_merge_of_split_prefix(s, u, i, m - 1);
        let p = u.take(m);
        assert(p.drop_last() =~= u.take(m - 1));
        assert(p.last() == u[m - 1]);
        if m <= i {
            if m >= 2 {
                assert(s.take(m - 1).last() == s[m - 2]);
                assert(range_end(s[m - 2]) < s[m - 1].offset);
            }
            assert(s.take(m - 1).push(s[m - 1]) =~= s.take(m));
        } else if m == i + 1 {
            if m >= 2 {
                assert(s.take(i).last() == s[i - 1]);
                assert(range_end(s[i - 1]) < s[i].offset);
            }
        } else if m == i + 2 {
            let merged = s.take(i).push(u[i]);
            assert(merged.last() == u[i]);
            assert(merged.drop_last() =~= s.take(i));
            assert(s[i] == PerObjectJointAllocation { offset: u[i].offset, count: (u[i].count + u[i + 1].count) as u32 });
            assert(s.take(i).push(s[i]) =~= s.take(i + 1));
        } else {
            assert(s.take(m - 2).last() == s[m - 3]);
            assert(range_end(s[m - 3]) < s[m - 2].offset);
            assert(u[m - 1] == s[m - 2]);
            assert(s.take(m - 2).push(s[m - 2]) =~= s.take(m - 1));
        }
    }
}

/// Taking slots from the front of a range keeps a normalized free list
/// normalized.
pub proof fn law_reserve_keeps_normalized(s: Seq<PerObjectJointAllocation>, n: u32)
    requires
        normalized(s),
        n > 0,
        first_fit(s, n) is Some,
    ensures
        normalized(take_from(s, first_fit(s, n)->0, n)),
{
    lemma_first_fit(s, n);
    let i = first_fit(s, n)->0;
    let t = take_from(s, i, n);
    if s[i].count == n {
        assert forall|a: int, b: int| 0 <= a < b < t.len() implies range_end(#[trigger] t[a]) < (#[trigger] t[b]).offset by {
            let a0 = if a < i { a } else { a + 1 };
            let b0 = if b < i { b } else { b + 1 };
            assert(t[a] == s[a0] && t[b] == s[b0]);
        }
        assert forall|a: int| 0 <= a < t.len() implies (#[trigger] t[a]).count > 0 && range_end(t[a]) <= u32::MAX by {
            let a0 = if a < i { a } else { a + 1 };
            assert(t[a] == s[a0]);
        }
    } else {
        assert forall|a: int, b: int| 0 <= a < b < t.len() implies range_end(#[trigger] t[a]) < (#[trigger] t[b]).offset by {
            assert(range_end(s[a]) < s[b].offset);
        }
        assert forall|a: int| 0 <= a < t.len() implies (#[trigger] t[a]).count > 0 && range_end(t[a]) <= u32::MAX by {
            assert(range_end(s[a]) <= u32::MAX && s[a].count > 0);
        }
    }
}

/// No range overlaps a later one (touching allowed).
pub open spec fn weakly_separated(u: Seq<PerObjectJointAllocation>) -> bool {
    forall|i: int, j: int| 0 <= i < j < u.len() ==> range_end(#[trigger] u[i]) <= (#[trigger] u[j]).offset
}

/// Slot `x` lies in one of the ranges `s`.
pub open spec fn covers(s: Seq<PerObjectJointAllocation>, x: int) -> bool {
    exists|i: int| 0 <= i < s.len() && #[trigger] s[i].offset <= x < range_end(s[i])
}

proof fn lemma_merge_weakly_separated(u: Seq<PerObjectJointAllocation>)
    requires
        weakly_separated(u),
        forall|i: int| 0 <= i < u.len() ==> (#[trigger] u[i]).count > 0,
        bounded(u),
    ensures
        normalized(merge_ranges(u)),
        u.len() > 0 ==> merge_ranges(u).len() > 0 && range_end(merge_ranges(u).last()) == range_end(u.last()),
        forall|x: int| covers(merge_ranges(u), x) == covers(u, x),
    decreases u.len(),
{
    if u.len() > 0 {
        let d = u.drop_last();
        let r = u.last();
        assert forall|i: int, j: int| 0 <= i < j < d.len() implies range_end(#[trigger] d[i]) <= (#[trigger] d[j]).offset by {
            assert(d[i] == u[i] && d[j] == u[j]);
        }
        assert forall|i: int| 0 <= i < d.len() implies (#[trigger] d[i]).count > 0 && range_end(d[i]) <= u32::MAX by {
            assert(d[i] == u[i]);
        }
        lemma_merge_weakly_separated(d);
        let m = merge_ranges(d);
        assert(r == u[u.len() - 1]);
        assert(r.count > 0 && range_end(r) <= u32::MAX);
        if d.len() > 0 {
            assert(d.last() == u[u.len() - 2]);
            assert(range_end(d.last()) <= r.offset);
        }
        // every merged range ends by the end of the last one
        assert forall|i: int| 0 <= i < m.len() implies range_end(#[trigger] m[i]) <= range_end(m.last()) by {
            if i < m.len() - 1 {
                assert(range_end(m[i]) < m[m.len() - 1].offset);
            }
        }
        let out = merge_ranges(u);
        assert(out == merge_step(m, r));
        if m.len() > 0 && range_end(m.last()) == r.offset {
            let y = PerObjectJointAllocation { offset: m.last().offset, count: (m.last().count + r.count) as u32 };
            assert(m.last().count + r.count == range_end(r) - m.last().offset);
            assert(out == m.drop_last().push(y));
            assert forall|i: int| 0 <= i < out.len() implies (#[trigger] out[i]).count > 0 && range_end(out[i]) <= u32::MAX by {
                if i < out.len() - 1 {
                    assert(out[i] == m[i]);
                }
            }
            assert forall|i: int, j: int| 0 <= i < j < out.len() implies range_end(#[trigger] out[i]) < (#[trigger] out[j]).offset by {
                assert(out[i] == m[i]);
                if j < out.len() - 1 {
                    assert(out[j] == m[j]);
                } else {
                    assert(range_end(m[i]) < m[m.len() - 1].offset);
                }
            }
            assert forall|x: int| covers(out, x) == covers(u, x) by {
                if covers(out, x) {
                    let i = choose|i: int| 0 <= i < out.len() && #[trigger] out[i].offset <= x < range_end(out[i]);
                    if i < out.len() - 1 {
                        assert(out[i] == m[i]);
                        assert(covers(m, x));
                    } else if x < range_end(m.last()) {
                        assert(m[m.len() - 1].offset <= x < range_end(m[m.len() - 1]));
                        assert(covers(m, x));
                    } else {
                        assert(u[u.len() - 1].offset <= x < range_end(u[u.len() - 1]));
                    }
                    if covers(d, x) {
                        let k = choose|k: int| 0 <= k < d.len() && #[trigger] d[k].offset <= x < range_end(d[k]);
                        assert(u[k] == d[k]);
                    }
                }
                if covers(u, x) {
                    let k = choose|k: int| 0 <= k < u.len() && #[trigger] u[k].offset <= x < range_end(u[k]);
                    if k < u.len() - 1 {
                        assert(d[k] == u[k]);
                        assert(covers(d, x));
                        let i = choose|i: int| 0 <= i < m.len() && #[trigger] m[i].offset <= x < range_end(m[i]);
                        if i < m.len() - 1 {
                            assert(out[i] == m[i]);
                        } else {
                            assert(out[out.len() - 1] == y);
                        }
                    } else {
                        assert(out[out.len() - 1] == y);
                        assert(y.offset <= x < range_end(y));
                    }
                }
            }
        } else {
            if m.len() > 0 {
                assert(range_end(m.last()) < r.offset);
            }
            assert(out == m.push(r));
            assert forall|i: int| 0 <= i < out.len() implies (#[trigger] out[i]).count > 0 && range_end(out[i]) <= u32::MAX by {
                if i < out.len() - 1 {
                    assert(out[i] == m[i]);
                }
            }
            assert forall|i: int, j: int| 0 <= i < j < out.len() implies range_end(#[trigger] out[i]) < (#[trigger] out[j]).offset by {
                assert(out[i] == m[i]);
                if j < out.len() - 1 {
                    assert(out[j] == m[j]);
                }
            }
            assert forall|x: int| covers(out, x) == covers(u, x) by {
                if covers(out, x) {
                    let i = choose|i: int| 0 <= i < out.len() && #[trigger] out[i].offset <= x < range_end(out[i]);
                    if i < out.len() - 1 {
                        assert(out[i] == m[i]);
                        assert(covers(m, x));
                        assert(covers(d, x));
                        let k = choose|k: int| 0 <= k < d.len() && #[trigger] d[k].offset <= x < range_end(d[k]);
                        assert(u[k] == d[k]);
                    } else {
                        assert(u[u.len() - 1].offset <= x < range_end(u[u.len() - 1]));
                    }
                }
                if covers(u, x) {
                    let k = choose|k: int| 0 <= k < u.len() && #[trigger] u[k].offset <= x < range_end(u[k]);
                    if k < u.len() - 1 {
                        assert(d[k] == u[k]);
                        assert(covers(d, x));
                        let i = choose|i: int| 0 <= i < m.len() && #[trigger] m[i].offset <= x < range_end(m[i]);
                        assert(out[i] == m[i]);
                    } else {
                        assert(out[out.len() - 1] == r);
                    }
                }
            }
        }
    } else {
        assert forall|x: int| covers(merge_ranges(u), x) == covers(u, x) by {}
    }
}

/// Freeing a non-empty run that overlaps no free range keeps the free
/// list normalized (sorted, no two ranges overlapping or touching), and
/// the free slots afterwards are the free slots before and the run's.
pub proof fn law_free_keeps_normalized(s: Seq<PerObjectJointAllocation>, a: PerObjectJointAllocation)
    requires
        normalized(s),
        a.count > 0,
        range_end(a) <= u32::MAX,
        forall|i: int| 0 <= i < s.len() ==> range_end(a) <= (#[trigger] s[i]).offset || range_end(s[i]) <= a.offset,
    ensures
        normalized(coalesced(s.push(a))),
        forall|x: int| #[trigger] covers(coalesced(s.push(a)), x) == (covers(s, x) || (a.offset <= x < range_end(a))),
{
    assert(strictly_sorted(s)) by {
        assert forall|i: int, j: int| 0 <= i < j < s.len() implies (#[trigger] s[i]).offset < (#[trigger] s[j]).offset by {
            assert(range_end(s[i]) < s[j].offset);
        }
    }
    lemma_sort_of_strictly_sorted(s);
    assert(s.push(a).drop_last() =~= s);
    assert(s.push(a).last() == a);
    assert(sort_ranges(s.push(a)) == insert_sorted(a, s));
    // where `a` goes: after the ranges below it, before those above it
    let p = choose_insert_point(s, a);
    lemma_insert_sorted_at(a, s, p);
    lemma_inserted_separated(s, a, p);
    let u = s.insert(p, a);
    lemma_merge_weakly_separated(u);
    assert(coalesced(s.push(a)) == merge_ranges(u));
    assert forall|x: int| #[trigger] covers(coalesced(s.push(a)), x) == (covers(s, x) || (a.offset <= x < range_end(a))) by {
        assert(covers(merge_ranges(u), x) == covers(u, x));
        assert(covers(u, x) == (covers(s, x) || (a.offset <= x < range_end(a))));
    }
}

proof fn lemma_inserted_separated(s: Seq<PerObjectJointAllocation>, a: PerObjectJointAllocation, p: int)
    requires
        normalized(s),
        a.count > 0,
        range_end(a) <= u32::MAX,
        0 <= p <= s.len(),
        forall|j: int| 0 <= j < p ==> range_end(#[trigger] s[j]) <= a.offset,
        forall|j: int| p <= j < s.len() ==> range_end(a) <= (#[trigger] s[j]).offset,
    ensures
        weakly_separated(s.insert(p, a)),
        bounded(s.insert(p, a)),
        forall|i: int| 0 <= i < s.insert(p, a).len() ==> (#[trigger] s.insert(p, a)[i]).count > 0,
        forall|x: int| #[trigger] covers(s.insert(p, a), x) == (covers(s, x) || (a.offset <= x < range_end(a))),
{
    let u = s.insert(p, a);
    assert forall|i: int| 0 <= i < u.len() implies (#[trigger] u[i]).count > 0 && range_end(u[i]) <= u32::MAX by {
        if i < p {
            assert(u[i] == s[i]);
        } else if i > p {
            assert(u[i] == s[i - 1]);
        }
    }
    assert forall|i: int, j: int| 0 <= i < j < u.len() implies range_end(#[trigger] u[i]) <= (#[trigger] u[j]).offset by {
        if j < p {
            assert(u[i] == s[i] && u[j] == s[j]);
        } else if j == p {
            assert(u[i] == s[i]);
        } else if i == p {
            assert(u[j] == s[j - 1]);
        } else if i < p {
            assert(u[i] == s[i] && u[j] == s[j - 1]);
        } else {
            assert(u[i] == s[i - 1] && u[j] == s[j - 1]);
        }
    }
    assert forall|x: int| #[trigger] covers(u, x) == (covers(s, x) || (a.offset <= x < range_end(a))) by {
        if covers(u, x) {
            let i = choose|i: int| 0 <= i < u.len() && #[trigger] u[i].offset <= x < range_end(u[i]);
            if i < p {
                assert(u[i] == s[i]);
            } else if i > p {
                assert(u[i] == s[i - 1]);
            }
        }
        if covers(s, x) {
            let k = choose|k: int| 0 <= k < s.len() && #[trigger] s[k].offset <= x < range_end(s[k]);
            if k < p {
                assert(u[k] == s[k]);
            } else {
                assert(u[k + 1] == s[k]);
            }
        }
        if a.offset <= x < range_end(a) {
            assert(u[p] == a);
        }
    }
}

/// The index before which `a` goes among the disjoint ranges `s`: every
/// range before it ends by `a`'s start, every range from it on starts
/// after `a`'s end.
proof fn choose_insert_point(s: Seq<PerObjectJointAllocation>, a: PerObjectJointAllocation) -> (p: int)
    requires
        normalized(s),
        a.count > 0,
        forall|i: int| 0 <= i < s.len() ==> range_end(a) <= (#[trigger] s[i]).offset || range_end(s[i]) <= a.offset,
    ensures
        0 <= p <= s.len(),
        forall|j: int| 0 <= j < p ==> !key_le(a, #[trigger] s[j]) && range_end(s[j]) <= a.offset,
        forall|j: int| p <= j < s.len() ==> key_le(a, #[trigger] s[j]) && range_end(a) <= s[j].offset,
    decreases s.len(),
{
    if s.len() == 0 {
        0
    } else if range_end(a) <= s[0].offset {
        assert forall|j: int| 0 <= j < s.len() implies key_le(a, #[trigger] s[j]) && range_end(a) <= s[j].offset by {
            if j > 0 {
                assert(range_end(s[0]) < s[j].offset);
            }
        }
        0
    } else {
        let t = s.drop_first();
        assert forall|i: int, j: int| 0 <= i < j < t.len() implies range_end(#[trigger] t[i]) < (#[trigger] t[j]).offset by {
            assert(t[i] == s[i + 1] && t[j] == s[j + 1]);
        }
        assert forall|i: int| 0 <= i < t.len() implies (#[trigger] t[i]).count > 0 && range_end(t[i]) <= u32::MAX && (
        range_end(a) <= t[i].offset || range_end(t[i]) <= a.offset) by {
            assert(t[i] == s[i + 1]);
        }
        let q = choose_insert_point(t, a);
        assert forall|j: int| 0 <= j < q + 1 implies !key_le(a, #[trigger] s[j]) && range_end(s[j]) <= a.offset by {
            if j > 0 {
                assert(s[j] == t[j - 1]);
            }
        }
        assert forall|j: int| q + 1 <= j < s.len() implies key_le(a, #[trigger] s[j]) && range_end(a) <= s[j].offset by {
            assert(s[j] == t[j - 1]);
        }
        q + 1
    }
}

/// Freeing the run that `reserve` just handed out restores a normalized free
/// list exactly: reserve and free undo each other.
#[verifier::rlimit(40)]
pub proof fn law_reserve_then_free_restores(s: Seq<PerObjectJointAllocation>, n: u32)
    requires
        normalized(s),
        n > 0,
        first_fit(s, n) is Some,
    ensures
        coalesced(
            take_from(s, first_fit(s, n)->0, n).push(
                PerObjectJointAllocation { offset: s[first_fit(s, n)->0].offset, count: n },
            ),
        ) == s,
{
    lemma_first_fit(s, n);
    law_reserve_keeps_normalized(s, n);
    let i = first_fit(s, n)->0;
    let t = take_from(s, i, n);
    let a = PerObjectJointAllocation { offset: s[i].offset, count: n };
    let pushed = t.push(a);
    assert(pushed.drop_last() =~= t);
    assert(pushed.last() == a);
    assert(strictly_sorted(t)) by {
        assert forall|x: int, y: int| 0 <= x < y < t.len() implies (#[trigger] t[x]).offset < (#[trigger] t[y]).offset by {
            assert(range_end(t[x]) < t[y].offset);
        }
    }
    lemma_sort_of_strictly_sorted(t);
    assert(sort_ranges(pushed) == insert_sorted(a, t));
    assert forall|j: int| 0 <= j < i implies !key_le(a, #[trigger] t[j]) by {
        assert(t[j] == s[j]);
        assert(range_end(s[j]) < s[i].offset);
    }
    if i < t.len() {
        if s[i].count == n {
            assert(t[i] == s[i + 1]);
            assert(range_end(s[i]) < s[i + 1].offset);
        }
    }
    lemma_insert_sorted_at(a, t, i);
    let u = t.insert(i, a);
    if s[i].count == n {
        assert(u =~= s);
        lemma_merge_of_separated(s);
    } else {
        assert forall|j: int| 0 <= j < i implies u[j] == s[j] by {}
        assert forall|j: int| i + 1 < j < u.len() implies u[j] == s[j - 1] by {}
        assert(u[i + 1] == t[i]);
        lemma_merge_of_split_prefix(s, u, i, u.len() as int);
        assert(s.take(s.len() as int) =~= s);
        assert(u.take(u.len() as int) =~= u);
    }
    assert(sort_ranges(pushed) == u);
    assert(merge_ranges(u) == s);
}

/// The free list of the per-object joint buffer.
pub struct JointRangeAllocator {
    free_ranges: Vec<PerObjectJointAllocation>,
}

impl JointRangeAllocator {
    pub closed spec fn ranges(&self) -> Seq<PerObjectJointAllocation> {
        self.free_ranges@
    }

    /// A free list made of the single range `[0, capacity)`.
    pub fn new(capacity: u32) -> (r: Self)
        ensures
            r.ranges() == seq![PerObjectJointAllocation { offset: 0, count: capacity }],
    {
        let mut free_ranges = Vec::new();
        free_ranges.push(PerObjectJointAllocation { offset: 0, count: capacity });
        JointRangeAllocator { free_ranges }
    }

    /// First-fit reservation of `joint_count` slots: the front of the first
    /// free range that is large enough; `None` for a zero count or when no
    /// range is large enough.
    pub fn reserve(&mut self, joint_count: u32) -> (r: Option<PerObjectJointAllocation>)
        requires
            bounded(old(self).ranges()),
        ensures
            bounded(final(self).ranges()),
            joint_count == 0 ==> r is None && final(self).ranges() == old(self).ranges(),
            joint_count > 0 ==> match first_fit(old(self).ranges(), joint_count) {
                None => r is None && final(self).ranges() == old(self).ranges(),
                Some(i) => {
                    &&& r == Some(PerObjectJointAllocation { offset: old(self).ranges()[i].offset, count: joint_count })
                    &&& final(self).ranges() == take_from(old(self).ranges(), i, joint_count)
                },
            },
    {
        if joint_count == 0 {
            return None;
        }
        proof {
            lemma_first_fit(self.free_ranges@, joint_count);
        }
        let n = self.free_ranges.len();
        let mut index: usize = 0;
        while index < n && self.free_ranges[index].count < joint_count
            invariant
                n == self.free_ranges@.len(),
                index <= n,
                forall|j: int| 0 <= j < index ==> (#[trigger] self.free_ranges@[j]).count < joint_count,
            decreases n - index,
        {
            index = index + 1;
        }
        if index == n {
            return None;
        }
        let range = self.free_ranges[index];
        proof {
            assert(range_end(self.free_ranges@[index as int]) <= u32::MAX);
            match first_fit(self.free_ranges@, joint_count) {
                Some(k) => {
                    if k < index {
                        assert(self.free_ranges@[k].count < joint_count);
                    }
                },
                None => {},
            }
        }
        let allocation = PerObjectJointAllocation { offset: range.offset, count: joint_count };
        if range.count == joint_count {
            self.free_ranges.remove(index);
            proof {
                let old_s = old(self).free_ranges@;
                assert forall|i: int| 0 <= i < self.free_ranges@.len() implies range_end(#[trigger] self.free_ranges@[i]) <= u32::MAX by {
                    if i < index {
                        assert(self.free_ranges@[i] == old_s[i]);
                    } else {
                        assert(self.free_ranges@[i] == old_s[i + 1]);
                    }
                }
            }
        } else {
            self.free_ranges.set(index, PerObjectJointAllocation {
                offset: range.offset + joint_count,
                count: range.count - joint_count,
            });
        }
        Some(allocation)
    }

    /// Returns `allocation` to the free list and coalesces it.
    pub fn free(&mut self, allocation: PerObjectJointAllocation)
        requires
            bounded(old(self).ranges()),
            range_end(allocation) <= u32::MAX,
        ensures
            bounded(final(self).ranges()),
            allocation.count == 0 ==> final(self).ranges() == old(self).ranges(),
            allocation.count > 0 ==> final(self).ranges() == coalesced(old(self).ranges().push(allocation)),
    {
        if allocation.count == 0 {
            return;
        }
        self.free_ranges.push(allocation);
        self.coalesce_free_ranges();
    }

    fn coalesce_free_ranges(&mut self)
        requires
            bounded(old(self).ranges()),
        ensures
            bounded(final(self).ranges()),
            final(self).ranges() == coalesced(old(self).ranges()),
    {
        if self.free_ranges.len() <= 1 {
            proof {
                let s = self.free_ranges@;
                if s.len() == 1 {
                    assert(s.drop_last() =~= Seq::<PerObjectJointAllocation>::empty());
                    assert(sort_ranges(s.drop_last()) =~= Seq::<PerObjectJointAllocation>::empty());
                    assert(insert_sorted(s.last(), Seq::<PerObjectJointAllocation>::empty()) =~= s);
                    assert(sort_ranges(s) =~= s);
                    assert(merge_ranges(s.drop_last()) =~= Seq::<PerObjectJointAllocation>::empty());
                    assert(merge_step(Seq::<PerObjectJointAllocation>::empty(), s.last()) =~= s);
                    assert(merge_ranges(s) =~= s);
                }
            }
            return;
        }
        let sorted = sort_allocations(&self.free_ranges);
        proof {
            lemma_sort_bounded(self.free_ranges@);
        }
        self.free_ranges = merge_allocations(&sorted);
    }
}

fn key_le_exec(a: PerObjectJointAllocation, b: PerObjectJointAllocation) -> (r: bool)
    ensures
        r == key_le(a, b),
{
    a.offset < b.offset || (a.offset == b.offset && a.count <= b.count)
}

/// Insertion sort by `key_le`.
fn sort_allocations(v: &Vec<PerObjectJointAllocation>) -> (r: Vec<PerObjectJointAllocation>)
    ensures
        r@ == sort_ranges(v@),
{
    let mut r: Vec<PerObjectJointAllocation> = Vec::new();
    let n = v.len();
    let mut i: usize = 0;
    assert(v@.take(0) =~= Seq::<PerObjectJointAllocation>::empty());
    while i < n
        invariant
            n == v@.len(),
            i <= n,
            r@ == sort_ranges(v@.take(i as int)),
        decreases n - i,
    {
        let x = v[i];
        let m = r.len();
        let mut p: usize = 0;
        while p < m && !key_le_exec(x, r[p])
            invariant
                m == r@.len(),
                p <= m,
                forall|j: int| 0 <= j < p ==> !key_le(x, #[trigger] r@[j]),
            decreases m - p,
        {
            p = p + 1;
        }
        proof {
            lemma_insert_sorted_at(x, r@, p as int);
            let t = v@.take(i + 1);
            assert(t.drop_last() =~= v@.take(i as int));
            assert(t.last() == x);
        }
        r.insert(p, x);
        i = i + 1;
    }
    assert(v@.take(n as int) =~= v@);
    r
}

/// Fuses touching neighbours of an already sorted list, left to right.
fn merge_allocations(v: &Vec<PerObjectJointAllocation>) -> (r: Vec<PerObjectJointAllocation>)
    requires
        bounded(v@),
    ensures
        r@ == merge_ranges(v@),
        bounded(r@),
{
    let mut merged: Vec<PerObjectJointAllocation> = Vec::new();
    let n = v.len();
    let mut i: usize = 0;
    assert(v@.take(0) =~= Seq::<PerObjectJointAllocation>::empty());
    while i < n
        invariant
            n == v@.len(),
            i <= n,
            bounded(v@),
            merged@ == merge_ranges(v@.take(i as int)),
            bounded(merged@),
        decreases n - i,
    {
        let range = v[i];
        proof {
            let t = v@.take(i + 1);
            assert(t.drop_last() =~= v@.take(i as int));
            assert(t.last() == range);
            assert(range_end(v@[i as int]) <= u32::MAX);
        }
        let len = merged.len();
        if len > 0 && merged[len - 1].offset as u64 + merged[len - 1].count as u64 == range.offset as u64 {
            let last = merged[len - 1];
            let ghost before = merged@;
            merged.set(len - 1, PerObjectJointAllocation { offset: last.offset, count: last.count + range.count });
            proof {
                assert(merged@ =~= merge_step(merge_ranges(v@.take(i as int)), range));
                assert forall|k: int| 0 <= k < merged@.len() implies range_end(#[trigger] merged@[k]) <= u32::MAX by {
                    if k < len - 1 {
                        assert(merged@[k] == before[k]);
                    }
                }
            }
        } else {
            merged.push(range);
            proof {
                assert(merged@ =~= merge_step(merge_ranges(v@.take(i as int)), range));
            }
        }
        i = i + 1;
    }
    assert(v@.take(n as int) =~= v@);
    merged
}

} // verus!

verus! {

/// A vector of `n` copies of `value`.
pub fn filled<T: Copy>(value: T, n: usize) -> (v: Vec<T>)
    ensures
        v@ == Seq::new(n as nat, |_i: int| value),
{
    let mut v: Vec<T> = Vec::new();
    let mut i: usize = 0;
    while i < n
        invariant
            i <= n,
            v@ == Seq::new(i as nat, |_i: int| value),
        decreases n - i,
    {
        v.push(value);
        i = i + 1;
        assert(v@ =~= Seq::new(i as nat, |_i: int| value));
    }
    v
}

/// Number of joint transforms in the per-object joint buffer.
pub const PER_OBJECT_JOINT_CAPACITY: u32 = 16384;

/// The per-object joint buffer: a host mirror of the joint transforms, the
/// free list of joint runs and the byte range still to be uploaded.
pub struct ReservedPerObjJoints<T> {
    joints: Vec<T>,
    allocator: JointRangeAllocator,
    dirty: DirtyRange,
}

impl<T: Copy> ReservedPerObjJoints<T> {
    pub closed spec fn contents(&self) -> Seq<T> {
        self.joints@
    }

    pub closed spec fn free_ranges(&self) -> Seq<PerObjectJointAllocation> {
        self.allocator.ranges()
    }

    pub closed spec fn pending(&self) -> DirtyRange {
        self.dirty
    }

    pub closed spec fn wf(&self) -> bool {
        &&& bounded(self.allocator.ranges())
        &&& self.joints@.len() == PER_OBJECT_JOINT_CAPACITY
        &&& PER_OBJECT_JOINT_CAPACITY * vstd::layout::size_of::<T>() <= u32::MAX
    }

    /// A buffer of `PER_OBJECT_JOINT_CAPACITY` copies of `initial`, all free.
    pub fn new(initial: T) -> (r: Self)
        requires
            PER_OBJECT_JOINT_CAPACITY * vstd::layout::size_of::<T>() <= u32::MAX,
        ensures
            r.wf(),
            r.contents() == Seq::new(PER_OBJECT_JOINT_CAPACITY as nat, |_i: int| initial),
            r.free_ranges() == seq![PerObjectJointAllocation { offset: 0, count: PER_OBJECT_JOINT_CAPACITY }],
            !r.pending().dirty,
    {
        ReservedPerObjJoints {
            joints: filled(initial, PER_OBJECT_JOINT_CAPACITY as usize),
            allocator: JointRangeAllocator::new(PER_OBJECT_JOINT_CAPACITY),
            dirty: DirtyRange::new(),
        }
    }

    /// First-fit reservation of `joint_count` consecutive joints.
    pub fn reserve(&mut self, joint_count: u32) -> (r: Option<PerObjectJointAllocation>)
        requires
            old(self).wf(),
        ensures
            final(self).wf(),
            final(self).contents() == old(self).contents(),
            final(self).pending() == old(self).pending(),
            joint_count == 0 ==> r is None && final(self).free_ranges() == old(self).free_ranges(),
            joint_count > 0 ==> match first_fit(old(self).free_ranges(), joint_count) {
                None => r is None && final(self).free_ranges() == old(self).free_ranges(),
                Some(i) => {
                    &&& r == Some(PerObjectJointAllocation { offset: old(self).free_ranges()[i].offset, count: joint_count })
                    &&& final(self).free_ranges() == take_from(old(self).free_ranges(), i, joint_count)
                },
            },
    {
        self.allocator.reserve(joint_count)
    }

    /// Returns a run of joints to the free list.
    pub fn free(&mut self, allocation: PerObjectJointAllocation)
        requires
            old(self).wf(),
            range_end(allocation) <= u32::MAX,
        ensures
            final(self).wf(),
            final(self).contents() == old(self).contents(),
            final(self).pending() == old(self).pending(),
            allocation.count == 0 ==> final(self).free_ranges() == old(self).free_ranges(),
            allocation.count > 0 ==> final(self).free_ranges() == coalesced(old(self).free_ranges().push(allocation)),
    {
        self.allocator.free(allocation);
    }

    /// The joints of `allocation`.
    pub fn joints_for(&self, allocation: PerObjectJointAllocation) -> (r: &[T])
        requires
            range_end(allocation) <= self.contents().len(),
        ensures
            r@ == self.contents().subrange(allocation.offset as int, range_end(allocation)),
    {
        let start = allocation.offset as usize;
        let _len = self.joints.len();
        let end = start + allocation.count as usize;
        vstd::slice::slice_subrange(self.joints.as_slice(), start, end)
    }

    /// Writes joint `index` of `allocation`, marking the whole allocation as
    /// pending upload.
    pub fn set_joint_for(&mut self, allocation: PerObjectJointAllocation, index: u32, value: T)
        requires
            old(self).wf(),
            range_end(allocation) <= old(self).contents().len(),
            index < allocation.count,
        ensures
            final(self).wf(),
            final(self).contents() == old(self).contents().update(allocation.offset + index, value),
            final(self).free_ranges() == old(self).free_ranges(),
            final(self).pending() == marked(
                old(self).pending(),
                (allocation.offset * vstd::layout::size_of::<T>()) as u32,
                (allocation.count * vstd::layout::size_of::<T>()) as u32,
            ),
    {
        proof {
            let s = vstd::layout::size_of::<T>() as int;
            vstd::arithmetic::mul::lemma_mul_inequality(allocation.offset as int, PER_OBJECT_JOINT_CAPACITY as int, s);
            vstd::arithmetic::mul::lemma_mul_inequality(allocation.count as int, PER_OBJECT_JOINT_CAPACITY as int, s);
        }
        self.dirty.mark_elements::<T>(allocation.offset as usize, allocation.count as usize);
        self.joints.set((allocation.offset + index) as usize, value);
    }

    /// All joints of the buffer.
    pub fn joints(&self) -> (r: &[T])
        ensures
            r@ == self.contents(),
    {
        self.joints.as_slice()
    }

    /// Writes joint `index` of the buffer, marking the whole buffer as
    /// pending upload.
    pub fn set_joint(&mut self, index: u32, value: T)
        requires
            old(self).wf(),
            index < old(self).contents().len(),
        ensures
            final(self).wf(),
            final(self).contents() == old(self).contents().update(index as int, value),
            final(self).free_ranges() == old(self).free_ranges(),
            final(self).pending() == marked(
                old(self).pending(),
                0,
                (PER_OBJECT_JOINT_CAPACITY * vstd::layout::size_of::<T>()) as u32,
            ),
    {
        let len = self.joints.len();
        self.dirty.mark_elements::<T>(0, len);
        self.joints.set(index as usize, value);
    }

    /// The byte range `(start, end)` to upload, clearing it.
    pub fn take_pending(&mut self) -> (r: Option<(u32, u32)>)
        requires
            old(self).wf(),
        ensures
            final(self).wf(),
            final(self).contents() == old(self).contents(),
            final(self).free_ranges() == old(self).free_ranges(),
            !final(self).pending().dirty,
            r == (if old(self).pending().dirty {
                Some((old(self).pending().start, old(self).pending().end))
            } else {
                None::<(u32, u32)>
            }),
    {
        self.dirty.take()
    }
}

} // verus!
