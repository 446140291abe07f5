use crate::geometry::{Point, Rect};
use vstd::prelude::*;

verus! {

/// The order key of a room: the column of its center.
pub open spec fn center_x(r: Rect) -> int {
    r.spec_center().x as int
}

/// No two rooms at different places of the list intersect.
pub open spec fn pairwise_disjoint(s: Seq<Rect>) -> bool {
    forall|i: int, j: int|
        0 <= i < s.len() && 0 <= j < s.len() && i != j ==> !(#[trigger] s[i]).spec_intersect(
            #[trigger] s[j],
        )
}

/// `r` intersects no room of `s`.
pub open spec fn clear_of(s: Seq<Rect>, r: Rect) -> bool {
    forall|i: int| 0 <= i < s.len() ==> !(#[trigger] s[i]).spec_intersect(r)
}

/// Some room of `s` has its center at `p`.
pub open spec fn is_center_of_some(s: Seq<Rect>, p: Point) -> bool {
    exists|i: int| 0 <= i < s.len() && (#[trigger] s[i]).spec_center() == p
}

/// The rooms in ascending order of `center_x`.
pub open spec fn sorted_by_center(s: Seq<Rect>) -> bool {
    forall|i: int, j: int| 0 <= i < j < s.len() ==> center_x(#[trigger] s[i]) <= center_x(#[trigger] s[j])
}

/// Puts `r` into `s` after every room whose key is at most that of `r`.
pub open spec fn insert_by_center(s: Seq<Rect>, r: Rect) -> Seq<Rect>
    decreases s.len(),
{
    if s.len() == 0 {
        seq![r]
    } else if center_x(s.last()) <= center_x(r) {
        s.push(r)
    } else {
        insert_by_center(s.drop_last(), r).push(s.last())
    }
}

/// Stable sort by `center_x`: rooms with equal keys keep their order.
pub open spec fn sort_by_center(s: Seq<Rect>) -> Seq<Rect>
    decreases s.len(),
{
    if s.len() == 0 {
        s
    } else {
        insert_by_center(sort_by_center(s.drop_last()), s.last())
    }
}

proof fn lemma_insert_facts(s: Seq<Rect>, r: Rect)
    ensures
        insert_by_center(s, r).len() == s.len() + 1,
        forall|k: int|
            0 <= k < insert_by_center(s, r).len() ==> (#[trigger] insert_by_center(s, r)[k]) == r
                || s.contains(insert_by_center(s, r)[k]),
        insert_by_center(s, r).contains(r),
        forall|k: int| 0 <= k < s.len() ==> insert_by_center(s, r).contains(#[trigger] s[k]),
    decreases s.len(),
{
    let t = insert_by_center(s, r);
    if s.len() == 0 {
        assert(t[0] == r);
    } else if center_x(s.last()) <= center_x(r) {
        assert(t[s.len() as int] == r);
        assert forall|k: int| 0 <= k < s.len() implies t.contains(#[trigger] s[k]) by {
            assert(t[k] == s[k]);
        }
    } else {
        let d = s.drop_last();
        lemma_insert_facts(d, r);
        let u = insert_by_center(d, r);
        assert forall|k: int| 0 <= k < t.len() implies (#[trigger] t[k]) == r || s.contains(
            t[k],
        ) by {
            if k < u.len() {
                assert(t[k] == u[k]);
                if u[k] != r {
                    let m = choose|m: int| 0 <= m < d.len() && d[m] == u[k];
                    assert(s[m] == d[m]);
                }
            } else {
                assert(t[k] == s[s.len() - 1]);
            }
        }
        let m = choose|m: int| 0 <= m < u.len() && u[m] == r;
        assert(t[m] == r);
        assert forall|k: int| 0 <= k < s.len() implies t.contains(#[trigger] s[k]) by {
            if k < d.len() {
                assert(d[k] == s[k]);
                let m = choose|m: int| 0 <= m < u.len() && u[m] == d[k];
                assert(t[m] == u[m]);
            } else {
                assert(t[u.len() as int] == s[k]);
            }
        }
    }
}

proof fn lemma_insert_disjoint(s: Seq<Rect>, r: Rect)
    requires
        pairwise_disjoint(s),
        clear_of(s, r),
    ensures
        pairwise_disjoint(insert_by_center(s, r)),
    decreases s.len(),
{
    let t = insert_by_center(s, r);
    if s.len() == 0 {
    } else if center_x(s.last()) <= center_x(r) {
        assert forall|i: int, j: int|
            0 <= i < t.len() && 0 <= j < t.len() && i != j implies !(#[trigger] t[i]).spec_intersect(
            #[trigger] t[j],
        ) by {
            if i < s.len() && j < s.len() {
                assert(t[i] == s[i] && t[j] == s[j]);
            } else if i < s.len() {
                assert(t[i] == s[i]);
            } else {
                assert(t[j] == s[j]);
            }
        }
    } else {
        let d = s.drop_last();
        let last = s.last();
        assert(pairwise_disjoint(d)) by {
            assert forall|i: int, j: int|
                0 <= i < d.len() && 0 <= j < d.len() && i != j implies !(#[trigger] d[i]).spec_intersect(
                #[trigger] d[j],
            ) by {
                assert(d[i] == s[i] && d[j] == s[j]);
            }
        }
        assert(clear_of(d, r)) by {
            assert forall|i: int| 0 <= i < d.len() implies !(#[trigger] d[i]).spec_intersect(r) by {
                assert(d[i] == s[i]);
            }
        }
        lemma_insert_disjoint(d, r);
        lemma_insert_facts(d, r);
        let u = insert_by_center(d, r);
        assert forall|i: int, j: int|
            0 <= i < t.len() && 0 <= j < t.len() && i != j implies !(#[trigger] t[i]).spec_intersect(
            #[trigger] t[j],
        ) by {
            if i < u.len() && j < u.len() {
                assert(t[i] == u[i] && t[j] == u[j]);
            } else {
                let k = if i < u.len() {
                    i
                } else {
                    j
                };
                assert(t[k] == u[k]);
                assert(t[u.len() as int] == last);
                if u[k] == r {
                    assert(!s[s.len() - 1].spec_intersect(r));
                } else {
                    let m = choose|m: int| 0 <= m < d.len() && d[m] == u[k];
                    assert(s[m] == d[m]);
                    assert(!s[m].spec_intersect(s[s.len() - 1]));
                }
            }
        }
    }
}

proof fn lemma_insert_sorted(s: Seq<Rect>, r: Rect)
    requires
        sorted_by_center(s),
    ensures
        sorted_by_center(insert_by_center(s, r)),
    decreases s.len(),
{
    let t = insert_by_center(s, r);
    if s.len() == 0 {
    } else if center_x(s.last()) <= center_x(r) {
        assert forall|i: int, j: int| 0 <= i < j < t.len() implies center_x(#[trigger] t[i])
            <= center_x(#[trigger] t[j]) by {
            assert(t[i] == s[i]);
            if j < s.len() {
                assert(t[j] == s[j]);
            } else {
                if i < s.len() - 1 {
                    assert(center_x(s[i]) <= center_x(s[s.len() - 1]));
                }
            }
        }
    } else {
        let d = s.drop_last();
        let last = s.last();
        assert(sorted_by_center(d)) by {
            assert forall|i: int, j: int| 0 <= i < j < d.len() implies center_x(#[trigger] d[i])
                <= center_x(#[trigger] d[j]) by {
                assert(d[i] == s[i] && d[j] == s[j]);
            }
        }
        lemma_insert_sorted(d, r);
        lemma_insert_facts(d, r);
        let u = insert_by_center(d, r);
        assert forall|i: int, j: int| 0 <= i < j < t.len() implies center_x(#[trigger] t[i])
            <= center_x(#[trigger] t[j]) by {
            assert(t[i] == u[i]);
            if j < u.len() {
                assert(t[j] == u[j]);
            } else {
                assert(t[j] == last);
                if u[i] != r {
                    let m = choose|m: int| 0 <= m < d.len() && d[m] == u[i];
                    assert(s[m] == d[m]);
                    assert(center_x(s[m]) <= center_x(s[s.len() - 1]));
                }
            }
        }
    }
}

/// The stable sort by center column keeps the rooms, puts them in order, and keeps
/// them pairwise apart.
pub proof fn lemma_sort_by_center(s: Seq<Rect>)
    ensures
        sort_by_center(s).len() == s.len(),
        sorted_by_center(sort_by_center(s)),
        forall|k: int| 0 <= k < s.len() ==> sort_by_center(s).contains(#[trigger] s[k]),
        forall|k: int| 0 <= k < s.len() ==> s.contains(#[trigger] sort_by_center(s)[k]),
        pairwise_disjoint(s) ==> pairwise_disjoint(sort_by_center(s)),
    decreases s.len(),
{
    if s.len() > 0 {
        let d = s.drop_last();
        let last = s.last();
        lemma_sort_by_center(d);
        let sd = sort_by_center(d);
        lemma_insert_facts(sd, last);
        lemma_insert_sorted(sd, last);
        let t = sort_by_center(s);
        assert forall|k: int| 0 <= k < s.len() implies t.contains(#[trigger] s[k]) by {
            if k < d.len() {
                assert(d[k] == s[k]);
                let m = choose|m: int| 0 <= m < sd.len() && sd[m] == d[k];
                assert(t.contains(sd[m]));
            }
        }
        assert forall|k: int| 0 <= k < s.len() implies s.contains(#[trigger] t[k]) by {
            if t[k] != last {
                let m = choose|m: int| 0 <= m < sd.len() && sd[m] == t[k];
                let n = choose|n: int| 0 <= n < d.len() && d[n] == sd[m];
                assert(s[n] == d[n]);
            } else {
                assert(s[s.len() - 1] == last);
            }
        }
        if pairwise_disjoint(s) {
            assert(pairwise_disjoint(d)) by {
                assert forall|i: int, j: int|
                    0 <= i < d.len() && 0 <= j < d.len() && i != j implies !(#[trigger] d[i]).spec_intersect(
                    #[trigger] d[j],
                ) by {
                    assert(d[i] == s[i] && d[j] == s[j]);
                }
            }
            assert(clear_of(sd, last)) by {
                assert forall|i: int| 0 <= i < sd.len() implies !(#[trigger] sd[i]).spec_intersect(
                    last,
                ) by {
                    let n = choose|n: int| 0 <= n < d.len() && d[n] == sd[i];
                    assert(s[n] == d[n]);
                    assert(!s[n].spec_intersect(s[s.len() - 1]));
                }
            }
            lemma_insert_disjoint(sd, last);
        }
    }
}

/// Sorts the rooms by center column, keeping the order of rooms with equal keys.
pub fn sort_rooms(rooms: &mut Vec<Rect>)
    ensures
        final(rooms)@ == sort_by_center(old(rooms)@),
{
    let n = rooms.len();
    let ghost orig = rooms@;
    let mut i: usize = 0;
    while i < n
        invariant
            n == rooms@.len(),
            n == orig.len(),
            i <= n,
            rooms@.subrange(0, i as int) == sort_by_center(orig.subrange(0, i as int)),
            rooms@.subrange(i as int, n as int) == orig.subrange(i as int, n as int),
        decreases n - i,
    {
        let r = rooms[i];
        let key = r.center().x;
        let ghost sorted = rooms@.subrange(0, i as int);
        let ghost rest = orig.subrange(i as int + 1, n as int);
        proof {
            lemma_insert_facts(sorted, r);
            assert(rooms@ =~= sorted.subrange(0, i as int) + seq![r] + sorted.subrange(
                i as int,
                i as int,
            ) + rest) by {
                assert(rooms@.subrange(i as int, n as int)[0] == rooms@[i as int]);
                assert(orig.subrange(i as int, n as int)[0] == orig[i as int]);
                assert forall|k: int| i < k < n implies rooms@[k] == rest[k - i - 1] by {
                    assert(rooms@.subrange(i as int, n as int)[k - i] == rooms@[k]);
                    assert(orig.subrange(i as int, n as int)[k - i] == orig[k]);
                }
            }
        }
        proof {
            assert(orig.subrange(i as int, n as int)[0] == orig[i as int]);
            assert(rooms@.subrange(i as int, n as int)[0] == rooms@[i as int]);
            assert(r == orig[i as int]);
            assert(sorted.subrange(0, i as int) =~= sorted);
            assert(insert_by_center(sorted, r) + sorted.subrange(i as int, i as int)
                =~= insert_by_center(sorted, r));
        }
        let mut j: usize = i;
        while j > 0 && rooms[j - 1].center().x > key
            invariant
                n == rooms@.len(),
                0 <= j <= i < n,
                key == center_x(r),
                r == orig[i as int],
                sorted.len() == i,
                rooms@ =~= sorted.subrange(0, j as int) + seq![r] + sorted.subrange(
                    j as int,
                    i as int,
                ) + rest,
                insert_by_center(sorted, r) == insert_by_center(sorted.subrange(0, j as int), r)
                    + sorted.subrange(j as int, i as int),
            decreases j,
        {
            let prev = rooms[j - 1];
            proof {
                assert(prev == sorted[j - 1]);
                let a = sorted.subrange(0, j as int);
                assert(a.drop_last() =~= sorted.subrange(0, j - 1));
                assert(a.last() == prev);
                assert(insert_by_center(a, r) == insert_by_center(
                    sorted.subrange(0, j - 1),
                    r,
                ).push(prev));
                assert(insert_by_center(a, r) + sorted.subrange(j as int, i as int) =~= insert_by_center(
                    sorted.subrange(0, j - 1),
                    r,
                ) + sorted.subrange(j - 1, i as int));
            }
            rooms.set(j, prev);
            rooms.set(j - 1, r);
            j = j - 1;
        }
        proof {
            let a = sorted.subrange(0, j as int);
            if j == 0 {
                assert(insert_by_center(a, r) =~= seq![r]);
            } else {
                assert(a.last() == sorted[j - 1]);
                assert(insert_by_center(a, r) == a.push(r));
            }
            let whole = orig.subrange(0, i as int + 1);
            assert(whole.drop_last() =~= orig.subrange(0, i as int));
            assert(whole.last() == r);
            assert(rooms@.subrange(0, i as int + 1) =~= insert_by_center(a, r) + sorted.subrange(
                j as int,
                i as int,
            ));
            assert(rooms@.subrange(i as int + 1, n as int) =~= orig.subrange(i as int + 1, n as int));
        }
        i = i + 1;
    }
    proof {
        assert(rooms@ =~= rooms@.subrange(0, n as int));
        assert(orig =~= orig.subrange(0, n as int));
    }
}

} // verus!
