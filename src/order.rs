//! Chronological order of periods, stable among periods that start together.
use vstd::prelude::*;
use crate::model::Period;

verus! {

/// `a` starts strictly before `b`: compared by date, then start time.
pub open spec fn before(a: Period, b: Period) -> bool {
    let (x, y) = (a.date, b.date);
    let (s, t) = (a.start_time, b.start_time);
    x.year < y.year || (x.year == y.year && (x.month < y.month || (x.month == y.month && (x.day
        < y.day || (x.day == y.day && (s.hour < t.hour || (s.hour == t.hour && s.minute
        < t.minute)))))))
}

/// `a` and `b` share date and start time.
pub open spec fn same_start(a: Period, b: Period) -> bool {
    a.date == b.date && a.start_time == b.start_time
}

/// Inserts index `i` into the ordered indices `s`, after every period that
/// does not start later.
pub open spec fn insert_in_order(ps: Seq<Period>, s: Seq<usize>, i: usize) -> Seq<usize>
    decreases s.len(),
{
    if s.len() == 0 {
        seq![i]
    } else if before(ps[i as int], ps[s.last() as int]) {
        insert_in_order(ps, s.drop_last(), i).push(s.last())
    } else {
        s.push(i)
    }
}

/// The indices of the first `n` periods in chronological order, ties in index order.
pub open spec fn chronological_upto(ps: Seq<Period>, n: nat) -> Seq<usize>
    decreases n,
{
    if n == 0 {
        Seq::empty()
    } else {
        insert_in_order(ps, chronological_upto(ps, (n - 1) as nat), (n - 1) as usize)
    }
}

pub open spec fn chronological(ps: Seq<Period>) -> Seq<usize> {
    chronological_upto(ps, ps.len())
}

fn starts_before(a: &Period, b: &Period) -> (r: bool)
    ensures
        r == before(*a, *b),
{
    let (x, y) = (a.date, b.date);
    let (s, t) = (a.start_time, b.start_time);
    if x.year != y.year {
        x.year < y.year
    } else if x.month != y.month {
        x.month < y.month
    } else if x.day != y.day {
        x.day < y.day
    } else if s.hour != t.hour {
        s.hour < t.hour
    } else {
        s.minute < t.minute
    }
}

/// The indices of `periods` sorted by date and start time; periods that start
/// together keep their relative order.
pub fn chronological_order(periods: &Vec<Period>) -> (r: Vec<usize>)
    ensures
        r@ == chronological(periods@),
        r@.len() == periods@.len(),
        forall|k: int| 0 <= k < r@.len() ==> r@[k] < periods@.len(),
{
    let n = periods.len();
    let mut order: Vec<usize> = Vec::new();
    let mut i: usize = 0;
    while i < n
        invariant
            n == periods@.len(),
            i <= n,
            order@ == chronological_upto(periods@, i as nat),
            order@.len() == i,
            forall|k: int| 0 <= k < order@.len() ==> order@[k] < i,
        decreases n - i,
    {
        let mut p = order.len();
        assert(order@.take(p as int) == order@);
        assert(order@.skip(p as int) == Seq::<usize>::empty());
        assert(insert_in_order(periods@, order@, i) == insert_in_order(periods@, order@.take(p as int), i) + order@.skip(p as int));
        while p > 0 && starts_before(&periods[i], &periods[order[p - 1]])
            invariant
                n == periods@.len(),
                i < n,
                p <= order@.len(),
                order@.len() == i,
                forall|k: int| 0 <= k < order@.len() ==> order@[k] < i,
                insert_in_order(periods@, order@, i as usize) == insert_in_order(
                    periods@,
                    order@.take(p as int),
                    i as usize,
                ) + order@.skip(p as int),
            decreases p,
        {
            let ghost pre = order@.take(p as int);
            assert(pre.drop_last() == order@.take(p - 1));
            assert(pre.last() == order@[p - 1]);
            assert(order@.skip(p - 1) == seq![order@[p - 1]] + order@.skip(p as int));
            assert(insert_in_order(periods@, pre, i) == insert_in_order(periods@, order@.take(p - 1), i).push(order@[p - 1]));
            p = p - 1;
            assert(insert_in_order(periods@, order@, i as usize) == insert_in_order(
                periods@,
                order@.take(p as int),
                i as usize,
            ) + order@.skip(p as int));
        }
        proof {
            let pre = order@.take(p as int);
            if p > 0 {
                assert(pre.last() == order@[p - 1]);
                assert(insert_in_order(periods@, pre, i) == pre.push(i));
            } else {
                assert(pre == Seq::<usize>::empty());
            }
            assert(order@.insert(p as int, i) == insert_in_order(periods@, pre, i) + order@.skip(p as int));
        }
        order.insert(p, i);
        i = i + 1;
    }
    order
}

/// Index `x` may stand before index `y` in chronological order.
pub open spec fn ordered_pair(ps: Seq<Period>, x: usize, y: usize) -> bool {
    before(ps[x as int], ps[y as int]) || (!before(ps[y as int], ps[x as int]) && x < y)
}

pub open spec fn well_ordered(ps: Seq<Period>, s: Seq<usize>) -> bool {
    forall|a: int, b: int|
        0 <= a < b < s.len() ==> #[trigger] ordered_pair(ps, s[a], s[b])
}

proof fn lemma_insert_in_order(ps: Seq<Period>, s: Seq<usize>, i: usize)
    requires
        i < ps.len(),
        forall|a: int| 0 <= a < s.len() ==> s[a] < i,
        well_ordered(ps, s),
    ensures
        insert_in_order(ps, s, i).len() == s.len() + 1,
        insert_in_order(ps, s, i).contains(i),
        forall|a: int|
            0 <= a < insert_in_order(ps, s, i).len() ==> (#[trigger] insert_in_order(ps, s, i)[a]
                == i || s.contains(insert_in_order(ps, s, i)[a])),
        forall|x: usize| s.contains(x) ==> insert_in_order(ps, s, i).contains(x),
        well_ordered(ps, insert_in_order(ps, s, i)),
    decreases s.len(),
{
    let r = insert_in_order(ps, s, i);
    if s.len() == 0 {
        assert(r[0] == i);
    } else if before(ps[i as int], ps[s.last() as int]) {
        let d = s.drop_last();
        let last = s.last();
        assert forall|a: int, b: int| 0 <= a < b < d.len() implies #[trigger] ordered_pair(
            ps,
            d[a],
            d[b],
        ) by {
            assert(ordered_pair(ps, s[a], s[b]));
        }
        lemma_insert_in_order(ps, d, i);
        let r2 = insert_in_order(ps, d, i);
        assert(r == r2.push(last));
        assert(r[r.len() - 1] == last);
        assert forall|a: int| 0 <= a < r.len() implies (#[trigger] r[a] == i || s.contains(
            r[a],
        )) by {
            if a < r2.len() {
                assert(r[a] == r2[a]);
                if r2[a] != i {
                    let q = choose|q: int| 0 <= q < d.len() && d[q] == r2[a];
                    assert(s[q] == r[a]);
                }
            } else {
                assert(s[s.len() - 1] == r[a]);
            }
        }
        assert(r2.contains(i));
        let pi = choose|q: int| 0 <= q < r2.len() && r2[q] == i;
        assert(r[pi] == i);
        assert forall|x: usize| s.contains(x) implies r.contains(x) by {
            let q = choose|q: int| 0 <= q < s.len() && s[q] == x;
            if q < d.len() {
                assert(d[q] == x);
                assert(d.contains(x));
                let q2 = choose|q2: int| 0 <= q2 < r2.len() && r2[q2] == x;
                assert(r[q2] == x);
            } else {
                assert(r[r.len() - 1] == x);
            }
        }
        assert forall|a: int, b: int| 0 <= a < b < r.len() implies #[trigger] ordered_pair(
            ps,
            r[a],
            r[b],
        ) by {
            if b < r2.len() {
                assert(r[a] == r2[a] && r[b] == r2[b]);
                assert(ordered_pair(ps, r2[a], r2[b]));
            } else {
                assert(r[a] == r2[a]);
                assert(r[b] == last);
                if r2[a] != i {
                    let q = choose|q: int| 0 <= q < d.len() && d[q] == r2[a];
                    assert(ordered_pair(ps, s[q], s[s.len() - 1]));
                }
            }
        }
    } else {
        let last = s.last();
        assert(r == s.push(i));
        assert(r[r.len() - 1] == i);
        assert forall|a: int| 0 <= a < r.len() implies (#[trigger] r[a] == i || s.contains(
            r[a],
        )) by {
            if a < s.len() {
                assert(r[a] == s[a]);
            }
        }
        assert forall|x: usize| s.contains(x) implies r.contains(x) by {
            let q = choose|q: int| 0 <= q < s.len() && s[q] == x;
            assert(r[q] == x);
        }
        assert forall|a: int, b: int| 0 <= a < b < r.len() implies #[trigger] ordered_pair(
            ps,
            r[a],
            r[b],
        ) by {
            assert(r[a] == s[a]);
            if b < s.len() {
                assert(r[b] == s[b]);
                assert(ordered_pair(ps, s[a], s[b]));
            } else {
                assert(r[b] == i);
                if a < s.len() - 1 {
                    assert(ordered_pair(ps, s[a], s[s.len() - 1]));
                }
            }
        }
    }
}

/// The chronological order holds each of the first `n` indices exactly once,
/// and orders them by start, ties by index.
proof fn lemma_chronological_upto(ps: Seq<Period>, n: nat)
    requires
        n <= ps.len(),
        ps.len() <= usize::MAX,
    ensures
        chronological_upto(ps, n).len() == n,
        forall|a: int|
            0 <= a < chronological_upto(ps, n).len() ==> #[trigger] chronological_upto(ps, n)[a]
                < n,
        forall|k: usize| k < n ==> chronological_upto(ps, n).contains(k),
        well_ordered(ps, chronological_upto(ps, n)),
    decreases n,
{
    if n > 0 {
        let m = (n - 1) as nat;
        lemma_chronological_upto(ps, m);
        let s = chronological_upto(ps, m);
        lemma_insert_in_order(ps, s, m as usize);
        let r = chronological_upto(ps, n);
        assert(r == insert_in_order(ps, s, m as usize));
        assert forall|a: int| 0 <= a < r.len() implies #[trigger] r[a] < n by {
            if r[a] != m as usize {
                let q = choose|q: int| 0 <= q < s.len() && s[q] == r[a];
                assert(s[q] < m);
            }
        }
        assert forall|k: usize| k < n implies r.contains(k) by {
            if k < m {
                assert(s.contains(k));
            }
        }
    }
}

/// Periods that share date and start time keep their relative order: the
/// earlier of the two comes first in the chronological order.
pub proof fn lemma_chronological_is_stable(ps: Seq<Period>, i: usize, j: usize)
    requires
        ps.len() <= usize::MAX,
        i < j < ps.len(),
        same_start(ps[i as int], ps[j as int]),
    ensures
        exists|p: int, q: int|
            #![trigger chronological(ps)[p], chronological(ps)[q]]
            0 <= p < q < chronological(ps).len() && chronological(ps)[p] == i
                && chronological(ps)[q] == j,
{
    lemma_chronological_upto(ps, ps.len());
    let r = chronological(ps);
    assert(r.contains(i));
    assert(r.contains(j));
    let p = choose|p: int| 0 <= p < r.len() && r[p] == i;
    let q = choose|q: int| 0 <= q < r.len() && r[q] == j;
    if q < p {
        assert(ordered_pair(ps, r[q], r[p]));
    }
    assert(p < q);
    assert(r[p] == i && r[q] == j);
}

/// Every index of the chronological order names a period.
pub proof fn lemma_chronological_in_range(ps: Seq<Period>)
    requires
        ps.len() <= usize::MAX,
    ensures
        chronological(ps).len() == ps.len(),
        forall|a: int| 0 <= a < chronological(ps).len() ==> #[trigger] chronological(ps)[a] < ps.len(),
{
    lemma_chronological_upto(ps, ps.len());
}

} // verus!
