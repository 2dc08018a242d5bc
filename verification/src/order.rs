use vstd::prelude::*;

use crate::model::O3;

verus! {

/// The key by which a meeting is listed: upcoming meetings (on or after `today`) first,
/// earliest first; then undated ones; then past ones, most recent first.
pub open spec fn display_key(date: Option<i64>, today: int) -> (int, int) {
    match date {
        Some(d) => if d >= today { (0, d as int) } else { (2, -d) },
        None => (1, 0),
    }
}

/// Lexicographic order on keys.
pub open spec fn key_less(a: (int, int), b: (int, int)) -> bool {
    a.0 < b.0 || (a.0 == b.0 && a.1 < b.1)
}

/// Meeting `i` is listed before meeting `j`: by key, and by index among equal keys (the
/// order is stable).
pub open spec fn shown_before(o3s: Seq<O3>, today: int, i: int, j: int) -> bool {
    let ki = display_key(o3s[i].date_days, today);
    let kj = display_key(o3s[j].date_days, today);
    key_less(ki, kj) || (ki == kj && i < j)
}

/// `order` holds index `i` somewhere.
pub open spec fn lists_index(order: Seq<usize>, i: int) -> bool {
    exists|k: int| 0 <= k < order.len() && order[k] == i
}

/// `order` lists every index of `o3s` once, in display order.
pub open spec fn is_display_order(o3s: Seq<O3>, today: int, order: Seq<usize>) -> bool {
    &&& order.len() == o3s.len()
    &&& forall|k: int| 0 <= k < order.len() ==> order[k] < o3s.len()
    &&& forall|i: int| 0 <= i < o3s.len() ==> #[trigger] lists_index(order, i)
    &&& forall|k: int, l: int|
        #![trigger order[k], order[l]]
        0 <= k < l < order.len() ==> shown_before(o3s, today, order[k] as int, order[l] as int)
}

/// The display order of the meetings on day `today` (there is exactly one: see
/// `lemma_display_order_unique`).
pub open spec fn display_order(o3s: Seq<O3>, today: int) -> Seq<usize> {
    choose|order: Seq<usize>| is_display_order(o3s, today, order)
}

proof fn lemma_shown_before_order(o3s: Seq<O3>, today: int, i: int, j: int, k: int)
    ensures
        !(shown_before(o3s, today, i, j) && shown_before(o3s, today, j, i)),
        i != j ==> shown_before(o3s, today, i, j) || shown_before(o3s, today, j, i),
        shown_before(o3s, today, i, j) && shown_before(o3s, today, j, k) ==> shown_before(o3s, today, i, k),
{
}

/// Two listings that both are in display order are the same: the display order is unique.
pub proof fn lemma_display_order_unique(o3s: Seq<O3>, today: int, s1: Seq<usize>, s2: Seq<usize>)
    requires
        is_display_order(o3s, today, s1),
        is_display_order(o3s, today, s2),
    ensures
        s1 == s2,
{
    lemma_display_order_prefix(o3s, today, s1, s2, s1.len() as int);
    assert(s1 =~= s2);
}

proof fn lemma_display_order_prefix(o3s: Seq<O3>, today: int, s1: Seq<usize>, s2: Seq<usize>, n: int)
    requires
        is_display_order(o3s, today, s1),
        is_display_order(o3s, today, s2),
        0 <= n <= s1.len(),
    ensures
        forall|j: int| 0 <= j < n ==> s1[j] == s2[j],
    decreases n,
{
    if n > 0 {
        let k = n - 1;
        lemma_display_order_prefix(o3s, today, s1, s2, k);
        if s1[k] != s2[k] {
            // where s1[k] stands in s2, and s2[k] in s1
            let a = s1[k] as int;
            let b = s2[k] as int;
            assert(lists_index(s2, a));
            assert(lists_index(s1, b));
            let l = choose|l: int| 0 <= l < s2.len() && s2[l] == a;
            let m = choose|m: int| 0 <= m < s1.len() && s1[m] == b;
            if l < k {
                assert(s1[l] == a);
                lemma_shown_before_order(o3s, today, a, a, a);
                assert(shown_before(o3s, today, s1[l] as int, s1[k] as int));
            } else if m < k {
                assert(s2[m] == b);
                lemma_shown_before_order(o3s, today, b, b, b);
                assert(shown_before(o3s, today, s2[m] as int, s2[k] as int));
            } else {
                assert(l != k);
                assert(m != k);
                assert(shown_before(o3s, today, s2[k] as int, s2[l] as int));
                assert(shown_before(o3s, today, s1[k] as int, s1[m] as int));
                lemma_shown_before_order(o3s, today, a, b, a);
            }
        }
    }
}


/// Where `x` goes in the sorted listing `prev`: after everything listed before it.
proof fn insertion_point(o3s: Seq<O3>, today: int, prev: Seq<usize>, x: usize, k: int) -> (p: int)
    requires
        0 <= k <= prev.len(),
        forall|j: int| 0 <= j < k ==> shown_before(o3s, today, #[trigger] prev[j] as int, x as int),
    ensures
        k <= p <= prev.len(),
        forall|j: int| 0 <= j < p ==> shown_before(o3s, today, #[trigger] prev[j] as int, x as int),
        p < prev.len() ==> !shown_before(o3s, today, prev[p] as int, x as int),
    decreases prev.len() - k,
{
    if k < prev.len() && shown_before(o3s, today, prev[k] as int, x as int) {
        insertion_point(o3s, today, prev, x, k + 1)
    } else {
        k
    }
}

/// A listing of the first `n` meetings in display order.
proof fn sorted_prefix(o3s: Seq<O3>, today: int, n: nat) -> (order: Seq<usize>)
    requires
        n <= o3s.len() <= usize::MAX,
    ensures
        order.len() == n,
        forall|k: int| 0 <= k < order.len() ==> order[k] < n,
        forall|x: int| 0 <= x < n ==> #[trigger] lists_index(order, x),
        forall|k: int, l: int|
            #![trigger order[k], order[l]]
            0 <= k < l < order.len() ==> shown_before(o3s, today, order[k] as int, order[l] as int),
    decreases n,
{
    if n == 0 {
        Seq::empty()
    } else {
        let prev = sorted_prefix(o3s, today, (n - 1) as nat);
        let x = (n - 1) as usize;
        let p = insertion_point(o3s, today, prev, x, 0);
        if p < prev.len() {
            lemma_shown_before_order(o3s, today, prev[p] as int, x as int, x as int);
        }
        lemma_insert_sorted(o3s, today, prev, p, x);
        let order = prev.insert(p, x);
        assert forall|y: int| 0 <= y < n implies #[trigger] lists_index(order, y) by {
            if y == x {
                assert(order[p] == x);
            } else {
                assert(lists_index(prev, y));
                let k = choose|k: int| 0 <= k < prev.len() && prev[k] == y;
                if k < p {
                    assert(order[k] == y);
                } else {
                    assert(order[k + 1] == y);
                }
            }
        }
        order
    }
}

/// Every list of meetings has a display order.
pub proof fn lemma_display_order_exists(o3s: Seq<O3>, today: int)
    requires
        o3s.len() <= usize::MAX,
    ensures
        is_display_order(o3s, today, display_order(o3s, today)),
{
    let order = sorted_prefix(o3s, today, o3s.len());
    assert(is_display_order(o3s, today, order));
}

/// What a listing in display order looks like, row by row: meetings on or after `today`
/// come first, earliest first; then meetings without a date; then past meetings, latest
/// first; meetings with the same date keep their order.
pub proof fn lemma_display_order_layout(o3s: Seq<O3>, today: int, order: Seq<usize>, k: int, l: int)
    requires
        is_display_order(o3s, today, order),
        0 <= k < l < order.len(),
    ensures
        ({
            let a = o3s[order[k] as int].date_days;
            let b = o3s[order[l] as int].date_days;
            &&& (b is Some && b.unwrap() >= today) ==> (a is Some && today <= a.unwrap() <= b.unwrap())
            &&& (b is None) ==> (a is None || a.unwrap() >= today)
            &&& (a is Some && a.unwrap() < today) ==> (b is Some && b.unwrap() <= a.unwrap())
            &&& a == b ==> order[k] < order[l]
        }),
{
    assert(shown_before(o3s, today, order[k] as int, order[l] as int));
}

/// Whether meeting `i` is listed before meeting `j` on day `today`.
pub fn shown_before_exec(o3s: &Vec<O3>, today: i64, i: usize, j: usize) -> (before: bool)
    requires
        i < o3s@.len(),
        j < o3s@.len(),
    ensures
        before == shown_before(o3s@, today as int, i as int, j as int),
{
    // group: 0 upcoming, 1 undated, 2 past
    let gi: u8 = match o3s[i].date_days {
        Some(d) => if d >= today { 0 } else { 2 },
        None => 1,
    };
    let gj: u8 = match o3s[j].date_days {
        Some(d) => if d >= today { 0 } else { 2 },
        None => 1,
    };
    if gi != gj {
        return gi < gj;
    }
    let di: i64 = match o3s[i].date_days { Some(d) => d, None => 0 };
    let dj: i64 = match o3s[j].date_days { Some(d) => d, None => 0 };
    if di == dj {
        i < j
    } else if gi == 0 {
        di < dj
    } else if gi == 2 {
        dj < di
    } else {
        i < j
    }
}

/// Inserting `x` at `p` keeps a listing sorted when everything before `p` comes before
/// `x` and `x` comes before what stood at `p`.
proof fn lemma_insert_sorted(o3s: Seq<O3>, today: int, order: Seq<usize>, p: int, x: usize)
    requires
        0 <= p <= order.len(),
        forall|k: int, l: int|
            #![trigger order[k], order[l]]
            0 <= k < l < order.len() ==> shown_before(o3s, today, order[k] as int, order[l] as int),
        forall|k: int| 0 <= k < p ==> shown_before(o3s, today, #[trigger] order[k] as int, x as int),
        p < order.len() ==> shown_before(o3s, today, x as int, order[p] as int),
    ensures
        forall|k: int, l: int|
            #![trigger order.insert(p, x)[k], order.insert(p, x)[l]]
            0 <= k < l < order.len() + 1 ==> shown_before(
                o3s,
                today,
                order.insert(p, x)[k] as int,
                order.insert(p, x)[l] as int,
            ),
{
    let new = order.insert(p, x);
    assert forall|k: int, l: int| 0 <= k < l < order.len() + 1 implies shown_before(
        o3s,
        today,
        #[trigger] new[k] as int,
        #[trigger] new[l] as int,
    ) by {
        if l < p {
            assert(new[k] == order[k] && new[l] == order[l]);
        } else if l == p {
            assert(new[k] == order[k]);
        } else if k < p {
            assert(new[k] == order[k] && new[l] == order[l - 1]);
            assert(shown_before(o3s, today, order[k] as int, x as int));
            if l - 1 > p {
                assert(shown_before(o3s, today, order[p] as int, order[l - 1] as int));
            }
            lemma_shown_before_order(o3s, today, order[k] as int, x as int, order[p] as int);
            lemma_shown_before_order(o3s, today, x as int, order[p] as int, order[l - 1] as int);
            lemma_shown_before_order(o3s, today, order[k] as int, x as int, order[l - 1] as int);
        } else if k == p {
            assert(new[k] == x && new[l] == order[l - 1]);
            if l - 1 > p {
                assert(shown_before(o3s, today, order[p] as int, order[l - 1] as int));
                lemma_shown_before_order(o3s, today, x as int, order[p] as int, order[l - 1] as int);
            }
        } else {
            assert(new[k] == order[k - 1] && new[l] == order[l - 1]);
        }
    }
}

/// The indices of `o3s` in display order on day `today`.
pub fn display_order_exec(o3s: &Vec<O3>, today: i64) -> (order: Vec<usize>)
    ensures
        order@ == display_order(o3s@, today as int),
        is_display_order(o3s@, today as int, order@),
{
    let n = o3s.len();
    let mut order: Vec<usize> = Vec::new();
    let mut i: usize = 0;
    while i < n
        invariant
            n == o3s@.len(),
            i <= n,
            order@.len() == i,
            forall|k: int| 0 <= k < order@.len() ==> order@[k] < i,
            forall|x: int| 0 <= x < i ==> #[trigger] lists_index(order@, x),
            forall|k: int, l: int|
                #![trigger order@[k], order@[l]]
                0 <= k < l < order@.len() ==> shown_before(o3s@, today as int, order@[k] as int, order@[l] as int),
        decreases n - i,
    {
        let mut p: usize = 0;
        while p < order.len()
            invariant
                n == o3s@.len(),
                i < n,
                p <= order@.len(),
                forall|k: int| 0 <= k < order@.len() ==> order@[k] < i,
                forall|k: int| 0 <= k < p ==> shown_before(o3s@, today as int, #[trigger] order@[k] as int, i as int),
            ensures
                p <= order@.len(),
                forall|k: int| 0 <= k < p ==> shown_before(o3s@, today as int, #[trigger] order@[k] as int, i as int),
                p < order@.len() ==> !shown_before(o3s@, today as int, order@[p as int] as int, i as int),
            decreases order@.len() - p,
        {
            if shown_before_exec(o3s, today, order[p], i) {
                p = p + 1;
            } else {
                break;
            }
        }
        proof {
            if p < order@.len() {
                lemma_shown_before_order(o3s@, today as int, order@[p as int] as int, i as int, i as int);
                assert(!shown_before(o3s@, today as int, order@[p as int] as int, i as int));
                assert(shown_before(o3s@, today as int, i as int, order@[p as int] as int));
            }
            lemma_insert_sorted(o3s@, today as int, order@, p as int, i);
        }
        let ghost old_order = order@;
        order.insert(p, i);
        proof {
            assert forall|x: int| 0 <= x < i + 1 implies #[trigger] lists_index(order@, x) by {
                if x == i {
                    assert(order@[p as int] == i);
                } else {
                    assert(lists_index(old_order, x));
                    let k = choose|k: int| 0 <= k < old_order.len() && old_order[k] == x;
                    if k < p {
                        assert(order@[k] == x);
                    } else {
                        assert(order@[k + 1] == x);
                    }
                }
            }
        }
        i = i + 1;
    }
    proof {
        assert(is_display_order(o3s@, today as int, order@));
        lemma_display_order_unique(o3s@, today as int, order@, display_order(o3s@, today as int));
    }
    order
}

} // verus!
