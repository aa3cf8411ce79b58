//! Stable sorting by key.
//!
//! The result of a sort is the list of positions in the order in which their
//! items come; equal keys keep the order that they came in.
use vstd::prelude::*;

use crate::text::{less, same_text, text_less, text_order_is_total, text_order_is_transitive};

verus! {

/// What an item is sorted by: first the rank, then the major text, last the
/// minor one.
pub struct SortKey {
    pub rank: usize,
    pub major: String,
    pub minor: String,
}

/// The contents of a [`SortKey`].
pub struct Rank {
    pub rank: nat,
    pub major: Seq<char>,
    pub minor: Seq<char>,
}

impl View for SortKey {
    type V = Rank;

    open spec fn view(&self) -> Rank {
        Rank { rank: self.rank as nat, major: self.major@, minor: self.minor@ }
    }
}

/// The contents of a list of keys.
pub open spec fn ranks(keys: Seq<SortKey>) -> Seq<Rank> {
    keys.map_values(|key: SortKey| key@)
}

/// The order of keys.
pub open spec fn key_less(a: Rank, b: Rank) -> bool {
    ||| a.rank < b.rank
    ||| a.rank == b.rank && text_less(a.major, b.major)
    ||| a.rank == b.rank && a.major == b.major && text_less(a.minor, b.minor)
}

/// The item at position `i` comes before the one at position `j`: its key is
/// smaller, or the keys are equal and it stood first.
pub open spec fn precedes(keys: Seq<Rank>, i: int, j: int) -> bool {
    key_less(keys[i], keys[j]) || (keys[i] == keys[j] && i < j)
}

/// `order` lists the positions from `from` up to `to`, each once, and sorted.
pub open spec fn sorts(keys: Seq<Rank>, from: int, to: int, order: Seq<int>) -> bool {
    &&& order.len() == to - from
    &&& forall|i: int| 0 <= i < order.len() ==> from <= #[trigger] order[i] < to
    &&& forall|p: int| from <= p < to ==> #[trigger] order.contains(p)
    &&& forall|i: int, j: int| 0 <= i < j < order.len() ==> precedes(keys, #[trigger] order[i], #[trigger] order[j])
}

/// The stable order of the items with these keys.
pub open spec fn stable_order(keys: Seq<Rank>) -> Seq<int> {
    choose|order: Seq<int>| sorts(keys, 0, keys.len() as int, order)
}

/// Positions as mathematical integers.
pub open spec fn positions(order: Seq<usize>) -> Seq<int> {
    order.map_values(|p: usize| p as int)
}

proof fn key_order_is_total(a: Rank, b: Rank)
    ensures
        !key_less(a, a),
        !(key_less(a, b) && key_less(b, a)),
        key_less(a, b) || key_less(b, a) || a == b,
{
    text_order_is_total(a.major, b.major);
    text_order_is_total(a.minor, b.minor);
}

proof fn key_order_is_transitive(a: Rank, b: Rank, c: Rank)
    requires
        key_less(a, b),
        key_less(b, c),
    ensures
        key_less(a, c),
{
    if text_less(a.major, b.major) && text_less(b.major, c.major) {
        text_order_is_transitive(a.major, b.major, c.major);
    }
    if text_less(a.minor, b.minor) && text_less(b.minor, c.minor) {
        text_order_is_transitive(a.minor, b.minor, c.minor);
    }
}

proof fn precedence_is_transitive(keys: Seq<Rank>, i: int, j: int, k: int)
    requires
        precedes(keys, i, j),
        precedes(keys, j, k),
    ensures
        precedes(keys, i, k),
{
    if key_less(keys[i], keys[j]) && key_less(keys[j], keys[k]) {
        key_order_is_transitive(keys[i], keys[j], keys[k]);
    }
}

/// There is only one way to sort stably.
pub proof fn sorting_is_unique(keys: Seq<Rank>, from: int, to: int, a: Seq<int>, b: Seq<int>)
    requires
        sorts(keys, from, to, a),
        sorts(keys, from, to, b),
    ensures
        a == b,
{
    assert forall|i: int| 0 <= i < a.len() implies a[i] == b[i] by {
        same_up_to(keys, from, to, a, b, i);
    }
    assert(a =~= b);
}

proof fn same_up_to(keys: Seq<Rank>, from: int, to: int, a: Seq<int>, b: Seq<int>, i: int)
    requires
        sorts(keys, from, to, a),
        sorts(keys, from, to, b),
        0 <= i < a.len(),
    ensures
        forall|k: int| 0 <= k <= i ==> #[trigger] a[k] == b[k],
    decreases i,
{
    if i > 0 {
        same_up_to(keys, from, to, a, b, i - 1);
    }
    assert(b.contains(a[i]));
    let j = choose|j: int| 0 <= j < b.len() && b[j] == a[i];
    assert(a.contains(b[i]));
    let k = choose|k: int| 0 <= k < a.len() && a[k] == b[i];
    key_order_is_total(keys[a[i]], keys[b[i]]);
    if j < i {
        assert(a[j] == b[j]);
        key_order_is_total(keys[a[j]], keys[a[i]]);
        assert(precedes(keys, a[j], a[i]));
    }
    if k < i {
        assert(a[k] == b[k]);
        key_order_is_total(keys[b[k]], keys[b[i]]);
        assert(precedes(keys, b[k], b[i]));
    }
    if j > i && k > i {
        assert(precedes(keys, b[i], b[j]));
        assert(precedes(keys, a[i], a[k]));
    }
}

fn key_before(a: &SortKey, b: &SortKey) -> (r: bool)
    ensures
        r == key_less(a@, b@),
{
    if a.rank != b.rank {
        return a.rank < b.rank;
    }
    if same_text(a.major.as_str(), b.major.as_str()) {
        proof {
            text_order_is_total(a.major@, b.major@);
        }
        less(a.minor.as_str(), b.minor.as_str())
    } else {
        less(a.major.as_str(), b.major.as_str())
    }
}

fn sort_range(keys: &Vec<SortKey>, from: usize, to: usize) -> (r: Vec<usize>)
    requires
        from <= to <= keys@.len(),
    ensures
        sorts(ranks(keys@), from as int, to as int, positions(r@)),
    decreases to - from,
{
    if to - from == 0 {
        let out: Vec<usize> = Vec::new();
        assert(positions(out@).len() == 0);
        return out;
    }
    if to - from == 1 {
        let mut out: Vec<usize> = Vec::new();
        out.push(from);
        assert(positions(out@)[0] == from);
        return out;
    }
    let middle: usize = from + (to - from) / 2;
    let left = sort_range(keys, from, middle);
    let right = sort_range(keys, middle, to);
    merge(keys, from, middle, to, &left, &right)
}

fn merge(
    keys: &Vec<SortKey>,
    from: usize,
    middle: usize,
    to: usize,
    left: &Vec<usize>,
    right: &Vec<usize>,
) -> (r: Vec<usize>)
    requires
        from <= middle <= to <= keys@.len(),
        sorts(ranks(keys@), from as int, middle as int, positions(left@)),
        sorts(ranks(keys@), middle as int, to as int, positions(right@)),
    ensures
        sorts(ranks(keys@), from as int, to as int, positions(r@)),
{
    let ghost ks = ranks(keys@);
    let ghost ls = positions(left@);
    let ghost rs = positions(right@);
    let mut out: Vec<usize> = Vec::new();
    let mut i: usize = 0;
    let mut j: usize = 0;
    while i < left.len() || j < right.len()
        invariant
            from <= middle <= to <= keys@.len(),
            ks == ranks(keys@),
            ls == positions(left@),
            rs == positions(right@),
            sorts(ks, from as int, middle as int, ls),
            sorts(ks, middle as int, to as int, rs),
            i <= left@.len(),
            j <= right@.len(),
            out@.len() == i + j,
            forall|k: int| 0 <= k < out@.len() ==> from <= #[trigger] positions(out@)[k] < to,
            forall|k: int| 0 <= k < i ==> positions(out@).contains(#[trigger] ls[k]),
            forall|k: int| 0 <= k < j ==> positions(out@).contains(#[trigger] rs[k]),
            forall|k: int, l: int|
                0 <= k < l < out@.len() ==> precedes(
                    ks,
                    #[trigger] positions(out@)[k],
                    #[trigger] positions(out@)[l],
                ),
            forall|k: int, l: int|
                0 <= k < out@.len() && i <= l < ls.len() ==> precedes(
                    ks,
                    #[trigger] positions(out@)[k],
                    #[trigger] ls[l],
                ),
            forall|k: int, l: int|
                0 <= k < out@.len() && j <= l < rs.len() ==> precedes(
                    ks,
                    #[trigger] positions(out@)[k],
                    #[trigger] rs[l],
                ),
        decreases (left@.len() - i) + (right@.len() - j),
    {
        let ghost before = positions(out@);
        let take_right: bool = if i >= left.len() {
            true
        } else if j >= right.len() {
            false
        } else {
            assert(ls[i as int] == left@[i as int]);
            assert(rs[j as int] == right@[j as int]);
            key_before(&keys[right[j]], &keys[left[i]])
        };
        if take_right {
            let ghost taken = rs[j as int];
            assert(taken == right@[j as int]);
            out.push(right[j]);
            assert(positions(out@) =~= before.push(taken));
            assert forall|l: int| i <= l < ls.len() implies precedes(ks, taken, #[trigger] ls[l]) by {
                if l > i {
                    assert(precedes(ks, ls[i as int], ls[l]));
                    precedence_is_transitive(ks, taken, ls[i as int], ls[l]);
                }
            }
            j += 1;
        } else {
            let ghost taken = ls[i as int];
            assert(taken == left@[i as int]);
            out.push(left[i]);
            assert(positions(out@) =~= before.push(taken));
            assert forall|l: int| j <= l < rs.len() implies precedes(ks, taken, #[trigger] rs[l]) by {
                key_order_is_total(ks[taken], ks[rs[j as int]]);
                assert(precedes(ks, taken, rs[j as int]));
                if l > j {
                    assert(precedes(ks, rs[j as int], rs[l]));
                    precedence_is_transitive(ks, taken, rs[j as int], rs[l]);
                }
            }
            i += 1;
        }
        proof {
            let now = positions(out@);
            assert forall|k: int| 0 <= k < i implies now.contains(#[trigger] ls[k]) by {
                if before.contains(ls[k]) {
                    let w = choose|w: int| 0 <= w < before.len() && before[w] == ls[k];
                    assert(now[w] == ls[k]);
                } else {
                    assert(now[now.len() - 1] == ls[k]);
                }
            }
            assert forall|k: int| 0 <= k < j implies now.contains(#[trigger] rs[k]) by {
                if before.contains(rs[k]) {
                    let w = choose|w: int| 0 <= w < before.len() && before[w] == rs[k];
                    assert(now[w] == rs[k]);
                } else {
                    assert(now[now.len() - 1] == rs[k]);
                }
            }
        }
    }
    proof {
        let all = positions(out@);
        assert forall|p: int| from <= p < to implies #[trigger] all.contains(p) by {
            if p < middle {
                assert(ls.contains(p));
                let k = choose|k: int| 0 <= k < ls.len() && ls[k] == p;
                assert(all.contains(ls[k]));
            } else {
                assert(rs.contains(p));
                let k = choose|k: int| 0 <= k < rs.len() && rs[k] == p;
                assert(all.contains(rs[k]));
            }
        }
    }
    out
}

/// The positions of the keys, sorted; equal keys keep their order.
pub fn sorted_positions(keys: &Vec<SortKey>) -> (r: Vec<usize>)
    ensures
        sorts(ranks(keys@), 0, keys@.len() as int, positions(r@)),
        positions(r@) == stable_order(ranks(keys@)),
{
    let r = sort_range(keys, 0, keys.len());
    proof {
        let ks = ranks(keys@);
        assert(ks.len() == keys@.len());
        sorting_is_unique(ks, 0, ks.len() as int, positions(r@), stable_order(ks));
    }
    r
}

/// Whatever the keys are, they can be sorted stably.
pub proof fn a_stable_order_exists(keys: Seq<Rank>)
    ensures
        sorts(keys, 0, keys.len() as int, stable_order(keys)),
{
    let order = order_up_to(keys, keys.len());
    assert(sorts(keys, 0, keys.len() as int, order));
}

/// Sorts the first `n` items by putting each in its place among those before.
proof fn order_up_to(keys: Seq<Rank>, n: nat) -> (order: Seq<int>)
    requires
        n <= keys.len(),
    ensures
        sorts(keys, 0, n as int, order),
    decreases n,
{
    if n == 0 {
        Seq::empty()
    } else {
        let last = n - 1;
        let before = order_up_to(keys, last as nat);
        let at = place(keys, before, last, 0);
        let order = before.insert(at, last);
        assert forall|p: int| 0 <= p < n implies #[trigger] order.contains(p) by {
            if p == last {
                assert(order[at] == p);
            } else {
                assert(before.contains(p));
                let k = choose|k: int| 0 <= k < before.len() && before[k] == p;
                if k < at {
                    assert(order[k] == p);
                } else {
                    assert(order[k + 1] == p);
                }
            }
        }
        assert forall|i: int, j: int| 0 <= i < j < order.len() implies precedes(
            keys,
            #[trigger] order[i],
            #[trigger] order[j],
        ) by {
            let old_i = if i < at {
                i
            } else {
                i - 1
            };
            let old_j = if j < at {
                j
            } else {
                j - 1
            };
            if i != at && j != at {
                assert(order[i] == before[old_i]);
                assert(order[j] == before[old_j]);
                assert(precedes(keys, before[old_i], before[old_j]));
            } else if j == at {
                assert(order[i] == before[i]);
            } else {
                assert(order[j] == before[old_j]);
            }
        }
        order
    }
}

/// The first place from `from` on that comes after the item at `last`.
proof fn place(keys: Seq<Rank>, before: Seq<int>, last: int, from: int) -> (at: int)
    requires
        0 <= last < keys.len(),
        sorts(keys, 0, last, before),
        0 <= from <= before.len(),
        forall|k: int| 0 <= k < from ==> precedes(keys, #[trigger] before[k], last),
    ensures
        from <= at <= before.len(),
        forall|k: int| 0 <= k < at ==> precedes(keys, #[trigger] before[k], last),
        forall|k: int| at <= k < before.len() ==> precedes(keys, last, #[trigger] before[k]),
    decreases before.len() - from,
{
    if from == before.len() {
        from
    } else {
        key_order_is_total(keys[before[from]], keys[last]);
        if precedes(keys, before[from], last) {
            place(keys, before, last, from + 1)
        } else {
            assert(precedes(keys, last, before[from]));
            assert forall|k: int| from <= k < before.len() implies precedes(
                keys,
                last,
                #[trigger] before[k],
            ) by {
                if k > from {
                    assert(precedes(keys, before[from], before[k]));
                    precedence_is_transitive(keys, last, before[from], before[k]);
                }
            }
            from
        }
    }
}

} // verus!
