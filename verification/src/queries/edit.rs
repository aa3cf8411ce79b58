//! Levenshtein distance: how many single characters have to be inserted,
//! removed or replaced to turn one text into another.
use vstd::prelude::*;

use crate::text::chars_of;

verus! {

pub open spec fn least(a: nat, b: nat, c: nat) -> nat {
    if a <= b && a <= c {
        a
    } else if b <= c {
        b
    } else {
        c
    }
}

/// What replacing `a` by `b` costs.
pub open spec fn replacement(a: char, b: char) -> nat {
    if a == b {
        0
    } else {
        1
    }
}

/// The fewest insertions, removals and replacements of one character that turn
/// `a` into `b`.
pub open spec fn distance(a: Seq<char>, b: Seq<char>) -> nat
    decreases a.len() + b.len(),
{
    if a.len() == 0 {
        b.len()
    } else if b.len() == 0 {
        a.len()
    } else {
        least(
            distance(a.drop_last(), b.drop_last()) + replacement(a.last(), b.last()),
            distance(a.drop_last(), b) + 1,
            distance(a, b.drop_last()) + 1,
        )
    }
}

/// No more edits are needed than the longer text has characters.
pub proof fn distance_is_bounded(a: Seq<char>, b: Seq<char>)
    ensures
        distance(a, b) <= a.len() || distance(a, b) <= b.len(),
    decreases a.len() + b.len(),
{
    if a.len() > 0 && b.len() > 0 {
        distance_is_bounded(a.drop_last(), b.drop_last());
    }
}

/// No fewer edits suffice than the texts differ in length.
pub proof fn distance_covers_the_lengths(a: Seq<char>, b: Seq<char>)
    ensures
        a.len() <= b.len() + distance(a, b),
        b.len() <= a.len() + distance(a, b),
    decreases a.len() + b.len(),
{
    if a.len() > 0 && b.len() > 0 {
        distance_covers_the_lengths(a.drop_last(), b.drop_last());
        distance_covers_the_lengths(a.drop_last(), b);
        distance_covers_the_lengths(a, b.drop_last());
    }
}

/// Nothing has to be edited exactly when the texts are equal.
pub proof fn distance_zero_is_equality(a: Seq<char>, b: Seq<char>)
    ensures
        distance(a, b) == 0 <==> a == b,
    decreases a.len() + b.len(),
{
    if a.len() > 0 && b.len() > 0 {
        distance_zero_is_equality(a.drop_last(), b.drop_last());
        if a.drop_last() == b.drop_last() && a.last() == b.last() {
            assert(a =~= a.drop_last().push(a.last()));
            assert(b =~= b.drop_last().push(b.last()));
        }
    } else if distance(a, b) == 0 {
        assert(a =~= b);
    }
}

/// Edits can be undone: the distance is the same both ways.
pub proof fn distance_is_symmetric(a: Seq<char>, b: Seq<char>)
    ensures
        distance(a, b) == distance(b, a),
    decreases a.len() + b.len(),
{
    if a.len() > 0 && b.len() > 0 {
        distance_is_symmetric(a.drop_last(), b.drop_last());
        distance_is_symmetric(a.drop_last(), b);
        distance_is_symmetric(a, b.drop_last());
    }
}

/// A detour never saves edits.
pub proof fn distance_obeys_the_triangle(a: Seq<char>, b: Seq<char>, c: Seq<char>)
    ensures
        distance(a, c) <= distance(a, b) + distance(b, c),
    decreases a.len() + b.len() + c.len(),
{
    if a.len() == 0 {
        distance_covers_the_lengths(b, c);
    } else if c.len() == 0 {
        distance_covers_the_lengths(a, b);
    } else if b.len() == 0 {
        distance_is_bounded(a, c);
    } else {
        let (p, q, r) = (a.drop_last(), b.drop_last(), c.drop_last());
        distance_obeys_the_triangle(p, b, c);
        distance_obeys_the_triangle(a, b, r);
        distance_obeys_the_triangle(a, q, c);
        distance_obeys_the_triangle(a, q, r);
        distance_obeys_the_triangle(p, q, c);
        distance_obeys_the_triangle(p, q, r);
    }
}

/// One character inserted, removed or replaced turns `a` into `b`.
pub open spec fn one_edit(a: Seq<char>, b: Seq<char>) -> bool {
    ||| exists|i: int, c: char| 0 <= i <= a.len() && b == #[trigger] a.insert(i, c)
    ||| exists|i: int| 0 <= i < a.len() && b == #[trigger] a.remove(i)
    ||| exists|i: int, c: char| 0 <= i < a.len() && b == #[trigger] a.update(i, c)
}

/// The text at `i` is one edit from the next.
pub open spec fn steps(path: Seq<Seq<char>>, i: int) -> bool {
    one_edit(path[i], path[i + 1])
}

/// Texts that lead from `a` to `b`, each one edit from the next.
pub open spec fn leads(path: Seq<Seq<char>>, a: Seq<char>, b: Seq<char>) -> bool {
    &&& path.len() > 0
    &&& path[0] == a
    &&& path.last() == b
    &&& forall|i: int| 0 <= i < path.len() - 1 ==> #[trigger] steps(path, i)
}

/// However one text is edited into another, it takes no fewer edits than their
/// distance.
pub proof fn fewer_edits_never_suffice(path: Seq<Seq<char>>, a: Seq<char>, b: Seq<char>)
    requires
        leads(path, a, b),
    ensures
        distance(a, b) <= path.len() - 1,
    decreases path.len(),
{
    if path.len() == 1 {
        distance_zero_is_equality(a, b);
    } else {
        let before = path.drop_last();
        let c = before.last();
        assert forall|i: int| 0 <= i < before.len() - 1 implies #[trigger] steps(before, i) by {
            assert(steps(path, i));
        }
        fewer_edits_never_suffice(before, a, c);
        assert(steps(path, path.len() - 2));
        one_edit_is_near(c, b);
        distance_obeys_the_triangle(a, c, b);
    }
}

/// As many edits as the distance says do turn one text into the other.
pub proof fn that_many_edits_suffice(a: Seq<char>, b: Seq<char>) -> (path: Seq<Seq<char>>)
    ensures
        leads(path, a, b),
        path.len() - 1 == distance(a, b),
    decreases a.len() + b.len(),
{
    if a.len() == 0 && b.len() == 0 {
        assert(a =~= b);
        seq![a]
    } else if b.len() > 0 && distance(a, b) == distance(a, b.drop_last()) + 1 {
        let path = that_many_edits_suffice(a, b.drop_last());
        assert(b =~= b.drop_last().insert(b.len() - 1, b.last()));
        one_more(path, a, b.drop_last(), b);
        path.push(b)
    } else if a.len() > 0 && distance(a, b) == distance(a.drop_last(), b) + 1 {
        let path = that_many_edits_suffice(a.drop_last(), b);
        assert(a.drop_last() =~= a.remove(a.len() - 1));
        one_before(a, path, a.drop_last(), b);
        seq![a] + path
    } else {
        let path = that_many_edits_suffice(a.drop_last(), b.drop_last());
        let last = a.last();
        let kept = path.map_values(|t: Seq<char>| t.push(last));
        let near = b.drop_last().push(last);
        all_in_front(path, a.drop_last(), b.drop_last(), last);
        assert(a =~= a.drop_last().push(last));
        if last == b.last() {
            assert(b =~= near);
            kept
        } else {
            assert(b =~= near.update(b.len() - 1, b.last()));
            one_more(kept, a, near, b);
            kept.push(b)
        }
    }
}

proof fn one_before(a: Seq<char>, path: Seq<Seq<char>>, b: Seq<char>, c: Seq<char>)
    requires
        one_edit(a, b),
        leads(path, b, c),
    ensures
        leads(seq![a] + path, a, c),
{
    let longer = seq![a] + path;
    assert forall|i: int| 0 <= i < longer.len() - 1 implies #[trigger] steps(longer, i) by {
        if i > 0 {
            assert(steps(path, i - 1));
        }
    }
}

proof fn all_in_front(path: Seq<Seq<char>>, a: Seq<char>, b: Seq<char>, last: char)
    requires
        leads(path, a, b),
    ensures
        leads(path.map_values(|t: Seq<char>| t.push(last)), a.push(last), b.push(last)),
{
    let kept = path.map_values(|t: Seq<char>| t.push(last));
    assert forall|i: int| 0 <= i < kept.len() - 1 implies #[trigger] steps(kept, i) by {
        assert(steps(path, i));
        edits_work_in_front(path[i], path[i + 1], last);
    }
}

proof fn one_more(path: Seq<Seq<char>>, a: Seq<char>, b: Seq<char>, c: Seq<char>)
    requires
        leads(path, a, b),
        one_edit(b, c),
    ensures
        leads(path.push(c), a, c),
{
    let longer = path.push(c);
    assert forall|i: int| 0 <= i < longer.len() - 1 implies #[trigger] steps(longer, i) by {
        if i < path.len() - 1 {
            assert(steps(path, i));
        }
    }
}

proof fn edits_work_in_front(a: Seq<char>, b: Seq<char>, last: char)
    requires
        one_edit(a, b),
    ensures
        one_edit(a.push(last), b.push(last)),
{
    let (p, q) = (a.push(last), b.push(last));
    if exists|i: int, c: char| 0 <= i <= a.len() && b == #[trigger] a.insert(i, c) {
        let (i, c) = choose|i: int, c: char| 0 <= i <= a.len() && b == #[trigger] a.insert(i, c);
        assert(q =~= p.insert(i, c));
    } else if exists|i: int| 0 <= i < a.len() && b == #[trigger] a.remove(i) {
        let i = choose|i: int| 0 <= i < a.len() && b == #[trigger] a.remove(i);
        assert(q =~= p.remove(i));
    } else {
        let (i, c) = choose|i: int, c: char| 0 <= i < a.len() && b == #[trigger] a.update(i, c);
        assert(q =~= p.update(i, c));
    }
}

proof fn one_edit_is_near(a: Seq<char>, b: Seq<char>)
    requires
        one_edit(a, b),
    ensures
        distance(a, b) <= 1,
{
    if exists|i: int, c: char| 0 <= i <= a.len() && b == #[trigger] a.insert(i, c) {
        let (i, c) = choose|i: int, c: char| 0 <= i <= a.len() && b == #[trigger] a.insert(i, c);
        an_insertion_is_near(a, i, c);
    } else if exists|i: int| 0 <= i < a.len() && b == #[trigger] a.remove(i) {
        let i = choose|i: int| 0 <= i < a.len() && b == #[trigger] a.remove(i);
        assert(a =~= b.insert(i, a[i]));
        an_insertion_is_near(b, i, a[i]);
        distance_is_symmetric(a, b);
    } else {
        let (i, c) = choose|i: int, c: char| 0 <= i < a.len() && b == #[trigger] a.update(i, c);
        a_replacement_is_near(a, i, c);
    }
}

proof fn an_insertion_is_near(a: Seq<char>, i: int, c: char)
    requires
        0 <= i <= a.len(),
    ensures
        distance(a, a.insert(i, c)) <= 1,
    decreases a.len(),
{
    let b = a.insert(i, c);
    if i == a.len() {
        assert(b.drop_last() =~= a);
        distance_zero_is_equality(a, b.drop_last());
    } else {
        assert(b.drop_last() =~= a.drop_last().insert(i, c));
        an_insertion_is_near(a.drop_last(), i, c);
    }
}

proof fn a_replacement_is_near(a: Seq<char>, i: int, c: char)
    requires
        0 <= i < a.len(),
    ensures
        distance(a, a.update(i, c)) <= 1,
    decreases a.len(),
{
    let b = a.update(i, c);
    if i == a.len() - 1 {
        assert(b.drop_last() =~= a.drop_last());
        distance_zero_is_equality(a.drop_last(), b.drop_last());
    } else {
        assert(b.drop_last() =~= a.drop_last().update(i, c));
        a_replacement_is_near(a.drop_last(), i, c);
    }
}

/// Levenshtein distance, one row at a time.
pub fn edit_distance(a: &str, b: &str) -> (r: usize)
    ensures
        r == distance(a@, b@),
{
    let a = chars_of(a);
    let b = chars_of(b);
    // The row of `i` characters of `a`: how far they are from the first 1, 2,
    // ... characters of `b`.
    let mut row: Vec<usize> = Vec::new();
    let mut j: usize = 0;
    while j < b.len()
        invariant
            j <= b@.len(),
            row@.len() == j,
            forall|k: int| 0 <= k < j ==> row@[k] == k + 1,
        decreases b@.len() - j,
    {
        j += 1;
        row.push(j);
    }
    assert forall|k: int| 0 <= k < b@.len() implies row@[k] == distance(a@.take(0), b@.take(k + 1)) by {}
    let mut i: usize = 0;
    while i < a.len()
        invariant
            i <= a@.len(),
            row@.len() == b@.len(),
            forall|k: int|
                0 <= k < b@.len() ==> #[trigger] row@[k] == distance(
                    a@.take(i as int),
                    b@.take(k + 1),
                ),
        decreases a@.len() - i,
    {
        let next = next_row(&a, &b, i, &row);
        row = next;
        i += 1;
    }
    assert(a@.take(a@.len() as int) =~= a@);
    assert(b@.take(b@.len() as int) =~= b@);
    if b.len() == 0 {
        a.len()
    } else {
        row[b.len() - 1]
    }
}

fn next_row(a: &Vec<char>, b: &Vec<char>, i: usize, row: &Vec<usize>) -> (r: Vec<usize>)
    requires
        i < a@.len(),
        row@.len() == b@.len(),
        forall|k: int|
            0 <= k < b@.len() ==> #[trigger] row@[k] == distance(a@.take(i as int), b@.take(k + 1)),
    ensures
        r@.len() == b@.len(),
        forall|k: int|
            0 <= k < b@.len() ==> #[trigger] r@[k] == distance(a@.take(i + 1), b@.take(k + 1)),
{
    let (height, width): (usize, usize) = (a.len(), b.len());
    let mut next: Vec<usize> = Vec::new();
    // The cells to the upper left of and to the left of the one to be filled.
    let mut corner: usize = i;
    let mut left: usize = i + 1;
    let mut j: usize = 0;
    let ghost shorter = a@.take(i as int);
    let ghost longer = a@.take(i + 1);
    assert(longer.drop_last() =~= shorter);
    assert(longer.last() == a@[i as int]);
    assert(b@.take(0).len() == 0);
    while j < width
        invariant
            i < height == a@.len(),
            j <= width == b@.len(),
            shorter == a@.take(i as int),
            longer == a@.take(i + 1),
            longer.drop_last() == shorter,
            longer.last() == a@[i as int],
            row@.len() == b@.len(),
            forall|k: int|
                0 <= k < b@.len() ==> #[trigger] row@[k] == distance(shorter, b@.take(k + 1)),
            next@.len() == j,
            forall|k: int| 0 <= k < j ==> #[trigger] next@[k] == distance(longer, b@.take(k + 1)),
            corner == distance(shorter, b@.take(j as int)),
            left == distance(longer, b@.take(j as int)),
        decreases b@.len() - j,
    {
        let ghost here = b@.take(j + 1);
        assert(here.drop_last() =~= b@.take(j as int));
        assert(here.last() == b@[j as int]);
        let above: usize = row[j];
        let replaced: usize = if a[i] == b[j] {
            corner
        } else {
            corner.saturating_add(1)
        };
        let removed: usize = above.saturating_add(1);
        let inserted: usize = left.saturating_add(1);
        let smaller: usize = if removed <= inserted {
            removed
        } else {
            inserted
        };
        let cell: usize = if replaced <= smaller {
            replaced
        } else {
            smaller
        };
        proof {
            // The true minimum fits, so a sum that does not fit is not it.
            distance_is_bounded(longer, here);
            assert(cell == distance(longer, here));
        }
        next.push(cell);
        corner = above;
        left = cell;
        j += 1;
    }
    next
}

} // verus!
