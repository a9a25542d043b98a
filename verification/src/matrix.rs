//! The bits that fall behind the screens.

use vstd::prelude::*;

use crate::outside::chance;

verus! {

/// The rows as sequences.
pub open spec fn rows_view(rows: Seq<Vec<bool>>) -> Seq<Seq<bool>> {
    rows.map_values(|row: Vec<bool>| row@)
}

/// The row after `row` where the bits in `flips` change.
pub open spec fn flipped(row: Seq<bool>, flips: Seq<bool>) -> Seq<bool> {
    Seq::new(flips.len(), |i: int| row[i] != flips[i])
}

/// The rows with one more, and without the first where `remove_last` says so.
pub open spec fn rows_after(rows: Seq<Seq<bool>>, flips: Seq<bool>, remove_last: bool) -> Seq<
    Seq<bool>,
> {
    let more = rows.push(flipped(rows.last(), flips));
    if remove_last {
        more.drop_first()
    } else {
        more
    }
}

/// There is a row, and the last one is as wide as the first.
pub open spec fn has_rows(rows: Seq<Seq<bool>>) -> bool {
    rows.len() > 0 && rows.last().len() >= rows[0].len()
}

/// Some row after the last one, wherever the bits of the first one's width change.
pub open spec fn grew(rows: Seq<Seq<bool>>, after: Seq<Seq<bool>>, remove_last: bool) -> bool {
    exists|flips: Seq<bool>|
        flips.len() == rows[0].len() && after == #[trigger] rows_after(rows, flips, remove_last)
}

/// Adds the row that differs from the last one where `flips` says so.
pub fn push_row(chars: &mut Vec<Vec<bool>>, flips: &Vec<bool>, remove_last: bool)
    requires
        has_rows(rows_view(old(chars)@)),
        flips@.len() == old(chars)@[0]@.len(),
    ensures
        rows_view(final(chars)@) == rows_after(rows_view(old(chars)@), flips@, remove_last),
{
    let ghost before = rows_view(chars@);
    let last = chars.len() - 1;
    assert(before.last() == chars@[last as int]@);
    let mut row: Vec<bool> = Vec::new();
    let mut i: usize = 0;
    while i < flips.len()
        invariant
            i <= flips@.len(),
            last < chars@.len(),
            flips@.len() <= chars@[last as int]@.len(),
            row@.len() == i,
            forall|j: int|
                0 <= j < i ==> row@[j] == (chars@[last as int]@[j] != flips@[j]),
        decreases flips@.len() - i,
    {
        row.push(chars[last][i] != flips[i]);
        i += 1;
    }
    assert(row@ =~= flipped(before.last(), flips@));
    let ghost added = row@;
    chars.push(row);
    assert(rows_view(chars@) =~= before.push(added));
    if remove_last {
        chars.remove(0);
        assert(rows_view(chars@) =~= before.push(added).drop_first());
    }
}

/// Adds a row in which each bit of the last one changes with a chance of one in ten.
pub fn new_row(chars: &mut Vec<Vec<bool>>, remove_last: bool)
    requires
        has_rows(rows_view(old(chars)@)),
    ensures
        grew(rows_view(old(chars)@), rows_view(final(chars)@), remove_last),
{
    let mut flips: Vec<bool> = Vec::new();
    let width = chars[0].len();
    while flips.len() < width
        invariant
            flips@.len() <= width,
        decreases width - flips@.len(),
    {
        flips.push(chance(1, 10));
    }
    assert(rows_view(chars@)[0] == chars@[0]@);
    push_row(chars, &flips, remove_last);
    assert(rows_after(rows_view(old(chars)@), flips@, remove_last) == rows_view(chars@));
}

/// Adds an unset bit to every row.
pub fn new_col(chars: &mut Vec<Vec<bool>>)
    ensures
        rows_view(final(chars)@) == rows_view(old(chars)@).map_values(
            |row: Seq<bool>| row.push(false),
        ),
{
    let ghost before = rows_view(chars@);
    let mut i: usize = 0;
    while i < chars.len()
        invariant
            i <= chars@.len(),
            chars@.len() == before.len(),
            forall|j: int| 0 <= j < i ==> (#[trigger] chars@[j])@ == before[j].push(false),
            forall|j: int| i <= j < chars@.len() ==> (#[trigger] chars@[j])@ == before[j],
        decreases chars@.len() - i,
    {
        chars[i].push(false);
        i += 1;
    }
    assert(rows_view(chars@) =~= before.map_values(|row: Seq<bool>| row.push(false)));
}

/// Every row is `width` bits wide.
pub open spec fn all_wide(rows: Seq<Seq<bool>>, width: int) -> bool {
    forall|i: int| 0 <= i < rows.len() ==> (#[trigger] rows[i]).len() == width
}

/// A first row of chance bits and rows that follow from it, as many as the screen is high, but
/// at least one.
pub fn new_matrix(width: u16, height: u16) -> (r: Vec<Vec<bool>>)
    ensures
        r@.len() == if height > 1 {
            height as int
        } else {
            1
        },
        all_wide(rows_view(r@), width as int),
        has_rows(rows_view(r@)),
{
    let mut row: Vec<bool> = Vec::new();
    while row.len() < width as usize
        invariant
            row@.len() <= width,
        decreases width - row@.len(),
    {
        row.push(chance(1, 2));
    }
    let mut r: Vec<Vec<bool>> = Vec::new();
    r.push(row);
    while r.len() < height as usize
        invariant
            1 <= r@.len(),
            r@.len() <= height || r@.len() == 1,
            all_wide(rows_view(r@), width as int),
        decreases height - r@.len(),
    {
        let ghost before = rows_view(r@);
        new_row(&mut r, false);
        proof {
            let flips = choose|flips: Seq<bool>|
                flips.len() == before[0].len() && rows_view(r@) == #[trigger] rows_after(
                    before,
                    flips,
                    false,
                );
            assert(rows_view(r@) == before.push(flipped(before.last(), flips)));
            assert(rows_view(r@).len() == r@.len());
        }
    }
    r
}

} // verus!
