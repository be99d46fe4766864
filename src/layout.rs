//! The mathematical model of a table and the computation of column widths.

use vstd::prelude::*;

verus! {

/// The text of each column name.
pub open spec fn names_view(column_names: &[&str]) -> Seq<Seq<char>> {
    Seq::new(column_names@.len(), |i: int| column_names@[i]@)
}

/// The text of each cell of a row.
pub open spec fn row_view(row: &Vec<String>) -> Seq<Seq<char>> {
    Seq::new(row@.len(), |i: int| row@[i]@)
}

/// The text of each cell of each row.
pub open spec fn rows_view(rows: &[Vec<String>]) -> Seq<Seq<Seq<char>>> {
    Seq::new(rows@.len(), |r: int| row_view(&rows@[r]))
}

/// Widths before any row is seen: the length of each column name.
pub open spec fn name_widths(names: Seq<Seq<char>>) -> Seq<nat> {
    Seq::new(names.len(), |i: int| names[i].len())
}

/// Widens each column to fit the cell of `row` at its index, where the row has one.
/// Cells beyond the last column are ignored.
pub open spec fn widen(widths: Seq<nat>, row: Seq<Seq<char>>) -> Seq<nat> {
    Seq::new(
        widths.len(),
        |i: int|
            if i < row.len() && widths[i] < row[i].len() {
                row[i].len()
            } else {
                widths[i]
            },
    )
}

/// Widths after the first `k` rows have been seen.
pub open spec fn widths_after(names: Seq<Seq<char>>, rows: Seq<Seq<Seq<char>>>, k: nat) -> Seq<nat>
    decreases k,
{
    if k == 0 || k > rows.len() {
        name_widths(names)
    } else {
        widen(widths_after(names, rows, (k - 1) as nat), rows[k - 1])
    }
}

/// The width of each column: the largest length among its name and every cell
/// that a row holds at its index.
pub open spec fn widths_of(names: Seq<Seq<char>>, rows: Seq<Seq<Seq<char>>>) -> Seq<nat> {
    widths_after(names, rows, rows.len())
}

/// There is one width per column name, however many rows were seen.
pub proof fn lemma_widths_len(names: Seq<Seq<char>>, rows: Seq<Seq<Seq<char>>>, k: nat)
    ensures
        widths_after(names, rows, k).len() == names.len(),
    decreases k,
{
    if k > 0 && k <= rows.len() {
        lemma_widths_len(names, rows, (k - 1) as nat);
    }
}

/// Computes the width of each column from the raw text of names and cells.
pub fn column_widths(column_names: &[&str], rows: &[Vec<String>]) -> (widths: Vec<usize>)
    ensures
        widths@.len() == column_names@.len(),
        forall|i: int|
            0 <= i < widths@.len() ==> widths@[i] as nat == widths_of(
                names_view(column_names),
                rows_view(rows),
            )[i],
{
    let ghost names = names_view(column_names);
    let ghost all_rows = rows_view(rows);
    let mut widths: Vec<usize> = Vec::new();
    let mut c: usize = 0;
    while c < column_names.len()
        invariant
            c <= column_names@.len(),
            names == names_view(column_names),
            widths@.len() == c,
            forall|i: int| 0 <= i < c ==> widths@[i] as nat == name_widths(names)[i],
        decreases column_names@.len() - c,
    {
        widths.push(column_names[c].unicode_len());
        c = c + 1;
    }
    let mut r: usize = 0;
    while r < rows.len()
        invariant
            r <= rows@.len(),
            names == names_view(column_names),
            all_rows == rows_view(rows),
            widths@.len() == names.len(),
            forall|i: int|
                0 <= i < widths@.len() ==> widths@[i] as nat == widths_after(names, all_rows, r as nat)[i],
        decreases rows@.len() - r,
    {
        let row = &rows[r];
        let ghost before = widths_after(names, all_rows, r as nat);
        proof {
            lemma_widths_len(names, all_rows, r as nat);
        }
        assert(all_rows[r as int] == row_view(row));
        let mut i: usize = 0;
        while i < row.len()
            invariant
                i <= row@.len(),
                row == &rows@[r as int],
                widths@.len() == names.len(),
                before.len() == names.len(),
                forall|j: int|
                    0 <= j < widths@.len() ==> widths@[j] as nat == (if j < i {
                        widen(before, row_view(row))[j]
                    } else {
                        before[j]
                    }),
            decreases row@.len() - i,
        {
            if i < widths.len() {
                let len = row[i].unicode_len();
                if len > widths[i] {
                    widths.set(i, len);
                }
            }
            i = i + 1;
        }
        assert(widths_after(names, all_rows, (r + 1) as nat) == widen(before, row_view(row)));
        r = r + 1;
    }
    widths
}

} // verus!
