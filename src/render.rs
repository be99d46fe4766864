//! Border and text lines of a table, and the whole table as text.

use vstd::prelude::*;
use crate::color::{shown_as, shown_text};
use crate::layout::{column_widths, lemma_widths_len, names_view, row_view, rows_view, widths_of};

verus! {

/// `n` copies of the character `c`.
pub open spec fn run_of(c: char, n: nat) -> Seq<char> {
    Seq::new(n, |i: int| c)
}

/// The widths held by a vector, as natural numbers.
pub open spec fn nat_widths(widths: Seq<usize>) -> Seq<nat> {
    Seq::new(widths.len(), |i: int| widths[i] as nat)
}

/// The dash runs of the first `n` columns, each `width + 2` long, joined by `+`.
pub open spec fn dash_runs(widths: Seq<nat>, n: nat) -> Seq<char>
    decreases n,
{
    if n == 0 || n > widths.len() {
        Seq::empty()
    } else if n == 1 {
        run_of('-', widths[0] + 2)
    } else {
        dash_runs(widths, (n - 1) as nat) + seq!['+'] + run_of('-', widths[n - 1] + 2)
    }
}

/// The horizontal border: the dash runs of all columns, wrapped in `+`.
pub open spec fn border_of(widths: Seq<nat>) -> Seq<char> {
    seq!['+'] + dash_runs(widths, widths.len()) + seq!['+']
}

/// The spaces that pad a text of the given length to `width`; none where it is wider.
pub open spec fn pad_len(width: nat, len: nat) -> nat {
    if width > len {
        (width - len) as nat
    } else {
        0
    }
}

/// One cell of a line: a space, the shown text, padding measured on the raw text,
/// a space and `|`. The shown text is the raw text, or the raw text decorated.
pub open spec fn segment(text: Seq<char>, shown: Seq<char>, width: nat) -> Seq<char> {
    seq![' '] + shown + run_of(' ', pad_len(width, text.len())) + seq![' ', '|']
}

/// The segments of the first `n` cells.
pub open spec fn segments(
    texts: Seq<Seq<char>>,
    shown: Seq<Seq<char>>,
    widths: Seq<nat>,
    n: nat,
) -> Seq<char>
    decreases n,
{
    if n == 0 {
        Seq::empty()
    } else {
        segments(texts, shown, widths, (n - 1) as nat) + segment(
            texts[n - 1],
            shown[n - 1],
            widths[n - 1],
        )
    }
}

/// The number of cells that a line shows: those that both the line and the columns have.
pub open spec fn shown_cells(texts: Seq<Seq<char>>, widths: Seq<nat>) -> nat {
    if texts.len() < widths.len() {
        texts.len()
    } else {
        widths.len()
    }
}

/// A text line: `|` followed by one segment per shown cell. Missing cells get no
/// segment; cells beyond the last column are dropped.
pub open spec fn line_of(texts: Seq<Seq<char>>, shown: Seq<Seq<char>>, widths: Seq<nat>) -> Seq<
    char,
> {
    seq!['|'] + segments(texts, shown, widths, shown_cells(texts, widths))
}

/// The lines of a table: border, header, border, one line per row, border.
/// Widths come from the raw names and cells; `shown_names` and `shown_rows` are
/// what is printed in their place.
pub open spec fn table_lines(
    names: Seq<Seq<char>>,
    rows: Seq<Seq<Seq<char>>>,
    shown_names: Seq<Seq<char>>,
    shown_rows: Seq<Seq<Seq<char>>>,
) -> Seq<Seq<char>> {
    let widths = widths_of(names, rows);
    let border = border_of(widths);
    seq![border, line_of(names, shown_names, widths), border] + Seq::new(
        rows.len(),
        |r: int| line_of(rows[r], shown_rows[r], widths),
    ) + seq![border]
}

/// Lines joined into text, each followed by a newline.
pub open spec fn text_of(lines: Seq<Seq<char>>) -> Seq<char>
    decreases lines.len(),
{
    if lines.len() == 0 {
        Seq::empty()
    } else {
        text_of(lines.drop_last()) + lines.last() + seq!['\n']
    }
}

/// Appends `n` copies of a one-character string.
fn append_run(out: &mut String, unit: &str, n: usize)
    requires
        unit@.len() == 1,
    ensures
        final(out)@ == old(out)@ + run_of(unit@[0], n as nat),
{
    let mut k: usize = 0;
    while k < n
        invariant
            k <= n,
            unit@.len() == 1,
            out@ == old(out)@ + run_of(unit@[0], k as nat),
        decreases n - k,
    {
        out.append(unit);
        assert(run_of(unit@[0], (k + 1) as nat) =~= run_of(unit@[0], k as nat) + unit@);
        k = k + 1;
    }
}

/// Builds the horizontal border for the given column widths.
pub fn border_line(widths: &Vec<usize>) -> (line: String)
    ensures
        line@ == border_of(nat_widths(widths@)),
{
    let ghost w = nat_widths(widths@);
    proof {
        reveal_strlit("+");
        reveal_strlit("-");
    }
    let mut line = String::new();
    line.append("+");
    let mut i: usize = 0;
    while i < widths.len()
        invariant
            i <= widths@.len(),
            w == nat_widths(widths@),
            "+"@ == seq!['+'],
            "-"@ == seq!['-'],
            line@ == seq!['+'] + dash_runs(w, i as nat),
        decreases widths@.len() - i,
    {
        let ghost before = line@;
        if i > 0 {
            line.append("+");
        }
        append_run(&mut line, "-", widths[i]);
        append_run(&mut line, "-", 2);
        proof {
            let dashes = run_of('-', w[i as int] + 2);
            assert(run_of('-', widths@[i as int] as nat) + run_of('-', 2) =~= dashes);
            if i == 0 {
                assert(line@ =~= seq!['+'] + dashes);
            } else {
                assert(line@ =~= before + seq!['+'] + dashes);
            }
        }
        i = i + 1;
    }
    line.append("+");
    line
}

/// Builds a text line: for each cell that the line and the columns both have,
/// its shown text padded, by its raw length, to the column's width.
pub fn format_line(texts: &Vec<String>, shown: &Vec<String>, widths: &Vec<usize>) -> (line: String)
    requires
        shown@.len() == texts@.len(),
    ensures
        line@ == line_of(row_view(texts), row_view(shown), nat_widths(widths@)),
{
    let ghost t = row_view(texts);
    let ghost s = row_view(shown);
    let ghost w = nat_widths(widths@);
    proof {
        reveal_strlit("|");
        reveal_strlit(" ");
        reveal_strlit(" |");
    }
    let mut line = String::new();
    line.append("|");
    let mut i: usize = 0;
    while i < texts.len() && i < widths.len()
        invariant
            i <= shown_cells(t, w),
            shown@.len() == texts@.len(),
            t == row_view(texts),
            s == row_view(shown),
            w == nat_widths(widths@),
            "|"@ == seq!['|'],
            " "@ == seq![' '],
            " |"@ == seq![' ', '|'],
            line@ == seq!['|'] + segments(t, s, w, i as nat),
        decreases texts@.len() - i,
    {
        let ghost before = line@;
        let len = texts[i].unicode_len();
        let pad: usize = if widths[i] > len {
            widths[i] - len
        } else {
            0
        };
        line.append(" ");
        line.append(shown[i].as_str());
        append_run(&mut line, " ", pad);
        line.append(" |");
        assert(line@ =~= before + segment(t[i as int], s[i as int], w[i as int]));
        i = i + 1;
    }
    line
}

/// Lines are appended one at a time.
proof fn lemma_text_push(lines: Seq<Seq<char>>, line: Seq<char>)
    ensures
        text_of(lines.push(line)) == text_of(lines) + line + seq!['\n'],
{
    assert(lines.push(line).drop_last() =~= lines);
}

/// Renders the table as text, printing `shown_names` and `shown_rows` in place
/// of the names and cells while measuring widths on the raw text.
pub fn render_table_with(
    column_names: &[&str],
    rows: &[Vec<String>],
    shown_names: &Vec<String>,
    shown_rows: &[Vec<String>],
) -> (text: String)
    requires
        shown_names@.len() == column_names@.len(),
        shown_rows@.len() == rows@.len(),
        forall|r: int| 0 <= r < rows@.len() ==> #[trigger] shown_rows@[r]@.len() == rows@[r]@.len(),
    ensures
        text@ == text_of(
            table_lines(
                names_view(column_names),
                rows_view(rows),
                row_view(shown_names),
                rows_view(shown_rows),
            ),
        ),
{
    let ghost names = names_view(column_names);
    let ghost all_rows = rows_view(rows);
    let ghost lines = table_lines(names, all_rows, row_view(shown_names), rows_view(shown_rows));
    let widths = column_widths(column_names, rows);
    proof {
        lemma_widths_len(names, all_rows, all_rows.len());
        assert(nat_widths(widths@) =~= widths_of(names, all_rows));
        reveal_strlit("\n");
    }
    let mut names_owned: Vec<String> = Vec::new();
    let mut c: usize = 0;
    while c < column_names.len()
        invariant
            c <= column_names@.len(),
            names == names_view(column_names),
            names_owned@.len() == c,
            forall|i: int| 0 <= i < c ==> #[trigger] names_owned@[i]@ == names[i],
        decreases column_names@.len() - c,
    {
        names_owned.push(column_names[c].to_owned());
        c = c + 1;
    }
    assert(row_view(&names_owned) =~= names);
    let border = border_line(&widths);
    let header = format_line(&names_owned, shown_names, &widths);
    let ghost done: Seq<Seq<char>> = seq![border@, header@, border@];
    let mut text = String::new();
    text.append(border.as_str());
    text.append("\n");
    text.append(header.as_str());
    text.append("\n");
    text.append(border.as_str());
    text.append("\n");
    proof {
        lemma_text_push(Seq::empty(), border@);
        lemma_text_push(seq![border@], header@);
        lemma_text_push(seq![border@, header@], border@);
        assert(seq![border@, header@] =~= Seq::<Seq<char>>::empty().push(border@).push(header@));
        assert(done =~= seq![border@, header@].push(border@));
        assert(text_of(Seq::empty()) == Seq::<char>::empty());
        assert(text@ =~= text_of(done));
    }
    let mut r: usize = 0;
    while r < rows.len()
        invariant
            r <= rows@.len(),
            shown_rows@.len() == rows@.len(),
            forall|k: int| 0 <= k < rows@.len() ==> #[trigger] shown_rows@[k]@.len() == rows@[k]@.len(),
            names == names_view(column_names),
            all_rows == rows_view(rows),
            lines == table_lines(names, all_rows, row_view(shown_names), rows_view(shown_rows)),
            nat_widths(widths@) == widths_of(names, all_rows),
            "\n"@ == seq!['\n'],
            done.len() == 3 + r,
            forall|k: int| 0 <= k < done.len() ==> #[trigger] done[k] == lines[k],
            text@ == text_of(done),
        decreases rows@.len() - r,
    {
        let line = format_line(&rows[r], &shown_rows[r], &widths);
        text.append(line.as_str());
        text.append("\n");
        proof {
            lemma_text_push(done, line@);
            done = done.push(line@);
        }
        r = r + 1;
    }
    text.append(border.as_str());
    text.append("\n");
    proof {
        lemma_text_push(done, border@);
        done = done.push(border@);
        assert(done =~= lines);
    }
    text
}

/// `shown` holds what is printed for each name under the header color.
pub open spec fn names_shown(color: Option<&str>, names: Seq<Seq<char>>, shown: Seq<Seq<char>>) -> bool {
    &&& shown.len() == names.len()
    &&& forall|i: int| 0 <= i < names.len() ==> shown_as(color, names[i], #[trigger] shown[i])
}

/// `shown` holds what is printed for each cell under the cell color.
pub open spec fn rows_shown(
    color: Option<&str>,
    rows: Seq<Seq<Seq<char>>>,
    shown: Seq<Seq<Seq<char>>>,
) -> bool {
    &&& shown.len() == rows.len()
    &&& forall|r: int| 0 <= r < rows.len() ==> #[trigger] shown[r].len() == rows[r].len()
    &&& forall|r: int, i: int|
        0 <= r < rows.len() && 0 <= i < rows[r].len() ==> shown_as(color, rows[r][i], #[trigger] shown[r][i])
}

/// `text` is the table of `names` and `rows`, each name and cell printed as its
/// color allows, widths measured on the raw text.
pub open spec fn renders(
    names: Seq<Seq<char>>,
    rows: Seq<Seq<Seq<char>>>,
    header_color: Option<&str>,
    cell_color: Option<&str>,
    text: Seq<char>,
) -> bool {
    exists|shown_names: Seq<Seq<char>>, shown_rows: Seq<Seq<Seq<char>>>|
        names_shown(header_color, names, shown_names) && rows_shown(cell_color, rows, shown_rows)
            && text == text_of(table_lines(names, rows, shown_names, shown_rows))
}

/// Renders the table as text, names in the header color and cells in the cell
/// color where given; without colors the text is fixed by names and rows alone.
pub fn render_table(
    column_names: &[&str],
    rows: &[Vec<String>],
    header_color: Option<&str>,
    cell_color: Option<&str>,
) -> (text: String)
    ensures
        renders(names_view(column_names), rows_view(rows), header_color, cell_color, text@),
        header_color.is_none() && cell_color.is_none() ==> text@ == text_of(
            table_lines(
                names_view(column_names),
                rows_view(rows),
                names_view(column_names),
                rows_view(rows),
            ),
        ),
{
    let ghost names = names_view(column_names);
    let ghost all_rows = rows_view(rows);
    let mut shown_names: Vec<String> = Vec::new();
    let mut c: usize = 0;
    while c < column_names.len()
        invariant
            c <= column_names@.len(),
            names == names_view(column_names),
            shown_names@.len() == c,
            forall|i: int| 0 <= i < c ==> shown_as(header_color, names[i], #[trigger] shown_names@[i]@),
        decreases column_names@.len() - c,
    {
        shown_names.push(shown_text(column_names[c], header_color));
        c = c + 1;
    }
    let mut shown_rows: Vec<Vec<String>> = Vec::new();
    let mut r: usize = 0;
    while r < rows.len()
        invariant
            r <= rows@.len(),
            all_rows == rows_view(rows),
            shown_rows@.len() == r,
            forall|k: int| 0 <= k < r ==> #[trigger] shown_rows@[k]@.len() == rows@[k]@.len(),
            forall|k: int, i: int|
                0 <= k < r && 0 <= i < all_rows[k].len() ==> shown_as(
                    cell_color,
                    all_rows[k][i],
                    #[trigger] shown_rows@[k]@[i]@,
                ),
        decreases rows@.len() - r,
    {
        let row = &rows[r];
        let mut shown_row: Vec<String> = Vec::new();
        let mut i: usize = 0;
        while i < row.len()
            invariant
                i <= row@.len(),
                r < rows@.len(),
                row == &rows@[r as int],
                all_rows == rows_view(rows),
                shown_row@.len() == i,
                forall|j: int| 0 <= j < i ==> shown_as(cell_color, all_rows[r as int][j], #[trigger] shown_row@[j]@),
            decreases row@.len() - i,
        {
            assert(all_rows[r as int][i as int] == row@[i as int]@);
            shown_row.push(shown_text(row[i].as_str(), cell_color));
            i = i + 1;
        }
        shown_rows.push(shown_row);
        r = r + 1;
    }
    let text = render_table_with(column_names, rows, &shown_names, shown_rows.as_slice());
    proof {
        let sn = row_view(&shown_names);
        let sr = Seq::new(shown_rows@.len(), |k: int| row_view(&shown_rows@[k]));
        assert(names_shown(header_color, names, sn));
        assert(rows_shown(cell_color, all_rows, sr));
        if header_color.is_none() && cell_color.is_none() {
            assert(sn =~= names);
            assert forall|k: int| 0 <= k < all_rows.len() implies sr[k] =~= all_rows[k] by {}
            assert(sr =~= all_rows);
        }
    }
    text
}

} // verus!
