//! Properties of the table layout, proved over the model.

use vstd::prelude::*;
use crate::layout::{lemma_widths_len, name_widths, widen, widths_after, widths_of};
use crate::render::{border_of, line_of, pad_len, run_of, segment, segments, shown_cells, table_lines};

verus! {

/// The length of a text line over the first `n` columns: one for the leading `|`,
/// and for each column its width plus three.
pub open spec fn span(widths: Seq<nat>, n: nat) -> nat
    decreases n,
{
    if n == 0 || n > widths.len() {
        1
    } else {
        span(widths, (n - 1) as nat) + widths[n - 1] + 3
    }
}

/// The characters that decoration adds to the first `n` texts.
pub open spec fn decoration_len(texts: Seq<Seq<char>>, shown: Seq<Seq<char>>, n: nat) -> int
    decreases n,
{
    if n == 0 {
        0
    } else {
        decoration_len(texts, shown, (n - 1) as nat) + shown[n - 1].len() - texts[n - 1].len()
    }
}

/// Each width is at least the length of the name and of every cell in its column,
/// and it is the length of one of them.
pub proof fn lemma_width_bounds(names: Seq<Seq<char>>, rows: Seq<Seq<Seq<char>>>)
    ensures
        widths_of(names, rows).len() == names.len(),
        forall|i: int| 0 <= i < names.len() ==> #[trigger] widths_of(names, rows)[i] >= names[i].len(),
        forall|r: int, i: int|
            0 <= r < rows.len() && 0 <= i < names.len() && i < rows[r].len()
                ==> #[trigger] widths_of(names, rows)[i] >= #[trigger] rows[r][i].len(),
        forall|i: int|
            0 <= i < names.len() ==> #[trigger] widths_of(names, rows)[i] == names[i].len() || exists|
                r: int,
            | 0 <= r < rows.len() && i < rows[r].len() && widths_of(names, rows)[i] == #[trigger] rows[r][i].len(),
{
    lemma_widths_after_bounds(names, rows, rows.len());
}

proof fn lemma_widths_after_bounds(names: Seq<Seq<char>>, rows: Seq<Seq<Seq<char>>>, k: nat)
    requires
        k <= rows.len(),
    ensures
        widths_after(names, rows, k).len() == names.len(),
        forall|i: int| 0 <= i < names.len() ==> #[trigger] widths_after(names, rows, k)[i] >= names[i].len(),
        forall|r: int, i: int|
            0 <= r < k && 0 <= i < names.len() && i < rows[r].len()
                ==> #[trigger] widths_after(names, rows, k)[i] >= #[trigger] rows[r][i].len(),
        forall|i: int|
            0 <= i < names.len() ==> #[trigger] widths_after(names, rows, k)[i] == names[i].len() || exists|
                r: int,
            | 0 <= r < k && i < rows[r].len() && widths_after(names, rows, k)[i] == #[trigger] rows[r][i].len(),
    decreases k,
{
    lemma_widths_len(names, rows, k);
    if k > 0 {
        lemma_widths_after_bounds(names, rows, (k - 1) as nat);
        let before = widths_after(names, rows, (k - 1) as nat);
        let now = widths_after(names, rows, k);
        assert(now == widen(before, rows[k - 1]));
        assert forall|i: int| 0 <= i < names.len() implies #[trigger] now[i] == names[i].len() || exists|
            r: int,
        | 0 <= r < k && i < rows[r].len() && now[i] == #[trigger] rows[r][i].len() by {
            if i < rows[k - 1].len() && before[i] < rows[k - 1][i].len() {
                assert(now[i] == rows[k - 1][i].len());
            } else if before[i] != names[i].len() {
                let r = choose|r: int| 0 <= r < k - 1 && i < rows[r].len() && before[i] == #[trigger] rows[r][i].len();
                assert(now[i] == rows[r][i].len());
            }
        }
    } else {
        assert(widths_after(names, rows, 0) == name_widths(names));
    }
}

/// Computing the widths twice on the same names and rows gives the same widths.
pub proof fn lemma_widths_deterministic(
    names: Seq<Seq<char>>,
    rows: Seq<Seq<Seq<char>>>,
    first: Seq<usize>,
    second: Seq<usize>,
)
    requires
        first.len() == names.len(),
        second.len() == names.len(),
        forall|i: int| 0 <= i < first.len() ==> #[trigger] first[i] as nat == widths_of(names, rows)[i],
        forall|i: int| 0 <= i < second.len() ==> #[trigger] second[i] as nat == widths_of(names, rows)[i],
    ensures
        first == second,
{
    assert(first =~= second);
}

proof fn lemma_segments_len(texts: Seq<Seq<char>>, shown: Seq<Seq<char>>, widths: Seq<nat>, n: nat)
    requires
        n <= texts.len(),
        n <= shown.len(),
        n <= widths.len(),
        forall|i: int| 0 <= i < n ==> #[trigger] widths[i] >= texts[i].len(),
    ensures
        segments(texts, shown, widths, n).len() + 1 == span(widths, n) + decoration_len(texts, shown, n),
    decreases n,
{
    if n > 0 {
        lemma_segments_len(texts, shown, widths, (n - 1) as nat);
        let i = n - 1;
        assert(segment(texts[i], shown[i], widths[i]).len() == shown[i].len() + pad_len(widths[i], texts[i].len()) + 3);
    }
}

/// The length of a text line: the span of its columns plus what decoration adds.
pub proof fn lemma_line_len(texts: Seq<Seq<char>>, shown: Seq<Seq<char>>, widths: Seq<nat>)
    requires
        shown.len() == texts.len(),
        forall|i: int| 0 <= i < texts.len() && i < widths.len() ==> #[trigger] widths[i] >= texts[i].len(),
    ensures
        line_of(texts, shown, widths).len() == span(widths, shown_cells(texts, widths)) + decoration_len(
            texts,
            shown,
            shown_cells(texts, widths),
        ),
        line_of(texts, texts, widths).len() == span(widths, shown_cells(texts, widths)),
{
    let n = shown_cells(texts, widths);
    lemma_segments_len(texts, shown, widths, n);
    lemma_segments_len(texts, texts, widths, n);
    lemma_no_decoration(texts, n);
}

proof fn lemma_no_decoration(texts: Seq<Seq<char>>, n: nat)
    ensures
        decoration_len(texts, texts, n) == 0,
    decreases n,
{
    if n > 0 {
        lemma_no_decoration(texts, (n - 1) as nat);
    }
}

/// Alignment: the header line and every data line of an uncolored table are as
/// long as `1 + sum(width + 3)` over the columns that the line shows, the border
/// over all columns as well (when there is at least one).
pub proof fn lemma_alignment(names: Seq<Seq<char>>, rows: Seq<Seq<Seq<char>>>)
    ensures
        ({
            let widths = widths_of(names, rows);
            let lines = table_lines(names, rows, names, rows);
            &&& lines.len() == rows.len() + 4
            &&& lines[1].len() == span(widths, names.len())
            &&& forall|r: int|
                0 <= r < rows.len() ==> (#[trigger] lines[3 + r]).len() == span(
                    widths,
                    shown_cells(rows[r], widths),
                )
            &&& names.len() > 0 ==> lines[0].len() == span(widths, names.len())
        }),
{
    let widths = widths_of(names, rows);
    let lines = table_lines(names, rows, names, rows);
    lemma_width_bounds(names, rows);
    lemma_line_len(names, names, widths);
    assert forall|r: int| 0 <= r < rows.len() implies (#[trigger] lines[3 + r]).len() == span(
        widths,
        shown_cells(rows[r], widths),
    ) by {
        assert(lines[3 + r] == line_of(rows[r], rows[r], widths));
        lemma_line_len(rows[r], rows[r], widths);
    }
    if names.len() > 0 {
        lemma_dash_runs_len(widths, names.len());
    }
}

proof fn lemma_dash_runs_len(widths: Seq<nat>, n: nat)
    requires
        1 <= n <= widths.len(),
    ensures
        crate::render::dash_runs(widths, n).len() + 2 == span(widths, n),
    decreases n,
{
    if n > 1 {
        lemma_dash_runs_len(widths, (n - 1) as nat);
    } else {
        assert(span(widths, 0) == 1);
        assert(run_of('-', widths[0] + 2).len() == widths[0] + 2);
    }
}

/// Color transparency: coloring names or cells leaves the widths, and so the
/// borders and the padding, as they are without color. Each text line is the
/// uncolored line lengthened by exactly what decoration adds.
pub proof fn lemma_color_transparency(
    names: Seq<Seq<char>>,
    rows: Seq<Seq<Seq<char>>>,
    shown_names: Seq<Seq<char>>,
    shown_rows: Seq<Seq<Seq<char>>>,
)
    requires
        shown_names.len() == names.len(),
        shown_rows.len() == rows.len(),
        forall|r: int| 0 <= r < rows.len() ==> #[trigger] shown_rows[r].len() == rows[r].len(),
    ensures
        ({
            let widths = widths_of(names, rows);
            let colored = table_lines(names, rows, shown_names, shown_rows);
            let plain = table_lines(names, rows, names, rows);
            &&& colored.len() == plain.len()
            &&& colored[0] == plain[0] && colored[0] == border_of(widths)
            &&& colored[2] == plain[2]
            &&& colored[colored.len() - 1] == plain[plain.len() - 1]
            &&& colored[1].len() == plain[1].len() + decoration_len(names, shown_names, names.len())
            &&& forall|r: int|
                0 <= r < rows.len() ==> (#[trigger] colored[3 + r]).len() == plain[3 + r].len()
                    + decoration_len(rows[r], shown_rows[r], shown_cells(rows[r], widths))
        }),
{
    let widths = widths_of(names, rows);
    let colored = table_lines(names, rows, shown_names, shown_rows);
    let plain = table_lines(names, rows, names, rows);
    lemma_width_bounds(names, rows);
    lemma_line_len(names, shown_names, widths);
    assert forall|r: int| 0 <= r < rows.len() implies (#[trigger] colored[3 + r]).len() == plain[3 + r].len()
        + decoration_len(rows[r], shown_rows[r], shown_cells(rows[r], widths)) by {
        assert(colored[3 + r] == line_of(rows[r], shown_rows[r], widths));
        assert(plain[3 + r] == line_of(rows[r], rows[r], widths));
        lemma_line_len(rows[r], shown_rows[r], widths);
    }
}

proof fn lemma_segments_agree(
    texts: Seq<Seq<char>>,
    shown: Seq<Seq<char>>,
    widths: Seq<nat>,
    other_texts: Seq<Seq<char>>,
    other_shown: Seq<Seq<char>>,
    other_widths: Seq<nat>,
    n: nat,
)
    requires
        forall|i: int| 0 <= i < n ==> texts[i] == other_texts[i] && shown[i] == other_shown[i] && widths[i] == other_widths[i],
    ensures
        segments(texts, shown, widths, n) == segments(other_texts, other_shown, other_widths, n),
    decreases n,
{
    if n > 0 {
        lemma_segments_agree(texts, shown, widths, other_texts, other_shown, other_widths, (n - 1) as nat);
    }
}

/// Dropped cells: a row longer than the columns prints as its first cells, one
/// per column; a row shorter than the columns prints as over its own columns only,
/// with no segment for a missing cell.
pub proof fn lemma_dropped_cells(texts: Seq<Seq<char>>, shown: Seq<Seq<char>>, widths: Seq<nat>)
    requires
        shown.len() == texts.len(),
    ensures
        texts.len() >= widths.len() ==> line_of(texts, shown, widths) == line_of(
            texts.take(widths.len() as int),
            shown.take(widths.len() as int),
            widths,
        ),
        texts.len() <= widths.len() ==> line_of(texts, shown, widths) == line_of(
            texts,
            shown,
            widths.take(texts.len() as int),
        ),
        line_of(texts, shown, widths) == seq!['|'] + segments(texts, shown, widths, shown_cells(texts, widths)),
{
    let n = shown_cells(texts, widths);
    if texts.len() >= widths.len() {
        lemma_segments_agree(
            texts,
            shown,
            widths,
            texts.take(widths.len() as int),
            shown.take(widths.len() as int),
            widths,
            n,
        );
    }
    if texts.len() <= widths.len() {
        lemma_segments_agree(texts, shown, widths, texts, shown, widths.take(texts.len() as int), n);
    }
}

} // verus!
