//! Decoration of text with terminal color sequences.

use colored::Colorize;
use vstd::prelude::*;

verus! {

/// The sequence that ends colored text and restores the default style.
pub open spec fn reset_seq() -> Seq<char> {
    seq!['\u{1b}', '[', '0', 'm']
}

/// `part` occurs somewhere in `text`.
pub open spec fn occurs_in(part: Seq<char>, text: Seq<char>) -> bool {
    exists|i: int| 0 <= i && i + part.len() <= text.len() && #[trigger] text.subrange(i, i + part.len()) == part
}

/// A style sequence: escape, `[`, parameters, `m`.
pub open spec fn is_style(style: Seq<char>) -> bool {
    &&& style.len() >= 3
    &&& style[0] == '\u{1b}'
    &&& style[1] == '['
    &&& style.last() == 'm'
}

/// `shown` is `text` as a terminal decoration may print it: unchanged, or, for a
/// text that holds no reset sequence of its own, wrapped between a style sequence
/// and the reset sequence.
pub open spec fn painted(text: Seq<char>, shown: Seq<char>) -> bool {
    ||| shown == text
    ||| (!occurs_in(reset_seq(), text) ==> exists|style: Seq<char>|
        is_style(style) && shown == style + text + reset_seq())
}

/// What is printed for `text` under an optional color: the text itself when there
/// is no color, a painted form of it when there is one.
pub open spec fn shown_as(color: Option<&str>, text: Seq<char>, shown: Seq<char>) -> bool {
    match color {
        None => shown == text,
        Some(_) => painted(text, shown),
    }
}

/// Relies on colored 2's `Colorize::color` for `&str` (the name is parsed into a
/// color, white when unknown) and on `Display` for `ColoredString`: where coloring
/// is off (an override, `CLICOLOR_FORCE`, `NO_COLOR`,
/// `CLICOLOR`, or standard output not a terminal) the input is written as it is;
/// else the style sequence, the input, and the reset sequence. An input that holds
/// the reset sequence has the style repeated after it, hence no claim for it.
#[verifier::external_body]
fn paint(text: &str, color: &str) -> (shown: String)
    ensures
        painted(text@, shown@),
{
    text.color(color).to_string()
}

/// What is printed for `text`: the text itself, or, with a color, its painted form.
pub fn shown_text(text: &str, color: Option<&str>) -> (shown: String)
    ensures
        shown_as(color, text@, shown@),
{
    match color {
        Some(name) => paint(text, name),
        None => text.to_owned(),
    }
}

} // verus!
