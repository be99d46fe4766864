//! Command-line options and input records, read into plain values.

use vstd::prelude::*;

verus! {

/// A character with the Unicode `White_Space` property.
pub open spec fn is_white_space(c: char) -> bool {
    let n = c as u32;
    ||| 0x09 <= n <= 0x0d
    ||| n == 0x20
    ||| n == 0x85
    ||| n == 0xa0
    ||| n == 0x1680
    ||| 0x2000 <= n <= 0x200a
    ||| n == 0x2028
    ||| n == 0x2029
    ||| n == 0x202f
    ||| n == 0x205f
    ||| n == 0x3000
}

/// Relies on `char::is_whitespace`: true exactly for `White_Space` characters.
#[verifier::external_body]
fn is_space(c: char) -> (r: bool)
    ensures
        r == is_white_space(c),
{
    c.is_whitespace()
}

/// Relies on `str::chars`: the characters of the text, in order.
#[verifier::external_body]
fn chars_of(s: &str) -> (r: Vec<char>)
    ensures
        r@ == s@,
{
    s.chars().collect()
}

/// Relies on `String: FromIterator<char>`: a string of exactly these characters.
#[verifier::external_body]
fn string_of(cs: &[char]) -> (r: String)
    ensures
        r@ == cs@,
{
    cs.iter().collect()
}

/// The pieces of `s` between occurrences of `sep`; there is always at least one.
pub open spec fn pieces_of(s: Seq<char>, sep: char) -> Seq<Seq<char>>
    decreases s.len(),
{
    if s.len() == 0 {
        seq![Seq::empty()]
    } else {
        let before = pieces_of(s.drop_last(), sep);
        if s.last() == sep {
            before.push(Seq::empty())
        } else {
            before.update(before.len() - 1, before.last().push(s.last()))
        }
    }
}

/// The records found so far and the record being read.
pub open spec fn scan_records(s: Seq<char>) -> (Seq<Seq<char>>, Seq<char>)
    decreases s.len(),
{
    if s.len() == 0 {
        (Seq::empty(), Seq::empty())
    } else {
        let (done, current) = scan_records(s.drop_last());
        if is_white_space(s.last()) {
            if current.len() > 0 {
                (done.push(current), Seq::empty())
            } else {
                (done, Seq::empty())
            }
        } else {
            (done, current.push(s.last()))
        }
    }
}

/// The records of `s`: its maximal runs of characters that are not white space.
pub open spec fn records_of(s: Seq<char>) -> Seq<Seq<char>> {
    let (done, current) = scan_records(s);
    if current.len() > 0 {
        done.push(current)
    } else {
        done
    }
}

/// The rows of an input text: each record split into its comma-separated fields.
/// A record holds no white space, so neither does a field.
pub open spec fn rows_of_text(s: Seq<char>) -> Seq<Seq<Seq<char>>> {
    Seq::new(records_of(s).len(), |r: int| pieces_of(records_of(s)[r], ','))
}

/// The text of each string of a vector.
pub open spec fn strings_view(v: Seq<String>) -> Seq<Seq<char>> {
    Seq::new(v.len(), |i: int| v[i]@)
}

/// Splits `cs` at every `sep`.
fn split_chars(cs: &[char], sep: char) -> (pieces: Vec<String>)
    ensures
        strings_view(pieces@) == pieces_of(cs@, sep),
{
    let mut pieces: Vec<String> = Vec::new();
    let mut current: Vec<char> = Vec::new();
    let mut i: usize = 0;
    while i < cs.len()
        invariant
            i <= cs@.len(),
            strings_view(pieces@).push(current@) == pieces_of(cs@.take(i as int), sep),
        decreases cs@.len() - i,
    {
        let ghost before = strings_view(pieces@);
        let ghost old_current = current@;
        assert(cs@.take(i + 1).drop_last() =~= cs@.take(i as int));
        assert(cs@.take(i + 1).last() == cs@[i as int]);
        if cs[i] == sep {
            pieces.push(string_of(current.as_slice()));
            current = Vec::new();
            assert(strings_view(pieces@) =~= before.push(old_current));
        } else {
            current.push(cs[i]);
            assert(strings_view(pieces@) =~= before);
            assert(before.push(old_current).update(before.len() as int, old_current.push(cs@[i as int]))
                =~= before.push(current@));
        }
        i = i + 1;
    }
    assert(cs@.take(cs@.len() as int) =~= cs@);
    let ghost before = strings_view(pieces@);
    pieces.push(string_of(current.as_slice()));
    assert(strings_view(pieces@) =~= before.push(current@));
    pieces
}

/// The fields of each row, as text.
pub open spec fn rows_of_strings(rows: Seq<Vec<String>>) -> Seq<Seq<Seq<char>>> {
    Seq::new(rows.len(), |r: int| strings_view(rows[r]@))
}

/// Reads rows from input text: records are separated by white space, and the
/// fields of a record by commas.
pub fn parse_rows(input: &str) -> (rows: Vec<Vec<String>>)
    ensures
        rows_of_strings(rows@) == rows_of_text(input@),
{
    let cs = chars_of(input);
    let mut rows: Vec<Vec<String>> = Vec::new();
    let mut current: Vec<char> = Vec::new();
    let mut i: usize = 0;
    while i < cs.len()
        invariant
            i <= cs@.len(),
            cs@ == input@,
            rows@.len() == scan_records(cs@.take(i as int)).0.len(),
            forall|r: int|
                0 <= r < rows@.len() ==> #[trigger] strings_view(rows@[r]@) == pieces_of(
                    scan_records(cs@.take(i as int)).0[r],
                    ',',
                ),
            current@ == scan_records(cs@.take(i as int)).1,
        decreases cs@.len() - i,
    {
        assert(cs@.take(i + 1).drop_last() =~= cs@.take(i as int));
        assert(cs@.take(i + 1).last() == cs@[i as int]);
        if is_space(cs[i]) {
            if current.len() > 0 {
                rows.push(split_chars(current.as_slice(), ','));
                current = Vec::new();
            }
        } else {
            current.push(cs[i]);
        }
        i = i + 1;
    }
    assert(cs@.take(cs@.len() as int) =~= cs@);
    if current.len() > 0 {
        rows.push(split_chars(current.as_slice(), ','));
    }
    assert(rows_of_strings(rows@) =~= rows_of_text(input@));
    rows
}

/// What the command line asks for: the column names and the optional colors.
pub struct Options {
    pub columns: Vec<String>,
    pub header_color: Option<String>,
    pub cell_color: Option<String>,
}

/// The text of an optional string.
pub open spec fn opt_view(o: Option<String>) -> Option<Seq<char>> {
    match o {
        Some(s) => Some(s@),
        None => None,
    }
}

/// The argument after the first occurrence of `flag` at or after index `k`, if
/// `flag` occurs there and is not the last argument.
pub open spec fn value_after(args: Seq<Seq<char>>, flag: Seq<char>, k: nat) -> Option<Seq<char>>
    decreases args.len() - k,
{
    if k >= args.len() {
        None
    } else if args[k as int] == flag {
        if k + 1 < args.len() {
            Some(args[k + 1 as int])
        } else {
            None
        }
    } else {
        value_after(args, flag, k + 1)
    }
}

/// The command line is usable: the first argument after the program is `-c`,
/// followed by the column names.
pub open spec fn usage_ok(args: Seq<Seq<char>>) -> bool {
    args.len() >= 3 && args[1] == "-c"@
}

/// Finds the value given for `flag`.
fn flag_value(args: &Vec<String>, flag: &str) -> (value: Option<String>)
    ensures
        opt_view(value) == value_after(strings_view(args@), flag@, 0),
{
    let ghost all = strings_view(args@);
    let wanted = flag.to_owned();
    let mut k: usize = 0;
    while k < args.len()
        invariant
            k <= args@.len(),
            all == strings_view(args@),
            wanted@ == flag@,
            value_after(all, flag@, 0) == value_after(all, flag@, k as nat),
        decreases args@.len() - k,
    {
        if args[k].eq(&wanted) {
            if k + 1 < args.len() {
                return Some(args[k + 1].clone());
            } else {
                return None;
            }
        }
        k = k + 1;
    }
    None
}

/// Reads the options from the command line, program name first; `None` when it
/// is not usable.
pub fn parse_args(args: &Vec<String>) -> (opts: Option<Options>)
    ensures
        opts.is_some() <==> usage_ok(strings_view(args@)),
        opts matches Some(o) ==> {
            &&& strings_view(o.columns@) == pieces_of(args@[2]@, ',')
            &&& opt_view(o.header_color) == value_after(strings_view(args@), "--header-color"@, 0)
            &&& opt_view(o.cell_color) == value_after(strings_view(args@), "--cell-color"@, 0)
        },
{
    let dash_c = "-c".to_owned();
    if args.len() < 3 || !args[1].eq(&dash_c) {
        return None;
    }
    let names = chars_of(args[2].as_str());
    let columns = split_chars(names.as_slice(), ',');
    let header_color = flag_value(args, "--header-color");
    let cell_color = flag_value(args, "--cell-color");
    Some(Options { columns, header_color, cell_color })
}

} // verus!
