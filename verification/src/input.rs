use vstd::prelude::*;

verus! {

/// The characters that count as white space: those with the Unicode property
/// `White_Space`.
pub open spec fn is_white_space(c: char) -> bool {
    ||| '\u{9}' <= c <= '\u{d}'
    ||| c == ' '
    ||| c == '\u{85}'
    ||| c == '\u{a0}'
    ||| c == '\u{1680}'
    ||| '\u{2000}' <= c <= '\u{200a}'
    ||| c == '\u{2028}'
    ||| c == '\u{2029}'
    ||| c == '\u{202f}'
    ||| c == '\u{205f}'
    ||| c == '\u{3000}'
}

/// The last character of a text that is not white space, if it has one.
pub open spec fn last_visible(text: Seq<char>) -> Option<char>
    decreases text.len(),
{
    if text.len() == 0 {
        None
    } else if is_white_space(text.last()) {
        last_visible(text.drop_last())
    } else {
        Some(text.last())
    }
}

/// A line opens a block if `{` is the last that stands on it, white space
/// aside: the lines after it belong to the same input.
pub open spec fn opens_block(line: Seq<char>) -> bool {
    last_visible(line) == Some('{')
}

/// A line is blank if nothing but white space stands on it: it ends an input
/// of several lines.
pub open spec fn is_blank_line(line: Seq<char>) -> bool {
    last_visible(line) is None
}

/// Whether the character is white space.
fn white_space(c: char) -> (white: bool)
    ensures
        white == is_white_space(c),
{
    ('\u{9}' <= c && c <= '\u{d}') || c == ' ' || c == '\u{85}' || c == '\u{a0}' || c
        == '\u{1680}' || ('\u{2000}' <= c && c <= '\u{200a}') || c == '\u{2028}' || c
        == '\u{2029}' || c == '\u{202f}' || c == '\u{205f}' || c == '\u{3000}'
}

/// The last character of the line that is not white space, if it has one.
fn last_visible_of(line: &str) -> (last: Option<char>)
    ensures
        last == last_visible(line@),
{
    let mut last: Option<char> = None;
    for c in it: line.chars()
        invariant
            it.seq() == line@,
            last == last_visible(line@.take(it.index() as int)),
    {
        proof {
            let longer = line@.take(it.index() + 1);
            assert(longer.drop_last() =~= line@.take(it.index() as int));
            assert(longer.last() == c);
        }
        if !white_space(c) {
            last = Some(c);
        }
    }
    assert(line@.take(line@.len() as int) =~= line@);
    last
}

/// Whether the lines after this one belong to the same input.
pub fn line_opens_block(line: &str) -> (opens: bool)
    ensures
        opens == opens_block(line@),
{
    match last_visible_of(line) {
        Some(c) => c == '{',
        None => false,
    }
}

/// Whether the line ends an input of several lines.
pub fn line_is_blank(line: &str) -> (blank: bool)
    ensures
        blank == is_blank_line(line@),
{
    last_visible_of(line).is_none()
}

} // verus!
