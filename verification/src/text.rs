//! Text put together: numbers in decimal, lines, padding.

use vstd::prelude::*;
use vstd::string::{StrSliceExecFns, StringExecFns};

verus! {

/// The character of a decimal digit.
pub open spec fn digit_char(digit: int) -> char {
    if digit == 0 {
        '0'
    } else if digit == 1 {
        '1'
    } else if digit == 2 {
        '2'
    } else if digit == 3 {
        '3'
    } else if digit == 4 {
        '4'
    } else if digit == 5 {
        '5'
    } else if digit == 6 {
        '6'
    } else if digit == 7 {
        '7'
    } else if digit == 8 {
        '8'
    } else {
        '9'
    }
}

/// The decimal digits of a number, the most significant first, without
/// leading zeros; `0` is the one digit `0`.
pub open spec fn decimal(n: nat) -> Seq<char>
    decreases n,
{
    if n < 10 {
        seq![digit_char(n as int)]
    } else {
        decimal(n / 10).push(digit_char((n % 10) as int))
    }
}

/// The text of one decimal digit.
fn digit_text(digit: usize) -> (r: &'static str)
    requires
        digit < 10,
    ensures
        r@ == seq![digit_char(digit as int)],
{
    proof {
        reveal_strlit("0");
        reveal_strlit("1");
        reveal_strlit("2");
        reveal_strlit("3");
        reveal_strlit("4");
        reveal_strlit("5");
        reveal_strlit("6");
        reveal_strlit("7");
        reveal_strlit("8");
        reveal_strlit("9");
    }
    let text = if digit == 0 {
        "0"
    } else if digit == 1 {
        "1"
    } else if digit == 2 {
        "2"
    } else if digit == 3 {
        "3"
    } else if digit == 4 {
        "4"
    } else if digit == 5 {
        "5"
    } else if digit == 6 {
        "6"
    } else if digit == 7 {
        "7"
    } else if digit == 8 {
        "8"
    } else {
        "9"
    };
    assert(text@ =~= seq![digit_char(digit as int)]);
    text
}

/// Appends the decimal digits of `n` to `text`.
pub fn push_decimal(text: &mut String, n: usize)
    ensures
        final(text)@ == old(text)@ + decimal(n as nat),
    decreases n,
{
    if n >= 10 {
        push_decimal(text, n / 10);
    }
    text.append(digit_text(n % 10));
    assert(text@ =~= old(text)@ + decimal(n as nat));
}

/// The character `c`, `n` times.
pub open spec fn repeated(c: char, n: nat) -> Seq<char> {
    Seq::new(n, |i: int| c)
}

/// The text, with spaces behind it up to the width `width` where it is
/// shorter.
pub open spec fn padded(text: Seq<char>, width: nat) -> Seq<char> {
    if text.len() >= width {
        text
    } else {
        text + repeated(' ', (width - text.len()) as nat)
    }
}

/// The lines with a line feed between each two of them.
pub open spec fn joined(lines: Seq<Seq<char>>) -> Seq<char>
    decreases lines.len(),
{
    if lines.len() == 0 {
        Seq::empty()
    } else if lines.len() == 1 {
        lines[0]
    } else {
        joined(lines.drop_last()) + seq!['\n'] + lines.last()
    }
}

/// The pieces of a text between its line feeds: one more piece than there
/// are line feeds.
pub open spec fn split_lines(text: Seq<char>) -> Seq<Seq<char>>
    decreases text.len(),
{
    if text.len() == 0 {
        seq![Seq::empty()]
    } else {
        let before = split_lines(text.drop_last());
        if text.last() == '\n' {
            before.push(Seq::empty())
        } else {
            before.drop_last().push(before.last().push(text.last()))
        }
    }
}

/// The texts that a list of strings holds.
pub open spec fn texts(lines: Seq<String>) -> Seq<Seq<char>> {
    lines.map_values(|line: String| line@)
}

/// The length of the longest of the lines.
pub open spec fn widest(lines: Seq<Seq<char>>) -> nat
    decreases lines.len(),
{
    if lines.len() == 0 {
        0
    } else {
        let before = widest(lines.drop_last());
        if lines.last().len() > before {
            lines.last().len()
        } else {
            before
        }
    }
}

/// Appends the character `c` to `text`, `n` times. `c` is given as a text
/// of one character.
pub fn push_repeated(text: &mut String, c: &str, n: usize)
    requires
        c@.len() == 1,
    ensures
        final(text)@ == old(text)@ + repeated(c@[0], n as nat),
{
    let mut i: usize = 0;
    assert(text@ =~= old(text)@ + repeated(c@[0], 0));
    while i < n
        invariant
            i <= n,
            c@.len() == 1,
            text@ == old(text)@ + repeated(c@[0], i as nat),
        decreases n - i,
    {
        text.append(c);
        assert(text@ =~= old(text)@ + repeated(c@[0], (i + 1) as nat));
        i += 1;
    }
}

/// Appends `piece` to `text`, with spaces behind it up to the width `width`.
pub fn push_padded(text: &mut String, piece: &str, width: usize)
    ensures
        final(text)@ == old(text)@ + padded(piece@, width as nat),
{
    proof {
        reveal_strlit(" ");
    }
    let len = piece.unicode_len();
    text.append(piece);
    if len < width {
        push_repeated(text, " ", width - len);
        assert(text@ =~= old(text)@ + padded(piece@, width as nat));
    }
}

/// Puts the lines together with a line feed between each two of them.
pub fn join_lines(lines: &Vec<String>) -> (r: String)
    ensures
        r@ == joined(texts(lines@)),
{
    proof {
        reveal_strlit("\n");
    }
    let mut text = String::new();
    let mut i: usize = 0;
    assert(texts(lines@).take(0) =~= Seq::empty());
    while i < lines.len()
        invariant
            i <= lines.len(),
            text@ == joined(texts(lines@).take(i as int)),
        decreases lines.len() - i,
    {
        let ghost next = texts(lines@).take(i + 1);
        assert(next.drop_last() =~= texts(lines@).take(i as int));
        assert(next.last() == lines@[i as int]@);
        if i > 0 {
            text.append("\n");
        }
        text.append(lines[i].as_str());
        assert(text@ =~= joined(next)) by {
            if i == 0 {
                assert(joined(next.drop_last()) =~= Seq::empty());
            } else {
                reveal_strlit("\n");
                assert("\n"@ =~= seq!['\n']);
            }
        }
        i += 1;
    }
    assert(texts(lines@).take(lines@.len() as int) =~= texts(lines@));
    text
}

/// Cuts a text at its line feeds.
pub fn lines_of(text: &str) -> (r: Vec<String>)
    ensures
        texts(r@) == split_lines(text@),
{
    let len = text.unicode_len();
    let mut lines: Vec<String> = Vec::new();
    let mut start: usize = 0;
    let mut i: usize = 0;
    assert(text@.take(0) =~= Seq::empty());
    assert(split_lines(text@.take(0)) =~= texts(lines@).push(text@.subrange(0, 0)));
    while i < len
        invariant
            len == text@.len(),
            start <= i <= len,
            split_lines(text@.take(i as int)) == texts(lines@).push(
                text@.subrange(start as int, i as int),
            ),
        decreases len - i,
    {
        let ghost done = texts(lines@);
        let ghost current = text@.subrange(start as int, i as int);
        let ghost next = text@.take(i + 1);
        assert(next.drop_last() =~= text@.take(i as int));
        assert(next.last() == text@[i as int]);
        assert(done.push(current).drop_last() =~= done);
        if text.get_char(i) == '\n' {
            lines.push(String::from_str(text.substring_char(start, i)));
            assert(texts(lines@) =~= done.push(current));
            start = i + 1;
            assert(text@.subrange(start as int, i + 1) =~= Seq::empty());
        } else {
            assert(text@.subrange(start as int, i + 1) =~= current.push(text@[i as int]));
        }
        i += 1;
    }
    assert(text@.take(len as int) =~= text@);
    let ghost done = texts(lines@);
    lines.push(String::from_str(text.substring_char(start, len)));
    assert(texts(lines@) =~= done.push(text@.subrange(start as int, len as int)));
    lines
}

/// The length of the longest of the lines.
pub fn widest_of(lines: &Vec<String>) -> (r: usize)
    ensures
        r == widest(texts(lines@)),
{
    let mut width: usize = 0;
    let mut i: usize = 0;
    assert(texts(lines@).take(0) =~= Seq::empty());
    while i < lines.len()
        invariant
            i <= lines.len(),
            width == widest(texts(lines@).take(i as int)),
        decreases lines.len() - i,
    {
        let ghost next = texts(lines@).take(i + 1);
        assert(next.drop_last() =~= texts(lines@).take(i as int));
        assert(next.last() == lines@[i as int]@);
        let len = lines[i].as_str().unicode_len();
        if len > width {
            width = len;
        }
        i += 1;
    }
    assert(texts(lines@).take(lines@.len() as int) =~= texts(lines@));
    width
}

/// Whether a character is white space: a blank, a tab, the end of a line,
/// or one of the other characters that Unicode counts as white space.
pub open spec fn is_space(c: char) -> bool {
    let code = c as u32;
    (9 <= code <= 13) || code == 0x20 || code == 0x85 || code == 0xA0 || code == 0x1680 || (0x2000
        <= code <= 0x200A) || code == 0x2028 || code == 0x2029 || code == 0x202F || code == 0x205F
        || code == 0x3000
}

/// The first place from `from` on where no white space stands.
pub open spec fn skip_spaces(text: Seq<char>, from: int) -> int
    decreases text.len() - from,
{
    if from < 0 || from >= text.len() || !is_space(text[from]) {
        from
    } else {
        skip_spaces(text, from + 1)
    }
}

/// The place behind the last character before `to` that is no white space,
/// and `low` at least.
pub open spec fn drop_spaces(text: Seq<char>, low: int, to: int) -> int
    decreases to - low,
{
    if to <= low || to > text.len() || low < 0 || !is_space(text[to - 1]) {
        to
    } else {
        drop_spaces(text, low, to - 1)
    }
}

/// The text without the white space at its start and at its end.
pub open spec fn trimmed(text: Seq<char>) -> Seq<char> {
    let start = skip_spaces(text, 0);
    text.subrange(start, drop_spaces(text, start, text.len() as int))
}

/// Whether a character is white space.
pub fn check_space(c: char) -> (r: bool)
    ensures
        r == is_space(c),
{
    let code = c as u32;
    (9 <= code && code <= 13) || code == 0x20 || code == 0x85 || code == 0xA0 || code == 0x1680 || (
    0x2000 <= code && code <= 0x200A) || code == 0x2028 || code == 0x2029 || code == 0x202F || code
        == 0x205F || code == 0x3000
}

/// Cuts the white space off the start and the end of a text.
pub fn trim(text: &str) -> (r: &str)
    ensures
        r@ == trimmed(text@),
{
    let len = text.unicode_len();
    let mut start: usize = 0;
    while start < len && check_space(text.get_char(start))
        invariant
            len == text@.len(),
            start <= len,
            skip_spaces(text@, 0) == skip_spaces(text@, start as int),
        decreases len - start,
    {
        start += 1;
    }
    let mut end: usize = len;
    while end > start && check_space(text.get_char(end - 1))
        invariant
            len == text@.len(),
            start <= end <= len,
            drop_spaces(text@, start as int, len as int) == drop_spaces(
                text@,
                start as int,
                end as int,
            ),
        decreases end - start,
    {
        end -= 1;
    }
    text.substring_char(start, end)
}

} // verus!
