//! Bodies that come in chunks: the framing of `transfer-encoding: chunked`,
//! and the body that it carries.

use crate::message::{Header, HeaderView};
use vstd::prelude::*;
use vstd::string::StringSliceAdditionalSpecFns;
use vstd::utf8::encode_utf8;

verus! {

/// What the bytes of a chunked body give.
#[derive(Debug, PartialEq, Eq)]
pub enum Chunked {
    /// All chunks are there: the body that they carry, put together.
    Complete(Vec<u8>),
    /// The bytes end before the last chunk does.
    Incomplete,
    /// The bytes are no chunked body.
    Malformed,
}

/// What a [`Chunked`] stands for.
pub enum ChunkedView {
    Complete(Seq<u8>),
    Incomplete,
    Malformed,
}

impl View for Chunked {
    type V = ChunkedView;

    open spec fn view(&self) -> ChunkedView {
        match self {
            Chunked::Complete(body) => ChunkedView::Complete(body@),
            Chunked::Incomplete => ChunkedView::Incomplete,
            Chunked::Malformed => ChunkedView::Malformed,
        }
    }
}

/// Whether a carriage return and a line feed stand at the place `at`.
pub open spec fn is_crlf(bytes: Seq<u8>, at: int) -> bool {
    0 <= at && at + 1 < bytes.len() && bytes[at] == 13 && bytes[at + 1] == 10
}

/// The first place from `from` on where a line ends, if there is one.
pub open spec fn line_end(bytes: Seq<u8>, from: int) -> Option<int>
    decreases bytes.len() - from,
{
    if from < 0 || from + 1 >= bytes.len() {
        None
    } else if is_crlf(bytes, from) {
        Some(from)
    } else {
        line_end(bytes, from + 1)
    }
}

/// Where the size of a chunk ends in its line: at the first semicolon
/// between `from` and `to`, behind which an extension stands, or at `to`.
pub open spec fn size_end(bytes: Seq<u8>, from: int, to: int) -> int
    decreases to - from,
{
    if from >= to || from < 0 || from >= bytes.len() {
        to
    } else if bytes[from] == 59 {
        from
    } else {
        size_end(bytes, from + 1, to)
    }
}

/// The value of a hexadecimal digit.
pub open spec fn hex_digit(byte: u8) -> Option<nat> {
    if 48 <= byte <= 57 {
        Some((byte - 48) as nat)
    } else if 97 <= byte <= 102 {
        Some((byte - 87) as nat)
    } else if 65 <= byte <= 70 {
        Some((byte - 55) as nat)
    } else {
        None
    }
}

/// The number that the hexadecimal digits between `from` and `to` write, or
/// `None` where one of the bytes is no digit.
pub open spec fn hex_number(bytes: Seq<u8>, from: int, to: int) -> Option<nat>
    decreases to - from,
{
    if from >= to || to > bytes.len() || from < 0 {
        Some(0)
    } else {
        match (hex_number(bytes, from, to - 1), hex_digit(bytes[to - 1])) {
            (Some(n), Some(digit)) => Some(16 * n + digit),
            _ => None,
        }
    }
}

/// The size that a chunk's line gives: one hexadecimal digit at least, and a
/// number that a machine can hold.
pub open spec fn chunk_size(bytes: Seq<u8>, from: int, to: int) -> Option<nat> {
    if from >= to {
        None
    } else {
        match hex_number(bytes, from, to) {
            Some(n) => if n <= usize::MAX {
                Some(n)
            } else {
                None
            },
            None => None,
        }
    }
}

/// The body `first` in front of what the chunks behind it give.
pub open spec fn prepend(first: Seq<u8>, rest: ChunkedView) -> ChunkedView {
    match rest {
        ChunkedView::Complete(body) => ChunkedView::Complete(first + body),
        other => other,
    }
}

/// What follows the last chunk: lines of a trailer, which are left out, up
/// to an empty line.
pub open spec fn trailers(bytes: Seq<u8>, pos: int) -> ChunkedView
    decreases bytes.len() - pos,
{
    match line_end(bytes, pos) {
        None => ChunkedView::Incomplete,
        Some(end) => if end < pos || end + 2 > bytes.len() {
            ChunkedView::Malformed
        } else if end == pos {
            ChunkedView::Complete(Seq::empty())
        } else {
            trailers(bytes, end + 2)
        },
    }
}

/// The body that the chunks from `pos` on carry.
///
/// A chunk is a line with its size in hexadecimal digits, which an extension
/// may follow behind a semicolon, then as many bytes as the size says, then
/// the end of a line. The chunk of the size 0 is the last one; a trailer may
/// follow it.
pub open spec fn dechunk_from(bytes: Seq<u8>, pos: int) -> ChunkedView
    decreases bytes.len() - pos,
{
    match line_end(bytes, pos) {
        None => ChunkedView::Incomplete,
        Some(end) => if end < pos {
            ChunkedView::Malformed
        } else {
            match chunk_size(bytes, pos, size_end(bytes, pos, end)) {
                None => ChunkedView::Malformed,
                Some(size) => {
                    let start = end + 2;
                    if size == 0 {
                        trailers(bytes, start)
                    } else if bytes.len() < start + size + 2 {
                        ChunkedView::Incomplete
                    } else if !is_crlf(bytes, start + size) {
                        ChunkedView::Malformed
                    } else {
                        prepend(
                            bytes.subrange(start, start + size),
                            dechunk_from(bytes, start + size + 2),
                        )
                    }
                },
            }
        },
    }
}

/// The body that a chunked body carries.
pub open spec fn dechunked(bytes: Seq<u8>) -> ChunkedView {
    dechunk_from(bytes, 0)
}

/// Finds the first place from `from` on where a line ends.
pub fn find_line_end(bytes: &Vec<u8>, from: usize) -> (r: Option<usize>)
    ensures
        match r {
            Some(end) => line_end(bytes@, from as int) == Some(end as int) && from <= end && end
                + 1 < bytes@.len(),
            None => line_end(bytes@, from as int) is None,
        },
{
    let mut i: usize = from;
    while i < bytes.len() && i + 1 < bytes.len()
        invariant
            from <= i,
            line_end(bytes@, from as int) == line_end(bytes@, i as int),
        decreases bytes.len() - i,
    {
        if bytes[i] == 13 && bytes[i + 1] == 10 {
            return Some(i);
        }
        i += 1;
    }
    None
}

/// Finds where the size of a chunk ends in its line.
pub fn find_size_end(bytes: &Vec<u8>, from: usize, to: usize) -> (r: usize)
    requires
        from <= to <= bytes@.len(),
    ensures
        r == size_end(bytes@, from as int, to as int),
        from <= r <= to,
{
    let mut i: usize = from;
    while i < to
        invariant
            from <= i <= to,
            to <= bytes@.len(),
            size_end(bytes@, from as int, to as int) == size_end(bytes@, i as int, to as int),
        decreases to - i,
    {
        if bytes[i] == 59 {
            return i;
        }
        i += 1;
    }
    to
}

/// Digits that are no number up to some place are no number as a whole, and
/// a number only grows with more digits.
proof fn hex_number_grows(bytes: Seq<u8>, from: int, mid: int, to: int)
    requires
        0 <= from <= mid <= to <= bytes.len(),
    ensures
        hex_number(bytes, from, mid) is None ==> hex_number(bytes, from, to) is None,
        hex_number(bytes, from, to) matches Some(n) ==> hex_number(bytes, from, mid) matches Some(
            m,
        ) && m <= n,
    decreases to - mid,
{
    if mid < to {
        hex_number_grows(bytes, from, mid, to - 1);
    }
}

/// Reads the size of a chunk from its hexadecimal digits.
pub fn read_size(bytes: &Vec<u8>, from: usize, to: usize) -> (r: Option<usize>)
    requires
        from <= to <= bytes@.len(),
    ensures
        match r {
            Some(size) => chunk_size(bytes@, from as int, to as int) == Some(size as nat),
            None => chunk_size(bytes@, from as int, to as int) is None,
        },
{
    if from >= to {
        return None;
    }
    let mut size: usize = 0;
    let mut i: usize = from;
    while i < to
        invariant
            from <= i <= to,
            to <= bytes@.len(),
            hex_number(bytes@, from as int, i as int) == Some(size as nat),
        decreases to - i,
    {
        let byte = bytes[i];
        let digit: usize = if 48 <= byte && byte <= 57 {
            (byte - 48) as usize
        } else if 97 <= byte && byte <= 102 {
            (byte - 87) as usize
        } else if 65 <= byte && byte <= 70 {
            (byte - 55) as usize
        } else {
            proof {
                hex_number_grows(bytes@, from as int, i + 1, to as int);
            }
            return None;
        };
        assert(hex_digit(byte) == Some(digit as nat));
        if size > (usize::MAX - digit) / 16 {
            proof {
                hex_number_grows(bytes@, from as int, i + 1, to as int);
            }
            return None;
        }
        size = 16 * size + digit;
        i += 1;
    }
    Some(size)
}

/// What follows the last chunk adds nothing to the body.
proof fn trailers_carry_nothing(bytes: Seq<u8>, pos: int)
    ensures
        trailers(bytes, pos) matches ChunkedView::Complete(body) ==> body == Seq::<u8>::empty(),
    decreases bytes.len() - pos,
{
    if let Some(end) = line_end(bytes, pos) {
        if !(end < pos || end + 2 > bytes.len()) && end != pos {
            trailers_carry_nothing(bytes, end + 2);
        }
    }
}

/// Passes over what follows the last chunk.
pub fn skip_trailers(bytes: &Vec<u8>, from: usize) -> (r: Chunked)
    ensures
        r@ == trailers(bytes@, from as int),
{
    let mut pos: usize = from;
    loop
        invariant
            trailers(bytes@, from as int) == trailers(bytes@, pos as int),
        decreases bytes@.len() - pos,
    {
        match find_line_end(bytes, pos) {
            None => {
                return Chunked::Incomplete;
            },
            Some(end) => {
                if end == pos {
                    return Chunked::Complete(Vec::new());
                }
                assert(end + 2 <= bytes.len());
                pos = end + 2;
            },
        }
    }
}

/// Puts the body together that the chunks in `bytes` carry.
pub fn dechunk(bytes: &Vec<u8>) -> (r: Chunked)
    ensures
        r@ == dechunked(bytes@),
{
    let mut body: Vec<u8> = Vec::new();
    let mut pos: usize = 0;
    assert(dechunked(bytes@) == prepend(body@, dechunk_from(bytes@, 0))) by {
        let all = dechunk_from(bytes@, 0);
        if let ChunkedView::Complete(rest) = all {
            assert(body@ + rest =~= rest);
        }
    }
    loop
        invariant
            dechunked(bytes@) == prepend(body@, dechunk_from(bytes@, pos as int)),
        decreases bytes@.len() - pos,
    {
        let end = match find_line_end(bytes, pos) {
            Some(end) => end,
            None => {
                return Chunked::Incomplete;
            },
        };
        let cut = find_size_end(bytes, pos, end);
        let size = match read_size(bytes, pos, cut) {
            Some(size) => size,
            None => {
                return Chunked::Malformed;
            },
        };
        assert(end + 2 <= bytes.len());
        let start = end + 2;
        if size == 0 {
            proof {
                trailers_carry_nothing(bytes@, start as int);
            }
            return match skip_trailers(bytes, start) {
                Chunked::Complete(_) => {
                    assert(body@ + Seq::<u8>::empty() =~= body@);
                    Chunked::Complete(body)
                },
                other => other,
            };
        }
        if bytes.len() - start < 2 || size > bytes.len() - start - 2 {
            return Chunked::Incomplete;
        }
        if !(bytes[start + size] == 13 && bytes[start + size + 1] == 10) {
            return Chunked::Malformed;
        }
        let ghost before = body@;
        let ghost data = bytes@.subrange(start as int, start + size);
        let mut i: usize = 0;
        while i < size
            invariant
                i <= size,
                start + size <= bytes.len(),
                body@ == before + bytes@.subrange(start as int, start + i),
            decreases size - i,
        {
            body.push(bytes[start + i]);
            assert(body@ =~= before + bytes@.subrange(start as int, start + i + 1));
            i += 1;
        }
        proof {
            let rest = dechunk_from(bytes@, start + size + 2);
            if let ChunkedView::Complete(tail) = rest {
                assert(before + (data + tail) =~= (before + data) + tail);
            }
            assert(prepend(before, prepend(data, rest)) == prepend(before + data, rest));
        }
        pos = start + size + 2;
    }
}

/// A letter of ASCII in lower case; any other byte as it is.
pub open spec fn lower(byte: u8) -> u8 {
    if 65 <= byte <= 90 {
        (byte + 32) as u8
    } else {
        byte
    }
}

/// The bytes with the letters of ASCII in lower case.
pub open spec fn lowered(bytes: Seq<u8>) -> Seq<u8> {
    bytes.map_values(|byte: u8| lower(byte))
}

/// Whether a header says that the body comes in chunks: its name is
/// `transfer-encoding` and its value `chunked`, in letters of either case.
pub open spec fn says_chunked(header: HeaderView) -> bool {
    lowered(encode_utf8(header.name)) == encode_utf8("transfer-encoding"@) && lowered(
        header.value,
    ) == encode_utf8("chunked"@)
}

/// Whether one of the headers says that the body comes in chunks.
pub open spec fn is_chunked(headers: Seq<HeaderView>) -> bool {
    exists|i: int| 0 <= i < headers.len() && says_chunked(#[trigger] headers[i])
}

/// Whether `bytes` is `word` once its letters are put in lower case.
pub fn is_word(bytes: &[u8], word: &[u8]) -> (r: bool)
    ensures
        r == (lowered(bytes@) == word@),
{
    if bytes.len() != word.len() {
        assert(lowered(bytes@).len() != word@.len());
        return false;
    }
    let mut i: usize = 0;
    while i < bytes.len()
        invariant
            i <= bytes.len(),
            bytes.len() == word.len(),
            forall|k: int| 0 <= k < i ==> lowered(bytes@)[k] == word@[k],
        decreases bytes.len() - i,
    {
        let byte = bytes[i];
        let low = if 65 <= byte && byte <= 90 {
            byte + 32
        } else {
            byte
        };
        if low != word[i] {
            assert(lowered(bytes@)[i as int] != word@[i as int]);
            return false;
        }
        i += 1;
    }
    assert(lowered(bytes@) =~= word@);
    true
}

/// Whether one of the headers says that the body comes in chunks.
pub fn has_chunked(headers: &Vec<Header>) -> (r: bool)
    ensures
        r == is_chunked(crate::message::headers_view(headers@)),
{
    let mut i: usize = 0;
    while i < headers.len()
        invariant
            i <= headers.len(),
            forall|k: int| 0 <= k < i ==> !says_chunked(#[trigger] headers@[k]@),
        decreases headers.len() - i,
    {
        let header = &headers[i];
        if is_word(header.name.as_str().as_bytes(), "transfer-encoding".as_bytes()) && is_word(
            header.value.as_slice(),
            "chunked".as_bytes(),
        ) {
            assert(says_chunked(crate::message::headers_view(headers@)[i as int]));
            return true;
        }
        i += 1;
    }
    assert forall|k: int| 0 <= k < headers@.len() implies !says_chunked(
        #[trigger] crate::message::headers_view(headers@)[k],
    ) by {
        assert(!says_chunked(headers@[k]@));
    }
    false
}

} // verus!
