//! The wire format: a message travels as a header block and a body.
//!
//! A frame is the line `Content-Length: N`, an empty line, and `N` bytes of
//! body; lines end in a carriage return and a line feed. A reader takes header
//! lines up to the empty one, finds the length among them and takes that many
//! bytes.

use crate::text::{lemma_next_lf, lemma_next_lf_skip, next_lf};
use vstd::prelude::*;
use vstd::utf8::{encode_utf8, is_ascii_chars_encode_utf8};

verus! {

/// The decimal digits of `n`, most significant first.
pub open spec fn digits(n: nat) -> Seq<u8>
    decreases n,
{
    if n < 10 {
        seq![(48 + n) as u8]
    } else {
        digits(n / 10).push((48 + n % 10) as u8)
    }
}

/// Whether `b` is one of the digits `0` to `9`.
pub open spec fn is_digit(b: u8) -> bool {
    48 <= b <= 57
}

/// Whether `s` holds digits only.
pub open spec fn all_digits(s: Seq<u8>) -> bool {
    forall|i: int| 0 <= i < s.len() ==> is_digit(#[trigger] s[i])
}

/// The number that the digits `s` write.
pub open spec fn digits_value(s: Seq<u8>) -> nat
    decreases s.len(),
{
    if s.len() == 0 {
        0
    } else {
        digits_value(s.drop_last()) * 10 + (s.last() - 48) as nat
    }
}

/// The number that `s` writes, read as a `usize` is read from text: a plus
/// sign may come first, at least one digit follows, nothing else, and the
/// number fits.
pub open spec fn parse_decimal(s: Seq<u8>) -> Option<usize> {
    if s.len() > 0 && s[0] == 43u8 {
        parse_digits(s.subrange(1, s.len() as int))
    } else {
        parse_digits(s)
    }
}

/// The number that the digits `d` write, if they are digits, at least one, and
/// the number fits a `usize`.
pub open spec fn parse_digits(d: Seq<u8>) -> Option<usize> {
    if d.len() > 0 && all_digits(d) && digits_value(d) <= usize::MAX {
        Some(digits_value(d) as usize)
    } else {
        None
    }
}

/// Whether `b` is white space: a space, a tab, a line feed, a vertical tab, a
/// form feed or a carriage return.
pub open spec fn is_space(b: u8) -> bool {
    b == 32 || (9 <= b <= 13)
}

/// The first offset at or behind `from` that holds no white space.
pub open spec fn skip_space(s: Seq<u8>, from: int) -> int
    decreases s.len() - from,
{
    if 0 <= from < s.len() && is_space(s[from]) {
        skip_space(s, from + 1)
    } else {
        from
    }
}

/// The offset behind the last byte before `to` that is no white space.
pub open spec fn drop_space(s: Seq<u8>, to: int) -> int
    decreases to,
{
    if 0 < to <= s.len() && is_space(s[to - 1]) {
        drop_space(s, to - 1)
    } else {
        to
    }
}

/// `s` without the white space at its two ends.
pub open spec fn trimmed(s: Seq<u8>) -> Seq<u8> {
    let from = skip_space(s, 0);
    if from >= s.len() {
        Seq::<u8>::empty()
    } else {
        s.subrange(from, drop_space(s, s.len() as int))
    }
}

/// The offset of the first colon at or behind `from` that a space follows, or
/// the length of `s` where there is none.
pub open spec fn find_separator(s: Seq<u8>, from: int) -> int
    decreases s.len() - from,
{
    if from < 0 || from + 1 >= s.len() {
        s.len() as int
    } else if s[from] == 58u8 && s[from + 1] == 32u8 {
        from
    } else {
        find_separator(s, from + 1)
    }
}

/// The name of the header that gives the length of the body.
pub open spec fn length_name() -> Seq<u8> {
    encode_utf8("Content-Length"@)
}

/// What parts a header's name from its value: a colon and a space.
pub open spec fn separator() -> Seq<u8> {
    seq![58u8, 32u8]
}

/// What ends a line: a carriage return and a line feed.
pub open spec fn line_end() -> Seq<u8> {
    seq![13u8, 10u8]
}

/// The header block that announces a body of `len` bytes.
pub open spec fn header_of(len: nat) -> Seq<u8> {
    length_name() + separator() + digits(len) + line_end() + line_end()
}

/// The frame that carries `body`.
pub open spec fn frame_of(body: Seq<u8>) -> Seq<u8> {
    header_of(body.len()) + body
}

/// Why a header block cannot be used.
#[derive(Debug, Clone, Copy, PartialEq, Eq, Structural)]
pub enum HeaderError {
    /// The value of the length header is no number that fits.
    BadLength,
    /// The empty line came before any length header.
    MissingLength,
}

/// What a header line leaves a reader to do.
#[derive(Debug, Clone, Copy, PartialEq, Eq, Structural)]
pub enum HeaderStep {
    /// Read the next header line, with this length seen so far.
    Next(Option<usize>),
    /// The header block is over: read this many bytes of body.
    Body(usize),
}

/// What a reader finds at the start of its input.
#[derive(Debug, Clone, Copy, PartialEq, Eq, Structural)]
pub enum FrameRead {
    /// The input ends before the frame does.
    Incomplete,
    /// The header block cannot be used.
    Malformed(HeaderError),
    /// A whole frame: its body begins at `start` and has `len` bytes.
    Frame { start: usize, len: usize },
}

/// What one header line means to a reader that has seen the length `seen` so
/// far. The empty line ends the block. A line whose name is `Content-Length`
/// sets the length. Any other line, with or without a separator, is passed
/// over.
pub open spec fn header_step(seen: Option<usize>, line: Seq<u8>) -> Result<
    HeaderStep,
    HeaderError,
> {
    if line == line_end() {
        match seen {
            Some(n) => Ok(HeaderStep::Body(n)),
            None => Err(HeaderError::MissingLength),
        }
    } else {
        let h = trimmed(line);
        let at = find_separator(h, 0);
        if at < h.len() && h.subrange(0, at) == length_name() {
            match parse_decimal(h.subrange(at + 2, h.len() as int)) {
                Some(n) => Ok(HeaderStep::Next(Some(n))),
                None => Err(HeaderError::BadLength),
            }
        } else {
            Ok(HeaderStep::Next(seen))
        }
    }
}

/// What a reader finds in `input` from offset `from` on, having seen the
/// length `seen` so far: it takes line after line up to the empty one, then
/// the body.
pub open spec fn read_headers(input: Seq<u8>, from: int, seen: Option<usize>) -> FrameRead
    decreases input.len() - from,
    via read_headers_decreases
{
    let stop = next_lf(input, from);
    if from < 0 || stop >= input.len() {
        FrameRead::Incomplete
    } else {
        match header_step(seen, input.subrange(from, stop + 1)) {
            Err(e) => FrameRead::Malformed(e),
            Ok(HeaderStep::Body(n)) => if stop + 1 + n <= input.len() {
                FrameRead::Frame { start: (stop + 1) as usize, len: n }
            } else {
                FrameRead::Incomplete
            },
            Ok(HeaderStep::Next(s)) => read_headers(input, stop + 1, s),
        }
    }
}

#[via_fn]
proof fn read_headers_decreases(input: Seq<u8>, from: int, seen: Option<usize>) {
    if 0 <= from <= input.len() {
        lemma_next_lf(input, from);
    }
}

/// The digits of a number are digits, at least one, and write that number.
pub proof fn lemma_digits(n: nat)
    ensures
        all_digits(digits(n)),
        digits(n).len() >= 1,
        digits_value(digits(n)) == n,
    decreases n,
{
    if n < 10 {
        assert(digits(n).drop_last() =~= Seq::<u8>::empty());
        assert(digits_value(digits(n)) == n) by {
            reveal_with_fuel(digits_value, 2);
        }
    } else {
        lemma_digits(n / 10);
        assert(digits(n).drop_last() =~= digits(n / 10));
    }
}

/// Digits write no less than the first of them do.
pub proof fn lemma_digits_value_grows(s: Seq<u8>, i: int)
    requires
        all_digits(s),
        0 <= i <= s.len(),
    ensures
        digits_value(s.subrange(0, i)) <= digits_value(s),
    decreases s.len() - i,
{
    if i < s.len() {
        lemma_digits_value_grows(s, i + 1);
        assert(s.subrange(0, i + 1).drop_last() =~= s.subrange(0, i));
        assert(is_digit(s[i]));
        assert(s.subrange(0, i + 1).last() == s[i]);
    } else {
        assert(s.subrange(0, i) =~= s);
    }
}

/// The bytes of the name of the length header.
pub proof fn lemma_length_name()
    ensures
        length_name() =~= seq![
            67u8,
            111u8,
            110u8,
            116u8,
            101u8,
            110u8,
            116u8,
            45u8,
            76u8,
            101u8,
            110u8,
            103u8,
            116u8,
            104u8,
        ],
{
    reveal_strlit("Content-Length");
    is_ascii_chars_encode_utf8("Content-Length"@);
}

/// Appends the decimal digits of `n` to `out`.
pub fn push_decimal(out: &mut Vec<u8>, n: usize)
    ensures
        final(out)@ == old(out)@ + digits(n as nat),
    decreases n,
{
    if n >= 10 {
        push_decimal(out, n / 10);
    }
    let d: u8 = (n % 10) as u8;
    out.push(48 + d);
    assert(out@ =~= old(out)@ + digits(n as nat));
}

/// Reads a number as a `usize` is read from text.
pub fn parse_usize(text: &[u8]) -> (r: Option<usize>)
    ensures
        r == parse_decimal(text@),
{
    let mut i: usize = 0;
    if text.len() > 0 && text[0] == 43u8 {
        i = 1;
    }
    let first = i;
    let ghost d = text@.subrange(first as int, text@.len() as int);
    proof {
        if first == 0 {
            assert(d =~= text@);
        }
    }
    if i == text.len() {
        return None;
    }
    let mut value: usize = 0;
    while i < text.len()
        invariant
            first <= i <= text.len(),
            d == text@.subrange(first as int, text@.len() as int),
            d.len() > 0,
            parse_decimal(text@) == parse_digits(d),
            all_digits(d.subrange(0, i - first)),
            value == digits_value(d.subrange(0, i - first)),
        decreases text.len() - i,
    {
        let b = text[i];
        if b < 48 || b > 57 {
            proof {
                assert(d[i - first] == b);
                assert(!is_digit(d[i - first]));
            }
            return None;
        }
        proof {
            assert(d.subrange(0, i + 1 - first).drop_last() =~= d.subrange(0, i - first));
            assert(d.subrange(0, i + 1 - first).last() == b);
            assert forall|k: int| 0 <= k < i + 1 - first implies is_digit(
                #[trigger] d.subrange(0, i + 1 - first)[k],
            ) by {
                if k < i - first {
                    assert(d.subrange(0, i - first)[k] == d[k]);
                }
            }
        }
        let next = match value.checked_mul(10) {
            Some(m) => m.checked_add((b - 48) as usize),
            None => None,
        };
        match next {
            Some(v) => {
                value = v;
            },
            None => {
                proof {
                    if all_digits(d) {
                        lemma_digits_value_grows(d, i + 1 - first);
                    }
                }
                return None;
            },
        }
        i = i + 1;
    }
    proof {
        assert(d.subrange(0, i - first) =~= d);
    }
    Some(value)
}

/// Whether `b` is white space.
pub fn byte_is_space(b: u8) -> (r: bool)
    ensures
        r == is_space(b),
{
    b == 32 || (9 <= b && b <= 13)
}

/// Whether `key` is the name of the length header.
pub fn is_length_name(key: &[u8]) -> (r: bool)
    ensures
        r == (key@ == length_name()),
{
    let name = "Content-Length".as_bytes();
    proof {
        lemma_length_name();
    }
    if key.len() != name.len() {
        return false;
    }
    let mut i: usize = 0;
    while i < key.len()
        invariant
            i <= key.len(),
            key.len() == name.len(),
            name@ == length_name(),
            forall|k: int| 0 <= k < i ==> key@[k] == name@[k],
        decreases key.len() - i,
    {
        if key[i] != name[i] {
            return false;
        }
        i = i + 1;
    }
    proof {
        assert(key@ =~= name@);
    }
    true
}

/// Takes one header line, line end included, and says what the reader does next.
pub fn header_line(seen: Option<usize>, line: &[u8]) -> (r: Result<HeaderStep, HeaderError>)
    ensures
        r == header_step(seen, line@),
{
    if line.len() == 2 && line[0] == 13u8 && line[1] == 10u8 {
        proof {
            assert(line@ =~= line_end());
        }
        return match seen {
            Some(n) => Ok(HeaderStep::Body(n)),
            None => Err(HeaderError::MissingLength),
        };
    }
    let mut from: usize = 0;
    while from < line.len() && byte_is_space(line[from])
        invariant
            from <= line.len(),
            skip_space(line@, 0) == skip_space(line@, from as int),
        decreases line.len() - from,
    {
        from = from + 1;
    }
    if from >= line.len() {
        proof {
            assert(trimmed(line@) =~= Seq::<u8>::empty());
        }
        return Ok(HeaderStep::Next(seen));
    }
    let mut to: usize = line.len();
    while to > 0 && byte_is_space(line[to - 1])
        invariant
            to <= line.len(),
            drop_space(line@, line@.len() as int) == drop_space(line@, to as int),
            from < line.len(),
            !is_space(line@[from as int]),
        decreases to,
    {
        to = to - 1;
    }
    assert(from < to) by {
        if to <= from {
            lemma_drop_space_stops(line@, line@.len() as int, from as int);
        }
    }
    let ghost h = line@.subrange(from as int, to as int);
    assert(h == trimmed(line@));
    let mut at: usize = from;
    while at < to - 1 && !(line[at] == 58u8 && line[at + 1] == 32u8)
        invariant
            from <= at <= to <= line.len(),
            to >= 1,
            h == line@.subrange(from as int, to as int),
            find_separator(h, 0) == find_separator(h, at - from),
        decreases to - at,
    {
        proof {
            assert(h[at - from] == line@[at as int]);
            assert(h[at - from + 1] == line@[at + 1]);
        }
        at = at + 1;
    }
    if at >= to - 1 {
        return Ok(HeaderStep::Next(seen));
    }
    proof {
        assert(h[at - from] == line@[at as int]);
        assert(h[at - from + 1] == line@[at + 1]);
        assert(find_separator(h, 0) == at - from);
    }
    let key = slice_subrange(line, from, at);
    proof {
        assert(key@ =~= h.subrange(0, at - from));
    }
    if !is_length_name(key) {
        return Ok(HeaderStep::Next(seen));
    }
    let value = slice_subrange(line, at + 2, to);
    proof {
        assert(value@ =~= h.subrange(at - from + 2, h.len() as int));
    }
    match parse_usize(value) {
        Some(n) => Ok(HeaderStep::Next(Some(n))),
        None => Err(HeaderError::BadLength),
    }
}

/// Trimming white space from the end stops at the last byte that is none.
proof fn lemma_drop_space_stops(s: Seq<u8>, to: int, keep: int)
    requires
        0 <= keep < to <= s.len(),
        !is_space(s[keep]),
    ensures
        drop_space(s, to) > keep,
    decreases to,
{
    if is_space(s[to - 1]) {
        lemma_drop_space_stops(s, to - 1, keep);
    }
}

/// Reads the frame at the start of `input`: its header block, and where its
/// body lies.
pub fn read_frame(input: &[u8]) -> (r: FrameRead)
    ensures
        r == read_headers(input@, 0, None),
        r matches FrameRead::Frame { start, len } ==> start + len <= input.len(),
{
    let mut from: usize = 0;
    let mut seen: Option<usize> = None;
    loop
        invariant
            from <= input.len(),
            read_headers(input@, 0, None) == read_headers(input@, from as int, seen),
        decreases input.len() - from,
    {
        let mut stop: usize = from;
        while stop < input.len() && input[stop] != 10u8
            invariant
                from <= stop <= input.len(),
                next_lf(input@, from as int) == next_lf(input@, stop as int),
            decreases input.len() - stop,
        {
            stop = stop + 1;
        }
        if stop >= input.len() {
            return FrameRead::Incomplete;
        }
        let line = slice_subrange(input, from, stop + 1);
        match header_line(seen, line) {
            Err(e) => {
                return FrameRead::Malformed(e);
            },
            Ok(HeaderStep::Body(n)) => {
                if n <= input.len() - (stop + 1) {
                    return FrameRead::Frame { start: stop + 1, len: n };
                } else {
                    return FrameRead::Incomplete;
                }
            },
            Ok(HeaderStep::Next(s)) => {
                seen = s;
                from = stop + 1;
            },
        }
    }
}

/// The frame that carries `body`. A reader finds in it the body, whole and
/// nothing else.
pub fn frame(body: &[u8]) -> (out: Vec<u8>)
    ensures
        out@ == frame_of(body@),
        read_headers(out@, 0, None) == (FrameRead::Frame {
            start: (out.len() - body.len()) as usize,
            len: body.len(),
        }),
        out@.subrange(out.len() - body.len(), out.len() as int) == body@,
{
    let mut out: Vec<u8> = Vec::new();
    out.extend_from_slice("Content-Length".as_bytes());
    out.push(58u8);
    out.push(32u8);
    push_decimal(&mut out, body.len());
    out.push(13u8);
    out.push(10u8);
    out.push(13u8);
    out.push(10u8);
    out.extend_from_slice(body);
    let total = out.len();
    proof {
        assert(out@ =~= frame_of(body@));
        assert(frame_of(body@) + Seq::<u8>::empty() =~= frame_of(body@));
        assert(frame_of(body@).len() == total);
        lemma_frame_round_trip(body@, Seq::<u8>::empty());
    }
    out
}

/// The bytes of `s` from `from` up to `to`.
fn slice_subrange(s: &[u8], from: usize, to: usize) -> (r: &[u8])
    requires
        from <= to <= s.len(),
    ensures
        r@ == s@.subrange(from as int, to as int),
{
    vstd::slice::slice_subrange(s, from, to)
}

/// The name of the length header begins with no white space and holds neither
/// a colon nor a line feed.
pub proof fn lemma_length_name_plain()
    ensures
        length_name().len() == 14,
        !is_space(length_name()[0]),
        forall|k: int|
            0 <= k < length_name().len() ==> #[trigger] length_name()[k] != 58u8
                && length_name()[k] != 10u8,
{
    lemma_length_name();
}

/// A line end behind text that neither begins nor ends in white space is all
/// that trimming removes.
proof fn lemma_trimmed_line(h: Seq<u8>)
    requires
        h.len() > 0,
        !is_space(h[0]),
        !is_space(h[h.len() - 1]),
    ensures
        trimmed(h + line_end()) == h,
        h + line_end() != line_end(),
{
    let line = h + line_end();
    let b = h.len() as int;
    assert(line[0] == h[0]);
    assert(line[b - 1] == h[b - 1]);
    assert(line[b] == 13u8);
    assert(line[b + 1] == 10u8);
    assert(line.len() == b + 2);
    assert(drop_space(line, b + 2) == b) by {
        reveal_with_fuel(drop_space, 3);
    }
    assert(line.subrange(0, b) =~= h);
}

/// A name without a colon, the separator and a value come apart again at the
/// separator.
proof fn lemma_name_and_value(name: Seq<u8>, value: Seq<u8>)
    requires
        forall|k: int| 0 <= k < name.len() ==> #[trigger] name[k] != 58u8,
    ensures
        find_separator(name + separator() + value, 0) == name.len(),
        (name + separator() + value).subrange(0, name.len() as int) == name,
        (name + separator() + value).subrange(
            (name.len() + 2) as int,
            (name + separator() + value).len() as int,
        ) == value,
{
    let h = name + separator() + value;
    let a = name.len() as int;
    assert forall|k: int| 0 <= k < a implies h[k] != 58u8 by {
        assert(h[k] == name[k]);
    }
    assert(h[a] == 58u8);
    assert(h[a + 1] == 32u8);
    lemma_separator_at(h, 0, a);
    assert(h.subrange(0, a) =~= name);
    assert(h.subrange(a + 2, h.len() as int) =~= value);
}

/// The line that announces a body of `n` bytes sets the length to `n`, and
/// holds no line feed before its end.
pub proof fn lemma_length_line(n: nat)
    requires
        n <= usize::MAX,
    ensures
        header_step(None, length_name() + separator() + digits(n) + line_end()) == Ok::<
            HeaderStep,
            HeaderError,
        >(HeaderStep::Next(Some(n as usize))),
        forall|k: int|
            0 <= k < (length_name() + separator() + digits(n)).len() ==> (length_name()
                + separator() + digits(n))[k] != 10u8,
{
    let name = length_name();
    let num = digits(n);
    lemma_length_name_plain();
    lemma_digits(n);
    let a = name.len() as int;
    let h = name + separator() + num;
    assert(h[0] == name[0]);
    assert(h[h.len() - 1] == num[num.len() - 1]);
    assert(is_digit(num[num.len() - 1]));
    lemma_trimmed_line(h);
    lemma_name_and_value(name, num);
    assert(is_digit(num[0]));
    assert(parse_decimal(num) == Some(n as usize));
    assert forall|k: int| 0 <= k < h.len() implies h[k] != 10u8 by {
        if k < a {
            assert(h[k] == name[k]);
        } else if k < a + 2 {
            assert(h[k] == separator()[k - a]);
        } else {
            assert(h[k] == num[k - a - 2]);
            assert(is_digit(num[k - a - 2]));
        }
    }
}

/// Frame round trip: a reader given a frame, and whatever follows it, finds
/// the body that the frame was made of, whole and nothing else.
pub proof fn lemma_frame_round_trip(body: Seq<u8>, rest: Seq<u8>)
    requires
        frame_of(body).len() + rest.len() <= usize::MAX,
    ensures
        read_headers(frame_of(body) + rest, 0, None) == (FrameRead::Frame {
            start: header_of(body.len()).len() as usize,
            len: body.len() as usize,
        }),
        (frame_of(body) + rest).subrange(
            header_of(body.len()).len() as int,
            (header_of(body.len()).len() + body.len()) as int,
        ) == body,
{
    let n = body.len();
    let input = frame_of(body) + rest;
    let h = length_name() + separator() + digits(n);
    let b = h.len() as int;
    lemma_length_line(n);
    assert(header_of(n) =~= h + line_end() + line_end());
    assert(header_of(n).len() == b + 4);
    assert forall|k: int| 0 <= k < b + 1 implies input[k] != 10u8 by {
        if k < b {
            assert(input[k] == h[k]);
        } else {
            assert(input[k] == line_end()[0]);
        }
    }
    assert(input[b + 1] == line_end()[1]);
    assert(input[b + 2] == line_end()[0]);
    assert(input[b + 3] == line_end()[1]);
    lemma_next_lf_skip(input, 0, b + 1);
    assert(next_lf(input, b + 1) == b + 1);
    assert(input.subrange(0, b + 2) =~= h + line_end());
    assert(next_lf(input, b + 2) == b + 3) by {
        reveal_with_fuel(next_lf, 2);
    }
    assert(input.subrange(b + 2, b + 4) =~= line_end());
    assert(read_headers(input, b + 2, Some(n as usize)) == (FrameRead::Frame {
        start: (b + 4) as usize,
        len: n as usize,
    }));
    assert(read_headers(input, 0, None) == read_headers(input, b + 2, Some(n as usize)));
    assert(input.subrange(b + 4, b + 4 + n) =~= body);
}

/// Where no colon with a space behind it lies before `at`, and one lies at
/// `at`, the first separator is at `at`.
proof fn lemma_separator_at(s: Seq<u8>, from: int, at: int)
    requires
        0 <= from <= at,
        at + 1 < s.len(),
        s[at] == 58u8,
        s[at + 1] == 32u8,
        forall|k: int| from <= k < at ==> s[k] != 58u8,
    ensures
        find_separator(s, from) == at,
    decreases at - from,
{
    if from < at {
        lemma_separator_at(s, from + 1, at);
    }
}

} // verus!
