use vstd::prelude::*;
use vstd::utf8::encode_utf8;

use crate::source::{Source, SourceId};
use crate::util::{push_char, push_decimal, spec_decimal};

verus! {

/// A line and column in a source, both counted from 1.
#[derive(Debug, Clone, Copy, Default, PartialEq, Eq, Structural)]
pub struct Position {
    pub line: u32,
    pub column: u32,
}

impl Position {
    /// The position as `line:column`.
    pub fn to_text(&self) -> (res: String)
        ensures
            res@ == spec_decimal(self.line as nat) + seq![':'] + spec_decimal(self.column as nat),
    {
        let mut s = String::new();
        push_decimal(&mut s, self.line as u64);
        push_char(&mut s, ':');
        push_decimal(&mut s, self.column as u64);
        assert(s@ =~= spec_decimal(self.line as nat) + seq![':'] + spec_decimal(self.column as nat));
        s
    }
}

/// A range of bytes of one source: `len` bytes from byte `offset` on.
#[derive(Debug, Clone, Copy)]
pub struct Span {
    pub offset: u32,
    pub len: u16,
    pub src_id: SourceId,
}

/// The byte `'\n'`.
pub open spec fn is_newline(c: u8) -> bool {
    c == 10u8
}

/// The index of the first `'\n'` at or after `i`, or the length of `b` when there is none.
pub open spec fn line_end(b: Seq<u8>, i: int) -> int
    decreases b.len() - i,
{
    if i >= b.len() || i < 0 {
        b.len() as int
    } else if is_newline(b[i]) {
        i
    } else {
        line_end(b, i + 1)
    }
}

pub proof fn lemma_line_end_bounds(b: Seq<u8>, i: int)
    requires
        0 <= i,
    ensures
        i <= line_end(b, i) || i >= b.len(),
        line_end(b, i) <= b.len(),
        line_end(b, i) < b.len() ==> is_newline(b[line_end(b, i)]),
    decreases b.len() - i,
{
    if i < b.len() && !is_newline(b[i]) {
        lemma_line_end_bounds(b, i + 1);
    }
}

/// The length of the line that starts at `start`, without its line ending
/// (`"\n"` or `"\r\n"`).
pub open spec fn line_content_len(b: Seq<u8>, start: int) -> int {
    let e = line_end(b, start);
    if e < b.len() && e > start && b[e - 1] == 13u8 {
        e - start - 1
    } else {
        e - start
    }
}

/// The 1-based line and column of byte offset `off`, counted from the line that
/// starts at byte `start`, which is line `line + 1`. An offset within a line,
/// or just at its end, lies on that line; past the last line the column goes on
/// counting from the end.
pub open spec fn position_from(b: Seq<u8>, start: int, line: int, off: int) -> (int, int)
    decreases b.len() + 1 - start,
{
    if start < 0 || start >= b.len() {
        (line, off + 2)
    } else {
        let len = line_content_len(b, start);
        if off <= len {
            (line + 1, off + 1)
        } else {
            proof {
                lemma_line_end_bounds(b, start);
            }
            position_from(b, line_end(b, start) + 1, line + 1, off - (len + 1))
        }
    }
}

/// The position of byte offset `off` in the text `b`.
pub open spec fn spec_position(b: Seq<u8>, off: int) -> (int, int) {
    position_from(b, 0, 0, off)
}

/// The smallest span that covers `a` and `b`, its length cut to 16 bits, in
/// the source of `a`.
pub open spec fn spec_merge(a: Span, b: Span) -> Span {
    let start = if a.offset <= b.offset {
        a.offset
    } else {
        b.offset
    };
    let end = if a.spec_end() >= b.spec_end() {
        a.spec_end()
    } else {
        b.spec_end()
    };
    Span { offset: start, len: (end - start) as u16, src_id: a.src_id }
}

/// Merging spans of one source gives a span that covers both, as long as the
/// union fits in 16 bits.
pub proof fn law_merge_covers(a: Span, b: Span)
    requires
        a.src_id == b.src_id,
        ({
            let m = spec_merge(a, b);
            let end = if a.spec_end() >= b.spec_end() {
                a.spec_end()
            } else {
                b.spec_end()
            };
            end - m.offset <= u16::MAX
        }),
    ensures
        spec_merge(a, b).offset <= a.offset,
        spec_merge(a, b).offset <= b.offset,
        spec_merge(a, b).spec_end() >= a.spec_end(),
        spec_merge(a, b).spec_end() >= b.spec_end(),
        spec_merge(a, b).src_id == a.src_id,
{
}

/// Merging spans of one source does not depend on their order.
pub proof fn law_merge_commutes(a: Span, b: Span)
    requires
        a.src_id == b.src_id,
    ensures
        spec_merge(a, b) == spec_merge(b, a),
{
}

impl Span {
    /// The first byte past the span.
    pub open spec fn spec_end(&self) -> int {
        self.offset + self.len
    }

    pub fn new(offset: u32, len: u16, src_id: SourceId) -> (res: Self)
        ensures
            res.offset == offset,
            res.len == len,
            res.src_id == src_id,
    {
        Span { offset, len, src_id }
    }

    /// The one-byte span at the start of source `src_id`.
    pub fn dummy(src_id: SourceId) -> (res: Self)
        ensures
            res.offset == 0,
            res.len == 1,
            res.src_id == src_id,
    {
        Self::new(0, 1, src_id)
    }

    /// The smallest span that covers both spans; its length is cut to 16 bits.
    pub fn merge(&self, other: &Span) -> (res: Span)
        requires
            self.src_id == other.src_id,
            self.spec_end() <= u32::MAX,
            other.spec_end() <= u32::MAX,
        ensures
            res == spec_merge(*self, *other),
    {
        let start = if self.offset <= other.offset {
            self.offset
        } else {
            other.offset
        };
        let (e1, e2) = (self.end(), other.end());
        let end = if e1 >= e2 {
            e1
        } else {
            e2
        };
        Self::new(start, (end - start) as u16, self.src_id)
    }

    /// The first byte past the span.
    pub fn end(&self) -> (res: u32)
        requires
            self.spec_end() <= u32::MAX,
        ensures
            res == self.spec_end(),
    {
        self.offset + self.len as u32
    }

    /// The span grown by `n` bytes at its end.
    pub fn extend(self, n: u16) -> (res: Self)
        requires
            self.len + n <= u16::MAX,
        ensures
            res.offset == self.offset,
            res.len == self.len + n,
            res.src_id == self.src_id,
    {
        let mut s = self;
        s.len = s.len + n;
        s
    }

    /// The positions of the first byte of the span and of the first byte past it,
    /// in the text of `source`.
    pub fn to_position_range(&self, source: &Source) -> (res: (Position, Position))
        requires
            encode_utf8(source.data@).len() < u32::MAX,
            self.spec_end() + 2 <= u32::MAX,
        ensures
            res.0.line == spec_position(encode_utf8(source.data@), self.offset as int).0,
            res.0.column == spec_position(encode_utf8(source.data@), self.offset as int).1,
            res.1.line == spec_position(encode_utf8(source.data@), self.spec_end()).0,
            res.1.column == spec_position(encode_utf8(source.data@), self.spec_end()).1,
    {
        let bytes = source.data.as_str().as_bytes();
        let a = position_of(bytes, self.offset);
        let b = position_of(bytes, self.offset + self.len as u32);
        (a, b)
    }
}

impl Default for Span {
    /// The empty span at the start of no source.
    fn default() -> (res: Self)
        ensures
            res.offset == 0,
            res.len == 0,
            res.src_id == SourceId(u16::MAX),
    {
        Span::new(0, 0, SourceId(u16::MAX))
    }
}

impl From<(u32, u16, u16)> for Span {
    /// The span of `len` bytes from `offset` in the source with raw id `src_id`.
    fn from(value: (u32, u16, u16)) -> (res: Self) {
        let (offset, len, src_id) = value;
        Span::new(offset, len, SourceId(src_id))
    }
}

impl vstd::std_specs::convert::FromSpecImpl<(u32, u16, u16)> for Span {
    open spec fn obeys_from_spec() -> bool {
        true
    }

    open spec fn from_spec(value: (u32, u16, u16)) -> Self {
        Span { offset: value.0, len: value.1, src_id: SourceId(value.2) }
    }
}

impl From<(u32, u16, SourceId)> for Span {
    /// The span of `len` bytes from `offset` in source `src_id`.
    fn from(value: (u32, u16, SourceId)) -> (res: Self) {
        let (offset, len, src_id) = value;
        Span { offset, len, src_id }
    }
}

impl vstd::std_specs::convert::FromSpecImpl<(u32, u16, SourceId)> for Span {
    open spec fn obeys_from_spec() -> bool {
        true
    }

    open spec fn from_spec(value: (u32, u16, SourceId)) -> Self {
        Span { offset: value.0, len: value.1, src_id: value.2 }
    }
}

/// The position of byte offset `offset` in the text `bytes`, scanning its lines.
fn position_of(bytes: &[u8], offset: u32) -> (res: Position)
    requires
        bytes@.len() < u32::MAX,
        offset + 2 <= u32::MAX,
    ensures
        res.line == spec_position(bytes@, offset as int).0,
        res.column == spec_position(bytes@, offset as int).1,
{
    let ghost b = bytes@;
    let ghost target = spec_position(b, offset as int);
    let n = bytes.len();
    let mut off = offset;
    let mut line_no: u32 = 0;
    let mut start: usize = 0;
    while start < n
        invariant
            n == b.len(),
            b == bytes@,
            n < u32::MAX,
            line_no <= start <= n + 1,
            off + 2 <= u32::MAX,
            position_from(b, start as int, line_no as int, off as int) == target,
            target == spec_position(b, offset as int),
        decreases n + 1 - start,
    {
        let mut e = start;
        while e < n && bytes[e] != 10u8
            invariant
                n == b.len(),
                b == bytes@,
                start <= e <= n,
                start < n,
                line_end(b, e as int) == line_end(b, start as int),
                position_from(b, start as int, line_no as int, off as int) == target,
                target == spec_position(b, offset as int),
                line_no <= start,
                off + 2 <= u32::MAX,
                n < u32::MAX,
            decreases n - e,
        {
            e = e + 1;
        }
        assert(line_end(b, e as int) == e);
        let mut len = e - start;
        if e < n && e > start && bytes[e - 1] == 13u8 {
            len = len - 1;
        }
        assert(len == line_content_len(b, start as int));
        let len32 = len as u32;
        if off <= len32 {
            return Position { line: line_no + 1, column: off + 1 };
        }
        off = off - (len32 + 1);
        line_no = line_no + 1;
        start = e + 1;
    }
    Position { line: line_no, column: off + 2 }
}

} // verus!
