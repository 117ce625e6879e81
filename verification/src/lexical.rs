use vstd::prelude::*;

use crate::lexer_diag::{LexerDiag, LexerDiagErrorKind, LexerDiagKind};
use crate::source::SourceId;
use crate::span::{lemma_line_end_bounds, line_end, Span};
use crate::token::{GraphView, Token, TokenIdentKind, TokenKind};
use crate::util::spec_is_ascii_digit;

verus! {

// ---------------------------------------------------------------------------
// Byte classes (ASCII)
// ---------------------------------------------------------------------------

/// ASCII whitespace: space, tab, line feed, form feed, carriage return.
pub open spec fn is_ws(c: u8) -> bool {
    c == 32u8 || c == 9u8 || c == 10u8 || c == 12u8 || c == 13u8
}

pub open spec fn is_alpha(c: u8) -> bool {
    (65u8 <= c <= 90u8) || (97u8 <= c <= 122u8)
}

pub open spec fn is_digit(c: u8) -> bool {
    48u8 <= c <= 57u8
}

pub open spec fn is_alnum(c: u8) -> bool {
    is_alpha(c) || is_digit(c)
}

/// A byte that continues an identifier: `_` or an ASCII letter or digit.
pub open spec fn is_ident_char(c: u8) -> bool {
    c == 95u8 || is_alnum(c)
}

/// A byte that starts an identifier: `@`, `_` or an ASCII letter.
pub open spec fn is_ident_start(c: u8) -> bool {
    c == 64u8 || c == 95u8 || is_alpha(c)
}

pub(crate) fn ws_byte(c: u8) -> (res: bool)
    ensures
        res == is_ws(c),
{
    c == 32u8 || c == 9u8 || c == 10u8 || c == 12u8 || c == 13u8
}

pub(crate) fn alpha_byte(c: u8) -> (res: bool)
    ensures
        res == is_alpha(c),
{
    (65u8 <= c && c <= 90u8) || (97u8 <= c && c <= 122u8)
}

pub(crate) fn digit_byte(c: u8) -> (res: bool)
    ensures
        res == is_digit(c),
{
    48u8 <= c && c <= 57u8
}

pub(crate) fn alnum_byte(c: u8) -> (res: bool)
    ensures
        res == is_alnum(c),
{
    alpha_byte(c) || digit_byte(c)
}

// ---------------------------------------------------------------------------
// Where each kind of token ends
// ---------------------------------------------------------------------------

/// The first index at or after `j` that does not continue an identifier.
pub open spec fn ident_end(b: Seq<u8>, j: int) -> int
    decreases b.len() - j,
{
    if 0 <= j < b.len() && is_ident_char(b[j]) {
        ident_end(b, j + 1)
    } else {
        j
    }
}

/// The first index at or after `j` that holds no ASCII letter or digit.
pub open spec fn alnum_end(b: Seq<u8>, j: int) -> int
    decreases b.len() - j,
{
    if 0 <= j < b.len() && is_alnum(b[j]) {
        alnum_end(b, j + 1)
    } else {
        j
    }
}

/// Where a run of whitespace from `j` stops: just past its first line feed, or
/// at the first byte that is no whitespace.
pub open spec fn ws_stop(b: Seq<u8>, j: int) -> int
    decreases b.len() - j,
{
    if 0 <= j < b.len() && is_ws(b[j]) {
        if b[j] == 10u8 {
            j + 1
        } else {
            ws_stop(b, j + 1)
        }
    } else {
        j
    }
}

/// Whether the run of whitespace from `j` stops at a line feed.
pub open spec fn ws_stops_at_newline(b: Seq<u8>, j: int) -> bool
    decreases b.len() - j,
{
    if 0 <= j < b.len() && is_ws(b[j]) {
        if b[j] == 10u8 {
            true
        } else {
            ws_stops_at_newline(b, j + 1)
        }
    } else {
        false
    }
}

/// Scans the body of a character sequence from `j` up to the closing `quote`:
/// a backslash takes the next byte with it. Gives the index past the sequence,
/// whether the closing quote was found, and how many characters the body holds.
pub open spec fn charseq_scan(b: Seq<u8>, j: int, quote: u8) -> (int, bool, nat)
    decreases b.len() + 2 - j,
{
    if j < 0 || j >= b.len() {
        (j, false, 0)
    } else if b[j] == quote {
        (j + 1, true, 0)
    } else {
        let next = if b[j] == 92u8 {
            j + 2
        } else {
            j + 1
        };
        let r = charseq_scan(b, next, quote);
        (r.0, r.1, r.2 + 1)
    }
}

/// The index after an optional leading `-` at `s`.
pub open spec fn num_after_sign(b: Seq<u8>, s: int) -> int {
    if 0 <= s < b.len() && b[s] == 45u8 {
        s + 1
    } else {
        s
    }
}

/// A `0` that is the last byte: the lexer reads no number there.
pub open spec fn num_cut_short(b: Seq<u8>, p: int) -> bool {
    0 <= p < b.len() && b[p] == 48u8 && p + 1 >= b.len()
}

/// Whether the number at `p` has a `0` with a following byte, a possible prefix.
pub open spec fn num_has_prefix_zero(b: Seq<u8>, p: int) -> bool {
    0 <= p && p + 1 < b.len() && b[p] == 48u8
}

/// The radix of the number at `p`: `0b`, `0o`, `0x` give 2, 8, 16; a `0`
/// followed by another letter gives 255, an invalid prefix; otherwise 10.
pub open spec fn num_base(b: Seq<u8>, p: int) -> u8 {
    if num_has_prefix_zero(b, p) {
        let c = b[p + 1];
        if c == 98u8 {
            2
        } else if c == 111u8 {
            8
        } else if c == 120u8 {
            16
        } else if is_digit(c) || is_ws(c) || c == 46u8 {
            10
        } else if is_alpha(c) {
            255
        } else {
            10
        }
    } else {
        10
    }
}

/// Where the digits of the number at `p` start: after a prefix of two bytes, or
/// after a leading `0` of one byte.
pub open spec fn num_digits_start(b: Seq<u8>, p: int) -> int {
    if num_has_prefix_zero(b, p) {
        let base = num_base(b, p);
        if base == 2 || base == 8 || base == 16 {
            p + 2
        } else {
            p + 1
        }
    } else {
        p
    }
}

/// Where the integral digits of the number starting at `s` end.
pub open spec fn num_int_end(b: Seq<u8>, s: int) -> int {
    alnum_end(b, num_digits_start(b, num_after_sign(b, s)))
}

/// Whether the number starting at `s` has a fractional part.
pub open spec fn num_has_frac(b: Seq<u8>, s: int) -> bool {
    let e = num_int_end(b, s);
    0 <= e < b.len() && b[e] == 46u8
}

/// Where the number starting at `s` ends.
pub open spec fn num_end(b: Seq<u8>, s: int) -> int {
    if num_has_frac(b, s) {
        alnum_end(b, num_int_end(b, s) + 1)
    } else {
        num_int_end(b, s)
    }
}

/// Whether the lexer reads no number at `s` (a `0` that is the last byte, or
/// an invalid prefix).
pub open spec fn num_none(b: Seq<u8>, s: int) -> bool {
    let p = num_after_sign(b, s);
    num_cut_short(b, p) || num_base(b, p) == 255
}

/// The byte after `off`, or -1 past the end.
pub open spec fn peek1(b: Seq<u8>, off: int) -> int {
    if 0 <= off + 1 < b.len() {
        b[off + 1] as int
    } else {
        -1
    }
}

/// The operator or delimiter token that starts with byte `c` when `next` follows
/// it (-1 at the end), and its length; an unknown byte gives `Invalid`.
pub open spec fn punct(c: u8, next: int) -> (TokenKind, u16) {
    if c == 43u8 {
        // '+'
        if next == 43 {
            (TokenKind::PlusPlus, 2)
        } else if next == 61 {
            (TokenKind::PlusEq, 2)
        } else {
            (TokenKind::Plus, 1)
        }
    } else if c == 45u8 {
        // '-'
        if next == 45 {
            (TokenKind::MinusMinus, 2)
        } else if next == 61 {
            (TokenKind::MinusEq, 2)
        } else if next == 62 {
            (TokenKind::MinusGreater, 2)
        } else {
            (TokenKind::Minus, 1)
        }
    } else if c == 42u8 {
        // '*'
        if next == 61 {
            (TokenKind::StarEq, 2)
        } else {
            (TokenKind::Star, 1)
        }
    } else if c == 47u8 {
        // '/'
        if next == 61 {
            (TokenKind::SlashEq, 2)
        } else {
            (TokenKind::Slash, 1)
        }
    } else if c == 37u8 {
        // '%'
        if next == 61 {
            (TokenKind::PercentEq, 2)
        } else {
            (TokenKind::Percent, 1)
        }
    } else if c == 94u8 {
        // '^'
        if next == 94 {
            (TokenKind::CaretCaret, 2)
        } else {
            (TokenKind::Caret, 1)
        }
    } else if c == 61u8 {
        // '='
        if next == 61 {
            (TokenKind::EqEq, 2)
        } else {
            (TokenKind::Eq, 1)
        }
    } else if c == 33u8 {
        // '!'
        if next == 61 {
            (TokenKind::BangEq, 2)
        } else {
            (TokenKind::Bang, 1)
        }
    } else if c == 126u8 {
        (TokenKind::Tilde, 1)
    } else if c == 60u8 {
        // '<'
        if next == 61 {
            (TokenKind::LessEq, 2)
        } else if next == 60 {
            (TokenKind::LessLess, 2)
        } else if next == 45 {
            (TokenKind::LessMinus, 2)
        } else {
            (TokenKind::Less, 1)
        }
    } else if c == 62u8 {
        (TokenKind::Greater, 1)
    } else if c == 38u8 {
        // '&'
        if next == 38 {
            (TokenKind::AmpersandAmpersand, 2)
        } else {
            (TokenKind::Ampersand, 1)
        }
    } else if c == 124u8 {
        // '|'
        if next == 124 {
            (TokenKind::PipePipe, 2)
        } else {
            (TokenKind::Pipe, 1)
        }
    } else if c == 46u8 {
        (TokenKind::Dot, 1)
    } else if c == 44u8 {
        (TokenKind::Comma, 1)
    } else if c == 59u8 {
        (TokenKind::SemiColon, 1)
    } else if c == 58u8 {
        // ':'
        if next == 58 {
            (TokenKind::ColonColon, 2)
        } else {
            (TokenKind::Colon, 1)
        }
    } else if c == 41u8 {
        (TokenKind::RightParen, 1)
    } else if c == 125u8 {
        (TokenKind::RightBrace, 1)
    } else if c == 93u8 {
        (TokenKind::RightBracket, 1)
    } else {
        (TokenKind::Invalid, 1)
    }
}

/// The byte after a position as an integer, -1 when there is none.
pub open spec fn opt_byte(next: Option<u8>) -> int {
    match next {
        Some(n) => n as int,
        None => -1,
    }
}

/// The operator or delimiter token that starts with `c` when `next` follows
/// it, and its length.
pub(crate) fn punct_of(c: u8, next: Option<u8>) -> (res: (TokenKind, u16))
    ensures
        res == punct(c, opt_byte(next)),
{
    let n: i32 = match next {
        Some(n) => n as i32,
        None => -1,
    };
    match c {
        43u8 => if n == 43 {
            (TokenKind::PlusPlus, 2)
        } else if n == 61 {
            (TokenKind::PlusEq, 2)
        } else {
            (TokenKind::Plus, 1)
        },
        45u8 => if n == 45 {
            (TokenKind::MinusMinus, 2)
        } else if n == 61 {
            (TokenKind::MinusEq, 2)
        } else if n == 62 {
            (TokenKind::MinusGreater, 2)
        } else {
            (TokenKind::Minus, 1)
        },
        42u8 => if n == 61 {
            (TokenKind::StarEq, 2)
        } else {
            (TokenKind::Star, 1)
        },
        47u8 => if n == 61 {
            (TokenKind::SlashEq, 2)
        } else {
            (TokenKind::Slash, 1)
        },
        37u8 => if n == 61 {
            (TokenKind::PercentEq, 2)
        } else {
            (TokenKind::Percent, 1)
        },
        94u8 => if n == 94 {
            (TokenKind::CaretCaret, 2)
        } else {
            (TokenKind::Caret, 1)
        },
        61u8 => if n == 61 {
            (TokenKind::EqEq, 2)
        } else {
            (TokenKind::Eq, 1)
        },
        33u8 => if n == 61 {
            (TokenKind::BangEq, 2)
        } else {
            (TokenKind::Bang, 1)
        },
        126u8 => (TokenKind::Tilde, 1),
        60u8 => if n == 61 {
            (TokenKind::LessEq, 2)
        } else if n == 60 {
            (TokenKind::LessLess, 2)
        } else if n == 45 {
            (TokenKind::LessMinus, 2)
        } else {
            (TokenKind::Less, 1)
        },
        62u8 => (TokenKind::Greater, 1),
        38u8 => if n == 38 {
            (TokenKind::AmpersandAmpersand, 2)
        } else {
            (TokenKind::Ampersand, 1)
        },
        124u8 => if n == 124 {
            (TokenKind::PipePipe, 2)
        } else {
            (TokenKind::Pipe, 1)
        },
        46u8 => (TokenKind::Dot, 1),
        44u8 => (TokenKind::Comma, 1),
        59u8 => (TokenKind::SemiColon, 1),
        58u8 => if n == 58 {
            (TokenKind::ColonColon, 2)
        } else {
            (TokenKind::Colon, 1)
        },
        41u8 => (TokenKind::RightParen, 1),
        125u8 => (TokenKind::RightBrace, 1),
        93u8 => (TokenKind::RightBracket, 1),
        _ => (TokenKind::Invalid, 1),
    }
}

/// The byte that closes a collection opened by `c`.
pub open spec fn closer_of(c: u8) -> u8 {
    if c == 40u8 {
        41u8
    } else if c == 123u8 {
        125u8
    } else {
        93u8
    }
}

pub open spec fn is_opener(c: u8) -> bool {
    c == 40u8 || c == 123u8 || c == 91u8
}

/// A `-` followed by `0`: the lexer reads a number there.
pub open spec fn is_minus_zero(b: Seq<u8>, off: int) -> bool {
    b[off] == 45u8 && peek1(b, off) == 48
}

/// A `//` comment.
pub open spec fn is_comment(b: Seq<u8>, off: int) -> bool {
    b[off] == 47u8 && peek1(b, off) == 47
}

// ---------------------------------------------------------------------------
// Scanning helpers over the bytes of the source
// ---------------------------------------------------------------------------

pub(crate) fn scan_ident_end(bytes: &[u8], j: usize) -> (res: usize)
    ensures
        res == ident_end(bytes@, j as int),
        j <= res,
        res <= bytes@.len() || res == j,
{
    let mut i = j;
    while i < bytes.len() && (bytes[i] == 95u8 || alnum_byte(bytes[i]))
        invariant
            j <= i,
            ident_end(bytes@, i as int) == ident_end(bytes@, j as int),
            i <= bytes@.len() || i == j,
        decreases bytes@.len() - i,
    {
        i = i + 1;
    }
    i
}

pub(crate) fn scan_line_end(bytes: &[u8], j: usize) -> (res: usize)
    requires
        j <= bytes@.len(),
    ensures
        res == line_end(bytes@, j as int),
        j <= res <= bytes@.len(),
{
    let mut i = j;
    while i < bytes.len() && bytes[i] != 10u8
        invariant
            j <= i <= bytes@.len(),
            line_end(bytes@, i as int) == line_end(bytes@, j as int),
        decreases bytes@.len() - i,
    {
        i = i + 1;
    }
    i
}

/// Whether `bytes[s..e]` spells `word`.
pub(crate) fn spells(bytes: &[u8], s: usize, e: usize, word: &[u8]) -> (res: bool)
    requires
        s <= e <= bytes@.len(),
    ensures
        res == (bytes@.subrange(s as int, e as int) == word@),
{
    if e - s != word.len() {
        return false;
    }
    let mut i: usize = 0;
    while i < word.len()
        invariant
            s <= e <= bytes@.len(),
            e - s == word@.len(),
            i <= word@.len(),
            forall|k: int| 0 <= k < i ==> bytes@[s + k] == word@[k],
        decreases word@.len() - i,
    {
        if bytes[s + i] != word[i] {
            assert(bytes@.subrange(s as int, e as int)[i as int] != word@[i as int]);
            return false;
        }
        i = i + 1;
    }
    assert(bytes@.subrange(s as int, e as int) =~= word@);
    true
}

/// The bytes of the reserved words.
pub open spec fn word_pub() -> Seq<u8> {
    seq![112u8, 117u8, 98u8]
}

pub open spec fn word_petal() -> Seq<u8> {
    seq![112u8, 101u8, 116u8, 97u8, 108u8]
}

pub open spec fn word_struct() -> Seq<u8> {
    seq![115u8, 116u8, 114u8, 117u8, 99u8, 116u8]
}

pub open spec fn word_fn() -> Seq<u8> {
    seq![102u8, 110u8]
}

pub open spec fn word_let() -> Seq<u8> {
    seq![108u8, 101u8, 116u8]
}

pub open spec fn word_true() -> Seq<u8> {
    seq![116u8, 114u8, 117u8, 101u8]
}

pub open spec fn word_false() -> Seq<u8> {
    seq![102u8, 97u8, 108u8, 115u8, 101u8]
}

/// The kind of the identifier token `w`: a macro identifier when it starts with
/// `@`, the keyword it spells, `Bool` for `true` and `false`, else a plain
/// identifier.
pub open spec fn word_kind(w: Seq<u8>) -> TokenKind {
    if w.len() > 0 && w[0] == 64u8 {
        TokenKind::MacroIdent
    } else if w == word_pub() {
        TokenKind::Ident(TokenIdentKind::Pub)
    } else if w == word_petal() {
        TokenKind::Ident(TokenIdentKind::Petal)
    } else if w == word_struct() {
        TokenKind::Ident(TokenIdentKind::Struct)
    } else if w == word_fn() {
        TokenKind::Ident(TokenIdentKind::Fn)
    } else if w == word_let() {
        TokenKind::Ident(TokenIdentKind::Let)
    } else if w == word_true() || w == word_false() {
        TokenKind::Bool
    } else {
        TokenKind::Ident(TokenIdentKind::Normal)
    }
}

/// The kind of the identifier token spelled by `bytes[s..e]`. The reserved
/// words are compared byte by byte: a hash map keyed by strings is accepted by
/// Verus with nothing proved of its lookups, so the table of reserved words is
/// this function and [`word_kind`].
pub(crate) fn reserved_kind(bytes: &[u8], s: usize, e: usize) -> (res: TokenKind)
    requires
        s < e <= bytes@.len(),
    ensures
        res == word_kind(bytes@.subrange(s as int, e as int)),
{
    let ghost w = bytes@.subrange(s as int, e as int);
    assert(w[0] == bytes@[s as int]);
    if bytes[s] == 64u8 {
        return TokenKind::MacroIdent;
    }
    let w_pub: [u8; 3] = [112u8, 117u8, 98u8];
    let w_petal: [u8; 5] = [112u8, 101u8, 116u8, 97u8, 108u8];
    let w_struct: [u8; 6] = [115u8, 116u8, 114u8, 117u8, 99u8, 116u8];
    let w_fn: [u8; 2] = [102u8, 110u8];
    let w_let: [u8; 3] = [108u8, 101u8, 116u8];
    let w_true: [u8; 4] = [116u8, 114u8, 117u8, 101u8];
    let w_false: [u8; 5] = [102u8, 97u8, 108u8, 115u8, 101u8];
    assert(w_pub@ =~= word_pub());
    assert(w_petal@ =~= word_petal());
    assert(w_struct@ =~= word_struct());
    assert(w_fn@ =~= word_fn());
    assert(w_let@ =~= word_let());
    assert(w_true@ =~= word_true());
    assert(w_false@ =~= word_false());
    if spells(bytes, s, e, &w_pub) {
        TokenKind::Ident(TokenIdentKind::Pub)
    } else if spells(bytes, s, e, &w_petal) {
        TokenKind::Ident(TokenIdentKind::Petal)
    } else if spells(bytes, s, e, &w_struct) {
        TokenKind::Ident(TokenIdentKind::Struct)
    } else if spells(bytes, s, e, &w_fn) {
        TokenKind::Ident(TokenIdentKind::Fn)
    } else if spells(bytes, s, e, &w_let) {
        TokenKind::Ident(TokenIdentKind::Let)
    } else if spells(bytes, s, e, &w_true) || spells(bytes, s, e, &w_false) {
        TokenKind::Bool
    } else {
        TokenKind::Ident(TokenIdentKind::Normal)
    }
}

// ---------------------------------------------------------------------------
// Diagnostics the lexer reports
// ---------------------------------------------------------------------------

/// The error for a byte `c` at `pos` that is no digit of radix `base`.
pub open spec fn digit_error(c: u8, base: u32, pos: int, src: SourceId) -> LexerDiag {
    LexerDiag {
        kind: LexerDiagKind::Error(
            LexerDiagErrorKind::InvalidNumericLiteralDigit { digit: c, base: base as u8 },
        ),
        span: Span { offset: pos as u32, len: 1, src_id: src },
    }
}

/// The errors for the bytes of `b[from..to]` that are no digits of radix `base`,
/// in order.
pub open spec fn digit_errors(b: Seq<u8>, from: int, to: int, base: u32, src: SourceId) -> Seq<
    LexerDiag,
>
    decreases to - from,
{
    if to <= from {
        Seq::empty()
    } else {
        digit_errors(b, from, to - 1, base, src) + if !spec_is_ascii_digit(b[to - 1], base) {
            seq![digit_error(b[to - 1], base, to - 1, src)]
        } else {
            Seq::empty()
        }
    }
}

/// The error `kind` at `span`.
pub open spec fn lex_error(kind: LexerDiagErrorKind, span: Span) -> LexerDiag {
    LexerDiag { kind: LexerDiagKind::Error(kind), span }
}

/// The errors that reading the number at `s` (not cut short, valid prefix) reports.
pub open spec fn num_errors(b: Seq<u8>, s: int, src: SourceId) -> Seq<LexerDiag> {
    let p = num_after_sign(b, s);
    let base = num_base(b, p) as u32;
    let ds = num_digits_start(b, p);
    let ie = num_int_end(b, s);
    digit_errors(b, ds, ie, base, src) + (if ie == ds && base != 10 {
        seq![
            lex_error(
                LexerDiagErrorKind::DanglingNumericLiteralPrefix,
                Span { offset: s as u32, len: (ds - s) as u16, src_id: src },
            ),
        ]
    } else {
        Seq::empty()
    }) + (if num_has_frac(b, s) {
        digit_errors(b, ie + 1, num_end(b, s), base, src)
    } else {
        Seq::empty()
    })
}

/// The kind of the number token at `s`.
pub open spec fn num_kind(b: Seq<u8>, s: int) -> TokenKind {
    let base = num_base(b, num_after_sign(b, s));
    if num_has_frac(b, s) {
        TokenKind::Float { base }
    } else {
        TokenKind::Int { base }
    }
}

// ---------------------------------------------------------------------------
// What reading a token graph gives
// ---------------------------------------------------------------------------

/// What reading one token graph gives: where the lexer stands after it, the
/// graph (none for whitespace without a line feed, a comment, or a token that
/// could not be read), and the diagnostics reported on the way.
pub struct GraphStep {
    pub next: int,
    pub graph: Option<GraphView>,
    pub diags: Seq<LexerDiag>,
}

/// What reading the rest of a collection gives: where the lexer stands after
/// it, the graphs read, whether the text ended before the closing byte, and the
/// diagnostics.
pub struct CollStep {
    pub next: int,
    pub data: Seq<GraphView>,
    pub eof: bool,
    pub diags: Seq<LexerDiag>,
}

/// What reading a whole text gives: the graphs before the end, the
/// diagnostics, and the offset at which the end was met.
pub struct StreamStep {
    pub graphs: Seq<GraphView>,
    pub diags: Seq<LexerDiag>,
    pub end: int,
}

/// The graph, if any, as a sequence of at most one.
pub open spec fn opt_seq(g: Option<GraphView>) -> Seq<GraphView> {
    match g {
        Some(v) => seq![v],
        None => Seq::empty(),
    }
}

/// The token of kind `kind` over `len` bytes from `off` (the length cut to 16 bits).
pub open spec fn token_at(kind: TokenKind, off: int, len: int, src: SourceId) -> Token {
    Token { kind, span: Span { offset: off as u32, len: len as u16, src_id: src } }
}

/// A token read at `off`: the lexer goes on just past it.
pub open spec fn node_step(off: int, t: Token, diags: Seq<LexerDiag>) -> GraphStep {
    GraphStep { next: off + t.span.len, graph: Some(GraphView::Node(t)), diags }
}

/// The kind of the token that opens a collection with byte `c`.
pub open spec fn opener_kind(c: u8) -> TokenKind {
    if c == 40u8 {
        TokenKind::LeftParen
    } else if c == 123u8 {
        TokenKind::LeftBrace
    } else {
        TokenKind::LeftBracket
    }
}

/// Reading the token at `off`, which is neither whitespace nor an opening
/// delimiter; `None` where the lexer panics (a `-0` that reads no number).
pub open spec fn lex_token(b: Seq<u8>, off: int, src: SourceId) -> Option<GraphStep> {
    let c = b[off];
    if is_ident_start(c) {
        let e = ident_end(b, off + 1);
        Some(node_step(off, token_at(word_kind(b.subrange(off, e)), off, e - off, src), Seq::empty()))
    } else if is_digit(c) || is_minus_zero(b, off) {
        let p = num_after_sign(b, off);
        if num_none(b, off) {
            if c == 45u8 {
                None
            } else if num_cut_short(b, p) {
                Some(GraphStep { next: p, graph: None, diags: Seq::empty() })
            } else {
                Some(
                    GraphStep {
                        next: num_digits_start(b, p),
                        graph: None,
                        diags: seq![
                            lex_error(
                                LexerDiagErrorKind::InvalidNumericLiteralPrefix,
                                Span { offset: off as u32, len: 2, src_id: src },
                            ),
                        ],
                    },
                )
            }
        } else {
            Some(
                node_step(
                    off,
                    token_at(num_kind(b, off), off, num_end(b, off) - off, src),
                    num_errors(b, off, src),
                ),
            )
        }
    } else if c == 39u8 || c == 34u8 {
        let r = charseq_scan(b, off + 1, c);
        let span = Span { offset: off as u32, len: (r.0 - off) as u16, src_id: src };
        if !r.1 {
            Some(
                GraphStep {
                    next: r.0,
                    graph: None,
                    diags: seq![lex_error(LexerDiagErrorKind::UnterminatedCharSeq, span)],
                },
            )
        } else if c == 34u8 {
            Some(
                node_step(
                    off,
                    Token { kind: TokenKind::String { terminated: true }, span },
                    Seq::empty(),
                ),
            )
        } else {
            Some(
                node_step(
                    off,
                    Token { kind: TokenKind::Char { terminated: true }, span },
                    if r.2 == 1 {
                        Seq::empty()
                    } else {
                        seq![
                            lex_error(
                                LexerDiagErrorKind::InvalidCharSeq {
                                    enclosing: 39u8,
                                    len: (1usize, r.2 as usize),
                                },
                                span,
                            ),
                        ]
                    },
                ),
            )
        }
    } else if is_comment(b, off) {
        Some(GraphStep { next: line_end(b, off), graph: None, diags: Seq::empty() })
    } else {
        let (k, l) = punct(c, peek1(b, off));
        Some(
            node_step(
                off,
                token_at(k, off, l as int, src),
                if k == TokenKind::Invalid {
                    seq![
                        lex_error(
                            LexerDiagErrorKind::UnknownChar { c },
                            Span { offset: off as u32, len: 1, src_id: src },
                        ),
                    ]
                } else {
                    Seq::empty()
                },
            ),
        )
    }
}

/// Reading one token graph at `off`: the end-of-file token past the text; for
/// whitespace, a line-feed token if the run holds a line feed; for an opening
/// delimiter, the collection up to its closing byte, with an error at the
/// opener when the text ends first; otherwise one token. `None` where the
/// lexer panics or a collection stops making progress (it would loop forever).
pub open spec fn lex_graph(b: Seq<u8>, off: int, src: SourceId) -> Option<GraphStep>
    decreases b.len() + 2 - off, 0int,
{
    if off < 0 || off >= b.len() {
        Some(
            GraphStep {
                next: off,
                graph: Some(GraphView::Node(token_at(TokenKind::Eof, off, 1, src))),
                diags: Seq::empty(),
            },
        )
    } else {
        let c = b[off];
        if is_ws(c) {
            let n = ws_stop(b, off);
            Some(
                GraphStep {
                    next: n,
                    graph: if ws_stops_at_newline(b, off) {
                        Some(GraphView::Node(token_at(TokenKind::LnFeed, n - 1, 1, src)))
                    } else {
                        None
                    },
                    diags: Seq::empty(),
                },
            )
        } else if is_opener(c) {
            let cl = closer_of(c);
            let open = token_at(opener_kind(c), off, 1, src);
            match lex_coll(b, off + 1, cl, src) {
                None => None,
                Some(r) => Some(
                    GraphStep {
                        next: r.next,
                        graph: Some(
                            GraphView::Collection { data: seq![GraphView::Node(open)] + r.data, eof: r.eof },
                        ),
                        diags: r.diags + if r.eof {
                            seq![
                                lex_error(
                                    LexerDiagErrorKind::UnclosedDelimeterCollection { op: c, cl },
                                    open.span,
                                ),
                            ]
                        } else {
                            Seq::empty()
                        },
                    },
                ),
            }
        } else {
            lex_token(b, off, src)
        }
    }
}

/// Reading the rest of a collection from `j`: graph after graph, up to and
/// including the one that starts with the closing byte `cl`, or up to the end of
/// the text. `None` where reading a graph fails or makes no progress.
pub open spec fn lex_coll(b: Seq<u8>, j: int, cl: u8, src: SourceId) -> Option<CollStep>
    decreases b.len() + 2 - j, 1int,
{
    if j < 0 || j >= b.len() {
        Some(CollStep { next: j, data: Seq::empty(), eof: true, diags: Seq::empty() })
    } else {
        match lex_graph(b, j, src) {
            None => None,
            Some(g) => {
                if b[j] == cl {
                    Some(CollStep { next: g.next, data: opt_seq(g.graph), eof: false, diags: g.diags })
                } else if g.next <= j || g.next > b.len() + 1 {
                    None
                } else {
                    match lex_coll(b, g.next, cl, src) {
                        None => None,
                        Some(r) => Some(
                            CollStep {
                                next: r.next,
                                data: opt_seq(g.graph) + r.data,
                                eof: r.eof,
                                diags: g.diags + r.diags,
                            },
                        ),
                    }
                }
            },
        }
    }
}

/// Reading the text from `off` up to its end: the graphs in order and the
/// diagnostics. `None` where reading a graph fails or makes no progress.
pub open spec fn lex_from(b: Seq<u8>, off: int, src: SourceId) -> Option<StreamStep>
    decreases b.len() + 2 - off,
{
    if off < 0 || off >= b.len() {
        Some(StreamStep { graphs: Seq::empty(), diags: Seq::empty(), end: off })
    } else {
        match lex_graph(b, off, src) {
            None => None,
            Some(g) => {
                if g.next <= off || g.next > b.len() + 1 {
                    None
                } else {
                    match lex_from(b, g.next, src) {
                        None => None,
                        Some(r) => Some(
                            StreamStep {
                                graphs: opt_seq(g.graph) + r.graphs,
                                diags: g.diags + r.diags,
                                end: r.end,
                            },
                        ),
                    }
                }
            },
        }
    }
}

/// Whether `g` is a line-feed token.
pub open spec fn is_line_feed(g: GraphView) -> bool {
    g matches GraphView::Node(t) && t.kind == TokenKind::LnFeed
}

/// The graphs with line feeds trimmed at the end: while the next-to-last graph
/// (the only one, for a single graph) is a line feed, the last graph is dropped.
pub open spec fn trim_line_feeds(s: Seq<GraphView>) -> Seq<GraphView>
    decreases s.len(),
{
    if s.len() == 0 {
        s
    } else if is_line_feed(s[if s.len() >= 2 { s.len() - 2 } else { 0 }]) {
        trim_line_feeds(s.drop_last())
    } else {
        s
    }
}

// ---------------------------------------------------------------------------
// Bounds of the scans
// ---------------------------------------------------------------------------

pub proof fn lemma_ident_end(b: Seq<u8>, j: int)
    requires
        0 <= j <= b.len(),
    ensures
        j <= ident_end(b, j) <= b.len(),
    decreases b.len() - j,
{
    if j < b.len() && is_ident_char(b[j]) {
        lemma_ident_end(b, j + 1);
    }
}

pub proof fn lemma_alnum_end(b: Seq<u8>, j: int)
    requires
        0 <= j <= b.len(),
    ensures
        j <= alnum_end(b, j) <= b.len(),
    decreases b.len() - j,
{
    if j < b.len() && is_alnum(b[j]) {
        lemma_alnum_end(b, j + 1);
    }
}

pub proof fn lemma_ws_stop(b: Seq<u8>, j: int)
    requires
        0 <= j <= b.len(),
    ensures
        j <= ws_stop(b, j) <= b.len(),
        j < b.len() && is_ws(b[j]) ==> j < ws_stop(b, j),
        ws_stops_at_newline(b, j) ==> j < ws_stop(b, j) && b[ws_stop(b, j) - 1] == 10u8,
    decreases b.len() - j,
{
    if j < b.len() && is_ws(b[j]) && b[j] != 10u8 {
        lemma_ws_stop(b, j + 1);
    }
}

pub proof fn lemma_charseq_scan(b: Seq<u8>, j: int, quote: u8)
    requires
        0 <= j <= b.len() + 1,
    ensures
        j <= charseq_scan(b, j, quote).0 <= b.len() + 1,
        charseq_scan(b, j, quote).1 ==> charseq_scan(b, j, quote).0 <= b.len(),
        charseq_scan(b, j, quote).2 <= charseq_scan(b, j, quote).0 - j,
    decreases b.len() + 2 - j,
{
    if 0 <= j < b.len() && b[j] != quote {
        let next = if b[j] == 92u8 {
            j + 2
        } else {
            j + 1
        };
        lemma_charseq_scan(b, next, quote);
    }
}

/// Cutting a length to 16 bits never makes it longer.
pub proof fn lemma_u16_cut(x: int)
    requires
        0 <= x <= u32::MAX,
    ensures
        (x as u16) <= x,
{
    let y = x as u32;
    assert(y as u16 <= y) by (bit_vector);
}

pub proof fn lemma_num_end(b: Seq<u8>, s: int)
    requires
        0 <= s <= b.len(),
    ensures
        s <= num_after_sign(b, s) <= num_digits_start(b, num_after_sign(b, s)) <= num_int_end(b, s)
            <= num_end(b, s) <= b.len(),
        num_digits_start(b, num_after_sign(b, s)) <= s + 3,
{
    let p = num_after_sign(b, s);
    let ds = num_digits_start(b, p);
    lemma_alnum_end(b, ds);
    let ie = num_int_end(b, s);
    if num_has_frac(b, s) {
        lemma_alnum_end(b, ie + 1);
    }
}

/// Reading a graph never moves the lexer back, nor more than one past the end.
pub proof fn lemma_lex_graph_next(b: Seq<u8>, off: int, src: SourceId)
    requires
        0 <= off <= b.len() + 1,
        b.len() + 2 <= u32::MAX,
        lex_graph(b, off, src) is Some,
    ensures
        off <= lex_graph(b, off, src).unwrap().next <= b.len() + 1,
    decreases b.len() + 2 - off, 0int,
{
    if off < b.len() {
        let c = b[off];
        if is_ws(c) {
            lemma_ws_stop(b, off);
        } else if is_opener(c) {
            lemma_lex_coll_next(b, off + 1, closer_of(c), src);
        } else if is_ident_start(c) {
            lemma_ident_end(b, off + 1);
            lemma_u16_cut(ident_end(b, off + 1) - off);
        } else if is_digit(c) || is_minus_zero(b, off) {
            lemma_num_end(b, off);
            lemma_u16_cut(num_end(b, off) - off);
        } else if c == 39u8 || c == 34u8 {
            lemma_charseq_scan(b, off + 1, c);
            lemma_u16_cut(charseq_scan(b, off + 1, c).0 - off);
        } else if is_comment(b, off) {
            lemma_line_end_bounds(b, off);
        }
    }
}

/// Reading the rest of a collection never moves the lexer back, nor more than
/// one past the end.
pub proof fn lemma_lex_coll_next(b: Seq<u8>, j: int, cl: u8, src: SourceId)
    requires
        0 <= j <= b.len() + 1,
        b.len() + 2 <= u32::MAX,
        lex_coll(b, j, cl, src) is Some,
    ensures
        j <= lex_coll(b, j, cl, src).unwrap().next <= b.len() + 1,
    decreases b.len() + 2 - j, 1int,
{
    if j < b.len() {
        lemma_lex_graph_next(b, j, src);
        let g = lex_graph(b, j, src).unwrap();
        if b[j] != cl {
            lemma_lex_coll_next(b, g.next, cl, src);
        }
    }
}

/// Within the text, no graph read is the end-of-file token.
pub proof fn lemma_no_eof_within(b: Seq<u8>, off: int, src: SourceId)
    requires
        0 <= off < b.len(),
        lex_graph(b, off, src) is Some,
    ensures
        !(lex_graph(b, off, src).unwrap().graph matches Some(GraphView::Node(t)) && t.kind
            == TokenKind::Eof),
{
}

/// Reading a whole text ends at its end: at the offset of its last byte plus
/// one, or one further when it ends inside an escape.
pub proof fn law_lex_from_ends_at_end(b: Seq<u8>, off: int, src: SourceId)
    requires
        0 <= off <= b.len() + 1,
        b.len() + 2 <= u32::MAX,
        lex_from(b, off, src) is Some,
    ensures
        b.len() <= lex_from(b, off, src).unwrap().end <= b.len() + 1,
    decreases b.len() + 2 - off,
{
    if off < b.len() {
        let g = lex_graph(b, off, src).unwrap();
        law_lex_from_ends_at_end(b, g.next, src);
    }
}

/// Whether every diagnostic of `ds` is an error.
pub open spec fn all_errors(ds: Seq<LexerDiag>) -> bool {
    forall|i: int| 0 <= i < ds.len() ==> (#[trigger] ds[i]).kind is Error
}

proof fn lemma_all_errors_concat(a: Seq<LexerDiag>, b: Seq<LexerDiag>)
    requires
        all_errors(a),
        all_errors(b),
    ensures
        all_errors(a + b),
{
    assert forall|i: int| 0 <= i < (a + b).len() implies (#[trigger] (a + b)[i]).kind is Error by {
        if i < a.len() {
            assert((a + b)[i] == a[i]);
        } else {
            assert((a + b)[i] == b[i - a.len()]);
        }
    }
}

proof fn lemma_digit_errors_are_errors(b: Seq<u8>, from: int, to: int, base: u32, src: SourceId)
    ensures
        all_errors(digit_errors(b, from, to, base, src)),
    decreases to - from,
{
    if to > from {
        lemma_digit_errors_are_errors(b, from, to - 1, base, src);
        let tail = if !spec_is_ascii_digit(b[to - 1], base) {
            seq![digit_error(b[to - 1], base, to - 1, src)]
        } else {
            Seq::empty()
        };
        lemma_all_errors_concat(digit_errors(b, from, to - 1, base, src), tail);
    }
}

proof fn lemma_token_errors(b: Seq<u8>, off: int, src: SourceId)
    requires
        0 <= off < b.len(),
        lex_token(b, off, src) is Some,
    ensures
        all_errors(lex_token(b, off, src).unwrap().diags),
{
    let c = b[off];
    if !is_ident_start(c) && (is_digit(c) || is_minus_zero(b, off)) && !num_none(b, off) {
        let p = num_after_sign(b, off);
        let base = num_base(b, p) as u32;
        let ds = num_digits_start(b, p);
        let ie = num_int_end(b, off);
        lemma_digit_errors_are_errors(b, ds, ie, base, src);
        let dangling = if ie == ds && base != 10 {
            seq![
                lex_error(
                    LexerDiagErrorKind::DanglingNumericLiteralPrefix,
                    Span { offset: off as u32, len: (ds - off) as u16, src_id: src },
                ),
            ]
        } else {
            Seq::empty()
        };
        let frac = if num_has_frac(b, off) {
            digit_errors(b, ie + 1, num_end(b, off), base, src)
        } else {
            Seq::empty()
        };
        if num_has_frac(b, off) {
            lemma_digit_errors_are_errors(b, ie + 1, num_end(b, off), base, src);
        }
        lemma_all_errors_concat(digit_errors(b, ds, ie, base, src), dangling);
        lemma_all_errors_concat(digit_errors(b, ds, ie, base, src) + dangling, frac);
    }
}

proof fn lemma_graph_errors(b: Seq<u8>, off: int, src: SourceId)
    requires
        lex_graph(b, off, src) is Some,
    ensures
        all_errors(lex_graph(b, off, src).unwrap().diags),
    decreases b.len() + 2 - off, 0int,
{
    if 0 <= off < b.len() {
        let c = b[off];
        if is_ws(c) {
        } else if is_opener(c) {
            lemma_coll_errors(b, off + 1, closer_of(c), src);
            let r = lex_coll(b, off + 1, closer_of(c), src).unwrap();
            let open = token_at(opener_kind(c), off, 1, src);
            let tail = if r.eof {
                seq![
                    lex_error(
                        LexerDiagErrorKind::UnclosedDelimeterCollection { op: c, cl: closer_of(c) },
                        open.span,
                    ),
                ]
            } else {
                Seq::empty()
            };
            lemma_all_errors_concat(r.diags, tail);
        } else {
            lemma_token_errors(b, off, src);
        }
    }
}

proof fn lemma_coll_errors(b: Seq<u8>, j: int, cl: u8, src: SourceId)
    requires
        lex_coll(b, j, cl, src) is Some,
    ensures
        all_errors(lex_coll(b, j, cl, src).unwrap().diags),
    decreases b.len() + 2 - j, 1int,
{
    if 0 <= j < b.len() {
        lemma_graph_errors(b, j, src);
        let g = lex_graph(b, j, src).unwrap();
        if b[j] != cl {
            lemma_coll_errors(b, g.next, cl, src);
            lemma_all_errors_concat(g.diags, lex_coll(b, g.next, cl, src).unwrap().diags);
        }
    }
}

/// Every diagnostic that reading a text reports is an error.
pub proof fn law_lexer_reports_errors(b: Seq<u8>, off: int, src: SourceId)
    requires
        lex_from(b, off, src) is Some,
    ensures
        all_errors(lex_from(b, off, src).unwrap().diags),
    decreases b.len() + 2 - off,
{
    if 0 <= off < b.len() {
        lemma_graph_errors(b, off, src);
        let g = lex_graph(b, off, src).unwrap();
        law_lexer_reports_errors(b, g.next, src);
        lemma_all_errors_concat(g.diags, lex_from(b, g.next, src).unwrap().diags);
    }
}

/// A text that lexing reads to its end without fail: shorter than 65535 bytes,
/// not ending with a `0`, and without a `-` followed by a `0`.
pub open spec fn plain_text(b: Seq<u8>) -> bool {
    &&& b.len() < 65535
    &&& (b.len() > 0 ==> b.last() != 48u8)
    &&& forall|i: int| 0 <= i < b.len() - 1 ==> !(#[trigger] b[i] == 45u8 && b[i + 1] == 48u8)
}

/// Whether `b` is plain text (see [`plain_text`]); the lexer reads such a
/// text to its end, as [`law_plain_text_lexes`] proves, so this is a test a
/// caller can make before lexing. It is sufficient, not necessary: some texts
/// that fail it lex too.
pub fn is_plain_text(b: &[u8]) -> (res: bool)
    ensures
        res == plain_text(b@),
{
    if b.len() >= 65535 {
        return false;
    }
    if b.len() > 0 && b[b.len() - 1] == 48u8 {
        return false;
    }
    let mut i: usize = 0;
    while i + 1 < b.len()
        invariant
            b@.len() < 65535,
            i <= b@.len(),
            forall|j: int| 0 <= j < i && j < b@.len() - 1 ==> !(#[trigger] b@[j] == 45u8 && b@[j + 1] == 48u8),
        decreases b@.len() - i,
    {
        if b[i] == 45u8 && b[i + 1] == 48u8 {
            return false;
        }
        i = i + 1;
    }
    true
}

proof fn lemma_graph_total(b: Seq<u8>, off: int, src: SourceId)
    requires
        plain_text(b),
        0 <= off < b.len(),
    ensures
        lex_graph(b, off, src) is Some,
        off < lex_graph(b, off, src).unwrap().next <= b.len() + 1,
    decreases b.len() + 2 - off, 0int,
{
    let c = b[off];
    if is_ws(c) {
        lemma_ws_stop(b, off);
    } else if is_opener(c) {
        lemma_coll_total(b, off + 1, closer_of(c), src);
        lemma_lex_coll_next(b, off + 1, closer_of(c), src);
    } else if is_ident_start(c) {
        lemma_ident_end(b, off + 1);
    } else if is_digit(c) || is_minus_zero(b, off) {
        if is_minus_zero(b, off) {
            assert(b[off] == 45u8 && b[off + 1] == 48u8);
            assert(false);
        }
        lemma_num_end(b, off);
        lemma_alnum_end(b, off);
        if num_cut_short(b, off) {
            assert(b.last() == 48u8);
        }
        let ds = num_digits_start(b, off);
        if ds == off {
            assert(is_alnum(b[off]));
            lemma_alnum_end(b, off + 1);
            assert(alnum_end(b, off) == alnum_end(b, off + 1));
        }
    } else if c == 39u8 || c == 34u8 {
        lemma_charseq_scan(b, off + 1, c);
    } else if is_comment(b, off) {
        lemma_line_end_bounds(b, off);
        lemma_line_end_bounds(b, off + 1);
        assert(line_end(b, off) == line_end(b, off + 1));
    }
}

proof fn lemma_coll_total(b: Seq<u8>, j: int, cl: u8, src: SourceId)
    requires
        plain_text(b),
        0 <= j <= b.len() + 1,
    ensures
        lex_coll(b, j, cl, src) is Some,
    decreases b.len() + 2 - j, 1int,
{
    if j < b.len() {
        lemma_graph_total(b, j, src);
        let g = lex_graph(b, j, src).unwrap();
        if b[j] != cl {
            lemma_coll_total(b, g.next, cl, src);
        }
    }
}

/// Lexing reads every plain text to its end: on such a text, lexing from any
/// offset within it (or just past it) neither fails nor stalls.
pub proof fn law_plain_text_lexes(b: Seq<u8>, off: int, src: SourceId)
    requires
        plain_text(b),
        0 <= off <= b.len() + 1,
    ensures
        lex_from(b, off, src) is Some,
    decreases b.len() + 2 - off,
{
    if off < b.len() {
        lemma_graph_total(b, off, src);
        let g = lex_graph(b, off, src).unwrap();
        law_plain_text_lexes(b, g.next, src);
    }
}

/// Where a graph starts in the text: a token at its first byte, a collection
/// at its opening token (-1 for a collection without one).
pub open spec fn graph_start(g: GraphView) -> int {
    match g {
        GraphView::Node(t) => t.span.offset as int,
        GraphView::Collection { data, .. } => if data.len() > 0 && data[0] is Node {
            data[0]->Node_0.span.offset as int
        } else {
            -1
        },
    }
}

proof fn lemma_graph_start(b: Seq<u8>, off: int, src: SourceId)
    requires
        0 <= off < b.len(),
        b.len() + 2 <= u32::MAX,
        lex_graph(b, off, src) is Some,
        lex_graph(b, off, src).unwrap().next > off,
        lex_graph(b, off, src).unwrap().graph is Some,
    ensures
        off <= graph_start(lex_graph(b, off, src).unwrap().graph.unwrap()) < lex_graph(
            b,
            off,
            src,
        ).unwrap().next,
{
    let c = b[off];
    if is_ws(c) {
        lemma_ws_stop(b, off);
    } else if is_opener(c) {
        let r = lex_coll(b, off + 1, closer_of(c), src).unwrap();
        let v = lex_graph(b, off, src).unwrap().graph.unwrap();
        assert(v == GraphView::Collection {
            data: seq![GraphView::Node(token_at(opener_kind(c), off, 1, src))] + r.data,
            eof: r.eof,
        });
    }
}

/// The graphs of a text come in source order: each starts within the part of
/// the text read, and later than the one before it.
pub proof fn law_graphs_in_source_order(b: Seq<u8>, off: int, src: SourceId)
    requires
        0 <= off <= b.len() + 1,
        b.len() + 2 <= u32::MAX,
        lex_from(b, off, src) is Some,
    ensures
        ({
            let gs = lex_from(b, off, src).unwrap().graphs;
            &&& forall|i: int| 0 <= i < gs.len() ==> off <= #[trigger] graph_start(gs[i])
            &&& forall|i: int, j: int|
                0 <= i < j < gs.len() ==> #[trigger] graph_start(gs[i]) < #[trigger] graph_start(
                    gs[j],
                )
        }),
    decreases b.len() + 2 - off,
{
    if off < b.len() {
        let g = lex_graph(b, off, src).unwrap();
        lemma_lex_graph_next(b, off, src);
        law_graphs_in_source_order(b, g.next, src);
        let rest = lex_from(b, g.next, src).unwrap().graphs;
        let gs = lex_from(b, off, src).unwrap().graphs;
        assert(gs == opt_seq(g.graph) + rest);
        if g.graph is Some {
            lemma_graph_start(b, off, src);
            assert forall|i: int| 0 <= i < gs.len() implies off <= #[trigger] graph_start(gs[i]) by {
                if i > 0 {
                    assert(gs[i] == rest[i - 1]);
                }
            }
            assert forall|i: int, j: int| 0 <= i < j < gs.len() implies #[trigger] graph_start(gs[i])
                < #[trigger] graph_start(gs[j]) by {
                assert(gs[j] == rest[j - 1]);
                if i > 0 {
                    assert(gs[i] == rest[i - 1]);
                }
            }
        } else {
            assert(gs =~= rest);
        }
    }
}


// ---------------------------------------------------------------------------
// Operators
// ---------------------------------------------------------------------------

/// The operators spelled with two bytes: `c1` then `c2`.
pub open spec fn two_byte_op(c1: u8, c2: u8) -> Option<TokenKind> {
    match (c1, c2) {
        (43u8, 43u8) => Some(TokenKind::PlusPlus),  // ++
        (43u8, 61u8) => Some(TokenKind::PlusEq),  // +=
        (45u8, 45u8) => Some(TokenKind::MinusMinus),  // --
        (45u8, 61u8) => Some(TokenKind::MinusEq),  // -=
        (45u8, 62u8) => Some(TokenKind::MinusGreater),  // ->
        (42u8, 61u8) => Some(TokenKind::StarEq),  // *=
        (47u8, 61u8) => Some(TokenKind::SlashEq),  // /=
        (37u8, 61u8) => Some(TokenKind::PercentEq),  // %=
        (94u8, 94u8) => Some(TokenKind::CaretCaret),  // ^^
        (61u8, 61u8) => Some(TokenKind::EqEq),  // ==
        (33u8, 61u8) => Some(TokenKind::BangEq),  // !=
        (60u8, 61u8) => Some(TokenKind::LessEq),  // <=
        (60u8, 60u8) => Some(TokenKind::LessLess),  // <<
        (60u8, 45u8) => Some(TokenKind::LessMinus),  // <-
        (38u8, 38u8) => Some(TokenKind::AmpersandAmpersand),  // &&
        (124u8, 124u8) => Some(TokenKind::PipePipe),  // ||
        (58u8, 58u8) => Some(TokenKind::ColonColon),  // ::
        _ => None,
    }
}

/// The operators and closing delimiters spelled with the byte `c` alone.
pub open spec fn one_byte_op(c: u8) -> Option<TokenKind> {
    match c {
        43u8 => Some(TokenKind::Plus),
        45u8 => Some(TokenKind::Minus),
        42u8 => Some(TokenKind::Star),
        47u8 => Some(TokenKind::Slash),
        37u8 => Some(TokenKind::Percent),
        94u8 => Some(TokenKind::Caret),
        61u8 => Some(TokenKind::Eq),
        33u8 => Some(TokenKind::Bang),
        126u8 => Some(TokenKind::Tilde),
        60u8 => Some(TokenKind::Less),
        62u8 => Some(TokenKind::Greater),
        38u8 => Some(TokenKind::Ampersand),
        124u8 => Some(TokenKind::Pipe),
        46u8 => Some(TokenKind::Dot),
        44u8 => Some(TokenKind::Comma),
        59u8 => Some(TokenKind::SemiColon),
        58u8 => Some(TokenKind::Colon),
        41u8 => Some(TokenKind::RightParen),
        125u8 => Some(TokenKind::RightBrace),
        93u8 => Some(TokenKind::RightBracket),
        _ => None,
    }
}

/// A two-byte operator is read as one token: where the bytes at `off` spell
/// one, reading a graph there gives its token, two bytes long, and goes on
/// after it; the text read from there starts with that token.
pub proof fn law_two_byte_operators(b: Seq<u8>, off: int, src: SourceId)
    requires
        0 <= off,
        off + 1 < b.len(),
        two_byte_op(b[off], b[off + 1]) is Some,
    ensures
        ({
            let t = Token {
                kind: two_byte_op(b[off], b[off + 1]).unwrap(),
                span: Span { offset: off as u32, len: 2, src_id: src },
            };
            &&& lex_graph(b, off, src) == Some(
                GraphStep { next: off + 2, graph: Some(GraphView::Node(t)), diags: Seq::empty() },
            )
            &&& lex_from(b, off, src) is Some ==> lex_from(b, off, src).unwrap().graphs[0] == GraphView::Node(t)
        }),
{
    let t = Token {
        kind: two_byte_op(b[off], b[off + 1]).unwrap(),
        span: Span { offset: off as u32, len: 2, src_id: src },
    };
    assert(lex_graph(b, off, src) == Some(
        GraphStep { next: off + 2, graph: Some(GraphView::Node(t)), diags: Seq::empty() },
    ));
}

/// A one-byte operator or closing delimiter that starts no two-byte operator,
/// no number and no comment is read as a token one byte long.
pub proof fn law_one_byte_operators(b: Seq<u8>, off: int, src: SourceId)
    requires
        0 <= off < b.len(),
        one_byte_op(b[off]) is Some,
        off + 1 < b.len() ==> two_byte_op(b[off], b[off + 1]) is None,
        !is_minus_zero(b, off),
        !is_comment(b, off),
    ensures
        ({
            let t = Token {
                kind: one_byte_op(b[off]).unwrap(),
                span: Span { offset: off as u32, len: 1, src_id: src },
            };
            &&& lex_graph(b, off, src) == Some(
                GraphStep { next: off + 1, graph: Some(GraphView::Node(t)), diags: Seq::empty() },
            )
            &&& lex_from(b, off, src) is Some ==> lex_from(b, off, src).unwrap().graphs[0] == GraphView::Node(t)
        }),
{
    let t = Token {
        kind: one_byte_op(b[off]).unwrap(),
        span: Span { offset: off as u32, len: 1, src_id: src },
    };
    assert(lex_graph(b, off, src) == Some(
        GraphStep { next: off + 1, graph: Some(GraphView::Node(t)), diags: Seq::empty() },
    ));
}

/// The words reserved by the language and the kinds they are read as.
pub proof fn law_reserved_words()
    ensures
        word_kind(seq!['p' as u8, 'u' as u8, 'b' as u8]) == TokenKind::Ident(TokenIdentKind::Pub),
        word_kind(seq!['p' as u8, 'e' as u8, 't' as u8, 'a' as u8, 'l' as u8]) == TokenKind::Ident(
            TokenIdentKind::Petal,
        ),
        word_kind(seq!['s' as u8, 't' as u8, 'r' as u8, 'u' as u8, 'c' as u8, 't' as u8]) == TokenKind::Ident(
            TokenIdentKind::Struct,
        ),
        word_kind(seq!['f' as u8, 'n' as u8]) == TokenKind::Ident(TokenIdentKind::Fn),
        word_kind(seq!['l' as u8, 'e' as u8, 't' as u8]) == TokenKind::Ident(TokenIdentKind::Let),
        word_kind(seq!['t' as u8, 'r' as u8, 'u' as u8, 'e' as u8]) == TokenKind::Bool,
        word_kind(seq!['f' as u8, 'a' as u8, 'l' as u8, 's' as u8, 'e' as u8]) == TokenKind::Bool,
        forall|w: Seq<u8>| w.len() > 0 && w[0] == '@' as u8 ==> #[trigger] word_kind(w) == TokenKind::MacroIdent,
{
    assert(seq!['p' as u8, 'u' as u8, 'b' as u8] =~= word_pub());
    assert(seq!['p' as u8, 'e' as u8, 't' as u8, 'a' as u8, 'l' as u8] =~= word_petal());
    assert(seq!['s' as u8, 't' as u8, 'r' as u8, 'u' as u8, 'c' as u8, 't' as u8] =~= word_struct());
    assert(seq!['f' as u8, 'n' as u8] =~= word_fn());
    assert(seq!['l' as u8, 'e' as u8, 't' as u8] =~= word_let());
    assert(seq!['t' as u8, 'r' as u8, 'u' as u8, 'e' as u8] =~= word_true());
    assert(seq!['f' as u8, 'a' as u8, 'l' as u8, 's' as u8, 'e' as u8] =~= word_false());
}

/// An identifier is read as one token over the longest run of identifier
/// bytes from its first byte, of the kind its word gives (in a text whose
/// token lengths fit in 16 bits).
pub proof fn law_identifier_tokens(b: Seq<u8>, off: int, src: SourceId)
    requires
        0 <= off < b.len(),
        b.len() <= u16::MAX,
        is_ident_start(b[off]),
    ensures
        lex_graph(b, off, src) is Some,
        ({
            let g = lex_graph(b, off, src).unwrap();
            let e = g.next;
            &&& off < e <= b.len()
            &&& forall|i: int| off < i < e ==> is_ident_char(#[trigger] b[i])
            &&& e < b.len() ==> !is_ident_char(b[e])
            &&& g.diags == Seq::<LexerDiag>::empty()
            &&& g.graph == Some(
                GraphView::Node(
                    Token {
                        kind: word_kind(b.subrange(off, e)),
                        span: Span { offset: off as u32, len: (e - off) as u16, src_id: src },
                    },
                ),
            )
        }),
{
    lemma_ident_run(b, off + 1);
}

/// From `j`, the identifier run ends at the first byte that continues no
/// identifier.
proof fn lemma_ident_run(b: Seq<u8>, j: int)
    requires
        0 <= j <= b.len(),
    ensures
        j <= ident_end(b, j) <= b.len(),
        forall|i: int| j <= i < ident_end(b, j) ==> is_ident_char(#[trigger] b[i]),
        ident_end(b, j) < b.len() ==> !is_ident_char(b[ident_end(b, j)]),
    decreases b.len() - j,
{
    if j < b.len() && is_ident_char(b[j]) {
        lemma_ident_run(b, j + 1);
    }
}

} // verus!
