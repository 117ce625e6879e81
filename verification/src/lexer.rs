use vstd::prelude::*;
use vstd::utf8::encode_utf8;

use crate::lexer_diag::{LexerDiag, LexerDiagCtx, LexerDiagErrorKind};
use crate::lexical::{lemma_no_eof_within, lemma_lex_graph_next, lemma_u16_cut, opt_seq, punct_of, digit_error, lemma_alnum_end, lemma_charseq_scan, lemma_ident_end, lemma_num_end, lemma_ws_stop, token_at, alnum_byte, alnum_end, charseq_scan, digit_byte, digit_errors, ident_end, is_alnum, is_ident_start, lex_coll, lex_error, lex_from, lex_graph, num_after_sign, num_base, num_cut_short, num_digits_start, num_end, num_errors, num_kind, num_none, reserved_kind, scan_ident_end, scan_line_end, trim_line_feeds, word_kind, ws_byte, ws_stop, ws_stops_at_newline, alpha_byte};
use crate::source::{Source, SourceId};
use crate::span::Span;
use crate::token::{
    lemma_views_of, lemma_views_of_push, opt_view, views_of, GraphView, Token, TokenGraph, TokenKind,
    TokenStream,
};
use vstd::pervasive::unreached;
use crate::util::{is_ascii_digit, spec_is_ascii_digit};

verus! {


/// Turns the text of a source into token graphs, gathering diagnostics.
#[derive(Debug)]
pub struct Lexer<'s> {
    pub source: &'s Source,
    pub dctx: LexerDiagCtx,
    offset: u32,
}

impl<'s> Lexer<'s> {
    /// The byte offset the lexer stands at.
    pub closed spec fn spec_offset(&self) -> int {
        self.offset as int
    }

    /// The source being read.
    pub closed spec fn spec_source(&self) -> Source {
        *self.source
    }

    /// The diagnostics gathered so far.
    pub closed spec fn spec_diags(&self) -> Seq<LexerDiag> {
        self.dctx.spec_data()
    }

    /// The bytes of the text being read.
    pub open spec fn spec_bytes(&self) -> Seq<u8> {
        encode_utf8(self.spec_source().data@)
    }

    /// The id of the source being read.
    pub open spec fn spec_src_id(&self) -> SourceId {
        self.spec_source().identifier.0
    }

    /// The text is short enough for every offset, up to two past its end, to fit
    /// in 32 bits.
    pub open spec fn wf(&self) -> bool {
        self.spec_bytes().len() + 2 <= u32::MAX
    }

    /// A lexer at the start of `source`, with no diagnostics.
    pub fn new(source: &'s Source) -> (res: Self)
        ensures
            res.spec_source() == *source,
            res.spec_offset() == 0,
            res.spec_diags() == Seq::<LexerDiag>::empty(),
    {
        Lexer { source, dctx: LexerDiagCtx::new(), offset: 0 }
    }

    fn bytes(&self) -> (res: &'s [u8])
        ensures
            res@ == self.spec_bytes(),
    {
        self.source.data.as_str().as_bytes()
    }

    /// Whether the lexer has read past the last byte.
    pub fn eof(&self) -> (res: bool)
        requires
            self.spec_bytes().len() <= u32::MAX,
        ensures
            res == (self.spec_offset() >= self.spec_bytes().len()),
    {
        self.offset >= self.bytes().len() as u32
    }

    /// The byte at the lexer's position, if any.
    pub fn peek(&self) -> (res: Option<u8>)
        ensures
            res == if self.spec_offset() < self.spec_bytes().len() {
                Some(self.spec_bytes()[self.spec_offset()])
            } else {
                None::<u8>
            },
    {
        self.peekn(0)
    }

    /// The byte `offset` bytes past the lexer's position, if any.
    pub fn peekn(&self, offset: u32) -> (res: Option<u8>)
        requires
            self.spec_offset() + offset <= u32::MAX,
        ensures
            res == if self.spec_offset() + offset < self.spec_bytes().len() {
                Some(self.spec_bytes()[self.spec_offset() + offset])
            } else {
                None::<u8>
            },
    {
        let bytes = self.bytes();
        let i = (self.offset + offset) as usize;
        if i < bytes.len() {
            Some(bytes[i])
        } else {
            None
        }
    }

    /// The byte at the lexer's position, and a step past it.
    pub fn next(&mut self) -> (res: Option<u8>)
        requires
            old(self).spec_offset() < u32::MAX,
        ensures
            final(self).spec_source() == old(self).spec_source(),
            final(self).spec_diags() == old(self).spec_diags(),
            res == old(self).peek_spec(),
            res is Some ==> final(self).spec_offset() == old(self).spec_offset() + 1,
            res is None ==> final(self).spec_offset() == old(self).spec_offset(),
    {
        let c = match self.peek() {
            Some(c) => c,
            None => return None,
        };
        self.adjust();
        Some(c)
    }

    /// The byte at the lexer's position, if any.
    pub open spec fn peek_spec(&self) -> Option<u8> {
        if self.spec_offset() < self.spec_bytes().len() {
            Some(self.spec_bytes()[self.spec_offset()])
        } else {
            None::<u8>
        }
    }

    /// The byte just before the lexer's position, the first byte at the start and
    /// the last byte past the end.
    pub fn current(&self) -> (res: Option<u8>)
        requires
            1 <= self.spec_bytes().len() <= u32::MAX,
        ensures
            res == Some(
                self.spec_bytes()[(if self.spec_offset() < 1 {
                    1
                } else if self.spec_offset() > self.spec_bytes().len() {
                    self.spec_bytes().len() as int
                } else {
                    self.spec_offset()
                }) - 1],
            ),
    {
        let bytes = self.bytes();
        let len = bytes.len() as u32;
        let clamped = if self.offset < 1 {
            1
        } else if self.offset > len {
            len
        } else {
            self.offset
        };
        Some(bytes[(clamped - 1) as usize])
    }

    /// Steps one byte forward.
    pub fn adjust(&mut self)
        requires
            old(self).spec_offset() < u32::MAX,
        ensures
            final(self).spec_offset() == old(self).spec_offset() + 1,
            final(self).spec_source() == old(self).spec_source(),
            final(self).spec_diags() == old(self).spec_diags(),
    {
        self.adjustn(1);
    }

    /// Steps `count` bytes forward.
    pub fn adjustn(&mut self, count: u32)
        requires
            old(self).spec_offset() + count <= u32::MAX,
        ensures
            final(self).spec_offset() == old(self).spec_offset() + count,
            final(self).spec_source() == old(self).spec_source(),
            final(self).spec_diags() == old(self).spec_diags(),
    {
        self.offset = self.offset + count;
    }

    /// Steps past the byte at the lexer's position when it is `c`; tells whether it was.
    pub fn expect(&mut self, c: u8) -> (res: bool)
        requires
            old(self).spec_offset() < u32::MAX,
        ensures
            res == (old(self).peek_spec() == Some(c)),
            final(self).spec_offset() == old(self).spec_offset() + if res {
                1int
            } else {
                0int
            },
            final(self).spec_source() == old(self).spec_source(),
            final(self).spec_diags() == old(self).spec_diags(),
    {
        match self.peek() {
            Some(ch) => {
                let eq = ch == c;
                if eq {
                    self.adjust();
                }
                eq
            },
            None => false,
        }
    }

    /// Skips whitespace up to and including the first line feed, which gives a
    /// line-feed token.
    fn ignore_whitespace(&mut self) -> (res: Option<TokenGraph>)
        requires
            old(self).wf(),
            old(self).spec_offset() <= old(self).spec_bytes().len(),
        ensures
            final(self).spec_source() == old(self).spec_source(),
            final(self).spec_diags() == old(self).spec_diags(),
            final(self).spec_offset() == ws_stop(old(self).spec_bytes(), old(self).spec_offset()),
            ws_stops_at_newline(old(self).spec_bytes(), old(self).spec_offset()) ==> (res
                matches Some(TokenGraph::Node(t)) && t == Token::spec_new(
                TokenKind::LnFeed,
                Span { offset: (final(self).spec_offset() - 1) as u32, len: 1, src_id: old(self).spec_src_id() },
            )),
            !ws_stops_at_newline(old(self).spec_bytes(), old(self).spec_offset()) ==> res is None,
    {
        let ghost b = self.spec_bytes();
        let ghost start = self.spec_offset();
        loop
            invariant
                self.wf(),
                b == self.spec_bytes(),
                b == old(self).spec_bytes(),
                start == old(self).spec_offset(),
                self.spec_source() == old(self).spec_source(),
                self.spec_diags() == old(self).spec_diags(),
                start <= self.spec_offset() <= b.len(),
                ws_stop(b, self.spec_offset()) == ws_stop(b, start),
                ws_stops_at_newline(b, self.spec_offset()) == ws_stops_at_newline(b, start),
            ensures
                self.spec_source() == old(self).spec_source(),
                self.spec_diags() == old(self).spec_diags(),
                self.spec_offset() == ws_stop(b, start),
                !ws_stops_at_newline(b, start),
            decreases b.len() - self.spec_offset(),
        {
            let c = match self.peek() {
                Some(c) => c,
                None => break,
            };
            if !ws_byte(c) {
                break;
            }
            self.adjust();
            if c == 10u8 {
                assert(ws_stop(b, self.spec_offset() - 1) == self.spec_offset());
                assert(ws_stops_at_newline(b, self.spec_offset() - 1));
                let src_id = self.source.identifier.0;
                return Some(TokenGraph::Node(Token::new(TokenKind::LnFeed, Span::new(self.offset - 1, 1, src_id))));
            }
        }
        None
    }

    /// Reads an identifier or keyword from its first byte on.
    fn read_ident(&mut self) -> (res: Token)
        requires
            old(self).wf(),
            old(self).spec_offset() < old(self).spec_bytes().len(),
            is_ident_start(old(self).spec_bytes()[old(self).spec_offset()]),
        ensures
            final(self).spec_source() == old(self).spec_source(),
            final(self).spec_diags() == old(self).spec_diags(),
            final(self).spec_offset() == ident_end(old(self).spec_bytes(), old(self).spec_offset() + 1),
            res == token_at(
                word_kind(
                    old(self).spec_bytes().subrange(old(self).spec_offset(), final(self).spec_offset()),
                ),
                old(self).spec_offset(),
                final(self).spec_offset() - old(self).spec_offset(),
                old(self).spec_src_id(),
            ),
    {
        let bytes = self.bytes();
        let start = self.offset;
        proof {
            lemma_ident_end(bytes@, start + 1);
        }
        let end = scan_ident_end(bytes, (start + 1) as usize);
        self.offset = end as u32;
        let kind = reserved_kind(bytes, start as usize, end);
        let src_id = self.source.identifier.0;
        Token::new(kind, Span::new(start, (self.offset - start) as u16, src_id))
    }

    /// Reads the digits of a number: every ASCII letter or digit from the
    /// lexer's position on, reporting each that is no digit of radix `base`.
    fn read_digits(&mut self, base: u32)
        requires
            old(self).wf(),
            old(self).spec_offset() <= old(self).spec_bytes().len(),
        ensures
            final(self).spec_source() == old(self).spec_source(),
            final(self).spec_offset() == alnum_end(old(self).spec_bytes(), old(self).spec_offset()),
            final(self).spec_diags() == old(self).spec_diags() + digit_errors(
                old(self).spec_bytes(),
                old(self).spec_offset(),
                final(self).spec_offset(),
                base,
                old(self).spec_src_id(),
            ),
    {
        let ghost b = self.spec_bytes();
        let ghost start = self.spec_offset();
        let src_id = self.source.identifier.0;
        loop
            invariant
                self.wf(),
                b == self.spec_bytes(),
                b == old(self).spec_bytes(),
                start == old(self).spec_offset(),
                src_id == old(self).spec_src_id(),
                self.spec_source() == old(self).spec_source(),
                start <= self.spec_offset() <= b.len(),
                alnum_end(b, self.spec_offset()) == alnum_end(b, start),
                self.spec_diags() == old(self).spec_diags() + digit_errors(
                    b,
                    start,
                    self.spec_offset(),
                    base,
                    src_id,
                ),
            ensures
                self.spec_source() == old(self).spec_source(),
                self.spec_offset() == alnum_end(b, start),
                self.spec_diags() == old(self).spec_diags() + digit_errors(
                    b,
                    start,
                    self.spec_offset(),
                    base,
                    src_id,
                ),
            decreases b.len() - self.spec_offset(),
        {
            let c = match self.peek() {
                Some(c) => c,
                None => break,
            };
            if ws_byte(c) || !alnum_byte(c) {
                break;
            }
            let ghost before = self.spec_diags();
            if !is_ascii_digit(c, base) {
                self.dctx.error(
                    Span::new(self.offset, 1, src_id),
                    LexerDiagErrorKind::InvalidNumericLiteralDigit { digit: c, base: base as u8 },
                );
            }
            assert(digit_errors(b, start, self.spec_offset() + 1, base, src_id) =~= digit_errors(
                b,
                start,
                self.spec_offset(),
                base,
                src_id,
            ) + if !spec_is_ascii_digit(b[self.spec_offset()], base) {
                seq![digit_error(b[self.spec_offset()], base, self.spec_offset(), src_id)]
            } else {
                Seq::empty()
            });
            self.adjust();
        }
    }

    /// Reads a number: an optional `-`, an optional radix prefix (`0b`, `0o`,
    /// `0x`), the integral digits and, after a `.`, the fractional digits. Gives
    /// no token for a `0` that is the last byte, nor for an invalid prefix, which
    /// is reported.
    fn read_num(&mut self) -> (res: Option<Token>)
        requires
            old(self).wf(),
            old(self).spec_offset() <= old(self).spec_bytes().len(),
        ensures
            final(self).spec_source() == old(self).spec_source(),
            ({
                let b = old(self).spec_bytes();
                let s = old(self).spec_offset();
                let p = num_after_sign(b, s);
                let src = old(self).spec_src_id();
                &&& num_cut_short(b, p) ==> {
                    &&& res is None
                    &&& final(self).spec_offset() == p
                    &&& final(self).spec_diags() == old(self).spec_diags()
                }
                &&& !num_cut_short(b, p) && num_base(b, p) == 255 ==> {
                    &&& res is None
                    &&& final(self).spec_offset() == num_digits_start(b, p)
                    &&& final(self).spec_diags() == old(self).spec_diags().push(
                        lex_error(
                            LexerDiagErrorKind::InvalidNumericLiteralPrefix,
                            Span { offset: s as u32, len: 2, src_id: src },
                        ),
                    )
                }
                &&& !num_none(b, s) ==> {
                    &&& res == Some(token_at(num_kind(b, s), s, num_end(b, s) - s, src))
                    &&& final(self).spec_offset() == num_end(b, s)
                    &&& final(self).spec_diags() == old(self).spec_diags() + num_errors(b, s, src)
                }
            }),
    {
        let ghost b = self.spec_bytes();
        let ghost d0 = self.spec_diags();
        let src_id = self.source.identifier.0;
        let start = self.offset;
        proof {
            lemma_num_end(b, start as int);
        }
        match self.peek() {
            Some(45u8) => self.adjust(),
            _ => {},
        }
        let ghost p = self.spec_offset();
        assert(p == num_after_sign(b, start as int));
        let mut base: u8 = 10;
        match self.peek() {
            Some(48u8) => {
                let c = match self.peekn(1) {
                    Some(c) => c,
                    None => return None,
                };
                base = if c == 98u8 {
                    2
                } else if c == 111u8 {
                    8
                } else if c == 120u8 {
                    16
                } else if digit_byte(c) || ws_byte(c) || c == 46u8 {
                    10
                } else if alpha_byte(c) {
                    255
                } else {
                    10
                };
                let n: u32 = if base == 2 || base == 8 || base == 16 {
                    2
                } else {
                    1
                };
                self.adjustn(n);
            },
            _ => {},
        }
        assert(base == num_base(b, p));
        assert(self.spec_offset() == num_digits_start(b, p));
        if base == 255 {
            self.dctx.error(Span::new(start, 2, src_id), LexerDiagErrorKind::InvalidNumericLiteralPrefix);
            return None;
        }
        let digits_start = self.offset;
        self.read_digits(base as u32);
        let ghost d1 = self.spec_diags();
        if digits_start == self.offset && base != 10 {
            self.dctx.error(
                Span::new(start, (digits_start - start) as u16, src_id),
                LexerDiagErrorKind::DanglingNumericLiteralPrefix,
            );
        }
        let ghost d2 = self.spec_diags();
        let frac = self.expect(46u8);
        if frac {
            self.read_digits(base as u32);
        }
        let len = (self.offset - start) as u16;
        let kind = if frac {
            TokenKind::Float { base }
        } else {
            TokenKind::Int { base }
        };
        assert(self.spec_diags() =~= d0 + num_errors(b, start as int, src_id));
        Some(Token::new(kind, Span::new(start, len, src_id)))
    }

    /// Reads a character sequence: a quote, the characters up to the closing
    /// quote (a backslash escapes the byte after it) and the closing quote. A
    /// sequence that is not closed is reported and gives no token; a
    /// single-quoted one must hold exactly one character, else it is reported.
    pub fn read_char_seq(&mut self) -> (res: Option<Token>)
        requires
            old(self).wf(),
            old(self).spec_offset() <= old(self).spec_bytes().len() + 1,
        ensures
            final(self).spec_source() == old(self).spec_source(),
            ({
                let b = old(self).spec_bytes();
                let s = old(self).spec_offset();
                let src = old(self).spec_src_id();
                let quote = b[s];
                let r = charseq_scan(b, s + 1, quote);
                let span = Span { offset: s as u32, len: (r.0 - s) as u16, src_id: src };
                &&& s >= b.len() ==> {
                    &&& res is None
                    &&& final(self).spec_offset() == s
                    &&& final(self).spec_diags() == old(self).spec_diags()
                }
                &&& s < b.len() ==> final(self).spec_offset() == r.0
                &&& s < b.len() && !r.1 ==> {
                    &&& res is None
                    &&& final(self).spec_diags() == old(self).spec_diags().push(
                        lex_error(LexerDiagErrorKind::UnterminatedCharSeq, span),
                    )
                }
                &&& s < b.len() && r.1 && quote == 34u8 ==> {
                    &&& res == Some(Token { kind: TokenKind::String { terminated: true }, span })
                    &&& final(self).spec_diags() == old(self).spec_diags()
                }
                &&& s < b.len() && r.1 && quote != 34u8 ==> {
                    &&& res == Some(Token { kind: TokenKind::Char { terminated: true }, span })
                    &&& final(self).spec_diags() == if r.2 == 1 {
                        old(self).spec_diags()
                    } else {
                        old(self).spec_diags().push(
                            lex_error(
                                LexerDiagErrorKind::InvalidCharSeq {
                                    enclosing: 39u8,
                                    len: (1usize, r.2 as usize),
                                },
                                span,
                            ),
                        )
                    }
                }
            }),
    {
        let ghost b = self.spec_bytes();
        let start = self.offset;
        let quote = match self.next() {
            Some(q) => q,
            None => return None,
        };
        let ghost total = charseq_scan(b, start + 1, quote);
        proof {
            lemma_charseq_scan(b, start + 1, quote);
        }
        let multi = quote == 34u8;
        let mut seq_len: usize = 0;
        let mut terminated = false;
        loop
            invariant_except_break
                !terminated,
                charseq_scan(b, self.spec_offset(), quote).0 == total.0,
                charseq_scan(b, self.spec_offset(), quote).1 == total.1,
                seq_len + charseq_scan(b, self.spec_offset(), quote).2 == total.2,
            invariant
                self.wf(),
                b == self.spec_bytes(),
                self.spec_source() == old(self).spec_source(),
                self.spec_diags() == old(self).spec_diags(),
                start + 1 <= self.spec_offset() <= b.len() + 1,
                seq_len <= self.spec_offset() - start,
            ensures
                self.spec_source() == old(self).spec_source(),
                self.spec_diags() == old(self).spec_diags(),
                self.spec_offset() == total.0,
                terminated == total.1,
                seq_len == total.2,
            decreases b.len() + 2 - self.spec_offset(),
        {
            let c = match self.peek() {
                Some(c) => c,
                None => break,
            };
            if c == quote {
                self.adjust();
                terminated = true;
                break;
            }
            seq_len = seq_len + 1;
            if c == 92u8 {
                self.adjust();
            }
            self.adjust();
        }
        let src_id = self.source.identifier.0;
        let span = Span::new(start, (self.offset - start) as u16, src_id);
        if !terminated {
            self.dctx.error(span, LexerDiagErrorKind::UnterminatedCharSeq);
            return None;
        }
        if multi {
            Some(Token::new(TokenKind::String { terminated }, span))
        } else {
            if seq_len != 1 {
                self.dctx.error(
                    span,
                    LexerDiagErrorKind::InvalidCharSeq { enclosing: 39u8, len: (1, seq_len) },
                );
            }
            Some(Token::new(TokenKind::Char { terminated }, span))
        }
    }

    /// Reads the rest of a collection into `collection`: graph after graph, up
    /// to and including the one that starts with the byte `cl`, or up to the end
    /// of the text, which the collection then records.
    pub fn tokenize_collection(&mut self, cl: u8, collection: Vec<TokenGraph>) -> (res: TokenGraph)
        requires
            old(self).wf(),
            old(self).spec_offset() <= old(self).spec_bytes().len() + 1,
            lex_coll(old(self).spec_bytes(), old(self).spec_offset(), cl, old(self).spec_src_id()) is Some,
        ensures
            final(self).spec_source() == old(self).spec_source(),
            ({
                let r = lex_coll(
                    old(self).spec_bytes(),
                    old(self).spec_offset(),
                    cl,
                    old(self).spec_src_id(),
                ).unwrap();
                &&& final(self).spec_offset() == r.next
                &&& final(self).spec_diags() == old(self).spec_diags() + r.diags
                &&& res.view_graph() == GraphView::Collection {
                    data: views_of(collection@) + r.data,
                    eof: r.eof,
                }
            }),
        decreases old(self).spec_bytes().len() + 2 - old(self).spec_offset(), 1int,
    {
        let ghost b = self.spec_bytes();
        let ghost src = self.spec_src_id();
        let ghost off0 = self.spec_offset();
        let ghost r0 = lex_coll(b, off0, cl, src).unwrap();
        let ghost v0 = views_of(collection@);
        let ghost d0 = self.spec_diags();
        let mut collection = collection;
        let mut eof = true;
        loop
            invariant_except_break
                eof,
                lex_coll(b, self.spec_offset(), cl, src) is Some,
                lex_coll(b, self.spec_offset(), cl, src).unwrap().next == r0.next,
                lex_coll(b, self.spec_offset(), cl, src).unwrap().eof == r0.eof,
                views_of(collection@) + lex_coll(b, self.spec_offset(), cl, src).unwrap().data == v0
                    + r0.data,
                self.spec_diags() + lex_coll(b, self.spec_offset(), cl, src).unwrap().diags == d0
                    + r0.diags,
            invariant
                self.wf(),
                b == self.spec_bytes(),
                src == self.spec_src_id(),
                self.spec_source() == old(self).spec_source(),
                b == old(self).spec_bytes(),
                src == old(self).spec_src_id(),
                off0 == old(self).spec_offset(),
                d0 == old(self).spec_diags(),
                r0 == lex_coll(b, off0, cl, src).unwrap(),
                off0 <= self.spec_offset() <= b.len() + 1,
            ensures
                self.spec_source() == old(self).spec_source(),
                self.spec_offset() == r0.next,
                views_of(collection@) == v0 + r0.data,
                self.spec_diags() == d0 + r0.diags,
                eof == r0.eof,
            decreases b.len() + 2 - self.spec_offset(),
        {
            let ghost j = self.spec_offset();
            let ghost vj = views_of(collection@);
            let ghost dj = self.spec_diags();
            let c = match self.peek() {
                Some(c) => c,
                None => {
                    assert(vj + Seq::<GraphView>::empty() =~= vj);
                    assert(dj + Seq::<LexerDiag>::empty() =~= dj);
                    break;
                },
            };
            let ghost g = lex_graph(b, j, src).unwrap();
            let ghost rj = lex_coll(b, j, cl, src).unwrap();
            proof {
                lemma_lex_graph_next(b, j, src);
            }
            let tg = self.tokenize_graph();
            match tg {
                Some(tg) => {
                    proof {
                        lemma_views_of_push(collection@, tg);
                    }
                    collection.push(tg);
                },
                None => {},
            }
            assert(views_of(collection@) == vj + opt_seq(g.graph));
            if c == cl {
                eof = false;
                break;
            }
            let ghost rn = lex_coll(b, self.spec_offset(), cl, src).unwrap();
            assert(rj.data == opt_seq(g.graph) + rn.data);
            assert(vj + rj.data =~= views_of(collection@) + rn.data);
            assert(dj + rj.diags =~= self.spec_diags() + rn.diags);
        }
        TokenGraph::Collection { data: collection, eof }
    }

    /// Reads the rest of a collection opened by `pair.0` and closed by
    /// `pair.1`; when the text ends before the closing byte, reports the
    /// collection unclosed at its first token.
    pub fn tokenize_delimeter_collection(&mut self, pair: (u8, u8), collection: Vec<TokenGraph>) -> (res: TokenGraph)
        requires
            old(self).wf(),
            old(self).spec_offset() <= old(self).spec_bytes().len() + 1,
            lex_coll(old(self).spec_bytes(), old(self).spec_offset(), pair.1, old(self).spec_src_id()) is Some,
            lex_coll(
                old(self).spec_bytes(),
                old(self).spec_offset(),
                pair.1,
                old(self).spec_src_id(),
            ).unwrap().eof ==> collection@.len() > 0 && collection@[0] is Node,
        ensures
            final(self).spec_source() == old(self).spec_source(),
            ({
                let r = lex_coll(
                    old(self).spec_bytes(),
                    old(self).spec_offset(),
                    pair.1,
                    old(self).spec_src_id(),
                ).unwrap();
                &&& final(self).spec_offset() == r.next
                &&& res.view_graph() == GraphView::Collection {
                    data: views_of(collection@) + r.data,
                    eof: r.eof,
                }
                &&& !r.eof ==> final(self).spec_diags() == old(self).spec_diags() + r.diags
                &&& r.eof ==> (collection@[0] matches TokenGraph::Node(t) && final(self).spec_diags()
                    == (old(self).spec_diags() + r.diags).push(
                    lex_error(
                        LexerDiagErrorKind::UnclosedDelimeterCollection { op: pair.0, cl: pair.1 },
                        t.span,
                    ),
                ))
            }),
        decreases old(self).spec_bytes().len() + 2 - old(self).spec_offset(), 2int,
    {
        let ghost c0 = collection@;
        let (op, cl) = pair;
        let token_graph = self.tokenize_collection(cl, collection);
        match &token_graph {
            TokenGraph::Collection { data, eof } => {
                if *eof {
                    proof {
                        lemma_views_of(c0);
                        lemma_views_of(data@);
                        assert(views_of(data@)[0] == views_of(c0)[0]);
                    }
                    match &data[0] {
                        TokenGraph::Node(op_tok) => {
                            self.dctx.error(
                                op_tok.span,
                                LexerDiagErrorKind::UnclosedDelimeterCollection { op, cl },
                            );
                        },
                        TokenGraph::Collection { .. } => {
                            unreached::<()>();
                        },
                    }
                }
            },
            TokenGraph::Node(_) => {
                unreached::<()>();
            },
        }
        token_graph
    }

    /// Reads one token graph: the end-of-file token past the text; for
    /// whitespace, a line-feed token if it holds a line feed; for an opening
    /// delimiter, the collection up to the closing one; otherwise one token.
    /// Gives nothing for whitespace without a line feed, a comment, or a token
    /// that could not be read.
    pub fn tokenize_graph(&mut self) -> (res: Option<TokenGraph>)
        requires
            old(self).wf(),
            old(self).spec_offset() <= old(self).spec_bytes().len() + 1,
            lex_graph(old(self).spec_bytes(), old(self).spec_offset(), old(self).spec_src_id()) is Some,
        ensures
            final(self).spec_source() == old(self).spec_source(),
            ({
                let g = lex_graph(
                    old(self).spec_bytes(),
                    old(self).spec_offset(),
                    old(self).spec_src_id(),
                ).unwrap();
                &&& final(self).spec_offset() == g.next
                &&& final(self).spec_diags() == old(self).spec_diags() + g.diags
                &&& opt_view(res) == g.graph
            }),
        decreases old(self).spec_bytes().len() + 2 - old(self).spec_offset(), 0int,
    {
        let ghost b = self.spec_bytes();
        let ghost d0 = self.spec_diags();
        assert(d0 + Seq::<LexerDiag>::empty() =~= d0);
        proof {
            lemma_lex_graph_next(b, self.spec_offset(), self.spec_src_id());
        }
        let src_id = self.source.identifier.0;
        if self.eof() {
            return Some(TokenGraph::Node(Token::new(TokenKind::Eof, Span::new(self.offset, 1, src_id))));
        }
        let start = self.offset;
        let c = match self.peek() {
            Some(c) => c,
            None => return None,
        };
        if ws_byte(c) {
            proof {
                lemma_ws_stop(b, start as int);
            }
            return self.ignore_whitespace();
        }
        let span = Span::new(start, 1, src_id);
        if c == 40u8 || c == 123u8 || c == 91u8 {
            let (open_kind, cl) = if c == 40u8 {
                (TokenKind::LeftParen, 41u8)
            } else if c == 123u8 {
                (TokenKind::LeftBrace, 125u8)
            } else {
                (TokenKind::LeftBracket, 93u8)
            };
            self.adjust();
            let mut first: Vec<TokenGraph> = Vec::new();
            let open = TokenGraph::Node(Token::new(open_kind, span));
            proof {
                lemma_views_of_push(first@, open);
            }
            first.push(open);
            assert(views_of(first@) =~= seq![open.view_graph()]);
            let graph = self.tokenize_delimeter_collection((c, cl), first);
            return Some(graph);
        }
        let token = if c == 64u8 || c == 95u8 || alpha_byte(c) {
            Some(self.read_ident())
        } else if digit_byte(c) {
            self.read_num()
        } else if c == 39u8 || c == 34u8 {
            self.read_char_seq()
        } else if c == 45u8 && matches!(self.peekn(1), Some(48u8)) {
            match self.read_num() {
                Some(t) => Some(t),
                None => unreached(),
            }
        } else if c == 47u8 && matches!(self.peekn(1), Some(47u8)) {
            let e = scan_line_end(self.bytes(), start as usize);
            self.offset = e as u32;
            None
        } else {
            let (kind, len) = punct_of(c, self.peekn(1));
            if matches!(kind, TokenKind::Invalid) {
                self.dctx.error(span, LexerDiagErrorKind::UnknownChar { c });
                Some(Token::Invalid(span))
            } else {
                Some(Token::new(kind, Span::new(start, len, src_id)))
            }
        };
        let token = match token {
            Some(t) => t,
            None => return None,
        };
        self.offset = token.span.offset + token.len() as u32;
        Some(TokenGraph::Node(token))
    }

    /// Reads the whole text from the lexer's position into token graphs, up to
    /// and including the end-of-file token. Before that token is added, trailing
    /// line feeds are trimmed: while the next-to-last graph read (the only one,
    /// if just one was read) is a line feed, the last graph is dropped.
    pub fn tokenize(&mut self) -> (res: TokenStream)
        requires
            old(self).wf(),
            old(self).spec_offset() <= old(self).spec_bytes().len() + 1,
            lex_from(old(self).spec_bytes(), old(self).spec_offset(), old(self).spec_src_id()) is Some,
        ensures
            final(self).spec_source() == old(self).spec_source(),
            ({
                let r = lex_from(
                    old(self).spec_bytes(),
                    old(self).spec_offset(),
                    old(self).spec_src_id(),
                ).unwrap();
                &&& final(self).spec_offset() == r.end
                &&& final(self).spec_diags() == old(self).spec_diags() + r.diags
                &&& views_of(res.data@) == trim_line_feeds(r.graphs).push(
                    GraphView::Node(token_at(TokenKind::Eof, r.end, 1, old(self).spec_src_id())),
                )
            }),
    {
        let ghost b = self.spec_bytes();
        let ghost src = self.spec_src_id();
        let ghost off0 = self.spec_offset();
        let ghost r0 = lex_from(b, off0, src).unwrap();
        let ghost d0 = self.spec_diags();
        let ghost eof_node = GraphView::Node(token_at(TokenKind::Eof, r0.end, 1, src));
        let mut collection: Vec<TokenGraph> = Vec::new();
        assert(views_of(collection@) + r0.graphs =~= r0.graphs);
        assert(d0 + r0.diags =~= d0 + r0.diags);
        loop
            invariant_except_break
                lex_from(b, self.spec_offset(), src) is Some,
                lex_from(b, self.spec_offset(), src).unwrap().end == r0.end,
                views_of(collection@) + lex_from(b, self.spec_offset(), src).unwrap().graphs
                    == r0.graphs,
                self.spec_diags() + lex_from(b, self.spec_offset(), src).unwrap().diags == d0
                    + r0.diags,
            invariant
                self.wf(),
                b == self.spec_bytes(),
                src == self.spec_src_id(),
                self.spec_source() == old(self).spec_source(),
                b == old(self).spec_bytes(),
                src == old(self).spec_src_id(),
                off0 == old(self).spec_offset(),
                d0 == old(self).spec_diags(),
                r0 == lex_from(b, off0, src).unwrap(),
                eof_node == GraphView::Node(token_at(TokenKind::Eof, r0.end, 1, src)),
                off0 <= self.spec_offset() <= b.len() + 1,
            ensures
                self.spec_source() == old(self).spec_source(),
                self.spec_offset() == r0.end,
                views_of(collection@) == trim_line_feeds(r0.graphs).push(eof_node),
                self.spec_diags() == d0 + r0.diags,
            decreases b.len() + 2 - self.spec_offset(),
        {
            let ghost j = self.spec_offset();
            let ghost vj = views_of(collection@);
            let ghost dj = self.spec_diags();
            let ghost g = lex_graph(b, j, src).unwrap();
            proof {
                lemma_lex_graph_next(b, j, src);
                if j < b.len() {
                    lemma_no_eof_within(b, j, src);
                }
            }
            let tg = match self.tokenize_graph() {
                Some(tg) => tg,
                None => {
                    let ghost rn = lex_from(b, self.spec_offset(), src).unwrap();
                    assert(vj + opt_seq(g.graph) + rn.graphs =~= vj + (opt_seq(g.graph) + rn.graphs));
                    assert(vj + opt_seq(g.graph) =~= vj);
                    assert(dj + g.diags + rn.diags =~= dj + (g.diags + rn.diags));
                    continue;
                },
            };
            let is_eof = match &tg {
                TokenGraph::Node(t) => matches!(t.kind, TokenKind::Eof),
                TokenGraph::Collection { .. } => false,
            };
            if is_eof {
                assert(j >= b.len());
                assert(vj + Seq::<GraphView>::empty() =~= vj);
                assert(dj + Seq::<LexerDiag>::empty() =~= dj);
                loop
                    invariant
                        trim_line_feeds(views_of(collection@)) == trim_line_feeds(r0.graphs),
                    ensures
                        views_of(collection@) == trim_line_feeds(r0.graphs),
                    decreases collection@.len(),
                {
                    if collection.len() == 0 {
                        break;
                    }
                    let i = if collection.len() >= 2 {
                        collection.len() - 2
                    } else {
                        0
                    };
                    let is_lf = match collection[i].underlying() {
                        Some(t) => matches!(t.kind, TokenKind::LnFeed),
                        None => false,
                    };
                    proof {
                        lemma_views_of(collection@);
                        lemma_views_of_push(collection@, tg);
                    }
                    let ghost before = collection@;
                    if is_lf {
                        collection.pop();
                        assert(collection@ =~= before.drop_last());
                    } else {
                        break;
                    }
                }
                proof {
                    lemma_views_of_push(collection@, tg);
                }
                collection.push(tg);
                break;
            }
            proof {
                lemma_views_of_push(collection@, tg);
            }
            collection.push(tg);
            let ghost rn = lex_from(b, self.spec_offset(), src).unwrap();
            assert(vj + opt_seq(g.graph) + rn.graphs =~= vj + (opt_seq(g.graph) + rn.graphs));
            assert(vj.push(tg.view_graph()) =~= vj + opt_seq(g.graph));
            assert(dj + g.diags + rn.diags =~= dj + (g.diags + rn.diags));
        }
        TokenStream::new(collection)
    }
}

} // verus!
