use vstd::prelude::*;

use crate::source::SourceRegistry;
use crate::diag::{Diag, DiagKind};
use crate::span::Span;
use crate::util::{push_char, push_decimal, spec_decimal};
use vstd::string::{StringExecFns, StringSliceAdditionalSpecFns};
use vstd::utf8::{decode_utf8, encode_utf8, encode_utf8_decode_utf8, is_char_boundary};

verus! {

/// What the registry of sources is, for rendering lexer diagnostics.
#[derive(Debug, Clone, Copy)]
pub struct LexerDiagDataCtx<'c> {
    pub registry: &'c SourceRegistry,
}

impl<'c> LexerDiagDataCtx<'c> {
    pub fn new(registry: &'c SourceRegistry) -> (res: Self)
        ensures
            res.registry == registry,
    {
        LexerDiagDataCtx { registry }
    }
}

/// The errors that the lexer reports.
#[derive(Debug, Clone, Copy, PartialEq, Eq)]
pub enum LexerDiagErrorKind {
    InvalidNumericLiteralDigit { digit: u8, base: u8 },
    InvalidNumericLiteralPrefix,
    DanglingNumericLiteralPrefix,
    UnterminatedCharSeq,
    InvalidCharSeq { enclosing: u8, len: (usize, usize) },
    UnclosedDelimeterCollection { op: u8, cl: u8 },
    UnknownChar { c: u8 },
}

/// The severity of a lexer diagnostic; errors carry their kind.
#[derive(Debug, Clone, Copy, PartialEq, Eq)]
pub enum LexerDiagKind {
    Info,
    Warning,
    Error(LexerDiagErrorKind),
}

/// A diagnostic of the lexer: what, and where.
#[derive(Debug, Clone, Copy)]
pub struct LexerDiag {
    pub kind: LexerDiagKind,
    pub span: Span,
}

/// The error codes of lexer errors start here.
pub const LEXER_ERROR_CODE_OFFSET: u16 = 200;

/// The position of an error kind in the declaration of [`LexerDiagErrorKind`].
pub open spec fn spec_error_index(kind: LexerDiagErrorKind) -> u16 {
    match kind {
        LexerDiagErrorKind::InvalidNumericLiteralDigit { .. } => 0,
        LexerDiagErrorKind::InvalidNumericLiteralPrefix => 1,
        LexerDiagErrorKind::DanglingNumericLiteralPrefix => 2,
        LexerDiagErrorKind::UnterminatedCharSeq => 3,
        LexerDiagErrorKind::InvalidCharSeq { .. } => 4,
        LexerDiagErrorKind::UnclosedDelimeterCollection { .. } => 5,
        LexerDiagErrorKind::UnknownChar { .. } => 6,
    }
}

impl LexerDiag {
    pub fn is_info(&self) -> (res: bool)
        ensures
            res == (self.kind is Info),
    {
        matches!(self.kind, LexerDiagKind::Info)
    }

    pub fn is_warning(&self) -> (res: bool)
        ensures
            res == (self.kind is Warning),
    {
        matches!(self.kind, LexerDiagKind::Warning)
    }

    pub fn is_error(&self) -> (res: bool)
        ensures
            res == (self.kind is Error),
    {
        matches!(self.kind, LexerDiagKind::Error(_))
    }

    /// The code of an error: its kind's position plus [`LEXER_ERROR_CODE_OFFSET`];
    /// infos and warnings have none.
    pub fn error_code(&self) -> (res: Option<u16>)
        ensures
            match self.kind {
                LexerDiagKind::Error(k) => res == Some((spec_error_index(k) + LEXER_ERROR_CODE_OFFSET) as u16),
                _ => res is None,
            },
    {
        match self.kind {
            LexerDiagKind::Error(k) => {
                let idx: u16 = match k {
                    LexerDiagErrorKind::InvalidNumericLiteralDigit { .. } => 0,
                    LexerDiagErrorKind::InvalidNumericLiteralPrefix => 1,
                    LexerDiagErrorKind::DanglingNumericLiteralPrefix => 2,
                    LexerDiagErrorKind::UnterminatedCharSeq => 3,
                    LexerDiagErrorKind::InvalidCharSeq { .. } => 4,
                    LexerDiagErrorKind::UnclosedDelimeterCollection { .. } => 5,
                    LexerDiagErrorKind::UnknownChar { .. } => 6,
                };
                Some(idx + LEXER_ERROR_CODE_OFFSET)
            },
            _ => None,
        }
    }
}

/// The severity that a lexer diagnostic of kind `kind` is reported with.
pub open spec fn emitted_kind(kind: LexerDiagKind) -> DiagKind {
    match kind {
        LexerDiagKind::Info => DiagKind::Info,
        LexerDiagKind::Warning => DiagKind::Warning,
        LexerDiagKind::Error(k) => DiagKind::Error((spec_error_index(k) + LEXER_ERROR_CODE_OFFSET) as u16),
    }
}

/// The message of lexer diagnostic `d` about the text `text` of its source.
pub open spec fn lexer_message(d: LexerDiag, text: Seq<u8>) -> Seq<char> {
    let piece = decode_utf8(text.subrange(d.span.offset as int, d.span.offset + d.span.len + 1));
    match d.kind {
        LexerDiagKind::Error(k) => match k {
            LexerDiagErrorKind::InvalidNumericLiteralDigit { digit, base } => "invalid numeric digit `"@
                + seq![digit as char] + "` for numeric literals with base `"@ + spec_decimal(
                base as nat,
            ) + "`"@,
            LexerDiagErrorKind::InvalidNumericLiteralPrefix => "invalid numeric literal prefix `"@
                + piece + "`."@,
            LexerDiagErrorKind::DanglingNumericLiteralPrefix => "dangling umeric literal prefix `"@
                + piece + "`."@,
            LexerDiagErrorKind::UnterminatedCharSeq => "unterminated character sequence."@,
            LexerDiagErrorKind::InvalidCharSeq { enclosing, len } => "character sequences within `"@
                + seq![enclosing as char] + "` expect `"@ + spec_decimal(len.0 as nat)
                + "` characters, received `"@ + spec_decimal(len.1 as nat) + "`."@,
            LexerDiagErrorKind::UnclosedDelimeterCollection { op, cl } => "missing closing `"@
                + seq![cl as char] + "` for `"@ + seq![op as char] + "`."@,
            LexerDiagErrorKind::UnknownChar { c } => "unknown character `"@ + seq![c as char]
                + "`."@,
        },
        _ => Seq::empty(),
    }
}

/// Whether the message of `d` can be written for the text `text`: a prefix
/// error quotes the bytes of its span and the byte after it, which must be
/// whole characters of the text.
pub open spec fn message_writable(d: LexerDiag, text: Seq<u8>) -> bool {
    let a = d.span.offset as int;
    let b = d.span.offset + d.span.len + 1;
    (d.kind == LexerDiagKind::Error(LexerDiagErrorKind::InvalidNumericLiteralPrefix) || d.kind
        == LexerDiagKind::Error(LexerDiagErrorKind::DanglingNumericLiteralPrefix)) ==> {
        &&& b <= text.len()
        &&& b <= usize::MAX
        &&& is_char_boundary(text, a)
        &&& is_char_boundary(text.subrange(a, text.len() as int), b - a)
    }
}

/// Appends the decimal digits of `n`.
fn append_decimal(s: &mut String, n: usize)
    ensures
        final(s)@ == old(s)@ + spec_decimal(n as nat),
{
    push_decimal(s, n as u64);
}

impl LexerDiag {
    /// The diagnostic ready to be reported: its severity (an error with its
    /// code), its span, and its message about the text of its source.
    pub fn emit(&self, ctx: &mut LexerDiagDataCtx) -> (res: Diag)
        requires
            old(ctx).registry.wf(),
            self.span.src_id.spec_is_valid(),
            (self.span.src_id.0 as int) < old(ctx).registry.spec_sources().len(),
            message_writable(
                *self,
                encode_utf8(old(ctx).registry.spec_sources()[self.span.src_id.0 as int].data@),
            ),
        ensures
            *final(ctx) == *old(ctx),
            res.span == self.span,
            res.kind == emitted_kind(self.kind),
            res.message@ == lexer_message(
                *self,
                encode_utf8(old(ctx).registry.spec_sources()[self.span.src_id.0 as int].data@),
            ),
    {
        let source = ctx.registry.get(self.span.src_id);
        let ghost text = encode_utf8(source.data@);
        let mut message = String::new();
        let kind = match self.kind {
            LexerDiagKind::Info => DiagKind::Info,
            LexerDiagKind::Warning => DiagKind::Warning,
            LexerDiagKind::Error(k) => {
                match k {
                    LexerDiagErrorKind::InvalidNumericLiteralDigit { digit, base } => {
                        message.append("invalid numeric digit `");
                        push_char(&mut message, digit as char);
                        message.append("` for numeric literals with base `");
                        push_decimal(&mut message, base as u64);
                        message.append("`");
                    },
                    LexerDiagErrorKind::InvalidNumericLiteralPrefix => {
                        message.append("invalid numeric literal prefix `");
                        message.append(span_text(&source.data, self.span));
                        message.append("`.");
                    },
                    LexerDiagErrorKind::DanglingNumericLiteralPrefix => {
                        message.append("dangling umeric literal prefix `");
                        message.append(span_text(&source.data, self.span));
                        message.append("`.");
                    },
                    LexerDiagErrorKind::UnterminatedCharSeq => {
                        message.append("unterminated character sequence.");
                    },
                    LexerDiagErrorKind::InvalidCharSeq { enclosing, len } => {
                        message.append("character sequences within `");
                        push_char(&mut message, enclosing as char);
                        message.append("` expect `");
                        append_decimal(&mut message, len.0);
                        message.append("` characters, received `");
                        append_decimal(&mut message, len.1);
                        message.append("`.");
                    },
                    LexerDiagErrorKind::UnclosedDelimeterCollection { op, cl } => {
                        message.append("missing closing `");
                        push_char(&mut message, cl as char);
                        message.append("` for `");
                        push_char(&mut message, op as char);
                        message.append("`.");
                    },
                    LexerDiagErrorKind::UnknownChar { c } => {
                        message.append("unknown character `");
                        push_char(&mut message, c as char);
                        message.append("`.");
                    },
                }
                DiagKind::Error(self.error_code().unwrap())
            },
        };
        assert(message@ =~= lexer_message(*self, text));
        Diag::new(kind, self.span, message)
    }
}

/// The text of the bytes of `span` and the byte after it.
fn span_text(data: &String, span: Span) -> (res: &str)
    requires
        message_writable_range(encode_utf8(data@), span),
        span.offset + span.len + 1 <= usize::MAX,
    ensures
        res@ == decode_utf8(
            encode_utf8(data@).subrange(span.offset as int, span.offset + span.len + 1),
        ),
{
    let s = data.as_str();
    let (_, rest) = s.split_at(span.offset as usize);
    let (piece, _) = rest.split_at(span.len as usize + 1);
    proof {
        assert(encode_utf8(piece@) =~= encode_utf8(data@).subrange(
            span.offset as int,
            span.offset + span.len + 1,
        ));
        encode_utf8_decode_utf8(piece@);
    }
    piece
}

/// The bytes of `span` and the byte after it lie in `text` and start and end
/// at character boundaries.
pub open spec fn message_writable_range(text: Seq<u8>, span: Span) -> bool {
    let a = span.offset as int;
    let b = span.offset + span.len + 1;
    &&& b <= text.len()
    &&& is_char_boundary(text, a)
    &&& is_char_boundary(text.subrange(a, text.len() as int), b - a)
}

/// Whether the message of `d` can be written for the text `text`: see
/// [`message_writable`].
pub fn is_message_writable(d: &LexerDiag, text: &str) -> (res: bool)
    ensures
        res == message_writable(*d, encode_utf8(text@)),
{
    let quotes = match d.kind {
        LexerDiagKind::Error(LexerDiagErrorKind::InvalidNumericLiteralPrefix) => true,
        LexerDiagKind::Error(LexerDiagErrorKind::DanglingNumericLiteralPrefix) => true,
        _ => false,
    };
    if !quotes {
        return true;
    }
    let a = d.span.offset as usize;
    let b: u64 = d.span.offset as u64 + d.span.len as u64 + 1;
    let n = text.as_bytes().len();
    if b > n as u64 {
        return false;
    }
    if !text.is_char_boundary(a) {
        return false;
    }
    let (_, rest) = text.split_at(a);
    assert(rest.spec_bytes() =~= encode_utf8(text@).subrange(a as int, encode_utf8(text@).len() as int));
    rest.is_char_boundary((b - a as u64) as usize)
}

/// The diagnostics that a lexer has gathered, in the order they were found.
#[derive(Debug)]
pub struct LexerDiagCtx {
    data: Vec<LexerDiag>,
    errored: bool,
}

impl LexerDiagCtx {
    /// The diagnostics gathered so far.
    pub closed spec fn spec_data(&self) -> Seq<LexerDiag> {
        self.data@
    }

    /// Whether an error has been added.
    pub closed spec fn spec_errored(&self) -> bool {
        self.errored
    }

    /// No diagnostics yet.
    pub fn new() -> (res: Self)
        ensures
            res.spec_data() == Seq::<LexerDiag>::empty(),
            !res.spec_errored(),
    {
        LexerDiagCtx { data: Vec::new(), errored: false }
    }

    /// Adds `diag`; an error sets the error flag.
    pub fn add(&mut self, diag: LexerDiag)
        ensures
            final(self).spec_data() == old(self).spec_data().push(diag),
            final(self).spec_errored() == (old(self).spec_errored() || diag.kind is Error),
    {
        if diag.is_error() {
            self.errored = true;
        }
        self.data.push(diag);
    }

    /// Adds the error `kind` at `span`.
    pub fn error(&mut self, span: Span, kind: LexerDiagErrorKind)
        ensures
            final(self).spec_data() == old(self).spec_data().push(
                LexerDiag { kind: LexerDiagKind::Error(kind), span },
            ),
            final(self).spec_errored(),
    {
        self.add(LexerDiag { span, kind: LexerDiagKind::Error(kind) })
    }

    /// The diagnostics gathered so far.
    pub fn data(&self) -> (res: &[LexerDiag])
        ensures
            res@ == self.spec_data(),
    {
        self.data.as_slice()
    }

    /// Whether every diagnostic can be rendered with the sources of
    /// `registry`: the condition of [`LexerDiagCtx::emit`], tested.
    pub fn emittable(&self, registry: &SourceRegistry) -> (res: bool)
        requires
            registry.wf(),
        ensures
            res == forall|i: int|
                #![trigger self.spec_data()[i]]
                0 <= i < self.spec_data().len() ==> {
                    let d = self.spec_data()[i];
                    &&& d.span.src_id.spec_is_valid()
                    &&& (d.span.src_id.0 as int) < registry.spec_sources().len()
                    &&& message_writable(
                        d,
                        encode_utf8(registry.spec_sources()[d.span.src_id.0 as int].data@),
                    )
                },
    {
        let mut i: usize = 0;
        while i < self.data.len()
            invariant
                registry.wf(),
                i <= self.data@.len(),
                forall|j: int|
                    #![trigger self.spec_data()[j]]
                    0 <= j < i ==> {
                        let d = self.spec_data()[j];
                        &&& d.span.src_id.spec_is_valid()
                        &&& (d.span.src_id.0 as int) < registry.spec_sources().len()
                        &&& message_writable(
                            d,
                            encode_utf8(registry.spec_sources()[d.span.src_id.0 as int].data@),
                        )
                    },
            decreases self.data@.len() - i,
        {
            let d = &self.data[i];
            assert(*d == self.spec_data()[i as int]);
            if !d.span.src_id.is_valid() {
                return false;
            }
            if d.span.src_id.0 as usize >= registry.sources().len() {
                return false;
            }
            let source = registry.get(d.span.src_id);
            if !is_message_writable(d, source.data.as_str()) {
                return false;
            }
            i = i + 1;
        }
        true
    }

    /// Emits every diagnostic, in order, into `out`.
    pub fn emit(&self, out: &mut Vec<Diag>, ctx: LexerDiagDataCtx)
        requires
            ctx.registry.wf(),
            forall|i: int|
                #![trigger self.spec_data()[i]]
                0 <= i < self.spec_data().len() ==> {
                    let d = self.spec_data()[i];
                    &&& d.span.src_id.spec_is_valid()
                    &&& (d.span.src_id.0 as int) < ctx.registry.spec_sources().len()
                    &&& message_writable(
                        d,
                        encode_utf8(ctx.registry.spec_sources()[d.span.src_id.0 as int].data@),
                    )
                },
        ensures
            final(out)@.len() == old(out)@.len() + self.spec_data().len(),
            forall|i: int|
                #![trigger final(out)@[i]]
                0 <= i < old(out)@.len() ==> final(out)@[i] == old(out)@[i],
            forall|i: int|
                #![trigger self.spec_data()[i]]
                0 <= i < self.spec_data().len() ==> {
                    let d = self.spec_data()[i];
                    let e = final(out)@[old(out)@.len() + i];
                    &&& e.span == d.span
                    &&& e.kind == emitted_kind(d.kind)
                    &&& e.message@ == lexer_message(
                        d,
                        encode_utf8(ctx.registry.spec_sources()[d.span.src_id.0 as int].data@),
                    )
                },
    {
        let mut data_ctx = ctx;
        let mut i: usize = 0;
        while i < self.data.len()
            invariant
                data_ctx == ctx,
                ctx.registry.wf(),
                i <= self.data@.len(),
                out@.len() == old(out)@.len() + i,
                forall|j: int| #![trigger out@[j]] 0 <= j < old(out)@.len() ==> out@[j] == old(out)@[j],
                forall|j: int|
                    #![trigger self.spec_data()[j]]
                    0 <= j < self.spec_data().len() ==> {
                        let d = self.spec_data()[j];
                        &&& d.span.src_id.spec_is_valid()
                        &&& (d.span.src_id.0 as int) < ctx.registry.spec_sources().len()
                        &&& message_writable(
                            d,
                            encode_utf8(ctx.registry.spec_sources()[d.span.src_id.0 as int].data@),
                        )
                    },
                forall|j: int|
                    #![trigger self.spec_data()[j]]
                    0 <= j < i ==> {
                        let d = self.spec_data()[j];
                        let e = out@[old(out)@.len() + j];
                        &&& e.span == d.span
                        &&& e.kind == emitted_kind(d.kind)
                        &&& e.message@ == lexer_message(
                            d,
                            encode_utf8(ctx.registry.spec_sources()[d.span.src_id.0 as int].data@),
                        )
                    },
            decreases self.data@.len() - i,
        {
            let ghost d = self.spec_data()[i as int];
            let diag = self.data[i].emit(&mut data_ctx);
            out.push(diag);
            i = i + 1;
        }
    }

    /// Whether an error has been added.
    pub fn error_occurred(&self) -> (res: bool)
        ensures
            res == self.spec_errored(),
    {
        self.errored
    }
}

} // verus!
