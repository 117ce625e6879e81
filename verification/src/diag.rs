use vstd::prelude::*;

use crate::span::Span;

verus! {

/// The severity of a diagnostic ready to be reported; an error carries its code.
#[derive(Debug, Clone, Copy, PartialEq, Eq, Structural)]
pub enum DiagKind {
    Info,
    Warning,
    Error(u16),
}

/// A note attached to a diagnostic: another place in the sources, and what
/// to say of it.
#[derive(Debug)]
pub struct DiagNote {
    pub span: Span,
    pub message: String,
}

/// A diagnostic ready to be reported: its severity, where, its message, an
/// optional text shown at its span, and its notes in the order they were
/// attached.
#[derive(Debug)]
pub struct Diag {
    pub kind: DiagKind,
    pub span: Span,
    pub message: String,
    pub extra: Option<String>,
    pub notes: Vec<DiagNote>,
}

/// The text of an optional string.
pub open spec fn opt_text(s: Option<String>) -> Option<Seq<char>> {
    match s {
        Some(t) => Some(t@),
        None => None,
    }
}

impl Diag {
    /// A diagnostic without extra text or notes.
    pub fn new(kind: DiagKind, span: Span, message: String) -> (res: Self)
        ensures
            res.kind == kind,
            res.span == span,
            res.message@ == message@,
            res.extra is None,
            res.notes@.len() == 0,
    {
        Diag { kind, span, message, extra: None, notes: Vec::new() }
    }

    /// A diagnostic with the extra text `extra`, and no notes.
    pub fn new_with_extra(kind: DiagKind, span: Span, message: String, extra: Option<String>) -> (res: Self)
        ensures
            res.kind == kind,
            res.span == span,
            res.message@ == message@,
            opt_text(res.extra) == opt_text(extra),
            res.notes@.len() == 0,
    {
        Diag { kind, span, message, extra, notes: Vec::new() }
    }

    /// Attaches a note about `span` after the notes already there.
    pub fn note(&mut self, span: Span, message: String)
        ensures
            final(self).kind == old(self).kind,
            final(self).span == old(self).span,
            final(self).message@ == old(self).message@,
            opt_text(final(self).extra) == opt_text(old(self).extra),
            final(self).notes@.len() == old(self).notes@.len() + 1,
            forall|i: int|
                0 <= i < old(self).notes@.len() ==> #[trigger] final(self).notes@[i] == old(
                    self,
                ).notes@[i],
            final(self).notes@.last().span == span,
            final(self).notes@.last().message@ == message@,
    {
        self.notes.push(DiagNote { span, message });
    }
}

} // verus!
