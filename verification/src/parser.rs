use vstd::prelude::*;

use crate::source::SourceRegistry;
use crate::token::{TokenIdentKind, TokenKind};

verus! {

/// What the parser is parsing, where that changes how it parses.
#[derive(Debug, Clone, Copy, PartialEq, Eq, Structural)]
pub enum ParserCtx {
    Normal,
    /// The condition of an `if`: a struct literal is parsed only inside `()`,
    /// to avoid ambiguity with the block.
    IfCond,
}

/// What may end a statement.
#[derive(Debug, Clone, Copy)]
pub enum ParserTerminatorKind {
    LnFeed,
    SemiColon,
    Both,
}

/// Where a path stands.
#[derive(Debug, Clone, Copy, PartialEq, Eq, Structural)]
pub enum PathKind {
    /// A path whose place is not told.
    Unspecified,
    Expr,
    Ty,
}

/// The types that start with an identifier.
#[derive(Debug, Clone, Copy, PartialEq, Eq, Structural)]
pub enum IdentLeadTyKind {
    /// A path type, such as `std::vec` or `test`.
    Path,
    /// A function type, such as `fn (i32) -> i32`; `fn` not followed by `(`
    /// is no function type.
    Fn,
}

/// What the registry of sources is, for rendering parser diagnostics.
#[derive(Debug, Clone, Copy)]
pub struct ParserDiagDataCtx<'s> {
    pub registry: &'s SourceRegistry,
}

impl<'s> ParserDiagDataCtx<'s> {
    pub fn new(registry: &'s SourceRegistry) -> (res: Self)
        ensures
            res.registry == registry,
    {
        ParserDiagDataCtx { registry }
    }
}

/// Whether the parser's diagnostics are in step with the text: after an error
/// the parser is in disarray, and further errors are dropped until it
/// synchronizes again.
#[derive(Debug, Clone, Copy, PartialEq, Eq, Structural)]
pub enum ParserDiagCtxState {
    Synchronized,
    Disarray,
}

/// The binding powers of infix operators and what follows an expression,
/// weakest first.
#[derive(Debug, Clone, Copy, PartialEq, Eq, Structural)]
pub enum ExprInfixBindingPower {
    Default,
    Assign,
    Logical,
    Rel,
    Bitwise,
    BitShift,
    Add,
    Mul,
    Exp,
    Cast,
    Unary,
    FnCall,
    FieldAccess,
    Primary,
}

/// The numeric power of `p`: its position in the declaration, from 0.
pub open spec fn spec_power(p: ExprInfixBindingPower) -> u8 {
    match p {
        ExprInfixBindingPower::Default => 0,
        ExprInfixBindingPower::Assign => 1,
        ExprInfixBindingPower::Logical => 2,
        ExprInfixBindingPower::Rel => 3,
        ExprInfixBindingPower::Bitwise => 4,
        ExprInfixBindingPower::BitShift => 5,
        ExprInfixBindingPower::Add => 6,
        ExprInfixBindingPower::Mul => 7,
        ExprInfixBindingPower::Exp => 8,
        ExprInfixBindingPower::Cast => 9,
        ExprInfixBindingPower::Unary => 10,
        ExprInfixBindingPower::FnCall => 11,
        ExprInfixBindingPower::FieldAccess => 12,
        ExprInfixBindingPower::Primary => 13,
    }
}

impl ExprInfixBindingPower {
    /// The numeric power: the position in the declaration, from 0.
    pub fn power(&self) -> (res: u8)
        ensures
            res == spec_power(*self),
    {
        match self {
            ExprInfixBindingPower::Default => 0,
            ExprInfixBindingPower::Assign => 1,
            ExprInfixBindingPower::Logical => 2,
            ExprInfixBindingPower::Rel => 3,
            ExprInfixBindingPower::Bitwise => 4,
            ExprInfixBindingPower::BitShift => 5,
            ExprInfixBindingPower::Add => 6,
            ExprInfixBindingPower::Mul => 7,
            ExprInfixBindingPower::Exp => 8,
            ExprInfixBindingPower::Cast => 9,
            ExprInfixBindingPower::Unary => 10,
            ExprInfixBindingPower::FnCall => 11,
            ExprInfixBindingPower::FieldAccess => 12,
            ExprInfixBindingPower::Primary => 13,
        }
    }
}

/// The left and right binding powers of the token that follows an expression,
/// or `None` for a token that continues no expression.
pub open spec fn spec_binding_power(kind: TokenKind) -> Option<(u8, u8)> {
    let p = |b: ExprInfixBindingPower| Some((spec_power(b), spec_power(b)));
    match kind {
        TokenKind::LeftBrace => p(ExprInfixBindingPower::Default),
        TokenKind::PlusEq
        | TokenKind::MinusEq
        | TokenKind::StarEq
        | TokenKind::SlashEq
        | TokenKind::PercentEq => p(ExprInfixBindingPower::Assign),
        TokenKind::AmpersandAmpersand | TokenKind::PipePipe => p(ExprInfixBindingPower::Logical),
        TokenKind::Eq
        | TokenKind::BangEq
        | TokenKind::Less
        | TokenKind::LessEq
        | TokenKind::Greater
        | TokenKind::GreaterEq => p(ExprInfixBindingPower::Rel),
        TokenKind::Tilde | TokenKind::Ampersand | TokenKind::Pipe => p(
            ExprInfixBindingPower::Bitwise,
        ),
        TokenKind::LessLess | TokenKind::GreaterGreater => p(ExprInfixBindingPower::BitShift),
        TokenKind::Plus | TokenKind::Minus => p(ExprInfixBindingPower::Add),
        TokenKind::Star | TokenKind::Slash | TokenKind::Percent => p(ExprInfixBindingPower::Mul),
        TokenKind::CaretCaret => p(ExprInfixBindingPower::Exp),
        TokenKind::Ident(TokenIdentKind::As) => p(ExprInfixBindingPower::Cast),
        TokenKind::Bang => p(ExprInfixBindingPower::Unary),
        TokenKind::LeftParen => Some(
            (spec_power(ExprInfixBindingPower::FnCall), spec_power(ExprInfixBindingPower::Default)),
        ),
        TokenKind::Dot => p(ExprInfixBindingPower::FieldAccess),
        TokenKind::Int { .. }
        | TokenKind::Float { .. }
        | TokenKind::Bool
        | TokenKind::Char { .. }
        | TokenKind::String { .. }
        | TokenKind::Ident(..) => p(ExprInfixBindingPower::Primary),
        _ => None,
    }
}

/// The left and right binding powers of the token that follows an expression,
/// or `None` for a token that continues no expression.
pub fn expr_infix_binding_power_of(kind: TokenKind) -> (res: Option<(u8, u8)>)
    ensures
        res == spec_binding_power(kind),
{
    let b = match kind {
        TokenKind::LeftBrace => ExprInfixBindingPower::Default,
        TokenKind::PlusEq
        | TokenKind::MinusEq
        | TokenKind::StarEq
        | TokenKind::SlashEq
        | TokenKind::PercentEq => ExprInfixBindingPower::Assign,
        TokenKind::AmpersandAmpersand | TokenKind::PipePipe => ExprInfixBindingPower::Logical,
        TokenKind::Eq
        | TokenKind::BangEq
        | TokenKind::Less
        | TokenKind::LessEq
        | TokenKind::Greater
        | TokenKind::GreaterEq => ExprInfixBindingPower::Rel,
        TokenKind::Tilde | TokenKind::Ampersand | TokenKind::Pipe => ExprInfixBindingPower::Bitwise,
        TokenKind::LessLess | TokenKind::GreaterGreater => ExprInfixBindingPower::BitShift,
        TokenKind::Plus | TokenKind::Minus => ExprInfixBindingPower::Add,
        TokenKind::Star | TokenKind::Slash | TokenKind::Percent => ExprInfixBindingPower::Mul,
        TokenKind::CaretCaret => ExprInfixBindingPower::Exp,
        TokenKind::Ident(TokenIdentKind::As) => ExprInfixBindingPower::Cast,
        TokenKind::Bang => ExprInfixBindingPower::Unary,
        TokenKind::LeftParen => {
            return Some(
                (ExprInfixBindingPower::FnCall.power(), ExprInfixBindingPower::Default.power()),
            );
        },
        TokenKind::Dot => ExprInfixBindingPower::FieldAccess,
        TokenKind::Int { .. }
        | TokenKind::Float { .. }
        | TokenKind::Bool
        | TokenKind::Char { .. }
        | TokenKind::String { .. }
        | TokenKind::Ident(..) => ExprInfixBindingPower::Primary,
        _ => {
            return None;
        },
    };
    Some((b.power(), b.power()))
}

} // verus!
