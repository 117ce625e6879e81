use vstd::prelude::*;
use vstd::utf8::{encode_utf8, is_char_boundary};

use crate::span::Span;

verus! {

/// The keyword, if any, that an identifier token spells.
#[derive(Debug, Clone, Copy, PartialEq, Eq, Hash, Structural)]
pub enum TokenIdentKind {
    Normal,
    Pub,
    Petal,
    Struct,
    Fn,
    Let,
    Mut,
    As,
    Super,
    Spathe,
    Ret,
    Refer,
    Proto,
    Pass,
    If,
    Else,
    Extend,
}

/// The kind of a token.
#[derive(Debug, Clone, Copy, Hash, PartialEq, Eq, Structural)]
pub enum TokenKind {
    Int { base: u8 },
    Float { base: u8 },
    Bool,
    Char { terminated: bool },
    String { terminated: bool },
    Ident(TokenIdentKind),
    MacroIdent,
    Let,
    // Operators
    Plus,
    PlusPlus,
    PlusEq,
    Minus,
    MinusMinus,
    MinusEq,
    MinusGreater,
    Star,
    StarEq,
    Slash,
    SlashEq,
    Percent,
    PercentEq,
    Caret,
    CaretCaret,
    Eq,
    EqEq,
    NotEq,
    Bang,
    BangEq,
    Not,
    Tilde,
    Less,
    LessLess,
    LessEq,
    LessMinus,
    Greater,
    GreaterGreater,
    GreaterEq,
    Ampersand,
    AmpersandAmpersand,
    Pipe,
    PipePipe,
    // Delimiters
    Comma,
    SemiColon,
    Colon,
    ColonColon,
    Dot,
    LeftParen,
    RightParen,
    LeftBrace,
    RightBrace,
    LeftBracket,
    RightBracket,
    // Miscellaneous
    LnFeed,
    DocComment,
    Invalid,
    Eos,
    Eof,
}

impl Default for TokenKind {
    fn default() -> (res: Self)
        ensures
            res == TokenKind::Invalid,
    {
        TokenKind::Invalid
    }
}

/// The text that names a token kind in messages.
pub open spec fn spec_kind_text(kind: TokenKind) -> Seq<char> {
    match kind {
        TokenKind::Int { .. } => "int"@,
        TokenKind::Float { .. } => "float"@,
        TokenKind::Bool => "bool"@,
        TokenKind::Char { .. } => "char"@,
        TokenKind::String { .. } => "string"@,
        TokenKind::Ident(..) => "ident"@,
        TokenKind::Let => "let"@,
        TokenKind::Plus => "+"@,
        TokenKind::PlusPlus => "++"@,
        TokenKind::Minus => "-"@,
        TokenKind::Star => "*"@,
        TokenKind::Slash => "/"@,
        TokenKind::Percent => "%"@,
        TokenKind::Eq => "="@,
        TokenKind::EqEq => "=="@,
        TokenKind::NotEq => "!="@,
        TokenKind::Less => "<"@,
        TokenKind::Greater => ">"@,
        TokenKind::LessEq => "<="@,
        TokenKind::GreaterEq => ">="@,
        TokenKind::Ampersand => "&"@,
        TokenKind::AmpersandAmpersand => "&&"@,
        TokenKind::Pipe => "|"@,
        TokenKind::PipePipe => "||"@,
        TokenKind::Not => "!"@,
        TokenKind::Comma => ","@,
        TokenKind::SemiColon => ";"@,
        TokenKind::Colon => ":"@,
        TokenKind::ColonColon => "::"@,
        TokenKind::Dot => "."@,
        TokenKind::LeftParen => "("@,
        TokenKind::RightParen => ")"@,
        TokenKind::LeftBrace => "{"@,
        TokenKind::RightBrace => "}"@,
        TokenKind::LeftBracket => "["@,
        TokenKind::RightBracket => "]"@,
        TokenKind::LnFeed => "\\n"@,
        TokenKind::DocComment => "// doc-comment"@,
        TokenKind::Invalid => "Invalid"@,
        TokenKind::Eof => "EOF"@,
        _ => "Unknown"@,
    }
}

impl TokenKind {
    /// The text that names this kind in messages (`"int"`, `"+"`, `"EOF"`, ...);
    /// kinds without a name of their own give `"Unknown"`.
    pub fn to_text(&self) -> (res: &'static str)
        ensures
            res@ == spec_kind_text(*self),
    {
        match self {
            TokenKind::Int { .. } => "int",
            TokenKind::Float { .. } => "float",
            TokenKind::Bool => "bool",
            TokenKind::Char { .. } => "char",
            TokenKind::String { .. } => "string",
            TokenKind::Ident(..) => "ident",
            TokenKind::Let => "let",
            TokenKind::Plus => "+",
            TokenKind::PlusPlus => "++",
            TokenKind::Minus => "-",
            TokenKind::Star => "*",
            TokenKind::Slash => "/",
            TokenKind::Percent => "%",
            TokenKind::Eq => "=",
            TokenKind::EqEq => "==",
            TokenKind::NotEq => "!=",
            TokenKind::Less => "<",
            TokenKind::Greater => ">",
            TokenKind::LessEq => "<=",
            TokenKind::GreaterEq => ">=",
            TokenKind::Ampersand => "&",
            TokenKind::AmpersandAmpersand => "&&",
            TokenKind::Pipe => "|",
            TokenKind::PipePipe => "||",
            TokenKind::Not => "!",
            TokenKind::Comma => ",",
            TokenKind::SemiColon => ";",
            TokenKind::Colon => ":",
            TokenKind::ColonColon => "::",
            TokenKind::Dot => ".",
            TokenKind::LeftParen => "(",
            TokenKind::RightParen => ")",
            TokenKind::LeftBrace => "{",
            TokenKind::RightBrace => "}",
            TokenKind::LeftBracket => "[",
            TokenKind::RightBracket => "]",
            TokenKind::LnFeed => "\\n",
            TokenKind::DocComment => "// doc-comment",
            TokenKind::Invalid => "Invalid",
            TokenKind::Eof => "EOF",
            _ => "Unknown",
        }
    }
}

/// A token: its kind and the bytes of the source it covers.
#[derive(Debug, Clone, Copy)]
pub struct Token {
    pub kind: TokenKind,
    pub span: Span,
}

impl Token {
    /// The token of kind `kind` over `span`.
    pub open spec fn spec_new(kind: TokenKind, span: Span) -> Token {
        Token { kind, span }
    }

    pub fn new(kind: TokenKind, span: Span) -> (res: Self)
        ensures
            res.kind == kind,
            res.span == span,
    {
        Token { kind, span }
    }

    /// The number of bytes the token covers.
    pub fn len(&self) -> (res: usize)
        ensures
            res == self.span.len,
    {
        self.span.len as usize
    }

    /// An invalid token over `span`.
    #[allow(non_snake_case)]
    pub fn Invalid(span: Span) -> (res: Self)
        ensures
            res.kind == TokenKind::Invalid,
            res.span == span,
    {
        Self::new(TokenKind::Invalid, span)
    }

    /// The text of `source` that the token covers.
    pub fn view<'a>(&self, source: &'a String) -> (res: &'a str)
        requires
            self.span.offset + self.span.len <= encode_utf8(source@).len(),
            is_char_boundary(encode_utf8(source@), self.span.offset as int),
            is_char_boundary(
                encode_utf8(source@).subrange(self.span.offset as int, encode_utf8(source@).len() as int),
                self.span.len as int,
            ),
        ensures
            encode_utf8(res@) == encode_utf8(source@).subrange(
                self.span.offset as int,
                self.span.offset + self.span.len,
            ),
    {
        let s = source.as_str();
        let (_, rest) = s.split_at(self.span.offset as usize);
        let (v, _) = rest.split_at(self.span.len as usize);
        assert(encode_utf8(v@) =~= encode_utf8(source@).subrange(
            self.span.offset as int,
            self.span.offset + self.span.len,
        ));
        v
    }
}

/// A token, or a delimited collection of token graphs: an opening token, what
/// follows it, and (unless `eof`) the closing token.
#[derive(Debug)]
pub enum TokenGraph {
    Node(Token),
    Collection { data: Vec<TokenGraph>, eof: bool },
}

impl TokenGraph {
    /// The token of a node; a collection has none.
    pub fn underlying(&self) -> (res: Option<&Token>)
        ensures
            match self {
                TokenGraph::Node(t) => res == Some(t),
                TokenGraph::Collection { .. } => res is None,
            },
    {
        match self {
            TokenGraph::Node(t) => Some(t),
            TokenGraph::Collection { .. } => None,
        }
    }

    /// The graph as a mathematical tree.
    pub open spec fn view_graph(&self) -> GraphView
        decreases self,
    {
        match self {
            TokenGraph::Node(t) => GraphView::Node(*t),
            TokenGraph::Collection { data, eof } => GraphView::Collection {
                data: views_of(data@),
                eof: *eof,
            },
        }
    }
}

/// The trees of a sequence of token graphs.
pub open spec fn views_of(s: Seq<TokenGraph>) -> Seq<GraphView>
    decreases s,
{
    if s.len() == 0 {
        Seq::empty()
    } else {
        views_of(s.drop_last()).push(s.last().view_graph())
    }
}

/// The tree of a graph that may be absent.
pub open spec fn opt_view(g: Option<TokenGraph>) -> Option<GraphView> {
    match g {
        Some(t) => Some(t.view_graph()),
        None => None,
    }
}

/// The trees of a sequence of graphs are the trees of its graphs, one by one.
pub proof fn lemma_views_of(s: Seq<TokenGraph>)
    ensures
        views_of(s).len() == s.len(),
        forall|i: int| 0 <= i < s.len() ==> #[trigger] views_of(s)[i] == s[i].view_graph(),
    decreases s.len(),
{
    if s.len() > 0 {
        lemma_views_of(s.drop_last());
    }
}

/// Pushing a graph pushes its tree; dropping the last graph drops its tree.
pub proof fn lemma_views_of_push(s: Seq<TokenGraph>, g: TokenGraph)
    ensures
        views_of(s.push(g)) == views_of(s).push(g.view_graph()),
        s.len() > 0 ==> views_of(s.drop_last()) == views_of(s).drop_last(),
{
    assert(s.push(g).drop_last() =~= s);
    if s.len() > 0 {
        assert(views_of(s).drop_last() =~= views_of(s.drop_last()));
    }
}

/// A token graph as a mathematical tree.
pub enum GraphView {
    Node(Token),
    Collection { data: Seq<GraphView>, eof: bool },
}

/// The token graphs of a source.
#[derive(Debug)]
pub struct TokenStream {
    pub data: Vec<TokenGraph>,
}

impl TokenStream {
    pub fn new(data: Vec<TokenGraph>) -> (res: Self)
        ensures
            res.data@ == data@,
    {
        TokenStream { data }
    }
}

} // verus!
