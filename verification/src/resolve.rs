use vstd::prelude::*;

verus! {

/// The context a name is resolved in.
#[derive(Debug, Clone, Copy)]
pub enum ResolutionCtx {
    /// The ordinary context.
    Default,
    /// Inside an `extend` block.
    Extension,
}

/// Whether the collector is at the top level of a petal or inside a body.
#[derive(Debug, Clone, Copy, PartialEq, Eq, Structural)]
pub enum CollectorLevel {
    Top,
    Local,
}

/// What a name that resolution refers to is.
#[derive(Debug, Clone, Copy, PartialEq, Eq, Hash, Structural)]
pub enum SymbolKind {
    Item,
    AssocItem,
    Field,
}

impl SymbolKind {
    /// The words that name this kind in messages.
    pub fn text(&self) -> (res: &'static str)
        ensures
            res@ == match self {
                SymbolKind::Item => "item"@,
                SymbolKind::AssocItem => "associated item"@,
                SymbolKind::Field => "field"@,
            },
    {
        match self {
            SymbolKind::Item => "item",
            SymbolKind::AssocItem => "associated item",
            SymbolKind::Field => "field",
        }
    }
}

} // verus!
