//! What name resolution reports of a module, as far as the language
//! server reads it.
use vstd::prelude::*;

use crate::ast::Span;

verus! {

/// A use of a name: where it is written, what it is, and the symbol it
/// resolves to, if any.  `source` is the source the reference was found
/// in, where several sources were resolved together.
#[derive(Debug)]
pub struct Reference {
    pub name: String,
    pub span: Span,
    pub resolved_to: Option<usize>,
    pub source: Option<usize>,
}

/// A declared symbol and the span of its definition, where it has one.
#[derive(Debug)]
pub struct Symbol {
    pub definition_span: Option<Span>,
}

/// The outcome of resolving names: the references met, the symbols
/// declared (indexed by symbol id), and for each symbol the source that
/// declared it.
#[derive(Debug)]
pub struct Resolution {
    pub references: Vec<Reference>,
    pub symbols: Vec<Symbol>,
    pub symbol_sources: Vec<Option<usize>>,
}

/// The definition span of symbol `id`, where the symbol exists and has one.
pub open spec fn symbol_definition(symbols: Seq<Symbol>, id: int) -> Option<Span> {
    if 0 <= id < symbols.len() {
        symbols[id].definition_span
    } else {
        None
    }
}

/// Looks up the definition span of symbol `id`.
pub fn definition_of(symbols: &Vec<Symbol>, id: usize) -> (span: Option<Span>)
    ensures
        span == symbol_definition(symbols@, id as int),
{
    if id < symbols.len() {
        symbols[id].definition_span
    } else {
        None
    }
}

} // verus!
