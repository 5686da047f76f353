//! The document outline's symbols as the editor panels see them.

use vstd::prelude::*;
use crate::text::{fuzzy_match, label_matches};

verus! {

/// The kind of a symbol of the document outline.
#[derive(Debug, Clone, Copy, PartialEq, Eq, Structural)]
pub enum SymbolKind {
    Function,
    Method,
    Class,
    Struct,
    Enum,
    Interface,
    Module,
    Constant,
    Variable,
}

/// A symbol of the document outline: its name, kind and 0-based line.
#[derive(Debug, Clone)]
pub struct Symbol {
    pub name: String,
    pub kind: SymbolKind,
    pub line: usize,
}

/// The short label of a symbol kind.
pub open spec fn kind_label_spec(k: SymbolKind) -> Seq<char> {
    match k {
        SymbolKind::Function => "fn"@,
        SymbolKind::Method => "method"@,
        SymbolKind::Class => "class"@,
        SymbolKind::Struct => "struct"@,
        SymbolKind::Enum => "enum"@,
        SymbolKind::Interface => "trait"@,
        SymbolKind::Module => "mod"@,
        SymbolKind::Constant => "const"@,
        SymbolKind::Variable => "var"@,
    }
}

impl SymbolKind {
    /// The short label shown beside a symbol.
    pub fn label(&self) -> (r: &'static str)
        ensures
            r@ == kind_label_spec(*self),
    {
        match self {
            SymbolKind::Function => "fn",
            SymbolKind::Method => "method",
            SymbolKind::Class => "class",
            SymbolKind::Struct => "struct",
            SymbolKind::Enum => "enum",
            SymbolKind::Interface => "trait",
            SymbolKind::Module => "mod",
            SymbolKind::Constant => "const",
            SymbolKind::Variable => "var",
        }
    }
}

/// The indices of the symbols whose names match `query` (all of them for an
/// empty query), in order.
pub open spec fn symbol_filter(query: Seq<char>, syms: Seq<Symbol>) -> Seq<usize>
    decreases syms.len(),
{
    if syms.len() == 0 {
        Seq::empty()
    } else {
        let rest = symbol_filter(query, syms.drop_last());
        if query.len() == 0 || label_matches(query, syms.last().name@) {
            rest.push((syms.len() - 1) as usize)
        } else {
            rest
        }
    }
}

/// The indices of the symbols whose names `query` matches, in order; all of
/// them when the query is empty.
pub fn filter_symbols(query: &str, symbols: &[Symbol]) -> (r: Vec<usize>)
    ensures
        r@ == symbol_filter(query@, symbols@),
{
    let empty_query = query.unicode_len() == 0;
    let mut out: Vec<usize> = Vec::new();
    let n = symbols.len();
    assert(symbols@.take(0) =~= Seq::<Symbol>::empty());
    for i in 0..n
        invariant
            n == symbols@.len(),
            empty_query == (query@.len() == 0),
            out@ == symbol_filter(query@, symbols@.take(i as int)),
    {
        let ghost tk = symbols@.take(i + 1);
        assert(tk.drop_last() =~= symbols@.take(i as int));
        if empty_query || fuzzy_match(query, symbols[i].name.as_str()) {
            out.push(i);
        }
    }
    assert(symbols@.take(n as int) =~= symbols@);
    out
}

} // verus!
