//! The function list panel: the outline's symbols, filtered by a query.

use vstd::prelude::*;
use crate::color::Rgba;
use crate::syntax::{filter_symbols, symbol_filter, Symbol};
use crate::text::str_eq;

verus! {

/// State for the function list panel.
pub struct FunctionListState {
    /// Whether the panel is visible.
    pub visible: bool,
    /// Cached symbols for the current document.
    pub symbols: Vec<Symbol>,
    /// Filter query.
    pub filter: String,
}

impl Default for FunctionListState {
    fn default() -> (r: FunctionListState)
        ensures
            !r.visible,
            r.symbols@.len() == 0,
            r.filter@.len() == 0,
    {
        FunctionListState { visible: false, symbols: Vec::new(), filter: String::new() }
    }
}

impl FunctionListState {
    /// The listed symbols (by index) for the current filter.
    pub fn filtered(&self) -> (r: Vec<usize>)
        ensures
            r@ == symbol_filter(self.filter@, self.symbols@),
    {
        filter_symbols(self.filter.as_str(), self.symbols.as_slice())
    }

    /// The note shown instead of an empty list: none when some symbol is
    /// listed.
    pub fn empty_note(&self) -> (r: Option<&'static str>)
        ensures
            symbol_filter(self.filter@, self.symbols@).len() > 0 ==> r is None,
            symbol_filter(self.filter@, self.symbols@).len() == 0 ==> (r matches Some(t) && t@
                == if self.symbols@.len() == 0 {
                "No symbols found."@
            } else {
                "No matching symbols."@
            }),
    {
        let listed = self.filtered();
        if listed.len() > 0 {
            None
        } else if self.symbols.len() == 0 {
            Some("No symbols found.")
        } else {
            Some("No matching symbols.")
        }
    }
}

/// The tint of a symbol kind label.
pub open spec fn kind_tint(label: Seq<char>) -> Rgba {
    if label == "fn"@ || label == "method"@ {
        Rgba { r: 86, g: 156, b: 214, a: 255 }
    } else if label == "class"@ || label == "struct"@ {
        Rgba { r: 78, g: 201, b: 176, a: 255 }
    } else if label == "enum"@ {
        Rgba { r: 184, g: 215, b: 163, a: 255 }
    } else if label == "trait"@ {
        Rgba { r: 197, g: 134, b: 192, a: 255 }
    } else if label == "mod"@ {
        Rgba { r: 220, g: 220, b: 170, a: 255 }
    } else if label == "const"@ || label == "var"@ {
        Rgba { r: 156, g: 220, b: 254, a: 255 }
    } else {
        Rgba { r: 180, g: 180, b: 180, a: 255 }
    }
}

/// Different tints for the kinds: blue for functions, teal for types, green
/// for enums, purple for traits, yellow for modules, light blue for values,
/// gray otherwise.
pub fn kind_color(kind_label: &str) -> (r: Rgba)
    ensures
        r == kind_tint(kind_label@),
{
    if str_eq(kind_label, "fn") || str_eq(kind_label, "method") {
        Rgba::from_rgb(86, 156, 214)
    } else if str_eq(kind_label, "class") || str_eq(kind_label, "struct") {
        Rgba::from_rgb(78, 201, 176)
    } else if str_eq(kind_label, "enum") {
        Rgba::from_rgb(184, 215, 163)
    } else if str_eq(kind_label, "trait") {
        Rgba::from_rgb(197, 134, 192)
    } else if str_eq(kind_label, "mod") {
        Rgba::from_rgb(220, 220, 170)
    } else if str_eq(kind_label, "const") || str_eq(kind_label, "var") {
        Rgba::from_rgb(156, 220, 254)
    } else {
        Rgba::from_rgb(180, 180, 180)
    }
}

} // verus!
