//! The Go to Symbol dialog: filtering the outline and choosing a symbol with
//! the keyboard.

use vstd::prelude::*;
use crate::syntax::{filter_symbols, symbol_filter, Symbol};

verus! {

/// State for the Go to Symbol dialog.
pub struct GoToSymbolState {
    /// Whether the dialog is open.
    pub open: bool,
    /// Current search query.
    pub query: String,
    /// Currently selected index in the filtered list.
    pub selected: usize,
    /// All symbols extracted from the current document.
    pub symbols: Vec<Symbol>,
}

impl Default for GoToSymbolState {
    fn default() -> (r: GoToSymbolState)
        ensures
            !r.open,
            r.query@.len() == 0,
            r.selected == 0,
            r.symbols@.len() == 0,
    {
        GoToSymbolState { open: false, query: String::new(), selected: 0, symbols: Vec::new() }
    }
}

impl GoToSymbolState {
    /// The listed symbols (by index) for the current query.
    pub fn filtered(&self) -> (r: Vec<usize>)
        ensures
            r@ == symbol_filter(self.query@, self.symbols@),
    {
        filter_symbols(self.query.as_str(), self.symbols.as_slice())
    }

    /// Keeps the selection within a list of `count` symbols (0 when empty).
    pub fn clamp_selection(&mut self, count: usize)
        ensures
            final(self).selected == if old(self).selected >= count {
                if count == 0 {
                    0
                } else {
                    (count - 1) as usize
                }
            } else {
                old(self).selected
            },
            final(self).open == old(self).open,
            final(self).query == old(self).query,
            final(self).symbols == old(self).symbols,
    {
        if self.selected >= count {
            self.selected = count.saturating_sub(1);
        }
    }

    /// Handles the dialog's keys for one frame over the listed symbols:
    /// Escape closes it; Up and Down move the selection; Enter closes it and
    /// returns the selected symbol's line; otherwise a change of the query
    /// resets the selection.
    pub fn handle_keys(
        &mut self,
        filtered: &[usize],
        escape: bool,
        up: bool,
        down: bool,
        enter: bool,
        query_changed: bool,
    ) -> (r: Option<usize>)
        requires
            filtered@.len() == 0 || old(self).selected < filtered@.len(),
            forall|k: int| 0 <= k < filtered@.len() ==> #[trigger] filtered@[k] < old(self).symbols@.len(),
        ensures
            escape ==> r is None && !final(self).open && final(self).selected == old(self).selected,
            !escape ==> ({
                let s1 = if up && old(self).selected > 0 {
                    old(self).selected - 1
                } else {
                    old(self).selected as int
                };
                let s2 = if down && s1 + 1 < filtered@.len() {
                    s1 + 1
                } else {
                    s1
                };
                if enter && filtered@.len() > 0 {
                    &&& r == Some(old(self).symbols@[filtered@[s2] as int].line)
                    &&& !final(self).open
                    &&& final(self).selected == s2
                } else {
                    &&& r is None
                    &&& final(self).open == old(self).open
                    &&& final(self).selected == if query_changed {
                        0
                    } else {
                        s2
                    }
                }
            }),
            final(self).query == old(self).query,
            final(self).symbols == old(self).symbols,
    {
        if escape {
            self.open = false;
            return None;
        }
        if up && self.selected > 0 {
            self.selected -= 1;
        }
        if down && filtered.len() > 0 && self.selected < filtered.len() - 1 {
            self.selected += 1;
        }
        if enter && filtered.len() > 0 {
            self.open = false;
            return Some(self.symbols[filtered[self.selected]].line);
        }
        if query_changed {
            self.selected = 0;
        }
        None
    }
}

} // verus!
