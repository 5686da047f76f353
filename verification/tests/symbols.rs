use openedit_ui::color::Rgba;
use openedit_ui::function_list::{kind_color, FunctionListState};
use openedit_ui::go_to_symbol::GoToSymbolState;
use openedit_ui::syntax::{filter_symbols, Symbol, SymbolKind};

fn sym(name: &str, kind: SymbolKind, line: usize) -> Symbol {
    Symbol { name: name.to_string(), kind, line }
}

fn outline() -> Vec<Symbol> {
    vec![
        sym("parse_args", SymbolKind::Function, 3),
        sym("Config", SymbolKind::Struct, 10),
        sym("print_usage", SymbolKind::Function, 20),
    ]
}

#[test]
fn filter_symbols_by_name() {
    let s = outline();
    assert_eq!(filter_symbols("", &s), vec![0, 1, 2]);
    assert_eq!(filter_symbols("pa", &s), vec![0, 2]);
    assert_eq!(filter_symbols("PU", &s), vec![2]);
    assert_eq!(filter_symbols("zz", &s), Vec::<usize>::new());
    assert_eq!(SymbolKind::Interface.label(), "trait");
}

#[test]
fn function_list_notes_and_colors() {
    let mut st = FunctionListState::default();
    assert!(!st.visible);
    assert_eq!(st.empty_note(), Some("No symbols found."));
    st.symbols = outline();
    assert_eq!(st.empty_note(), None);
    st.filter = "qq".to_string();
    assert_eq!(st.empty_note(), Some("No matching symbols."));
    assert_eq!(st.filtered(), Vec::<usize>::new());
    assert_eq!(kind_color("fn"), Rgba::from_rgb(86, 156, 214));
    assert_eq!(kind_color("trait"), Rgba::from_rgb(197, 134, 192));
    assert_eq!(kind_color("other"), Rgba::from_rgb(180, 180, 180));
}

#[test]
fn go_to_symbol_keys() {
    let mut st = GoToSymbolState::default();
    st.open = true;
    st.symbols = outline();
    let f = st.filtered();
    assert_eq!(st.handle_keys(&f, false, false, true, false, false), None);
    assert_eq!(st.selected, 1);
    assert_eq!(st.handle_keys(&f, false, false, false, true, false), Some(10));
    assert!(!st.open);
    st.open = true;
    assert_eq!(st.handle_keys(&f, true, false, false, true, false), None);
    assert!(!st.open);
    st.selected = 7;
    st.clamp_selection(f.len());
    assert_eq!(st.selected, 2);
    st.query = "cfg".to_string();
    let f = st.filtered();
    assert_eq!(f, vec![1]);
    st.clamp_selection(f.len());
    assert_eq!(st.selected, 0);
}
