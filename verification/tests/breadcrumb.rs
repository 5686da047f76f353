use openedit_ui::breadcrumb::{breadcrumb_candidates, build_breadcrumbs, crumb_color, BreadcrumbState};
use openedit_ui::syntax::{Symbol, SymbolKind};

fn sym(name: &str, kind: SymbolKind, line: usize) -> Symbol {
    Symbol { name: name.to_string(), kind, line }
}

#[test]
fn breadcrumb_state_default_visible() {
    assert!(BreadcrumbState::default().visible);
}

#[test]
fn breadcrumbs_keep_containers_by_line() {
    let symbols = vec![
        sym("outer", SymbolKind::Module, 0),
        sym("helper", SymbolKind::Function, 2),
        sym("Point", SymbolKind::Struct, 5),
        sym("Shape", SymbolKind::Interface, 3),
        sym("Later", SymbolKind::Class, 20),
    ];
    let crumbs = build_breadcrumbs(&symbols, 10);
    let names: Vec<&str> = crumbs.iter().map(|s| s.name.as_str()).collect();
    // the interface is not first, so it is left out
    assert_eq!(names, vec!["outer", "Point"]);
    assert_eq!(breadcrumb_candidates(&symbols, 10), vec![0, 3, 2]);
}

#[test]
fn breadcrumbs_first_interface_and_same_line_replacement() {
    let symbols = vec![
        sym("Trait", SymbolKind::Interface, 1),
        sym("A", SymbolKind::Struct, 4),
        sym("B", SymbolKind::Enum, 4),
    ];
    let crumbs = build_breadcrumbs(&symbols, 4);
    let names: Vec<&str> = crumbs.iter().map(|s| s.name.as_str()).collect();
    assert_eq!(names, vec!["Trait", "B"]);
    assert!(build_breadcrumbs(&symbols, 0).is_empty());
    assert!(build_breadcrumbs(&[], 7).is_empty());
}

#[test]
fn crumb_colors() {
    let c = crumb_color(SymbolKind::Method).expect("color");
    assert_eq!((c.r, c.g, c.b, c.a), (100, 255, 150, 255));
    assert!(crumb_color(SymbolKind::Variable).is_none());
    assert!(crumb_color(SymbolKind::Module).is_some());
}
