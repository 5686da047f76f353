use openedit_ui::config::{default_show_minimap, default_tab_size, default_theme, UiSection};

#[test]
fn ui_section_defaults() {
    let ui = UiSection::default();
    assert_eq!(ui.theme, "dark");
    assert!(ui.show_minimap);
    assert!(!ui.show_sidebar);
    assert_eq!(default_tab_size(), 4);
    assert_eq!(default_theme(), "dark");
    assert!(default_show_minimap());
}
