use openedit_ui::shortcuts::{
    global_shortcut, next_tab, panel_to_close, prev_tab, AppKey, OpenPanels, Panel, Shortcut,
};

#[test]
fn window_shortcuts() {
    assert_eq!(global_shortcut(AppKey::S, true, false), Some(Shortcut::SaveFile));
    assert_eq!(global_shortcut(AppKey::S, true, true), Some(Shortcut::SaveAs));
    assert_eq!(global_shortcut(AppKey::S, false, false), None);
    assert_eq!(global_shortcut(AppKey::P, true, true), Some(Shortcut::ToggleCommandPalette));
    assert_eq!(global_shortcut(AppKey::P, true, false), Some(Shortcut::ToggleGoToFile));
    assert_eq!(global_shortcut(AppKey::F12, false, true), Some(Shortcut::FindReferences));
    assert_eq!(global_shortcut(AppKey::F12, true, false), Some(Shortcut::GoToDefinition));
    assert_eq!(global_shortcut(AppKey::F2, true, true), Some(Shortcut::ToggleBookmark));
    assert_eq!(global_shortcut(AppKey::F2, false, true), Some(Shortcut::PrevBookmark));
    assert_eq!(global_shortcut(AppKey::F2, false, false), Some(Shortcut::NextBookmark));
    assert_eq!(global_shortcut(AppKey::Equals, true, false), Some(Shortcut::ZoomIn));
    assert_eq!(global_shortcut(AppKey::Tab, true, true), Some(Shortcut::PrevTab));
    assert_eq!(global_shortcut(AppKey::F7, false, false), Some(Shortcut::DiffNextHunk));
    assert_eq!(global_shortcut(AppKey::Escape, true, true), Some(Shortcut::CloseTopPanel));
    assert_eq!(global_shortcut(AppKey::Other, true, true), None);
}

fn closed() -> OpenPanels {
    OpenPanels {
        rename_dialog: false,
        references: false,
        diff_view: false,
        go_to_symbol: false,
        go_to_file: false,
        go_to_line: false,
        search: false,
        find_in_files: false,
    }
}

#[test]
fn escape_closes_the_top_panel() {
    assert_eq!(panel_to_close(closed()), None);
    let mut p = closed();
    p.search = true;
    p.find_in_files = true;
    assert_eq!(panel_to_close(p), Some(Panel::Search));
    p.references = true;
    assert_eq!(panel_to_close(p), Some(Panel::References));
}

#[test]
fn tab_cycling() {
    assert_eq!(next_tab(0, 3), 1);
    assert_eq!(next_tab(2, 3), 0);
    assert_eq!(prev_tab(0, 3), 2);
    assert_eq!(prev_tab(next_tab(2, 3), 3), 2);
}
