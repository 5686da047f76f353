use openedit_ui::builtin_plugins::PluginCommand;
use openedit_ui::command_palette::{all_commands, dynamic_commands, find_plugin_command, theme_command, Command, CommandPaletteState};
use openedit_ui::text::fuzzy_match;

#[test]
fn all_commands_starts_with_file_commands() {
    let cmds = all_commands();
    assert_eq!(cmds.len(), 130);
    assert_eq!(cmds[0].id, "file.new");
    assert_eq!(cmds[0].label, "New File");
    assert_eq!(cmds[0].shortcut, "Ctrl+N");
    assert!(cmds.iter().any(|c| c.id == "settings.language.fr" && c.label == "Language: Fran\u{00E7}ais"));
    // `edit.toggle_read_only` is listed twice (under two headings).
    let mut ids: Vec<&str> = cmds.iter().map(|c| c.id.as_str()).collect();
    ids.sort();
    ids.dedup();
    assert_eq!(ids.len(), 129);
}

#[test]
fn fuzzy_match_is_ordered_and_case_insensitive() {
    assert!(fuzzy_match("sv", "Save"));
    assert!(fuzzy_match("SAVE", "save as"));
    assert!(fuzzy_match("", "anything"));
    assert!(!fuzzy_match("vs", "Save"));
    assert!(!fuzzy_match("saves", "Save"));
}

#[test]
fn palette_default_and_filtering() {
    let mut st = CommandPaletteState::default();
    assert!(!st.open);
    assert_eq!(st.selected, 0);
    assert_eq!(st.filtered_commands().len(), 130);
    st.query = "new file".to_string();
    let f = st.filtered_commands();
    assert!(f.iter().any(|c| c.id == "file.new"));
    st.dynamic_commands.push(Command { id: "theme.mine".to_string(), label: "Theme: Mine".to_string(), shortcut: "" });
    st.query = "thmine".to_string();
    let f = st.filtered_commands();
    assert_eq!(f.len(), 1);
    assert_eq!(f[0].id, "theme.mine");
}

#[test]
fn palette_keys_and_clamp() {
    let mut st = CommandPaletteState::default();
    st.open = true;
    st.query = "save".to_string();
    let f = st.filtered_commands();
    assert!(f.len() >= 2);
    st.selected = 99;
    st.clamp_selection(f.len());
    assert_eq!(st.selected, f.len() - 1);
    st.selected = 0;
    assert_eq!(st.handle_keys(&f, true, false, false, false), None);
    assert_eq!(st.selected, 0);
    assert_eq!(st.handle_keys(&f, false, true, false, false), None);
    assert_eq!(st.selected, 1);
    assert_eq!(st.handle_keys(&f, false, false, false, true), None);
    assert_eq!(st.selected, 0);
    let id = st.handle_keys(&f, false, true, true, false);
    assert_eq!(id, Some(f[1].id.clone()));
    assert!(!st.open);
    st.open = true;
    assert_eq!(st.click(&f, 0), f[0].id);
    assert!(!st.open);
    let mut empty = CommandPaletteState::default();
    empty.selected = 5;
    empty.clamp_selection(0);
    assert_eq!(empty.selected, 0);
    assert_eq!(empty.handle_keys(&[], false, false, true, false), None);
}

#[test]
fn theme_and_plugin_commands() {
    let c = theme_command("My Dark-Theme 2");
    assert_eq!(c.id, "view.theme.my_darktheme_2");
    assert_eq!(c.label, "Theme: My Dark-Theme 2 (custom)");
    assert_eq!(c.shortcut, "");
    let cmds = dynamic_commands(
        &vec!["Solarized Light".to_string()],
        &vec![(
            "wc".to_string(),
            PluginCommand { id: "count".to_string(), label: "Count Words".to_string(), shortcut: None },
        )],
    );
    let ids: Vec<&str> = cmds.iter().map(|c| c.id.as_str()).collect();
    assert_eq!(ids, vec!["view.theme.solarized_light", "plugin.wc.count", "plugins.list"]);
    assert_eq!(cmds[1].label, "Count Words");
    assert_eq!(cmds[2].label, "Plugins: List Installed");
}

#[test]
fn plugin_command_routing() {
    let pc = |id: &str| PluginCommand { id: id.to_string(), label: id.to_string(), shortcut: None };
    let cmds = vec![("a.b".to_string(), pc("c")), ("a".to_string(), pc("b.c")), ("x".to_string(), pc("y"))];
    assert_eq!(find_plugin_command("plugin.a.b.c", &cmds), Some(0));
    assert_eq!(find_plugin_command("plugin.x.y", &cmds), Some(2));
    assert_eq!(find_plugin_command("plugin.x.z", &cmds), None);
    assert_eq!(find_plugin_command("x.y", &cmds), None);
}

#[test]
fn readme_shortcuts_in_palette() {
    let cmds = all_commands();
    assert!(cmds.iter().any(|c| c.label == "Duplicate Line" && c.shortcut == "Ctrl+D"));
    assert!(cmds.iter().any(|c| c.label == "Next Bookmark" && c.shortcut == "F2"));
    assert!(cmds.iter().any(|c| c.label == "Previous Bookmark" && c.shortcut == "Shift+F2"));
    assert!(cmds.iter().any(|c| c.label == "Toggle Bookmark" && c.shortcut == "Ctrl+F2"));
    assert_eq!(cmds.iter().filter(|c| c.shortcut == "Ctrl+D").count(), 1);
    assert_eq!(cmds.iter().filter(|c| c.shortcut == "F2").count(), 1);
}
