//! The command palette: the built-in commands and the palette's filtering
//! and keyboard selection.

use vstd::prelude::*;
use crate::text::{chars_of, fuzzy_match, label_matches, lowercase, push_all, push_char, str_eq, to_lowercase};
use crate::autocomplete::{alphanumeric, is_alphanumeric};
use crate::builtin_plugins::PluginCommand;
use crate::i18n::{all_locales, locale_id, locale_name, Locale};
use crate::keys::{command_of, EditorKey, KeyCommand};
use crate::shortcuts::{shortcut_of, AppKey, Shortcut};

verus! {

/// A command that can be executed from the palette.
#[derive(Clone)]
pub struct Command {
    pub id: String,
    pub label: String,
    pub shortcut: &'static str,
}

/// A command as (id, label, shortcut) characters.
pub open spec fn command_view(c: Command) -> (Seq<char>, Seq<char>, Seq<char>) {
    (c.id@, c.label@, c.shortcut@)
}

/// The commands' (id, label, shortcut) characters, in order.
pub open spec fn commands_view(s: Seq<Command>) -> Seq<(Seq<char>, Seq<char>, Seq<char>)> {
    s.map_values(|c: Command| command_view(c))
}

/// The built-in commands, in palette order.
pub open spec fn builtin_commands() -> Seq<(Seq<char>, Seq<char>, Seq<char>)> {
    seq![
        // File operations
        ("file.new"@, "New File"@, "Ctrl+N"@),
        ("file.open"@, "Open File"@, "Ctrl+O"@),
        ("file.save"@, "Save"@, "Ctrl+S"@),
        ("file.save_as"@, "Save As"@, "Ctrl+Shift+S"@),
        ("file.close_tab"@, "Close Tab"@, "Ctrl+W"@),
        ("file.recent_files"@, "Open Recent File"@, ""@),
        // Edit operations
        ("edit.undo"@, "Undo"@, "Ctrl+Z"@),
        ("edit.redo"@, "Redo"@, "Ctrl+Y"@),
        ("edit.select_all"@, "Select All"@, "Ctrl+A"@),
        ("edit.select_next_occurrence"@, "Select Next Occurrence"@, ""@),
        ("edit.duplicate_line"@, "Duplicate Line"@, "Ctrl+D"@),
        ("edit.delete_line"@, "Delete Line"@, "Ctrl+Shift+K"@),
        ("edit.move_line_up"@, "Move Line Up"@, "Alt+Up"@),
        ("edit.move_line_down"@, "Move Line Down"@, "Alt+Down"@),
        ("edit.indent"@, "Indent"@, "Tab"@),
        ("edit.unindent"@, "Unindent"@, "Shift+Tab"@),
        ("edit.toggle_comment"@, "Toggle Comment"@, "Ctrl+/"@),
        ("edit.column_editor"@, "Column Editor"@, ""@),
        // Navigation
        ("nav.go_to_file"@, "Go to File"@, "Ctrl+P"@),
        ("nav.go_to_line"@, "Go to Line"@, "Ctrl+G"@),
        ("nav.go_to_symbol"@, "Go to Symbol"@, "Ctrl+Shift+O"@),
        ("nav.go_to_definition"@, "Go to Definition"@, "F12"@),
        ("nav.find_references"@, "Find All References"@, "Shift+F12"@),
        ("nav.rename_symbol"@, "Rename Symbol"@, ""@),
        ("nav.hover_info"@, "Show Hover Information"@, ""@),
        ("nav.find"@, "Find"@, "Ctrl+F"@),
        ("nav.replace"@, "Find and Replace"@, "Ctrl+H"@),
        ("nav.find_in_files"@, "Find in Files"@, "Ctrl+Shift+F"@),
        ("nav.next_tab"@, "Next Tab"@, "Ctrl+Tab"@),
        ("nav.prev_tab"@, "Previous Tab"@, "Ctrl+Shift+Tab"@),
        // Bookmarks
        ("nav.toggle_bookmark"@, "Toggle Bookmark"@, "Ctrl+F2"@),
        ("nav.next_bookmark"@, "Next Bookmark"@, "F2"@),
        ("nav.prev_bookmark"@, "Previous Bookmark"@, "Shift+F2"@),
        ("nav.clear_bookmarks"@, "Clear All Bookmarks"@, ""@),
        // Text tools
        ("tools.sort_asc"@, "Sort Lines (Ascending)"@, ""@),
        ("tools.sort_desc"@, "Sort Lines (Descending)"@, ""@),
        ("tools.sort_case_insensitive"@, "Sort Lines (Case Insensitive)"@, ""@),
        ("tools.sort_numeric"@, "Sort Lines (Numeric)"@, ""@),
        ("tools.uppercase"@, "Transform to Uppercase"@, ""@),
        ("tools.lowercase"@, "Transform to Lowercase"@, ""@),
        ("tools.title_case"@, "Transform to Title Case"@, ""@),
        ("tools.remove_duplicates"@, "Remove Duplicate Lines"@, ""@),
        ("tools.remove_empty"@, "Remove Empty Lines"@, ""@),
        ("tools.join_lines"@, "Join Lines"@, ""@),
        ("tools.reverse_lines"@, "Reverse Lines"@, ""@),
        ("tools.trim_trailing"@, "Trim Trailing Whitespace"@, ""@),
        // Encoding / JSON transforms
        ("tools.base64_encode"@, "Base64 Encode"@, ""@),
        ("tools.base64_decode"@, "Base64 Decode"@, ""@),
        ("tools.url_encode"@, "URL Encode"@, ""@),
        ("tools.url_decode"@, "URL Decode"@, ""@),
        ("tools.json_pretty"@, "JSON Pretty Print"@, ""@),
        ("tools.json_minify"@, "JSON Minify"@, ""@),
        ("tools.xml_pretty"@, "XML: Pretty Print"@, ""@),
        ("tools.xml_minify"@, "XML: Minify"@, ""@),
        // Hash
        ("tools.hash_md5"@, "Hash: MD5"@, ""@),
        ("tools.hash_sha1"@, "Hash: SHA-1"@, ""@),
        ("tools.hash_sha256"@, "Hash: SHA-256"@, ""@),
        // HTML entities
        ("tools.html_encode"@, "HTML Entity Encode"@, ""@),
        ("tools.html_decode"@, "HTML Entity Decode"@, ""@),
        // Conversion
        ("tools.dec_to_hex"@, "Convert Decimal to Hex"@, ""@),
        ("tools.hex_to_dec"@, "Convert Hex to Decimal"@, ""@),
        ("tools.timestamp_to_date"@, "Convert Unix Timestamp to Date"@, ""@),
        // Case conversions
        ("tools.camel_case"@, "Transform to camelCase"@, ""@),
        ("tools.snake_case"@, "Transform to snake_case"@, ""@),
        ("tools.pascal_case"@, "Transform to PascalCase"@, ""@),
        ("tools.kebab_case"@, "Transform to kebab-case"@, ""@),
        // View
        ("view.toggle_word_wrap"@, "Toggle Word Wrap"@, ""@),
        ("view.zoom_in"@, "Zoom In"@, "Ctrl+="@),
        ("view.zoom_out"@, "Zoom Out"@, "Ctrl+-"@),
        ("view.zoom_reset"@, "Reset Zoom"@, "Ctrl+0"@),
        ("view.toggle_whitespace"@, "Show/Hide Whitespace"@, ""@),
        ("view.toggle_theme"@, "Toggle Light/Dark Theme"@, ""@),
        ("view.toggle_minimap"@, "Toggle Minimap"@, ""@),
        ("view.toggle_markdown_preview"@, "Toggle Markdown Preview"@, "Ctrl+Shift+M"@),
        ("view.toggle_sidebar"@, "Toggle File Explorer"@, "Ctrl+B"@),
        ("view.toggle_function_list"@, "Toggle Function List"@, ""@),
        // Split view
        ("view.split_horizontal"@, "Split Editor Right"@, ""@),
        ("view.split_vertical"@, "Split Editor Down"@, ""@),
        ("view.close_split"@, "Close Split Pane"@, ""@),
        // Folding
        ("view.fold_toggle"@, "Toggle Fold"@, ""@),
        ("view.fold_all"@, "Fold All"@, ""@),
        ("view.unfold_all"@, "Unfold All"@, ""@),
        // Hex editor
        ("view.toggle_hex"@, "Toggle Hex Editor"@, ""@),
        ("hex.go_to_offset"@, "Hex: Go to Offset"@, "Ctrl+G (in hex mode)"@),
        // Diff/compare
        ("view.compare_files"@, "Compare Open Files"@, ""@),
        ("view.close_compare"@, "Close Compare View"@, ""@),
        ("diff.next_hunk"@, "Diff: Next Change"@, "F7"@),
        ("diff.prev_hunk"@, "Diff: Previous Change"@, "Shift+F7"@),
        // Terminal
        ("view.toggle_terminal"@, "Toggle Terminal"@, "Ctrl+`"@),
        ("terminal.new"@, "Terminal: New Terminal"@, ""@),
        ("terminal.send_selection"@, "Terminal: Send Selection"@, ""@),
        // Git
        ("view.toggle_git_blame"@, "Toggle Git Blame"@, ""@),
        ("git.stage_file"@, "Git: Stage Current File"@, ""@),
        ("git.commit"@, "Git: Commit"@, ""@),
        // Bracket colors
        ("view.toggle_bracket_colors"@, "Toggle Bracket Pair Colorization"@, ""@),
        // Multi-cursor
        ("edit.select_all_occurrences"@, "Select All Occurrences"@, "Ctrl+Shift+L"@),
        // Read-only
        ("edit.toggle_read_only"@, "Toggle Read-Only Mode"@, ""@),
        // Macro recording
        ("macro.toggle_recording"@, "Start/Stop Macro Recording"@, "Ctrl+Q"@),
        ("macro.playback"@, "Playback Macro"@, "Ctrl+Shift+Q"@),
        ("macro.run_multiple"@, "Run Macro Multiple Times..."@, ""@),
        ("macro.save_as"@, "Save Macro As..."@, ""@),
        ("macro.load"@, "Load Macro..."@, ""@),
        // Read-only
        ("edit.toggle_read_only"@, "Toggle Read-Only Mode"@, ""@),
        // Vim mode
        ("edit.toggle_vim_mode"@, "Toggle Vim Mode"@, ""@),
        // Zen mode
        ("view.zen_mode"@, "Toggle Zen Mode"@, "F11"@),
        // Snippets
        ("snippets.open_user_file"@, "Snippets: Open User Snippets File"@, ""@),
        // Theme management
        ("theme.open_folder"@, "Theme: Open Themes Folder"@, ""@),
        ("theme.create_from_current"@, "Theme: Create Theme from Current"@, ""@),
        ("theme.reload"@, "Theme: Reload User Themes"@, ""@),
        // Language / i18n
        ("settings.change_language"@, "Settings: Change Language"@, ""@),
        ("settings.language.en"@, "Language: English"@, ""@),
        ("settings.language.de"@, "Language: Deutsch"@, ""@),
        ("settings.language.fr"@, "Language: Fran\u{00E7}ais"@, ""@),
        ("settings.language.es"@, "Language: Espa\u{00F1}ol"@, ""@),
        ("settings.language.ja"@, "Language: \u{65E5}\u{672C}\u{8A9E}"@, ""@),
        ("settings.language.zh"@, "Language: \u{4E2D}\u{6587}"@, ""@),
        ("settings.language.ko"@, "Language: \u{D55C}\u{AD6D}\u{C5B4}"@, ""@),
        ("settings.language.pt"@, "Language: Portugu\u{00EA}s"@, ""@),
        ("settings.language.ru"@, "Language: \u{0420}\u{0443}\u{0441}\u{0441}\u{043A}\u{0438}\u{0439}"@, ""@),
        // Plugins
        ("plugins.manage"@, "Plugins: Manage Plugins"@, ""@),
        // Theme selector (individual built-in themes)
        ("view.theme.monokai"@, "Theme: Monokai"@, ""@),
        ("view.theme.dracula"@, "Theme: Dracula"@, ""@),
        ("view.theme.solarized_dark"@, "Theme: Solarized Dark"@, ""@),
        ("view.theme.solarized_light"@, "Theme: Solarized Light"@, ""@),
        ("view.theme.nord"@, "Theme: Nord"@, ""@),
        ("view.theme.one_dark"@, "Theme: One Dark"@, ""@),
        ("view.theme.gruvbox"@, "Theme: Gruvbox"@, ""@),
        ("view.theme.tokyo_night"@, "Theme: Tokyo Night"@, ""@),
        ("view.theme.dark"@, "Theme: Dark (Default)"@, ""@),
        ("view.theme.light"@, "Theme: Light"@, ""@),
    ]
}

/// The palette command that switches to locale `l`.
pub open spec fn language_command(l: Locale) -> (Seq<char>, Seq<char>, Seq<char>) {
    ("settings.language."@ + locale_id(l), "Language: "@ + locale_name(l), Seq::empty())
}

/// Whether a command id is one of the locale switches.
pub open spec fn is_language_id(id: Seq<char>) -> bool {
    id.len() >= 18 && id.subrange(0, 18) == "settings.language."@
}

/// The palette has one command per locale, with the locale's id and display
/// name, and every command whose id starts with `settings.language.` is one
/// of these.
pub proof fn lemma_language_commands()
    ensures
        forall|i: int| 0 <= i < all_locales().len() ==> builtin_commands().contains(
            language_command(#[trigger] all_locales()[i]),
        ),
        forall|k: int| 0 <= k < builtin_commands().len() && is_language_id(#[trigger] builtin_commands()[k].0)
            ==> exists|i: int| 0 <= i < all_locales().len() && builtin_commands()[k] == language_command(all_locales()[i]),
{
    reveal_strlit("settings.language.");
    reveal_strlit("Language: ");
    reveal_strlit("settings.language.en");
    reveal_strlit("Language: English");
    reveal_strlit("");
    assert(builtin_commands()[110] == language_command(all_locales()[0]));
    assert(builtin_commands().contains(language_command(all_locales()[0])));
    reveal_strlit("settings.language.de");
    reveal_strlit("Language: Deutsch");
    reveal_strlit("");
    assert(builtin_commands()[111] == language_command(all_locales()[1]));
    assert(builtin_commands().contains(language_command(all_locales()[1])));
    reveal_strlit("settings.language.fr");
    reveal_strlit("Language: Fran\u{00E7}ais");
    reveal_strlit("");
    assert(builtin_commands()[112] == language_command(all_locales()[2]));
    assert(builtin_commands().contains(language_command(all_locales()[2])));
    reveal_strlit("settings.language.es");
    reveal_strlit("Language: Espa\u{00F1}ol");
    reveal_strlit("");
    assert(builtin_commands()[113] == language_command(all_locales()[3]));
    assert(builtin_commands().contains(language_command(all_locales()[3])));
    reveal_strlit("settings.language.ja");
    reveal_strlit("Language: \u{65E5}\u{672C}\u{8A9E}");
    reveal_strlit("");
    assert(builtin_commands()[114] == language_command(all_locales()[4]));
    assert(builtin_commands().contains(language_command(all_locales()[4])));
    reveal_strlit("settings.language.zh");
    reveal_strlit("Language: \u{4E2D}\u{6587}");
    reveal_strlit("");
    assert(builtin_commands()[115] == language_command(all_locales()[5]));
    assert(builtin_commands().contains(language_command(all_locales()[5])));
    reveal_strlit("settings.language.ko");
    reveal_strlit("Language: \u{D55C}\u{AD6D}\u{C5B4}");
    reveal_strlit("");
    assert(builtin_commands()[116] == language_command(all_locales()[6]));
    assert(builtin_commands().contains(language_command(all_locales()[6])));
    reveal_strlit("settings.language.pt");
    reveal_strlit("Language: Portugu\u{00EA}s");
    reveal_strlit("");
    assert(builtin_commands()[117] == language_command(all_locales()[7]));
    assert(builtin_commands().contains(language_command(all_locales()[7])));
    reveal_strlit("settings.language.ru");
    reveal_strlit("Language: \u{0420}\u{0443}\u{0441}\u{0441}\u{043A}\u{0438}\u{0439}");
    reveal_strlit("");
    assert(builtin_commands()[118] == language_command(all_locales()[8]));
    assert(builtin_commands().contains(language_command(all_locales()[8])));
    assert forall|k: int| 0 <= k < builtin_commands().len() && is_language_id(#[trigger] builtin_commands()[k].0)
        implies exists|i: int| 0 <= i < all_locales().len() && builtin_commands()[k] == language_command(all_locales()[i]) by {
        if 110 <= k < 119 {
            assert(builtin_commands()[k] == language_command(all_locales()[k - 110]));
        } else {
            lemma_other_ids_not_language(k);
        }
    }
}

/// The commands outside the locale switches do not have a locale switch's
/// id.
proof fn lemma_other_ids_not_language(k: int)
    requires
        0 <= k < builtin_commands().len(),
        !(110 <= k < 119),
    ensures
        !is_language_id(builtin_commands()[k].0),
{
    reveal_strlit("settings.language.");
    if k == 0 {
        reveal_strlit("file.new");
    } else if k == 1 {
        reveal_strlit("file.open");
    } else if k == 2 {
        reveal_strlit("file.save");
    } else if k == 3 {
        reveal_strlit("file.save_as");
    } else if k == 4 {
        reveal_strlit("file.close_tab");
    } else if k == 5 {
        reveal_strlit("file.recent_files");
    } else if k == 6 {
        reveal_strlit("edit.undo");
    } else if k == 7 {
        reveal_strlit("edit.redo");
    } else if k == 8 {
        reveal_strlit("edit.select_all");
    } else if k == 9 {
        reveal_strlit("edit.select_next_occurrence");
        assert(builtin_commands()[9].0[0] != "settings.language."@[0]);
    } else if k == 10 {
        reveal_strlit("edit.duplicate_line");
        assert(builtin_commands()[10].0[0] != "settings.language."@[0]);
    } else if k == 11 {
        reveal_strlit("edit.delete_line");
    } else if k == 12 {
        reveal_strlit("edit.move_line_up");
    } else if k == 13 {
        reveal_strlit("edit.move_line_down");
        assert(builtin_commands()[13].0[0] != "settings.language."@[0]);
    } else if k == 14 {
        reveal_strlit("edit.indent");
    } else if k == 15 {
        reveal_strlit("edit.unindent");
    } else if k == 16 {
        reveal_strlit("edit.toggle_comment");
        assert(builtin_commands()[16].0[0] != "settings.language."@[0]);
    } else if k == 17 {
        reveal_strlit("edit.column_editor");
        assert(builtin_commands()[17].0[0] != "settings.language."@[0]);
    } else if k == 18 {
        reveal_strlit("nav.go_to_file");
    } else if k == 19 {
        reveal_strlit("nav.go_to_line");
    } else if k == 20 {
        reveal_strlit("nav.go_to_symbol");
    } else if k == 21 {
        reveal_strlit("nav.go_to_definition");
        assert(builtin_commands()[21].0[0] != "settings.language."@[0]);
    } else if k == 22 {
        reveal_strlit("nav.find_references");
        assert(builtin_commands()[22].0[0] != "settings.language."@[0]);
    } else if k == 23 {
        reveal_strlit("nav.rename_symbol");
    } else if k == 24 {
        reveal_strlit("nav.hover_info");
    } else if k == 25 {
        reveal_strlit("nav.find");
    } else if k == 26 {
        reveal_strlit("nav.replace");
    } else if k == 27 {
        reveal_strlit("nav.find_in_files");
    } else if k == 28 {
        reveal_strlit("nav.next_tab");
    } else if k == 29 {
        reveal_strlit("nav.prev_tab");
    } else if k == 30 {
        reveal_strlit("nav.toggle_bookmark");
        assert(builtin_commands()[30].0[0] != "settings.language."@[0]);
    } else if k == 31 {
        reveal_strlit("nav.next_bookmark");
    } else if k == 32 {
        reveal_strlit("nav.prev_bookmark");
    } else if k == 33 {
        reveal_strlit("nav.clear_bookmarks");
        assert(builtin_commands()[33].0[0] != "settings.language."@[0]);
    } else if k == 34 {
        reveal_strlit("tools.sort_asc");
    } else if k == 35 {
        reveal_strlit("tools.sort_desc");
    } else if k == 36 {
        reveal_strlit("tools.sort_case_insensitive");
        assert(builtin_commands()[36].0[0] != "settings.language."@[0]);
    } else if k == 37 {
        reveal_strlit("tools.sort_numeric");
        assert(builtin_commands()[37].0[0] != "settings.language."@[0]);
    } else if k == 38 {
        reveal_strlit("tools.uppercase");
    } else if k == 39 {
        reveal_strlit("tools.lowercase");
    } else if k == 40 {
        reveal_strlit("tools.title_case");
    } else if k == 41 {
        reveal_strlit("tools.remove_duplicates");
        assert(builtin_commands()[41].0[0] != "settings.language."@[0]);
    } else if k == 42 {
        reveal_strlit("tools.remove_empty");
        assert(builtin_commands()[42].0[0] != "settings.language."@[0]);
    } else if k == 43 {
        reveal_strlit("tools.join_lines");
    } else if k == 44 {
        reveal_strlit("tools.reverse_lines");
        assert(builtin_commands()[44].0[0] != "settings.language."@[0]);
    } else if k == 45 {
        reveal_strlit("tools.trim_trailing");
        assert(builtin_commands()[45].0[0] != "settings.language."@[0]);
    } else if k == 46 {
        reveal_strlit("tools.base64_encode");
        assert(builtin_commands()[46].0[0] != "settings.language."@[0]);
    } else if k == 47 {
        reveal_strlit("tools.base64_decode");
        assert(builtin_commands()[47].0[0] != "settings.language."@[0]);
    } else if k == 48 {
        reveal_strlit("tools.url_encode");
    } else if k == 49 {
        reveal_strlit("tools.url_decode");
    } else if k == 50 {
        reveal_strlit("tools.json_pretty");
    } else if k == 51 {
        reveal_strlit("tools.json_minify");
    } else if k == 52 {
        reveal_strlit("tools.xml_pretty");
    } else if k == 53 {
        reveal_strlit("tools.xml_minify");
    } else if k == 54 {
        reveal_strlit("tools.hash_md5");
    } else if k == 55 {
        reveal_strlit("tools.hash_sha1");
    } else if k == 56 {
        reveal_strlit("tools.hash_sha256");
    } else if k == 57 {
        reveal_strlit("tools.html_encode");
    } else if k == 58 {
        reveal_strlit("tools.html_decode");
    } else if k == 59 {
        reveal_strlit("tools.dec_to_hex");
    } else if k == 60 {
        reveal_strlit("tools.hex_to_dec");
    } else if k == 61 {
        reveal_strlit("tools.timestamp_to_date");
        assert(builtin_commands()[61].0[0] != "settings.language."@[0]);
    } else if k == 62 {
        reveal_strlit("tools.camel_case");
    } else if k == 63 {
        reveal_strlit("tools.snake_case");
    } else if k == 64 {
        reveal_strlit("tools.pascal_case");
    } else if k == 65 {
        reveal_strlit("tools.kebab_case");
    } else if k == 66 {
        reveal_strlit("view.toggle_word_wrap");
        assert(builtin_commands()[66].0[0] != "settings.language."@[0]);
    } else if k == 67 {
        reveal_strlit("view.zoom_in");
    } else if k == 68 {
        reveal_strlit("view.zoom_out");
    } else if k == 69 {
        reveal_strlit("view.zoom_reset");
    } else if k == 70 {
        reveal_strlit("view.toggle_whitespace");
        assert(builtin_commands()[70].0[0] != "settings.language."@[0]);
    } else if k == 71 {
        reveal_strlit("view.toggle_theme");
    } else if k == 72 {
        reveal_strlit("view.toggle_minimap");
        assert(builtin_commands()[72].0[0] != "settings.language."@[0]);
    } else if k == 73 {
        reveal_strlit("view.toggle_markdown_preview");
        assert(builtin_commands()[73].0[0] != "settings.language."@[0]);
    } else if k == 74 {
        reveal_strlit("view.toggle_sidebar");
        assert(builtin_commands()[74].0[0] != "settings.language."@[0]);
    } else if k == 75 {
        reveal_strlit("view.toggle_function_list");
        assert(builtin_commands()[75].0[0] != "settings.language."@[0]);
    } else if k == 76 {
        reveal_strlit("view.split_horizontal");
        assert(builtin_commands()[76].0[0] != "settings.language."@[0]);
    } else if k == 77 {
        reveal_strlit("view.split_vertical");
        assert(builtin_commands()[77].0[0] != "settings.language."@[0]);
    } else if k == 78 {
        reveal_strlit("view.close_split");
    } else if k == 79 {
        reveal_strlit("view.fold_toggle");
    } else if k == 80 {
        reveal_strlit("view.fold_all");
    } else if k == 81 {
        reveal_strlit("view.unfold_all");
    } else if k == 82 {
        reveal_strlit("view.toggle_hex");
    } else if k == 83 {
        reveal_strlit("hex.go_to_offset");
    } else if k == 84 {
        reveal_strlit("view.compare_files");
        assert(builtin_commands()[84].0[0] != "settings.language."@[0]);
    } else if k == 85 {
        reveal_strlit("view.close_compare");
        assert(builtin_commands()[85].0[0] != "settings.language."@[0]);
    } else if k == 86 {
        reveal_strlit("diff.next_hunk");
    } else if k == 87 {
        reveal_strlit("diff.prev_hunk");
    } else if k == 88 {
        reveal_strlit("view.toggle_terminal");
        assert(builtin_commands()[88].0[0] != "settings.language."@[0]);
    } else if k == 89 {
        reveal_strlit("terminal.new");
    } else if k == 90 {
        reveal_strlit("terminal.send_selection");
        assert(builtin_commands()[90].0[0] != "settings.language."@[0]);
    } else if k == 91 {
        reveal_strlit("view.toggle_git_blame");
        assert(builtin_commands()[91].0[0] != "settings.language."@[0]);
    } else if k == 92 {
        reveal_strlit("git.stage_file");
    } else if k == 93 {
        reveal_strlit("git.commit");
    } else if k == 94 {
        reveal_strlit("view.toggle_bracket_colors");
        assert(builtin_commands()[94].0[0] != "settings.language."@[0]);
    } else if k == 95 {
        reveal_strlit("edit.select_all_occurrences");
        assert(builtin_commands()[95].0[0] != "settings.language."@[0]);
    } else if k == 96 {
        reveal_strlit("edit.toggle_read_only");
        assert(builtin_commands()[96].0[0] != "settings.language."@[0]);
    } else if k == 97 {
        reveal_strlit("macro.toggle_recording");
        assert(builtin_commands()[97].0[0] != "settings.language."@[0]);
    } else if k == 98 {
        reveal_strlit("macro.playback");
    } else if k == 99 {
        reveal_strlit("macro.run_multiple");
        assert(builtin_commands()[99].0[0] != "settings.language."@[0]);
    } else if k == 100 {
        reveal_strlit("macro.save_as");
    } else if k == 101 {
        reveal_strlit("macro.load");
    } else if k == 102 {
        reveal_strlit("edit.toggle_read_only");
        assert(builtin_commands()[102].0[0] != "settings.language."@[0]);
    } else if k == 103 {
        reveal_strlit("edit.toggle_vim_mode");
        assert(builtin_commands()[103].0[0] != "settings.language."@[0]);
    } else if k == 104 {
        reveal_strlit("view.zen_mode");
    } else if k == 105 {
        reveal_strlit("snippets.open_user_file");
        assert(builtin_commands()[105].0[1] != "settings.language."@[1]);
    } else if k == 106 {
        reveal_strlit("theme.open_folder");
    } else if k == 107 {
        reveal_strlit("theme.create_from_current");
        assert(builtin_commands()[107].0[0] != "settings.language."@[0]);
    } else if k == 108 {
        reveal_strlit("theme.reload");
    } else if k == 109 {
        reveal_strlit("settings.change_language");
        assert(builtin_commands()[109].0[9] != "settings.language."@[9]);
    } else if k == 119 {
        reveal_strlit("plugins.manage");
    } else if k == 120 {
        reveal_strlit("view.theme.monokai");
        assert(builtin_commands()[120].0[0] != "settings.language."@[0]);
    } else if k == 121 {
        reveal_strlit("view.theme.dracula");
        assert(builtin_commands()[121].0[0] != "settings.language."@[0]);
    } else if k == 122 {
        reveal_strlit("view.theme.solarized_dark");
        assert(builtin_commands()[122].0[0] != "settings.language."@[0]);
    } else if k == 123 {
        reveal_strlit("view.theme.solarized_light");
        assert(builtin_commands()[123].0[0] != "settings.language."@[0]);
    } else if k == 124 {
        reveal_strlit("view.theme.nord");
    } else if k == 125 {
        reveal_strlit("view.theme.one_dark");
        assert(builtin_commands()[125].0[0] != "settings.language."@[0]);
    } else if k == 126 {
        reveal_strlit("view.theme.gruvbox");
        assert(builtin_commands()[126].0[0] != "settings.language."@[0]);
    } else if k == 127 {
        reveal_strlit("view.theme.tokyo_night");
        assert(builtin_commands()[127].0[0] != "settings.language."@[0]);
    } else if k == 128 {
        reveal_strlit("view.theme.dark");
    } else if k == 129 {
        reveal_strlit("view.theme.light");
    }
}

/// The keyboard shortcuts the editor documents: the palette lists each
/// documented command with its documented keys (New File Ctrl+N, Open
/// Ctrl+O, Save Ctrl+S, Save As Ctrl+Shift+S, Close Tab Ctrl+W, Find Ctrl+F,
/// Replace Ctrl+H, Find in Files Ctrl+Shift+F, Go to Line Ctrl+G, Duplicate
/// Line Ctrl+D, Delete Line Ctrl+Shift+K, Move Line Alt+Up/Down, Toggle
/// Comment Ctrl+/, bookmarks Ctrl+F2, F2 and Shift+F2, Markdown Preview
/// Ctrl+Shift+M, Zoom Ctrl+= and Ctrl+-), and those keys run the same
/// actions in the window and the editor (the command palette on
/// Ctrl+Shift+P).
pub proof fn lemma_documented_shortcuts()
    ensures
        builtin_commands().contains(("file.new"@, "New File"@, "Ctrl+N"@)),
        builtin_commands().contains(("file.open"@, "Open File"@, "Ctrl+O"@)),
        builtin_commands().contains(("file.save"@, "Save"@, "Ctrl+S"@)),
        builtin_commands().contains(("file.save_as"@, "Save As"@, "Ctrl+Shift+S"@)),
        builtin_commands().contains(("file.close_tab"@, "Close Tab"@, "Ctrl+W"@)),
        builtin_commands().contains(("nav.find"@, "Find"@, "Ctrl+F"@)),
        builtin_commands().contains(("nav.replace"@, "Find and Replace"@, "Ctrl+H"@)),
        builtin_commands().contains(("nav.find_in_files"@, "Find in Files"@, "Ctrl+Shift+F"@)),
        builtin_commands().contains(("nav.go_to_line"@, "Go to Line"@, "Ctrl+G"@)),
        builtin_commands().contains(("edit.duplicate_line"@, "Duplicate Line"@, "Ctrl+D"@)),
        builtin_commands().contains(("edit.delete_line"@, "Delete Line"@, "Ctrl+Shift+K"@)),
        builtin_commands().contains(("edit.move_line_up"@, "Move Line Up"@, "Alt+Up"@)),
        builtin_commands().contains(("edit.move_line_down"@, "Move Line Down"@, "Alt+Down"@)),
        builtin_commands().contains(("edit.toggle_comment"@, "Toggle Comment"@, "Ctrl+/"@)),
        builtin_commands().contains(("nav.toggle_bookmark"@, "Toggle Bookmark"@, "Ctrl+F2"@)),
        builtin_commands().contains(("nav.next_bookmark"@, "Next Bookmark"@, "F2"@)),
        builtin_commands().contains(("nav.prev_bookmark"@, "Previous Bookmark"@, "Shift+F2"@)),
        builtin_commands().contains(("view.toggle_markdown_preview"@, "Toggle Markdown Preview"@, "Ctrl+Shift+M"@)),
        builtin_commands().contains(("view.zoom_in"@, "Zoom In"@, "Ctrl+="@)),
        builtin_commands().contains(("view.zoom_out"@, "Zoom Out"@, "Ctrl+-"@)),
        shortcut_of(AppKey::N, true, false) == Some(Shortcut::NewTab),
        shortcut_of(AppKey::O, true, false) == Some(Shortcut::OpenFile),
        shortcut_of(AppKey::S, true, false) == Some(Shortcut::SaveFile),
        shortcut_of(AppKey::S, true, true) == Some(Shortcut::SaveAs),
        shortcut_of(AppKey::W, true, false) == Some(Shortcut::CloseTab),
        shortcut_of(AppKey::F, true, false) == Some(Shortcut::ToggleSearch),
        shortcut_of(AppKey::H, true, false) == Some(Shortcut::ToggleReplace),
        shortcut_of(AppKey::F, true, true) == Some(Shortcut::ToggleFindInFiles),
        shortcut_of(AppKey::G, true, false) == Some(Shortcut::GoToLine),
        shortcut_of(AppKey::P, true, true) == Some(Shortcut::ToggleCommandPalette),
        shortcut_of(AppKey::F2, true, false) == Some(Shortcut::ToggleBookmark),
        shortcut_of(AppKey::F2, false, false) == Some(Shortcut::NextBookmark),
        shortcut_of(AppKey::F2, false, true) == Some(Shortcut::PrevBookmark),
        shortcut_of(AppKey::M, true, true) == Some(Shortcut::ToggleMarkdownPreview),
        shortcut_of(AppKey::Equals, true, false) == Some(Shortcut::ZoomIn),
        shortcut_of(AppKey::Minus, true, false) == Some(Shortcut::ZoomOut),
        command_of(EditorKey::D, true, false, false) == Some(KeyCommand::DuplicateLine),
        command_of(EditorKey::K, true, true, false) == Some(KeyCommand::DeleteLine),
        command_of(EditorKey::ArrowUp, false, false, true) == Some(KeyCommand::MoveLineUp),
        command_of(EditorKey::ArrowDown, false, false, true) == Some(KeyCommand::MoveLineDown),
        command_of(EditorKey::Slash, true, false, false) == Some(KeyCommand::ToggleComment),
{
    reveal_strlit("file.new");
    reveal_strlit("New File");
    reveal_strlit("Ctrl+N");
    assert(builtin_commands()[0] == ("file.new"@, "New File"@, "Ctrl+N"@));
    reveal_strlit("file.open");
    reveal_strlit("Open File");
    reveal_strlit("Ctrl+O");
    assert(builtin_commands()[1] == ("file.open"@, "Open File"@, "Ctrl+O"@));
    reveal_strlit("file.save");
    reveal_strlit("Save");
    reveal_strlit("Ctrl+S");
    assert(builtin_commands()[2] == ("file.save"@, "Save"@, "Ctrl+S"@));
    reveal_strlit("file.save_as");
    reveal_strlit("Save As");
    reveal_strlit("Ctrl+Shift+S");
    assert(builtin_commands()[3] == ("file.save_as"@, "Save As"@, "Ctrl+Shift+S"@));
    reveal_strlit("file.close_tab");
    reveal_strlit("Close Tab");
    reveal_strlit("Ctrl+W");
    assert(builtin_commands()[4] == ("file.close_tab"@, "Close Tab"@, "Ctrl+W"@));
    reveal_strlit("nav.find");
    reveal_strlit("Find");
    reveal_strlit("Ctrl+F");
    assert(builtin_commands()[25] == ("nav.find"@, "Find"@, "Ctrl+F"@));
    reveal_strlit("nav.replace");
    reveal_strlit("Find and Replace");
    reveal_strlit("Ctrl+H");
    assert(builtin_commands()[26] == ("nav.replace"@, "Find and Replace"@, "Ctrl+H"@));
    reveal_strlit("nav.find_in_files");
    reveal_strlit("Find in Files");
    reveal_strlit("Ctrl+Shift+F");
    assert(builtin_commands()[27] == ("nav.find_in_files"@, "Find in Files"@, "Ctrl+Shift+F"@));
    reveal_strlit("nav.go_to_line");
    reveal_strlit("Go to Line");
    reveal_strlit("Ctrl+G");
    assert(builtin_commands()[19] == ("nav.go_to_line"@, "Go to Line"@, "Ctrl+G"@));
    reveal_strlit("edit.duplicate_line");
    reveal_strlit("Duplicate Line");
    reveal_strlit("Ctrl+D");
    assert(builtin_commands()[10] == ("edit.duplicate_line"@, "Duplicate Line"@, "Ctrl+D"@));
    reveal_strlit("edit.delete_line");
    reveal_strlit("Delete Line");
    reveal_strlit("Ctrl+Shift+K");
    assert(builtin_commands()[11] == ("edit.delete_line"@, "Delete Line"@, "Ctrl+Shift+K"@));
    reveal_strlit("edit.move_line_up");
    reveal_strlit("Move Line Up");
    reveal_strlit("Alt+Up");
    assert(builtin_commands()[12] == ("edit.move_line_up"@, "Move Line Up"@, "Alt+Up"@));
    reveal_strlit("edit.move_line_down");
    reveal_strlit("Move Line Down");
    reveal_strlit("Alt+Down");
    assert(builtin_commands()[13] == ("edit.move_line_down"@, "Move Line Down"@, "Alt+Down"@));
    reveal_strlit("edit.toggle_comment");
    reveal_strlit("Toggle Comment");
    reveal_strlit("Ctrl+/");
    assert(builtin_commands()[16] == ("edit.toggle_comment"@, "Toggle Comment"@, "Ctrl+/"@));
    reveal_strlit("nav.toggle_bookmark");
    reveal_strlit("Toggle Bookmark");
    reveal_strlit("Ctrl+F2");
    assert(builtin_commands()[30] == ("nav.toggle_bookmark"@, "Toggle Bookmark"@, "Ctrl+F2"@));
    reveal_strlit("nav.next_bookmark");
    reveal_strlit("Next Bookmark");
    reveal_strlit("F2");
    assert(builtin_commands()[31] == ("nav.next_bookmark"@, "Next Bookmark"@, "F2"@));
    reveal_strlit("nav.prev_bookmark");
    reveal_strlit("Previous Bookmark");
    reveal_strlit("Shift+F2");
    assert(builtin_commands()[32] == ("nav.prev_bookmark"@, "Previous Bookmark"@, "Shift+F2"@));
    reveal_strlit("view.toggle_markdown_preview");
    reveal_strlit("Toggle Markdown Preview");
    reveal_strlit("Ctrl+Shift+M");
    assert(builtin_commands()[73] == ("view.toggle_markdown_preview"@, "Toggle Markdown Preview"@, "Ctrl+Shift+M"@));
    reveal_strlit("view.zoom_in");
    reveal_strlit("Zoom In");
    reveal_strlit("Ctrl+=");
    assert(builtin_commands()[67] == ("view.zoom_in"@, "Zoom In"@, "Ctrl+="@));
    reveal_strlit("view.zoom_out");
    reveal_strlit("Zoom Out");
    reveal_strlit("Ctrl+-");
    assert(builtin_commands()[68] == ("view.zoom_out"@, "Zoom Out"@, "Ctrl+-"@));
}

/// The built-in commands as (id, label, shortcut) texts.
fn builtin_command_entries() -> (r: Vec<(&'static str, &'static str, &'static str)>)
    ensures
        r@.map_values(|e: (&str, &str, &str)| (e.0@, e.1@, e.2@)) == builtin_commands(),
{
    let r = vec![
        // File operations
        ("file.new", "New File", "Ctrl+N"),
        ("file.open", "Open File", "Ctrl+O"),
        ("file.save", "Save", "Ctrl+S"),
        ("file.save_as", "Save As", "Ctrl+Shift+S"),
        ("file.close_tab", "Close Tab", "Ctrl+W"),
        ("file.recent_files", "Open Recent File", ""),
        // Edit operations
        ("edit.undo", "Undo", "Ctrl+Z"),
        ("edit.redo", "Redo", "Ctrl+Y"),
        ("edit.select_all", "Select All", "Ctrl+A"),
        ("edit.select_next_occurrence", "Select Next Occurrence", ""),
        ("edit.duplicate_line", "Duplicate Line", "Ctrl+D"),
        ("edit.delete_line", "Delete Line", "Ctrl+Shift+K"),
        ("edit.move_line_up", "Move Line Up", "Alt+Up"),
        ("edit.move_line_down", "Move Line Down", "Alt+Down"),
        ("edit.indent", "Indent", "Tab"),
        ("edit.unindent", "Unindent", "Shift+Tab"),
        ("edit.toggle_comment", "Toggle Comment", "Ctrl+/"),
        ("edit.column_editor", "Column Editor", ""),
        // Navigation
        ("nav.go_to_file", "Go to File", "Ctrl+P"),
        ("nav.go_to_line", "Go to Line", "Ctrl+G"),
        ("nav.go_to_symbol", "Go to Symbol", "Ctrl+Shift+O"),
        ("nav.go_to_definition", "Go to Definition", "F12"),
        ("nav.find_references", "Find All References", "Shift+F12"),
        ("nav.rename_symbol", "Rename Symbol", ""),
        ("nav.hover_info", "Show Hover Information", ""),
        ("nav.find", "Find", "Ctrl+F"),
        ("nav.replace", "Find and Replace", "Ctrl+H"),
        ("nav.find_in_files", "Find in Files", "Ctrl+Shift+F"),
        ("nav.next_tab", "Next Tab", "Ctrl+Tab"),
        ("nav.prev_tab", "Previous Tab", "Ctrl+Shift+Tab"),
        // Bookmarks
        ("nav.toggle_bookmark", "Toggle Bookmark", "Ctrl+F2"),
        ("nav.next_bookmark", "Next Bookmark", "F2"),
        ("nav.prev_bookmark", "Previous Bookmark", "Shift+F2"),
        ("nav.clear_bookmarks", "Clear All Bookmarks", ""),
        // Text tools
        ("tools.sort_asc", "Sort Lines (Ascending)", ""),
        ("tools.sort_desc", "Sort Lines (Descending)", ""),
        ("tools.sort_case_insensitive", "Sort Lines (Case Insensitive)", ""),
        ("tools.sort_numeric", "Sort Lines (Numeric)", ""),
        ("tools.uppercase", "Transform to Uppercase", ""),
        ("tools.lowercase", "Transform to Lowercase", ""),
        ("tools.title_case", "Transform to Title Case", ""),
        ("tools.remove_duplicates", "Remove Duplicate Lines", ""),
        ("tools.remove_empty", "Remove Empty Lines", ""),
        ("tools.join_lines", "Join Lines", ""),
        ("tools.reverse_lines", "Reverse Lines", ""),
        ("tools.trim_trailing", "Trim Trailing Whitespace", ""),
        // Encoding / JSON transforms
        ("tools.base64_encode", "Base64 Encode", ""),
        ("tools.base64_decode", "Base64 Decode", ""),
        ("tools.url_encode", "URL Encode", ""),
        ("tools.url_decode", "URL Decode", ""),
        ("tools.json_pretty", "JSON Pretty Print", ""),
        ("tools.json_minify", "JSON Minify", ""),
        ("tools.xml_pretty", "XML: Pretty Print", ""),
        ("tools.xml_minify", "XML: Minify", ""),
        // Hash
        ("tools.hash_md5", "Hash: MD5", ""),
        ("tools.hash_sha1", "Hash: SHA-1", ""),
        ("tools.hash_sha256", "Hash: SHA-256", ""),
        // HTML entities
        ("tools.html_encode", "HTML Entity Encode", ""),
        ("tools.html_decode", "HTML Entity Decode", ""),
        // Conversion
        ("tools.dec_to_hex", "Convert Decimal to Hex", ""),
        ("tools.hex_to_dec", "Convert Hex to Decimal", ""),
        ("tools.timestamp_to_date", "Convert Unix Timestamp to Date", ""),
        // Case conversions
        ("tools.camel_case", "Transform to camelCase", ""),
        ("tools.snake_case", "Transform to snake_case", ""),
        ("tools.pascal_case", "Transform to PascalCase", ""),
        ("tools.kebab_case", "Transform to kebab-case", ""),
        // View
        ("view.toggle_word_wrap", "Toggle Word Wrap", ""),
        ("view.zoom_in", "Zoom In", "Ctrl+="),
        ("view.zoom_out", "Zoom Out", "Ctrl+-"),
        ("view.zoom_reset", "Reset Zoom", "Ctrl+0"),
        ("view.toggle_whitespace", "Show/Hide Whitespace", ""),
        ("view.toggle_theme", "Toggle Light/Dark Theme", ""),
        ("view.toggle_minimap", "Toggle Minimap", ""),
        ("view.toggle_markdown_preview", "Toggle Markdown Preview", "Ctrl+Shift+M"),
        ("view.toggle_sidebar", "Toggle File Explorer", "Ctrl+B"),
        ("view.toggle_function_list", "Toggle Function List", ""),
        // Split view
        ("view.split_horizontal", "Split Editor Right", ""),
        ("view.split_vertical", "Split Editor Down", ""),
        ("view.close_split", "Close Split Pane", ""),
        // Folding
        ("view.fold_toggle", "Toggle Fold", ""),
        ("view.fold_all", "Fold All", ""),
        ("view.unfold_all", "Unfold All", ""),
        // Hex editor
        ("view.toggle_hex", "Toggle Hex Editor", ""),
        ("hex.go_to_offset", "Hex: Go to Offset", "Ctrl+G (in hex mode)"),
        // Diff/compare
        ("view.compare_files", "Compare Open Files", ""),
        ("view.close_compare", "Close Compare View", ""),
        ("diff.next_hunk", "Diff: Next Change", "F7"),
        ("diff.prev_hunk", "Diff: Previous Change", "Shift+F7"),
        // Terminal
        ("view.toggle_terminal", "Toggle Terminal", "Ctrl+`"),
        ("terminal.new", "Terminal: New Terminal", ""),
        ("terminal.send_selection", "Terminal: Send Selection", ""),
        // Git
        ("view.toggle_git_blame", "Toggle Git Blame", ""),
        ("git.stage_file", "Git: Stage Current File", ""),
        ("git.commit", "Git: Commit", ""),
        // Bracket colors
        ("view.toggle_bracket_colors", "Toggle Bracket Pair Colorization", ""),
        // Multi-cursor
        ("edit.select_all_occurrences", "Select All Occurrences", "Ctrl+Shift+L"),
        // Read-only
        ("edit.toggle_read_only", "Toggle Read-Only Mode", ""),
        // Macro recording
        ("macro.toggle_recording", "Start/Stop Macro Recording", "Ctrl+Q"),
        ("macro.playback", "Playback Macro", "Ctrl+Shift+Q"),
        ("macro.run_multiple", "Run Macro Multiple Times...", ""),
        ("macro.save_as", "Save Macro As...", ""),
        ("macro.load", "Load Macro...", ""),
        // Read-only
        ("edit.toggle_read_only", "Toggle Read-Only Mode", ""),
        // Vim mode
        ("edit.toggle_vim_mode", "Toggle Vim Mode", ""),
        // Zen mode
        ("view.zen_mode", "Toggle Zen Mode", "F11"),
        // Snippets
        ("snippets.open_user_file", "Snippets: Open User Snippets File", ""),
        // Theme management
        ("theme.open_folder", "Theme: Open Themes Folder", ""),
        ("theme.create_from_current", "Theme: Create Theme from Current", ""),
        ("theme.reload", "Theme: Reload User Themes", ""),
        // Language / i18n
        ("settings.change_language", "Settings: Change Language", ""),
        ("settings.language.en", "Language: English", ""),
        ("settings.language.de", "Language: Deutsch", ""),
        ("settings.language.fr", "Language: Fran\u{00E7}ais", ""),
        ("settings.language.es", "Language: Espa\u{00F1}ol", ""),
        ("settings.language.ja", "Language: \u{65E5}\u{672C}\u{8A9E}", ""),
        ("settings.language.zh", "Language: \u{4E2D}\u{6587}", ""),
        ("settings.language.ko", "Language: \u{D55C}\u{AD6D}\u{C5B4}", ""),
        ("settings.language.pt", "Language: Portugu\u{00EA}s", ""),
        ("settings.language.ru", "Language: \u{0420}\u{0443}\u{0441}\u{0441}\u{043A}\u{0438}\u{0439}", ""),
        // Plugins
        ("plugins.manage", "Plugins: Manage Plugins", ""),
        // Theme selector (individual built-in themes)
        ("view.theme.monokai", "Theme: Monokai", ""),
        ("view.theme.dracula", "Theme: Dracula", ""),
        ("view.theme.solarized_dark", "Theme: Solarized Dark", ""),
        ("view.theme.solarized_light", "Theme: Solarized Light", ""),
        ("view.theme.nord", "Theme: Nord", ""),
        ("view.theme.one_dark", "Theme: One Dark", ""),
        ("view.theme.gruvbox", "Theme: Gruvbox", ""),
        ("view.theme.tokyo_night", "Theme: Tokyo Night", ""),
        ("view.theme.dark", "Theme: Dark (Default)", ""),
        ("view.theme.light", "Theme: Light", ""),
    ];
    assert(r@.map_values(|e: (&str, &str, &str)| (e.0@, e.1@, e.2@)) =~= builtin_commands());
    r
}

/// All available built-in commands.
pub fn all_commands() -> (r: Vec<Command>)
    ensures
        commands_view(r@) == builtin_commands(),
{
    let entries = builtin_command_entries();
    let mut r: Vec<Command> = Vec::new();
    let n = entries.len();
    for i in 0..n
        invariant
            n == entries@.len(),
            entries@.map_values(|e: (&str, &str, &str)| (e.0@, e.1@, e.2@)) == builtin_commands(),
            commands_view(r@) == builtin_commands().take(i as int),
    {
        let (id, label, shortcut) = entries[i];
        let ghost before = r@;
        let c = Command { id: id.to_string(), label: label.to_string(), shortcut };
        proof {
            let ev = entries@.map_values(|e: (&str, &str, &str)| (e.0@, e.1@, e.2@));
            assert(ev[i as int] == (id@, label@, shortcut@));
            assert(command_view(c) == builtin_commands()[i as int]);
        }
        r.push(c);
        assert(r@ == before.push(c));
        assert(commands_view(r@) =~= commands_view(before).push(command_view(c)));
        assert(commands_view(r@) =~= builtin_commands().take(i + 1));
    }
    assert(builtin_commands().take(n as int) =~= builtin_commands());
    r
}

} // verus!

verus! {

/// State for the command palette.
pub struct CommandPaletteState {
    pub open: bool,
    pub query: String,
    pub selected: usize,
    /// Extra dynamic commands (e.g. user-defined themes) appended to the built-in list.
    pub dynamic_commands: Vec<Command>,
}

impl Default for CommandPaletteState {
    fn default() -> (r: CommandPaletteState)
        ensures
            !r.open,
            r.query@.len() == 0,
            r.selected == 0,
            r.dynamic_commands@.len() == 0,
    {
        CommandPaletteState {
            open: false,
            query: String::new(),
            selected: 0,
            dynamic_commands: Vec::new(),
        }
    }
}

/// The commands the palette lists for `query`: all of them for an empty
/// query, else those whose label the query matches, in order.
pub open spec fn listed(query: Seq<char>, cmds: Seq<(Seq<char>, Seq<char>, Seq<char>)>) -> Seq<
    (Seq<char>, Seq<char>, Seq<char>),
>
    decreases cmds.len(),
{
    if cmds.len() == 0 {
        Seq::empty()
    } else {
        let rest = listed(query, cmds.drop_last());
        if query.len() == 0 || label_matches(query, cmds.last().1) {
            rest.push(cmds.last())
        } else {
            rest
        }
    }
}

/// A copy of a command.
pub fn copy_command(c: &Command) -> (r: Command)
    ensures
        command_view(r) == command_view(*c),
{
    Command { id: c.id.clone(), label: c.label.clone(), shortcut: c.shortcut }
}

impl CommandPaletteState {
    /// The commands listed for the current query: the built-in commands
    /// followed by the dynamic ones, filtered by the query.
    pub fn filtered_commands(&self) -> (r: Vec<Command>)
        ensures
            commands_view(r@) == listed(
                self.query@,
                builtin_commands() + commands_view(self.dynamic_commands@),
            ),
    {
        let mut all = all_commands();
        let ghost base = commands_view(all@);
        assert(commands_view(self.dynamic_commands@.take(0)) =~= Seq::<(Seq<char>, Seq<char>, Seq<char>)>::empty());
        assert(base + Seq::<(Seq<char>, Seq<char>, Seq<char>)>::empty() =~= base);
        let m = self.dynamic_commands.len();
        for j in 0..m
            invariant
                m == self.dynamic_commands@.len(),
                base == builtin_commands(),
                commands_view(all@) == base + commands_view(self.dynamic_commands@.take(j as int)),
        {
            let ghost before = all@;
            let c = copy_command(&self.dynamic_commands[j]);
            all.push(c);
            assert(self.dynamic_commands@.take(j + 1) =~= self.dynamic_commands@.take(j as int).push(
                self.dynamic_commands@[j as int],
            ));
            assert(commands_view(all@) =~= commands_view(before).push(command_view(c)));
            assert(commands_view(all@) =~= base + commands_view(self.dynamic_commands@.take(j + 1)));
        }
        let ghost av = commands_view(all@);
        assert(commands_view(self.dynamic_commands@.take(m as int)) =~= commands_view(self.dynamic_commands@));
        let empty_query = self.query.as_str().unicode_len() == 0;
        let mut out: Vec<Command> = Vec::new();
        let n = all.len();
        assert(av.take(0) =~= Seq::<(Seq<char>, Seq<char>, Seq<char>)>::empty());
        for i in 0..n
            invariant
                n == all@.len(),
                av == commands_view(all@),
                empty_query == (self.query@.len() == 0),
                commands_view(out@) == listed(self.query@, av.take(i as int)),
        {
            let ghost tk = av.take(i + 1);
            assert(tk.drop_last() =~= av.take(i as int));
            let keep = empty_query || fuzzy_match(self.query.as_str(), all[i].label.as_str());
            if keep {
                let c = copy_command(&all[i]);
                let ghost before = out@;
                out.push(c);
                assert(commands_view(out@) =~= commands_view(before).push(command_view(c)));
            }
        }
        assert(av.take(n as int) =~= av);
        out
    }
}


impl CommandPaletteState {
    /// Keeps the selection within a list of `count` commands (0 when empty).
    pub fn clamp_selection(&mut self, count: usize)
        ensures
            final(self).selected == if old(self).selected >= count {
                if count == 0 {
                    0
                } else {
                    (count - 1) as usize
                }
            } else {
                old(self).selected
            },
            final(self).open == old(self).open,
            final(self).query == old(self).query,
            final(self).dynamic_commands == old(self).dynamic_commands,
    {
        if self.selected >= count {
            self.selected = count.saturating_sub(1);
        }
    }

    /// Handles the palette's keys for one frame over the listed commands:
    /// Up and Down move the selection within the list, Enter runs the
    /// selected command (closing the palette) and returns its id; otherwise a
    /// change of the query resets the selection to the first command.
    pub fn handle_keys(
        &mut self,
        filtered: &[Command],
        up: bool,
        down: bool,
        enter: bool,
        query_changed: bool,
    ) -> (r: Option<String>)
        requires
            filtered@.len() == 0 || old(self).selected < filtered@.len(),
        ensures
            ({
                let s1 = if up && old(self).selected > 0 {
                    old(self).selected - 1
                } else {
                    old(self).selected as int
                };
                let s2 = if down && s1 + 1 < filtered@.len() {
                    s1 + 1
                } else {
                    s1
                };
                if enter && filtered@.len() > 0 {
                    &&& r matches Some(id) && id@ == filtered@[s2].id@
                    &&& !final(self).open
                    &&& final(self).selected == s2
                } else {
                    &&& r is None
                    &&& final(self).open == old(self).open
                    &&& final(self).selected == if query_changed {
                        0
                    } else {
                        s2
                    }
                }
            }),
            final(self).query == old(self).query,
            final(self).dynamic_commands == old(self).dynamic_commands,
    {
        if up && self.selected > 0 {
            self.selected -= 1;
        }
        if down && filtered.len() > 0 && self.selected < filtered.len() - 1 {
            self.selected += 1;
        }
        if enter && filtered.len() > 0 {
            self.open = false;
            return Some(filtered[self.selected].id.clone());
        }
        if query_changed {
            self.selected = 0;
        }
        None
    }

    /// Runs the `i`-th listed command on a click: closes the palette and
    /// returns its id.
    pub fn click(&mut self, filtered: &[Command], i: usize) -> (r: String)
        requires
            i < filtered@.len(),
        ensures
            r@ == filtered@[i as int].id@,
            !final(self).open,
            final(self).selected == old(self).selected,
            final(self).query == old(self).query,
            final(self).dynamic_commands == old(self).dynamic_commands,
    {
        self.open = false;
        filtered[i].id.clone()
    }
}

/// The characters a theme's configuration key keeps: alphanumerics and `_`.
pub open spec fn key_char(c: char) -> bool {
    alphanumeric(c) || c == '_'
}

/// The configuration key of a theme name: lower case, spaces as `_`, and
/// only alphanumerics and `_` kept.
pub open spec fn theme_key(name: Seq<char>) -> Seq<char> {
    key_chars(lowercase(name))
}

/// `s` with spaces as `_` and only alphanumerics and `_` kept.
pub open spec fn key_chars(s: Seq<char>) -> Seq<char>
    decreases s.len(),
{
    if s.len() == 0 {
        Seq::empty()
    } else {
        let c = if s.last() == ' ' { '_' } else { s.last() };
        if key_char(c) {
            key_chars(s.drop_last()).push(c)
        } else {
            key_chars(s.drop_last())
        }
    }
}

/// The palette command that switches to a user theme.
pub fn theme_command(name: &str) -> (r: Command)
    ensures
        r.id@ == "view.theme."@ + theme_key(name@),
        r.label@ == "Theme: "@ + name@ + " (custom)"@,
        r.shortcut@ == ""@,
{
    let lower = to_lowercase(name);
    let cs = chars_of(lower.as_str());
    let mut id = "view.theme.".to_string();
    let ghost base = id@;
    assert(cs@.take(0) =~= Seq::<char>::empty());
    for i in 0..cs.len()
        invariant
            cs@ == lowercase(name@),
            base == "view.theme."@,
            id@ == base + key_chars(cs@.take(i as int)),
    {
        assert(cs@.take(i + 1).drop_last() =~= cs@.take(i as int));
        let c = if cs[i] == ' ' { '_' } else { cs[i] };
        if c == '_' || is_alphanumeric(c) {
            push_char(&mut id, c);
        }
    }
    assert(cs@.take(cs@.len() as int) =~= cs@);
    let mut label = "Theme: ".to_string();
    push_all(&mut label, name);
    push_all(&mut label, " (custom)");
    Command { id, label, shortcut: "" }
}

/// The palette command that runs a plugin's command.
pub fn plugin_command(plugin_id: &str, cmd: &PluginCommand) -> (r: Command)
    ensures
        r.id@ == "plugin."@ + plugin_id@ + "."@ + cmd.id@,
        r.label@ == cmd.label@,
        r.shortcut@ == ""@,
{
    let mut id = "plugin.".to_string();
    push_all(&mut id, plugin_id);
    push_all(&mut id, ".");
    push_all(&mut id, cmd.id.as_str());
    Command { id, label: cmd.label.clone(), shortcut: "" }
}

/// The id a plugin command has in the palette.
pub open spec fn plugin_command_id(plugin_id: Seq<char>, command_id: Seq<char>) -> Seq<char> {
    "plugin."@ + plugin_id + "."@ + command_id
}

/// Which plugin command a palette id runs: the first of `commands` (plugin
/// id and command) whose palette id it is.
pub fn find_plugin_command(full_id: &str, commands: &Vec<(String, PluginCommand)>) -> (r: Option<usize>)
    ensures
        match r {
            Some(k) => k < commands@.len() && full_id@ == plugin_command_id(commands@[k as int].0@, commands@[k as int].1.id@)
                && forall|j: int| 0 <= j < k ==> full_id@ != plugin_command_id(#[trigger] commands@[j].0@, commands@[j].1.id@),
            None => forall|j: int| 0 <= j < commands@.len() ==> full_id@ != plugin_command_id(#[trigger] commands@[j].0@, commands@[j].1.id@),
        },
{
    let n = commands.len();
    for k in 0..n
        invariant
            n == commands@.len(),
            forall|j: int| 0 <= j < k ==> full_id@ != plugin_command_id(#[trigger] commands@[j].0@, commands@[j].1.id@),
    {
        let c = plugin_command(commands[k].0.as_str(), &commands[k].1);
        if str_eq(c.id.as_str(), full_id) {
            return Some(k);
        }
    }
    None
}

/// The palette's extra commands: one per user theme (in the given order),
/// one per plugin command, then the plugin list.
pub fn dynamic_commands(user_themes: &Vec<String>, plugin_cmds: &Vec<(String, PluginCommand)>) -> (r: Vec<Command>)
    ensures
        r@.len() == user_themes@.len() + plugin_cmds@.len() + 1,
        forall|k: int|
            0 <= k < user_themes@.len() ==> (#[trigger] r@[k]).id@ == "view.theme."@ + theme_key(user_themes@[k]@)
                && r@[k].label@ == "Theme: "@ + user_themes@[k]@ + " (custom)"@ && r@[k].shortcut@ == ""@,
        forall|k: int|
            0 <= k < plugin_cmds@.len() ==> (#[trigger] r@[user_themes@.len() + k]).id@ == "plugin."@
                + plugin_cmds@[k].0@ + "."@ + plugin_cmds@[k].1.id@ && r@[user_themes@.len() + k].label@
                == plugin_cmds@[k].1.label@ && r@[user_themes@.len() + k].shortcut@ == ""@,
        r@.last().id@ == "plugins.list"@,
        r@.last().label@ == "Plugins: List Installed"@,
        r@.last().shortcut@ == ""@,
{
    let mut out: Vec<Command> = Vec::new();
    let n = user_themes.len();
    for i in 0..n
        invariant
            n == user_themes@.len(),
            out@.len() == i,
            forall|k: int|
                0 <= k < i ==> (#[trigger] out@[k]).id@ == "view.theme."@ + theme_key(user_themes@[k]@)
                    && out@[k].label@ == "Theme: "@ + user_themes@[k]@ + " (custom)"@ && out@[k].shortcut@ == ""@,
    {
        out.push(theme_command(user_themes[i].as_str()));
    }
    let m = plugin_cmds.len();
    for j in 0..m
        invariant
            n == user_themes@.len(),
            m == plugin_cmds@.len(),
            out@.len() == n + j,
            forall|k: int|
                0 <= k < n ==> (#[trigger] out@[k]).id@ == "view.theme."@ + theme_key(user_themes@[k]@)
                    && out@[k].label@ == "Theme: "@ + user_themes@[k]@ + " (custom)"@ && out@[k].shortcut@ == ""@,
            forall|k: int|
                0 <= k < j ==> (#[trigger] out@[n + k]).id@ == "plugin."@ + plugin_cmds@[k].0@ + "."@
                    + plugin_cmds@[k].1.id@ && out@[n + k].label@ == plugin_cmds@[k].1.label@ && out@[n + k].shortcut@
                    == ""@,
    {
        out.push(plugin_command(plugin_cmds[j].0.as_str(), &plugin_cmds[j].1));
    }
    out.push(Command { id: "plugins.list".to_string(), label: "Plugins: List Installed".to_string(), shortcut: "" });
    out
}

} // verus!
