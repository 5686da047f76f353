//! Internationalization (i18n): per-locale string tables and lookup.
//!
//! The active locale is a value the caller keeps (see [`set_locale`] and
//! [`get_locale`]); [`t`] looks a key up in the active locale's table, falls
//! back to English when the key is missing there, and returns the key itself
//! when English lacks it too.

use vstd::prelude::*;
use crate::text::str_eq;

verus! {

/// Supported locales.
#[derive(Debug, Clone, Copy, PartialEq, Eq, Hash, Structural)]
pub enum Locale {
    English,
    German,
    French,
    Spanish,
    Japanese,
    Chinese,
    Korean,
    Portuguese,
    Russian,
}

/// The short identifier of a locale ("en", "de", ...).
pub open spec fn locale_id(l: Locale) -> Seq<char> {
    match l {
        Locale::English => seq!['e', 'n'],
        Locale::German => seq!['d', 'e'],
        Locale::French => seq!['f', 'r'],
        Locale::Spanish => seq!['e', 's'],
        Locale::Japanese => seq!['j', 'a'],
        Locale::Chinese => seq!['z', 'h'],
        Locale::Korean => seq!['k', 'o'],
        Locale::Portuguese => seq!['p', 't'],
        Locale::Russian => seq!['r', 'u'],
    }
}

/// The name of a locale in its own language.
pub open spec fn locale_name(l: Locale) -> Seq<char> {
    match l {
        Locale::English => seq!['E', 'n', 'g', 'l', 'i', 's', 'h'],
        Locale::German => seq!['D', 'e', 'u', 't', 's', 'c', 'h'],
        Locale::French => seq!['F', 'r', 'a', 'n', '\u{00E7}', 'a', 'i', 's'],
        Locale::Spanish => seq!['E', 's', 'p', 'a', '\u{00F1}', 'o', 'l'],
        Locale::Japanese => seq!['\u{65E5}', '\u{672C}', '\u{8A9E}'],
        Locale::Chinese => seq!['\u{4E2D}', '\u{6587}'],
        Locale::Korean => seq!['\u{D55C}', '\u{AD6D}', '\u{C5B4}'],
        Locale::Portuguese => seq!['P', 'o', 'r', 't', 'u', 'g', 'u', '\u{00EA}', 's'],
        Locale::Russian => seq!['\u{0420}', '\u{0443}', '\u{0441}', '\u{0441}', '\u{043A}', '\u{0438}', '\u{0439}'],
    }
}

/// All locales, in display order.
pub open spec fn all_locales() -> Seq<Locale> {
    seq![Locale::English, Locale::German, Locale::French, Locale::Spanish, Locale::Japanese, Locale::Chinese, Locale::Korean, Locale::Portuguese, Locale::Russian]
}

/// The locale whose identifier is `id`, if any.
pub open spec fn locale_of_id(id: Seq<char>) -> Option<Locale> {
    if id == seq!['e', 'n'] {
        Some(Locale::English)
    }     else if id == seq!['d', 'e'] {
        Some(Locale::German)
    }     else if id == seq!['f', 'r'] {
        Some(Locale::French)
    }     else if id == seq!['e', 's'] {
        Some(Locale::Spanish)
    }     else if id == seq!['j', 'a'] {
        Some(Locale::Japanese)
    }     else if id == seq!['z', 'h'] {
        Some(Locale::Chinese)
    }     else if id == seq!['k', 'o'] {
        Some(Locale::Korean)
    }     else if id == seq!['p', 't'] {
        Some(Locale::Portuguese)
    }     else if id == seq!['r', 'u'] {
        Some(Locale::Russian)
    } else {
        None
    }
}

impl Locale {
    /// All available locales, in display order.
    pub fn all() -> (r: Vec<Locale>)
        ensures
            r@ == all_locales(),
    {
        let r = vec![Locale::English, Locale::German, Locale::French, Locale::Spanish, Locale::Japanese, Locale::Chinese, Locale::Korean, Locale::Portuguese, Locale::Russian];
        assert(r@ =~= all_locales());
        r
    }

    /// The human-readable name of the locale (in its own language).
    pub fn display_name(self) -> (r: &'static str)
        ensures
            r@ == locale_name(self),
    {
        match self {
            Locale::English => {
                proof {
                    reveal_strlit("English");
                }
                "English"
            },
            Locale::German => {
                proof {
                    reveal_strlit("Deutsch");
                }
                "Deutsch"
            },
            Locale::French => {
                proof {
                    reveal_strlit("Fran\u{00E7}ais");
                }
                "Fran\u{00E7}ais"
            },
            Locale::Spanish => {
                proof {
                    reveal_strlit("Espa\u{00F1}ol");
                }
                "Espa\u{00F1}ol"
            },
            Locale::Japanese => {
                proof {
                    reveal_strlit("\u{65E5}\u{672C}\u{8A9E}");
                }
                "\u{65E5}\u{672C}\u{8A9E}"
            },
            Locale::Chinese => {
                proof {
                    reveal_strlit("\u{4E2D}\u{6587}");
                }
                "\u{4E2D}\u{6587}"
            },
            Locale::Korean => {
                proof {
                    reveal_strlit("\u{D55C}\u{AD6D}\u{C5B4}");
                }
                "\u{D55C}\u{AD6D}\u{C5B4}"
            },
            Locale::Portuguese => {
                proof {
                    reveal_strlit("Portugu\u{00EA}s");
                }
                "Portugu\u{00EA}s"
            },
            Locale::Russian => {
                proof {
                    reveal_strlit("\u{0420}\u{0443}\u{0441}\u{0441}\u{043A}\u{0438}\u{0439}");
                }
                "\u{0420}\u{0443}\u{0441}\u{0441}\u{043A}\u{0438}\u{0439}"
            },
        }
    }

    /// Short identifier used for config serialization (e.g. "en", "de").
    pub fn id(self) -> (r: &'static str)
        ensures
            r@ == locale_id(self),
    {
        match self {
            Locale::English => {
                proof {
                    reveal_strlit("en");
                }
                "en"
            },
            Locale::German => {
                proof {
                    reveal_strlit("de");
                }
                "de"
            },
            Locale::French => {
                proof {
                    reveal_strlit("fr");
                }
                "fr"
            },
            Locale::Spanish => {
                proof {
                    reveal_strlit("es");
                }
                "es"
            },
            Locale::Japanese => {
                proof {
                    reveal_strlit("ja");
                }
                "ja"
            },
            Locale::Chinese => {
                proof {
                    reveal_strlit("zh");
                }
                "zh"
            },
            Locale::Korean => {
                proof {
                    reveal_strlit("ko");
                }
                "ko"
            },
            Locale::Portuguese => {
                proof {
                    reveal_strlit("pt");
                }
                "pt"
            },
            Locale::Russian => {
                proof {
                    reveal_strlit("ru");
                }
                "ru"
            },
        }
    }

    /// Parse a locale from its short id. Returns `None` for unknown ids.
    pub fn from_id(id: &str) -> (r: Option<Locale>)
        ensures
            r == locale_of_id(id@),
    {
        proof {
            reveal_strlit("en");
            assert("en"@ =~= locale_id(Locale::English));
        }
        if str_eq(id, "en") {
            return Some(Locale::English);
        }
        proof {
            reveal_strlit("de");
            assert("de"@ =~= locale_id(Locale::German));
        }
        if str_eq(id, "de") {
            return Some(Locale::German);
        }
        proof {
            reveal_strlit("fr");
            assert("fr"@ =~= locale_id(Locale::French));
        }
        if str_eq(id, "fr") {
            return Some(Locale::French);
        }
        proof {
            reveal_strlit("es");
            assert("es"@ =~= locale_id(Locale::Spanish));
        }
        if str_eq(id, "es") {
            return Some(Locale::Spanish);
        }
        proof {
            reveal_strlit("ja");
            assert("ja"@ =~= locale_id(Locale::Japanese));
        }
        if str_eq(id, "ja") {
            return Some(Locale::Japanese);
        }
        proof {
            reveal_strlit("zh");
            assert("zh"@ =~= locale_id(Locale::Chinese));
        }
        if str_eq(id, "zh") {
            return Some(Locale::Chinese);
        }
        proof {
            reveal_strlit("ko");
            assert("ko"@ =~= locale_id(Locale::Korean));
        }
        if str_eq(id, "ko") {
            return Some(Locale::Korean);
        }
        proof {
            reveal_strlit("pt");
            assert("pt"@ =~= locale_id(Locale::Portuguese));
        }
        if str_eq(id, "pt") {
            return Some(Locale::Portuguese);
        }
        proof {
            reveal_strlit("ru");
            assert("ru"@ =~= locale_id(Locale::Russian));
        }
        if str_eq(id, "ru") {
            return Some(Locale::Russian);
        }
        None
    }
}

impl Default for Locale {
    fn default() -> (r: Locale)
        ensures
            r == Locale::English,
    {
        Locale::English
    }
}

/// Every locale's identifier reads back as that locale.
pub proof fn lemma_locale_id_roundtrip(l: Locale)
    ensures
        locale_of_id(locale_id(l)) == Some(l),
{
}

/// Every locale has a non-empty display name.
pub proof fn lemma_locale_name_nonempty(l: Locale)
    ensures
        locale_name(l).len() > 0,
{
}

// -- Active locale ------------------------------------------------------------

/// Set the active locale.
pub fn set_locale(current: &mut Locale, locale: Locale)
    ensures
        *final(current) == locale,
{
    *current = locale;
}

/// Get the active locale.
pub fn get_locale(current: &Locale) -> (r: Locale)
    ensures
        r == *current,
{
    *current
}

// -- Translation tables -------------------------------------------------------

/// The abstract value of a table of (key, text) pairs.
pub open spec fn table_view(s: Seq<(&str, &str)>) -> Seq<(Seq<char>, Seq<char>)> {
    s.map_values(|e: (&str, &str)| (e.0@, e.1@))
}

/// The text stored under `key` (the last entry for the key wins).
pub open spec fn lookup(entries: Seq<(Seq<char>, Seq<char>)>, key: Seq<char>) -> Option<Seq<char>>
    decreases entries.len(),
{
    if entries.len() == 0 {
        None
    } else if entries.last().0 == key {
        Some(entries.last().1)
    } else {
        lookup(entries.drop_last(), key)
    }
}

/// The translation table of a locale; locales without a table have none.
pub open spec fn locale_table(l: Locale) -> Option<Seq<(Seq<char>, Seq<char>)>> {
    match l {
        Locale::English => Some(english_table()),
        Locale::German => Some(german_table()),
        Locale::French => Some(french_table()),
        Locale::Spanish => Some(spanish_table()),
        Locale::Japanese => Some(japanese_table()),
        _ => None,
    }
}

/// The text shown for `key` in locale `l`: the locale's own entry, else the
/// English entry, else the key itself.
pub open spec fn translate(l: Locale, key: Seq<char>) -> Seq<char> {
    match locale_table(l) {
        Some(tab) if lookup(tab, key) is Some => lookup(tab, key)->0,
        _ => match lookup(english_table(), key) {
            Some(v) => v,
            None => key,
        },
    }
}

/// The English strings.
pub open spec fn english_table() -> Seq<(Seq<char>, Seq<char>)> {
    seq![
        ("menu.file"@, "File"@),
        ("menu.edit"@, "Edit"@),
        ("menu.view"@, "View"@),
        ("menu.selection"@, "Selection"@),
        ("menu.go"@, "Go"@),
        ("menu.terminal"@, "Terminal"@),
        ("menu.settings"@, "Settings"@),
        ("menu.help"@, "Help"@),
        ("file.new"@, "New File"@),
        ("file.open"@, "Open File"@),
        ("file.open_folder"@, "Open Folder"@),
        ("file.save"@, "Save"@),
        ("file.save_as"@, "Save As"@),
        ("file.close_tab"@, "Close Tab"@),
        ("file.exit"@, "Exit"@),
        ("edit.undo"@, "Undo"@),
        ("edit.redo"@, "Redo"@),
        ("edit.cut"@, "Cut"@),
        ("edit.copy"@, "Copy"@),
        ("edit.paste"@, "Paste"@),
        ("edit.find"@, "Find"@),
        ("edit.find_in_files"@, "Find in Files"@),
        ("edit.replace"@, "Replace"@),
        ("edit.select_all"@, "Select All"@),
        ("edit.toggle_comment"@, "Toggle Comment"@),
        ("view.command_palette"@, "Command Palette"@),
        ("view.toggle_sidebar"@, "Toggle Sidebar"@),
        ("view.toggle_terminal"@, "Toggle Terminal"@),
        ("view.minimap"@, "Minimap"@),
        ("view.line_numbers"@, "Line Numbers"@),
        ("view.word_wrap"@, "Word Wrap"@),
        ("view.markdown_preview"@, "Markdown Preview"@),
        ("view.zen_mode"@, "Zen Mode"@),
        ("view.zoom_in"@, "Zoom In"@),
        ("view.zoom_out"@, "Zoom Out"@),
        ("selection.add_cursor_above"@, "Add Cursor Above"@),
        ("selection.add_cursor_below"@, "Add Cursor Below"@),
        ("selection.select_all_occurrences"@, "Select All Occurrences"@),
        ("selection.add_next_occurrence"@, "Add Next Occurrence"@),
        ("go.go_to_line"@, "Go to Line"@),
        ("go.go_to_file"@, "Go to File"@),
        ("go.go_to_definition"@, "Go to Definition"@),
        ("go.go_to_references"@, "Go to References"@),
        ("go.rename_symbol"@, "Rename Symbol"@),
        ("terminal.new"@, "New Terminal"@),
        ("terminal.send_selection"@, "Send Selection to Terminal"@),
        ("settings.theme"@, "Theme"@),
        ("settings.vim_mode"@, "Vim Mode"@),
        ("settings.font_size"@, "Font Size:"@),
        ("settings.tab_size"@, "Tab Size"@),
        ("settings.auto_save"@, "Auto Save"@),
        ("settings.language"@, "Language"@),
        ("settings.open_themes_folder"@, "Open Themes Folder..."@),
        ("settings.create_theme"@, "Create Theme from Current..."@),
        ("settings.reload_themes"@, "Reload Themes"@),
        ("help.about"@, "About OpenEdit"@),
        ("help.shortcuts"@, "Keyboard Shortcuts"@),
        ("status.line"@, "Ln"@),
        ("status.col"@, "Col"@),
        ("status.chars_selected"@, "chars"@),
        ("status.lines_selected"@, "lines selected"@),
        ("status.read_only"@, "READ-ONLY"@),
        ("status.recording"@, "REC"@),
        ("status.plain_text"@, "Plain Text"@),
        ("tab.close"@, "Close"@),
        ("tab.close_others"@, "Close Others"@),
        ("tab.close_all"@, "Close All"@),
        ("tab.close_to_right"@, "Close to the Right"@),
        ("tab.copy_path"@, "Copy Path"@),
        ("tab.reveal_in_file_manager"@, "Reveal in File Manager"@),
        ("tab.new_tab"@, "New Tab"@),
        ("dialog.save"@, "Save"@),
        ("dialog.dont_save"@, "Don't Save"@),
        ("dialog.cancel"@, "Cancel"@),
        ("dialog.ok"@, "OK"@),
        ("dialog.yes"@, "Yes"@),
        ("dialog.no"@, "No"@),
        ("dialog.close"@, "Close"@),
        ("dialog.reload"@, "Reload"@),
        ("dialog.keep"@, "Keep"@),
        ("dialog.unsaved_title"@, "Unsaved Changes"@),
        ("dialog.unsaved_message"@, "Do you want to save changes before closing?"@),
        ("dialog.file_changed_title"@, "File Changed"@),
        ("dialog.file_changed_message"@, "This file has been modified externally. Reload?"@),
        ("search.find"@, "Find:"@),
        ("search.replace_with"@, "Replace:"@),
        ("search.previous"@, "Previous"@),
        ("search.next"@, "Next"@),
        ("search.replace"@, "Replace"@),
        ("search.replace_all"@, "Replace All"@),
        ("search.case_sensitive"@, "Case Sensitive"@),
        ("search.whole_word"@, "Whole Word"@),
        ("search.regex"@, "Regex"@),
        ("command_palette.hint"@, "Type a command..."@),
        ("cmd.settings.change_language"@, "Settings: Change Language"@),
    ]
}

/// The English (key, text) pairs.
pub fn english_entries() -> (r: Vec<(&'static str, &'static str)>)
    ensures
        table_view(r@) == english_table(),
{
    let r = vec![
        ("menu.file", "File"),
        ("menu.edit", "Edit"),
        ("menu.view", "View"),
        ("menu.selection", "Selection"),
        ("menu.go", "Go"),
        ("menu.terminal", "Terminal"),
        ("menu.settings", "Settings"),
        ("menu.help", "Help"),
        ("file.new", "New File"),
        ("file.open", "Open File"),
        ("file.open_folder", "Open Folder"),
        ("file.save", "Save"),
        ("file.save_as", "Save As"),
        ("file.close_tab", "Close Tab"),
        ("file.exit", "Exit"),
        ("edit.undo", "Undo"),
        ("edit.redo", "Redo"),
        ("edit.cut", "Cut"),
        ("edit.copy", "Copy"),
        ("edit.paste", "Paste"),
        ("edit.find", "Find"),
        ("edit.find_in_files", "Find in Files"),
        ("edit.replace", "Replace"),
        ("edit.select_all", "Select All"),
        ("edit.toggle_comment", "Toggle Comment"),
        ("view.command_palette", "Command Palette"),
        ("view.toggle_sidebar", "Toggle Sidebar"),
        ("view.toggle_terminal", "Toggle Terminal"),
        ("view.minimap", "Minimap"),
        ("view.line_numbers", "Line Numbers"),
        ("view.word_wrap", "Word Wrap"),
        ("view.markdown_preview", "Markdown Preview"),
        ("view.zen_mode", "Zen Mode"),
        ("view.zoom_in", "Zoom In"),
        ("view.zoom_out", "Zoom Out"),
        ("selection.add_cursor_above", "Add Cursor Above"),
        ("selection.add_cursor_below", "Add Cursor Below"),
        ("selection.select_all_occurrences", "Select All Occurrences"),
        ("selection.add_next_occurrence", "Add Next Occurrence"),
        ("go.go_to_line", "Go to Line"),
        ("go.go_to_file", "Go to File"),
        ("go.go_to_definition", "Go to Definition"),
        ("go.go_to_references", "Go to References"),
        ("go.rename_symbol", "Rename Symbol"),
        ("terminal.new", "New Terminal"),
        ("terminal.send_selection", "Send Selection to Terminal"),
        ("settings.theme", "Theme"),
        ("settings.vim_mode", "Vim Mode"),
        ("settings.font_size", "Font Size:"),
        ("settings.tab_size", "Tab Size"),
        ("settings.auto_save", "Auto Save"),
        ("settings.language", "Language"),
        ("settings.open_themes_folder", "Open Themes Folder..."),
        ("settings.create_theme", "Create Theme from Current..."),
        ("settings.reload_themes", "Reload Themes"),
        ("help.about", "About OpenEdit"),
        ("help.shortcuts", "Keyboard Shortcuts"),
        ("status.line", "Ln"),
        ("status.col", "Col"),
        ("status.chars_selected", "chars"),
        ("status.lines_selected", "lines selected"),
        ("status.read_only", "READ-ONLY"),
        ("status.recording", "REC"),
        ("status.plain_text", "Plain Text"),
        ("tab.close", "Close"),
        ("tab.close_others", "Close Others"),
        ("tab.close_all", "Close All"),
        ("tab.close_to_right", "Close to the Right"),
        ("tab.copy_path", "Copy Path"),
        ("tab.reveal_in_file_manager", "Reveal in File Manager"),
        ("tab.new_tab", "New Tab"),
        ("dialog.save", "Save"),
        ("dialog.dont_save", "Don't Save"),
        ("dialog.cancel", "Cancel"),
        ("dialog.ok", "OK"),
        ("dialog.yes", "Yes"),
        ("dialog.no", "No"),
        ("dialog.close", "Close"),
        ("dialog.reload", "Reload"),
        ("dialog.keep", "Keep"),
        ("dialog.unsaved_title", "Unsaved Changes"),
        ("dialog.unsaved_message", "Do you want to save changes before closing?"),
        ("dialog.file_changed_title", "File Changed"),
        ("dialog.file_changed_message", "This file has been modified externally. Reload?"),
        ("search.find", "Find:"),
        ("search.replace_with", "Replace:"),
        ("search.previous", "Previous"),
        ("search.next", "Next"),
        ("search.replace", "Replace"),
        ("search.replace_all", "Replace All"),
        ("search.case_sensitive", "Case Sensitive"),
        ("search.whole_word", "Whole Word"),
        ("search.regex", "Regex"),
        ("command_palette.hint", "Type a command..."),
        ("cmd.settings.change_language", "Settings: Change Language"),
    ];
    assert(table_view(r@) =~= english_table());
    r
}

/// The German strings.
pub open spec fn german_table() -> Seq<(Seq<char>, Seq<char>)> {
    seq![
        ("menu.file"@, "Datei"@),
        ("menu.edit"@, "Bearbeiten"@),
        ("menu.view"@, "Ansicht"@),
        ("menu.selection"@, "Auswahl"@),
        ("menu.go"@, "Gehe zu"@),
        ("menu.terminal"@, "Terminal"@),
        ("menu.settings"@, "Einstellungen"@),
        ("menu.help"@, "Hilfe"@),
        ("file.new"@, "Neue Datei"@),
        ("file.open"@, "Datei \u{00F6}ffnen"@),
        ("file.open_folder"@, "Ordner \u{00F6}ffnen"@),
        ("file.save"@, "Speichern"@),
        ("file.save_as"@, "Speichern unter"@),
        ("file.close_tab"@, "Tab schlie\u{00DF}en"@),
        ("file.exit"@, "Beenden"@),
        ("edit.undo"@, "R\u{00FC}ckg\u{00E4}ngig"@),
        ("edit.redo"@, "Wiederholen"@),
        ("edit.cut"@, "Ausschneiden"@),
        ("edit.copy"@, "Kopieren"@),
        ("edit.paste"@, "Einf\u{00FC}gen"@),
        ("edit.find"@, "Suchen"@),
        ("edit.find_in_files"@, "In Dateien suchen"@),
        ("edit.replace"@, "Ersetzen"@),
        ("edit.select_all"@, "Alles ausw\u{00E4}hlen"@),
        ("edit.toggle_comment"@, "Kommentar umschalten"@),
        ("view.command_palette"@, "Befehlspalette"@),
        ("view.toggle_sidebar"@, "Seitenleiste umschalten"@),
        ("view.toggle_terminal"@, "Terminal umschalten"@),
        ("view.minimap"@, "Minimap"@),
        ("view.line_numbers"@, "Zeilennummern"@),
        ("view.word_wrap"@, "Zeilenumbruch"@),
        ("view.markdown_preview"@, "Markdown-Vorschau"@),
        ("view.zen_mode"@, "Zen-Modus"@),
        ("view.zoom_in"@, "Vergr\u{00F6}\u{00DF}ern"@),
        ("view.zoom_out"@, "Verkleinern"@),
        ("selection.add_cursor_above"@, "Cursor dar\u{00FC}ber hinzuf\u{00FC}gen"@),
        ("selection.add_cursor_below"@, "Cursor darunter hinzuf\u{00FC}gen"@),
        ("selection.select_all_occurrences"@, "Alle Vorkommen ausw\u{00E4}hlen"@),
        ("selection.add_next_occurrence"@, "N\u{00E4}chstes Vorkommen hinzuf\u{00FC}gen"@),
        ("go.go_to_line"@, "Gehe zu Zeile"@),
        ("go.go_to_file"@, "Gehe zu Datei"@),
        ("go.go_to_definition"@, "Gehe zu Definition"@),
        ("go.go_to_references"@, "Gehe zu Referenzen"@),
        ("go.rename_symbol"@, "Symbol umbenennen"@),
        ("terminal.new"@, "Neues Terminal"@),
        ("terminal.send_selection"@, "Auswahl an Terminal senden"@),
        ("settings.theme"@, "Design"@),
        ("settings.vim_mode"@, "Vim-Modus"@),
        ("settings.font_size"@, "Schriftgr\u{00F6}\u{00DF}e:"@),
        ("settings.tab_size"@, "Tabgr\u{00F6}\u{00DF}e"@),
        ("settings.auto_save"@, "Automatisch speichern"@),
        ("settings.language"@, "Sprache"@),
        ("settings.open_themes_folder"@, "Design-Ordner \u{00F6}ffnen\u{2026}"@),
        ("settings.create_theme"@, "Design aus aktuellem erstellen\u{2026}"@),
        ("settings.reload_themes"@, "Designs neu laden"@),
        ("help.about"@, "\u{00DC}ber OpenEdit"@),
        ("help.shortcuts"@, "Tastaturk\u{00FC}rzel"@),
        ("status.line"@, "Zl"@),
        ("status.col"@, "Sp"@),
        ("status.chars_selected"@, "Zeichen"@),
        ("status.lines_selected"@, "Zeilen ausgew\u{00E4}hlt"@),
        ("status.read_only"@, "SCHREIBGESCH\u{00DC}TZT"@),
        ("status.recording"@, "AUFN"@),
        ("status.plain_text"@, "Nur Text"@),
        ("tab.close"@, "Schlie\u{00DF}en"@),
        ("tab.close_others"@, "Andere schlie\u{00DF}en"@),
        ("tab.close_all"@, "Alle schlie\u{00DF}en"@),
        ("tab.close_to_right"@, "Rechts davon schlie\u{00DF}en"@),
        ("tab.copy_path"@, "Pfad kopieren"@),
        ("tab.reveal_in_file_manager"@, "Im Dateimanager anzeigen"@),
        ("tab.new_tab"@, "Neuer Tab"@),
        ("dialog.save"@, "Speichern"@),
        ("dialog.dont_save"@, "Nicht speichern"@),
        ("dialog.cancel"@, "Abbrechen"@),
        ("dialog.ok"@, "OK"@),
        ("dialog.yes"@, "Ja"@),
        ("dialog.no"@, "Nein"@),
        ("dialog.close"@, "Schlie\u{00DF}en"@),
        ("dialog.reload"@, "Neu laden"@),
        ("dialog.keep"@, "Behalten"@),
        ("dialog.unsaved_title"@, "Ungespeicherte \u{00C4}nderungen"@),
        ("dialog.unsaved_message"@, "M\u{00F6}chten Sie die \u{00C4}nderungen vor dem Schlie\u{00DF}en speichern?"@),
        ("dialog.file_changed_title"@, "Datei ge\u{00E4}ndert"@),
        ("dialog.file_changed_message"@, "Diese Datei wurde extern ge\u{00E4}ndert. Neu laden?"@),
        ("search.find"@, "Suchen:"@),
        ("search.replace_with"@, "Ersetzen:"@),
        ("search.previous"@, "Vorheriges"@),
        ("search.next"@, "N\u{00E4}chstes"@),
        ("search.replace"@, "Ersetzen"@),
        ("search.replace_all"@, "Alle ersetzen"@),
        ("search.case_sensitive"@, "Gro\u{00DF}/Klein"@),
        ("search.whole_word"@, "Ganzes Wort"@),
        ("search.regex"@, "Regex"@),
        ("command_palette.hint"@, "Befehl eingeben\u{2026}"@),
        ("cmd.settings.change_language"@, "Einstellungen: Sprache \u{00E4}ndern"@),
    ]
}

/// The German (key, text) pairs.
pub fn german_entries() -> (r: Vec<(&'static str, &'static str)>)
    ensures
        table_view(r@) == german_table(),
{
    let r = vec![
        ("menu.file", "Datei"),
        ("menu.edit", "Bearbeiten"),
        ("menu.view", "Ansicht"),
        ("menu.selection", "Auswahl"),
        ("menu.go", "Gehe zu"),
        ("menu.terminal", "Terminal"),
        ("menu.settings", "Einstellungen"),
        ("menu.help", "Hilfe"),
        ("file.new", "Neue Datei"),
        ("file.open", "Datei \u{00F6}ffnen"),
        ("file.open_folder", "Ordner \u{00F6}ffnen"),
        ("file.save", "Speichern"),
        ("file.save_as", "Speichern unter"),
        ("file.close_tab", "Tab schlie\u{00DF}en"),
        ("file.exit", "Beenden"),
        ("edit.undo", "R\u{00FC}ckg\u{00E4}ngig"),
        ("edit.redo", "Wiederholen"),
        ("edit.cut", "Ausschneiden"),
        ("edit.copy", "Kopieren"),
        ("edit.paste", "Einf\u{00FC}gen"),
        ("edit.find", "Suchen"),
        ("edit.find_in_files", "In Dateien suchen"),
        ("edit.replace", "Ersetzen"),
        ("edit.select_all", "Alles ausw\u{00E4}hlen"),
        ("edit.toggle_comment", "Kommentar umschalten"),
        ("view.command_palette", "Befehlspalette"),
        ("view.toggle_sidebar", "Seitenleiste umschalten"),
        ("view.toggle_terminal", "Terminal umschalten"),
        ("view.minimap", "Minimap"),
        ("view.line_numbers", "Zeilennummern"),
        ("view.word_wrap", "Zeilenumbruch"),
        ("view.markdown_preview", "Markdown-Vorschau"),
        ("view.zen_mode", "Zen-Modus"),
        ("view.zoom_in", "Vergr\u{00F6}\u{00DF}ern"),
        ("view.zoom_out", "Verkleinern"),
        ("selection.add_cursor_above", "Cursor dar\u{00FC}ber hinzuf\u{00FC}gen"),
        ("selection.add_cursor_below", "Cursor darunter hinzuf\u{00FC}gen"),
        ("selection.select_all_occurrences", "Alle Vorkommen ausw\u{00E4}hlen"),
        ("selection.add_next_occurrence", "N\u{00E4}chstes Vorkommen hinzuf\u{00FC}gen"),
        ("go.go_to_line", "Gehe zu Zeile"),
        ("go.go_to_file", "Gehe zu Datei"),
        ("go.go_to_definition", "Gehe zu Definition"),
        ("go.go_to_references", "Gehe zu Referenzen"),
        ("go.rename_symbol", "Symbol umbenennen"),
        ("terminal.new", "Neues Terminal"),
        ("terminal.send_selection", "Auswahl an Terminal senden"),
        ("settings.theme", "Design"),
        ("settings.vim_mode", "Vim-Modus"),
        ("settings.font_size", "Schriftgr\u{00F6}\u{00DF}e:"),
        ("settings.tab_size", "Tabgr\u{00F6}\u{00DF}e"),
        ("settings.auto_save", "Automatisch speichern"),
        ("settings.language", "Sprache"),
        ("settings.open_themes_folder", "Design-Ordner \u{00F6}ffnen\u{2026}"),
        ("settings.create_theme", "Design aus aktuellem erstellen\u{2026}"),
        ("settings.reload_themes", "Designs neu laden"),
        ("help.about", "\u{00DC}ber OpenEdit"),
        ("help.shortcuts", "Tastaturk\u{00FC}rzel"),
        ("status.line", "Zl"),
        ("status.col", "Sp"),
        ("status.chars_selected", "Zeichen"),
        ("status.lines_selected", "Zeilen ausgew\u{00E4}hlt"),
        ("status.read_only", "SCHREIBGESCH\u{00DC}TZT"),
        ("status.recording", "AUFN"),
        ("status.plain_text", "Nur Text"),
        ("tab.close", "Schlie\u{00DF}en"),
        ("tab.close_others", "Andere schlie\u{00DF}en"),
        ("tab.close_all", "Alle schlie\u{00DF}en"),
        ("tab.close_to_right", "Rechts davon schlie\u{00DF}en"),
        ("tab.copy_path", "Pfad kopieren"),
        ("tab.reveal_in_file_manager", "Im Dateimanager anzeigen"),
        ("tab.new_tab", "Neuer Tab"),
        ("dialog.save", "Speichern"),
        ("dialog.dont_save", "Nicht speichern"),
        ("dialog.cancel", "Abbrechen"),
        ("dialog.ok", "OK"),
        ("dialog.yes", "Ja"),
        ("dialog.no", "Nein"),
        ("dialog.close", "Schlie\u{00DF}en"),
        ("dialog.reload", "Neu laden"),
        ("dialog.keep", "Behalten"),
        ("dialog.unsaved_title", "Ungespeicherte \u{00C4}nderungen"),
        ("dialog.unsaved_message", "M\u{00F6}chten Sie die \u{00C4}nderungen vor dem Schlie\u{00DF}en speichern?"),
        ("dialog.file_changed_title", "Datei ge\u{00E4}ndert"),
        ("dialog.file_changed_message", "Diese Datei wurde extern ge\u{00E4}ndert. Neu laden?"),
        ("search.find", "Suchen:"),
        ("search.replace_with", "Ersetzen:"),
        ("search.previous", "Vorheriges"),
        ("search.next", "N\u{00E4}chstes"),
        ("search.replace", "Ersetzen"),
        ("search.replace_all", "Alle ersetzen"),
        ("search.case_sensitive", "Gro\u{00DF}/Klein"),
        ("search.whole_word", "Ganzes Wort"),
        ("search.regex", "Regex"),
        ("command_palette.hint", "Befehl eingeben\u{2026}"),
        ("cmd.settings.change_language", "Einstellungen: Sprache \u{00E4}ndern"),
    ];
    assert(table_view(r@) =~= german_table());
    r
}

/// The French strings.
pub open spec fn french_table() -> Seq<(Seq<char>, Seq<char>)> {
    seq![
        ("menu.file"@, "Fichier"@),
        ("menu.edit"@, "\u{00C9}dition"@),
        ("menu.view"@, "Affichage"@),
        ("menu.selection"@, "S\u{00E9}lection"@),
        ("menu.go"@, "Aller"@),
        ("menu.terminal"@, "Terminal"@),
        ("menu.settings"@, "Param\u{00E8}tres"@),
        ("menu.help"@, "Aide"@),
        ("file.new"@, "Nouveau fichier"@),
        ("file.open"@, "Ouvrir un fichier"@),
        ("file.open_folder"@, "Ouvrir un dossier"@),
        ("file.save"@, "Enregistrer"@),
        ("file.save_as"@, "Enregistrer sous"@),
        ("file.close_tab"@, "Fermer l'onglet"@),
        ("file.exit"@, "Quitter"@),
        ("edit.undo"@, "Annuler"@),
        ("edit.redo"@, "R\u{00E9}tablir"@),
        ("edit.cut"@, "Couper"@),
        ("edit.copy"@, "Copier"@),
        ("edit.paste"@, "Coller"@),
        ("edit.find"@, "Rechercher"@),
        ("edit.find_in_files"@, "Rechercher dans les fichiers"@),
        ("edit.replace"@, "Remplacer"@),
        ("edit.select_all"@, "Tout s\u{00E9}lectionner"@),
        ("edit.toggle_comment"@, "Basculer le commentaire"@),
        ("view.command_palette"@, "Palette de commandes"@),
        ("view.toggle_sidebar"@, "Basculer la barre lat\u{00E9}rale"@),
        ("view.toggle_terminal"@, "Basculer le terminal"@),
        ("view.minimap"@, "Minimap"@),
        ("view.line_numbers"@, "Num\u{00E9}ros de ligne"@),
        ("view.word_wrap"@, "Retour \u{00E0} la ligne"@),
        ("view.markdown_preview"@, "Aper\u{00E7}u Markdown"@),
        ("view.zen_mode"@, "Mode Zen"@),
        ("view.zoom_in"@, "Zoom avant"@),
        ("view.zoom_out"@, "Zoom arri\u{00E8}re"@),
        ("selection.add_cursor_above"@, "Ajouter un curseur au-dessus"@),
        ("selection.add_cursor_below"@, "Ajouter un curseur en dessous"@),
        ("selection.select_all_occurrences"@, "S\u{00E9}lectionner toutes les occurrences"@),
        ("selection.add_next_occurrence"@, "Ajouter l'occurrence suivante"@),
        ("go.go_to_line"@, "Aller \u{00E0} la ligne"@),
        ("go.go_to_file"@, "Aller au fichier"@),
        ("go.go_to_definition"@, "Aller \u{00E0} la d\u{00E9}finition"@),
        ("go.go_to_references"@, "Aller aux r\u{00E9}f\u{00E9}rences"@),
        ("go.rename_symbol"@, "Renommer le symbole"@),
        ("terminal.new"@, "Nouveau terminal"@),
        ("terminal.send_selection"@, "Envoyer la s\u{00E9}lection au terminal"@),
        ("settings.theme"@, "Th\u{00E8}me"@),
        ("settings.vim_mode"@, "Mode Vim"@),
        ("settings.font_size"@, "Taille de police\u{00A0}:"@),
        ("settings.tab_size"@, "Taille de tabulation"@),
        ("settings.auto_save"@, "Sauvegarde automatique"@),
        ("settings.language"@, "Langue"@),
        ("settings.open_themes_folder"@, "Ouvrir le dossier des th\u{00E8}mes\u{2026}"@),
        ("settings.create_theme"@, "Cr\u{00E9}er un th\u{00E8}me depuis l'actuel\u{2026}"@),
        ("settings.reload_themes"@, "Recharger les th\u{00E8}mes"@),
        ("help.about"@, "\u{00C0} propos d'OpenEdit"@),
        ("help.shortcuts"@, "Raccourcis clavier"@),
        ("status.line"@, "Ln"@),
        ("status.col"@, "Col"@),
        ("status.chars_selected"@, "caract\u{00E8}res"@),
        ("status.lines_selected"@, "lignes s\u{00E9}lectionn\u{00E9}es"@),
        ("status.read_only"@, "LECTURE SEULE"@),
        ("status.recording"@, "ENR"@),
        ("status.plain_text"@, "Texte brut"@),
        ("dialog.save"@, "Enregistrer"@),
        ("dialog.dont_save"@, "Ne pas enregistrer"@),
        ("dialog.cancel"@, "Annuler"@),
        ("dialog.ok"@, "OK"@),
        ("dialog.yes"@, "Oui"@),
        ("dialog.no"@, "Non"@),
        ("dialog.close"@, "Fermer"@),
        ("dialog.reload"@, "Recharger"@),
        ("dialog.keep"@, "Garder"@),
        ("dialog.unsaved_title"@, "Modifications non enregistr\u{00E9}es"@),
        ("dialog.unsaved_message"@, "Voulez-vous enregistrer les modifications avant de fermer\u{00A0}?"@),
        ("dialog.file_changed_title"@, "Fichier modifi\u{00E9}"@),
        ("dialog.file_changed_message"@, "Ce fichier a \u{00E9}t\u{00E9} modifi\u{00E9} en externe. Recharger\u{00A0}?"@),
        ("search.find"@, "Rechercher\u{00A0}:"@),
        ("search.replace_with"@, "Remplacer\u{00A0}:"@),
        ("search.previous"@, "Pr\u{00E9}c\u{00E9}dent"@),
        ("search.next"@, "Suivant"@),
        ("search.replace"@, "Remplacer"@),
        ("search.replace_all"@, "Tout remplacer"@),
        ("search.case_sensitive"@, "Respect. casse"@),
        ("search.whole_word"@, "Mot entier"@),
        ("search.regex"@, "Regex"@),
        ("command_palette.hint"@, "Saisissez une commande\u{2026}"@),
        ("cmd.settings.change_language"@, "Param\u{00E8}tres\u{00A0}: Changer la langue"@),
    ]
}

/// The French (key, text) pairs.
pub fn french_entries() -> (r: Vec<(&'static str, &'static str)>)
    ensures
        table_view(r@) == french_table(),
{
    let r = vec![
        ("menu.file", "Fichier"),
        ("menu.edit", "\u{00C9}dition"),
        ("menu.view", "Affichage"),
        ("menu.selection", "S\u{00E9}lection"),
        ("menu.go", "Aller"),
        ("menu.terminal", "Terminal"),
        ("menu.settings", "Param\u{00E8}tres"),
        ("menu.help", "Aide"),
        ("file.new", "Nouveau fichier"),
        ("file.open", "Ouvrir un fichier"),
        ("file.open_folder", "Ouvrir un dossier"),
        ("file.save", "Enregistrer"),
        ("file.save_as", "Enregistrer sous"),
        ("file.close_tab", "Fermer l'onglet"),
        ("file.exit", "Quitter"),
        ("edit.undo", "Annuler"),
        ("edit.redo", "R\u{00E9}tablir"),
        ("edit.cut", "Couper"),
        ("edit.copy", "Copier"),
        ("edit.paste", "Coller"),
        ("edit.find", "Rechercher"),
        ("edit.find_in_files", "Rechercher dans les fichiers"),
        ("edit.replace", "Remplacer"),
        ("edit.select_all", "Tout s\u{00E9}lectionner"),
        ("edit.toggle_comment", "Basculer le commentaire"),
        ("view.command_palette", "Palette de commandes"),
        ("view.toggle_sidebar", "Basculer la barre lat\u{00E9}rale"),
        ("view.toggle_terminal", "Basculer le terminal"),
        ("view.minimap", "Minimap"),
        ("view.line_numbers", "Num\u{00E9}ros de ligne"),
        ("view.word_wrap", "Retour \u{00E0} la ligne"),
        ("view.markdown_preview", "Aper\u{00E7}u Markdown"),
        ("view.zen_mode", "Mode Zen"),
        ("view.zoom_in", "Zoom avant"),
        ("view.zoom_out", "Zoom arri\u{00E8}re"),
        ("selection.add_cursor_above", "Ajouter un curseur au-dessus"),
        ("selection.add_cursor_below", "Ajouter un curseur en dessous"),
        ("selection.select_all_occurrences", "S\u{00E9}lectionner toutes les occurrences"),
        ("selection.add_next_occurrence", "Ajouter l'occurrence suivante"),
        ("go.go_to_line", "Aller \u{00E0} la ligne"),
        ("go.go_to_file", "Aller au fichier"),
        ("go.go_to_definition", "Aller \u{00E0} la d\u{00E9}finition"),
        ("go.go_to_references", "Aller aux r\u{00E9}f\u{00E9}rences"),
        ("go.rename_symbol", "Renommer le symbole"),
        ("terminal.new", "Nouveau terminal"),
        ("terminal.send_selection", "Envoyer la s\u{00E9}lection au terminal"),
        ("settings.theme", "Th\u{00E8}me"),
        ("settings.vim_mode", "Mode Vim"),
        ("settings.font_size", "Taille de police\u{00A0}:"),
        ("settings.tab_size", "Taille de tabulation"),
        ("settings.auto_save", "Sauvegarde automatique"),
        ("settings.language", "Langue"),
        ("settings.open_themes_folder", "Ouvrir le dossier des th\u{00E8}mes\u{2026}"),
        ("settings.create_theme", "Cr\u{00E9}er un th\u{00E8}me depuis l'actuel\u{2026}"),
        ("settings.reload_themes", "Recharger les th\u{00E8}mes"),
        ("help.about", "\u{00C0} propos d'OpenEdit"),
        ("help.shortcuts", "Raccourcis clavier"),
        ("status.line", "Ln"),
        ("status.col", "Col"),
        ("status.chars_selected", "caract\u{00E8}res"),
        ("status.lines_selected", "lignes s\u{00E9}lectionn\u{00E9}es"),
        ("status.read_only", "LECTURE SEULE"),
        ("status.recording", "ENR"),
        ("status.plain_text", "Texte brut"),
        ("dialog.save", "Enregistrer"),
        ("dialog.dont_save", "Ne pas enregistrer"),
        ("dialog.cancel", "Annuler"),
        ("dialog.ok", "OK"),
        ("dialog.yes", "Oui"),
        ("dialog.no", "Non"),
        ("dialog.close", "Fermer"),
        ("dialog.reload", "Recharger"),
        ("dialog.keep", "Garder"),
        ("dialog.unsaved_title", "Modifications non enregistr\u{00E9}es"),
        ("dialog.unsaved_message", "Voulez-vous enregistrer les modifications avant de fermer\u{00A0}?"),
        ("dialog.file_changed_title", "Fichier modifi\u{00E9}"),
        ("dialog.file_changed_message", "Ce fichier a \u{00E9}t\u{00E9} modifi\u{00E9} en externe. Recharger\u{00A0}?"),
        ("search.find", "Rechercher\u{00A0}:"),
        ("search.replace_with", "Remplacer\u{00A0}:"),
        ("search.previous", "Pr\u{00E9}c\u{00E9}dent"),
        ("search.next", "Suivant"),
        ("search.replace", "Remplacer"),
        ("search.replace_all", "Tout remplacer"),
        ("search.case_sensitive", "Respect. casse"),
        ("search.whole_word", "Mot entier"),
        ("search.regex", "Regex"),
        ("command_palette.hint", "Saisissez une commande\u{2026}"),
        ("cmd.settings.change_language", "Param\u{00E8}tres\u{00A0}: Changer la langue"),
    ];
    assert(table_view(r@) =~= french_table());
    r
}

/// The Spanish strings.
pub open spec fn spanish_table() -> Seq<(Seq<char>, Seq<char>)> {
    seq![
        ("menu.file"@, "Archivo"@),
        ("menu.edit"@, "Editar"@),
        ("menu.view"@, "Ver"@),
        ("menu.selection"@, "Selecci\u{00F3}n"@),
        ("menu.go"@, "Ir"@),
        ("menu.terminal"@, "Terminal"@),
        ("menu.settings"@, "Configuraci\u{00F3}n"@),
        ("menu.help"@, "Ayuda"@),
        ("file.new"@, "Nuevo archivo"@),
        ("file.open"@, "Abrir archivo"@),
        ("file.open_folder"@, "Abrir carpeta"@),
        ("file.save"@, "Guardar"@),
        ("file.save_as"@, "Guardar como"@),
        ("file.close_tab"@, "Cerrar pesta\u{00F1}a"@),
        ("file.exit"@, "Salir"@),
        ("edit.undo"@, "Deshacer"@),
        ("edit.redo"@, "Rehacer"@),
        ("edit.cut"@, "Cortar"@),
        ("edit.copy"@, "Copiar"@),
        ("edit.paste"@, "Pegar"@),
        ("edit.find"@, "Buscar"@),
        ("edit.find_in_files"@, "Buscar en archivos"@),
        ("edit.replace"@, "Reemplazar"@),
        ("edit.select_all"@, "Seleccionar todo"@),
        ("edit.toggle_comment"@, "Alternar comentario"@),
        ("view.command_palette"@, "Paleta de comandos"@),
        ("view.toggle_sidebar"@, "Alternar barra lateral"@),
        ("view.toggle_terminal"@, "Alternar terminal"@),
        ("view.minimap"@, "Minimapa"@),
        ("view.line_numbers"@, "N\u{00FA}meros de l\u{00ED}nea"@),
        ("view.word_wrap"@, "Ajuste de l\u{00ED}nea"@),
        ("view.markdown_preview"@, "Vista previa Markdown"@),
        ("view.zen_mode"@, "Modo Zen"@),
        ("view.zoom_in"@, "Acercar"@),
        ("view.zoom_out"@, "Alejar"@),
        ("selection.add_cursor_above"@, "A\u{00F1}adir cursor arriba"@),
        ("selection.add_cursor_below"@, "A\u{00F1}adir cursor abajo"@),
        ("selection.select_all_occurrences"@, "Seleccionar todas las ocurrencias"@),
        ("selection.add_next_occurrence"@, "A\u{00F1}adir siguiente ocurrencia"@),
        ("go.go_to_line"@, "Ir a l\u{00ED}nea"@),
        ("go.go_to_file"@, "Ir a archivo"@),
        ("go.go_to_definition"@, "Ir a definici\u{00F3}n"@),
        ("go.go_to_references"@, "Ir a referencias"@),
        ("go.rename_symbol"@, "Renombrar s\u{00ED}mbolo"@),
        ("terminal.new"@, "Nuevo terminal"@),
        ("terminal.send_selection"@, "Enviar selecci\u{00F3}n al terminal"@),
        ("settings.theme"@, "Tema"@),
        ("settings.vim_mode"@, "Modo Vim"@),
        ("settings.font_size"@, "Tama\u{00F1}o de fuente:"@),
        ("settings.tab_size"@, "Tama\u{00F1}o de tabulaci\u{00F3}n"@),
        ("settings.auto_save"@, "Guardado autom\u{00E1}tico"@),
        ("settings.language"@, "Idioma"@),
        ("settings.open_themes_folder"@, "Abrir carpeta de temas\u{2026}"@),
        ("settings.create_theme"@, "Crear tema desde el actual\u{2026}"@),
        ("settings.reload_themes"@, "Recargar temas"@),
        ("help.about"@, "Acerca de OpenEdit"@),
        ("help.shortcuts"@, "Atajos de teclado"@),
        ("dialog.save"@, "Guardar"@),
        ("dialog.dont_save"@, "No guardar"@),
        ("dialog.cancel"@, "Cancelar"@),
        ("dialog.ok"@, "Aceptar"@),
        ("dialog.yes"@, "S\u{00ED}"@),
        ("dialog.no"@, "No"@),
        ("dialog.close"@, "Cerrar"@),
        ("dialog.reload"@, "Recargar"@),
        ("dialog.keep"@, "Mantener"@),
        ("dialog.unsaved_title"@, "Cambios sin guardar"@),
        ("dialog.unsaved_message"@, "\u{00BF}Desea guardar los cambios antes de cerrar?"@),
        ("dialog.file_changed_title"@, "Archivo modificado"@),
        ("dialog.file_changed_message"@, "Este archivo ha sido modificado externamente. \u{00BF}Recargar?"@),
        ("search.find"@, "Buscar:"@),
        ("search.replace_with"@, "Reemplazar:"@),
        ("search.previous"@, "Anterior"@),
        ("search.next"@, "Siguiente"@),
        ("search.replace"@, "Reemplazar"@),
        ("search.replace_all"@, "Reemplazar todo"@),
        ("search.case_sensitive"@, "May\u{00FA}sculas"@),
        ("search.whole_word"@, "Palabra completa"@),
        ("search.regex"@, "Regex"@),
        ("command_palette.hint"@, "Escriba un comando\u{2026}"@),
        ("cmd.settings.change_language"@, "Configuraci\u{00F3}n: Cambiar idioma"@),
    ]
}

/// The Spanish (key, text) pairs.
pub fn spanish_entries() -> (r: Vec<(&'static str, &'static str)>)
    ensures
        table_view(r@) == spanish_table(),
{
    let r = vec![
        ("menu.file", "Archivo"),
        ("menu.edit", "Editar"),
        ("menu.view", "Ver"),
        ("menu.selection", "Selecci\u{00F3}n"),
        ("menu.go", "Ir"),
        ("menu.terminal", "Terminal"),
        ("menu.settings", "Configuraci\u{00F3}n"),
        ("menu.help", "Ayuda"),
        ("file.new", "Nuevo archivo"),
        ("file.open", "Abrir archivo"),
        ("file.open_folder", "Abrir carpeta"),
        ("file.save", "Guardar"),
        ("file.save_as", "Guardar como"),
        ("file.close_tab", "Cerrar pesta\u{00F1}a"),
        ("file.exit", "Salir"),
        ("edit.undo", "Deshacer"),
        ("edit.redo", "Rehacer"),
        ("edit.cut", "Cortar"),
        ("edit.copy", "Copiar"),
        ("edit.paste", "Pegar"),
        ("edit.find", "Buscar"),
        ("edit.find_in_files", "Buscar en archivos"),
        ("edit.replace", "Reemplazar"),
        ("edit.select_all", "Seleccionar todo"),
        ("edit.toggle_comment", "Alternar comentario"),
        ("view.command_palette", "Paleta de comandos"),
        ("view.toggle_sidebar", "Alternar barra lateral"),
        ("view.toggle_terminal", "Alternar terminal"),
        ("view.minimap", "Minimapa"),
        ("view.line_numbers", "N\u{00FA}meros de l\u{00ED}nea"),
        ("view.word_wrap", "Ajuste de l\u{00ED}nea"),
        ("view.markdown_preview", "Vista previa Markdown"),
        ("view.zen_mode", "Modo Zen"),
        ("view.zoom_in", "Acercar"),
        ("view.zoom_out", "Alejar"),
        ("selection.add_cursor_above", "A\u{00F1}adir cursor arriba"),
        ("selection.add_cursor_below", "A\u{00F1}adir cursor abajo"),
        ("selection.select_all_occurrences", "Seleccionar todas las ocurrencias"),
        ("selection.add_next_occurrence", "A\u{00F1}adir siguiente ocurrencia"),
        ("go.go_to_line", "Ir a l\u{00ED}nea"),
        ("go.go_to_file", "Ir a archivo"),
        ("go.go_to_definition", "Ir a definici\u{00F3}n"),
        ("go.go_to_references", "Ir a referencias"),
        ("go.rename_symbol", "Renombrar s\u{00ED}mbolo"),
        ("terminal.new", "Nuevo terminal"),
        ("terminal.send_selection", "Enviar selecci\u{00F3}n al terminal"),
        ("settings.theme", "Tema"),
        ("settings.vim_mode", "Modo Vim"),
        ("settings.font_size", "Tama\u{00F1}o de fuente:"),
        ("settings.tab_size", "Tama\u{00F1}o de tabulaci\u{00F3}n"),
        ("settings.auto_save", "Guardado autom\u{00E1}tico"),
        ("settings.language", "Idioma"),
        ("settings.open_themes_folder", "Abrir carpeta de temas\u{2026}"),
        ("settings.create_theme", "Crear tema desde el actual\u{2026}"),
        ("settings.reload_themes", "Recargar temas"),
        ("help.about", "Acerca de OpenEdit"),
        ("help.shortcuts", "Atajos de teclado"),
        ("dialog.save", "Guardar"),
        ("dialog.dont_save", "No guardar"),
        ("dialog.cancel", "Cancelar"),
        ("dialog.ok", "Aceptar"),
        ("dialog.yes", "S\u{00ED}"),
        ("dialog.no", "No"),
        ("dialog.close", "Cerrar"),
        ("dialog.reload", "Recargar"),
        ("dialog.keep", "Mantener"),
        ("dialog.unsaved_title", "Cambios sin guardar"),
        ("dialog.unsaved_message", "\u{00BF}Desea guardar los cambios antes de cerrar?"),
        ("dialog.file_changed_title", "Archivo modificado"),
        ("dialog.file_changed_message", "Este archivo ha sido modificado externamente. \u{00BF}Recargar?"),
        ("search.find", "Buscar:"),
        ("search.replace_with", "Reemplazar:"),
        ("search.previous", "Anterior"),
        ("search.next", "Siguiente"),
        ("search.replace", "Reemplazar"),
        ("search.replace_all", "Reemplazar todo"),
        ("search.case_sensitive", "May\u{00FA}sculas"),
        ("search.whole_word", "Palabra completa"),
        ("search.regex", "Regex"),
        ("command_palette.hint", "Escriba un comando\u{2026}"),
        ("cmd.settings.change_language", "Configuraci\u{00F3}n: Cambiar idioma"),
    ];
    assert(table_view(r@) =~= spanish_table());
    r
}

/// The Japanese strings.
pub open spec fn japanese_table() -> Seq<(Seq<char>, Seq<char>)> {
    seq![
        ("menu.file"@, "\u{30D5}\u{30A1}\u{30A4}\u{30EB}"@),
        ("menu.edit"@, "\u{7DE8}\u{96C6}"@),
        ("menu.view"@, "\u{8868}\u{793A}"@),
        ("menu.selection"@, "\u{9078}\u{629E}"@),
        ("menu.go"@, "\u{79FB}\u{52D5}"@),
        ("menu.terminal"@, "\u{30BF}\u{30FC}\u{30DF}\u{30CA}\u{30EB}"@),
        ("menu.settings"@, "\u{8A2D}\u{5B9A}"@),
        ("menu.help"@, "\u{30D8}\u{30EB}\u{30D7}"@),
        ("file.new"@, "\u{65B0}\u{898F}\u{30D5}\u{30A1}\u{30A4}\u{30EB}"@),
        ("file.open"@, "\u{30D5}\u{30A1}\u{30A4}\u{30EB}\u{3092}\u{958B}\u{304F}"@),
        ("file.open_folder"@, "\u{30D5}\u{30A9}\u{30EB}\u{30C0}\u{30FC}\u{3092}\u{958B}\u{304F}"@),
        ("file.save"@, "\u{4FDD}\u{5B58}"@),
        ("file.save_as"@, "\u{540D}\u{524D}\u{3092}\u{4ED8}\u{3051}\u{3066}\u{4FDD}\u{5B58}"@),
        ("file.close_tab"@, "\u{30BF}\u{30D6}\u{3092}\u{9589}\u{3058}\u{308B}"@),
        ("file.exit"@, "\u{7D42}\u{4E86}"@),
        ("edit.undo"@, "\u{5143}\u{306B}\u{623B}\u{3059}"@),
        ("edit.redo"@, "\u{3084}\u{308A}\u{76F4}\u{3057}"@),
        ("edit.cut"@, "\u{5207}\u{308A}\u{53D6}\u{308A}"@),
        ("edit.copy"@, "\u{30B3}\u{30D4}\u{30FC}"@),
        ("edit.paste"@, "\u{8CBC}\u{308A}\u{4ED8}\u{3051}"@),
        ("edit.find"@, "\u{691C}\u{7D22}"@),
        ("edit.find_in_files"@, "\u{30D5}\u{30A1}\u{30A4}\u{30EB}\u{5185}\u{691C}\u{7D22}"@),
        ("edit.replace"@, "\u{7F6E}\u{63DB}"@),
        ("edit.select_all"@, "\u{3059}\u{3079}\u{3066}\u{9078}\u{629E}"@),
        ("edit.toggle_comment"@, "\u{30B3}\u{30E1}\u{30F3}\u{30C8}\u{5207}\u{308A}\u{66FF}\u{3048}"@),
        ("view.command_palette"@, "\u{30B3}\u{30DE}\u{30F3}\u{30C9}\u{30D1}\u{30EC}\u{30C3}\u{30C8}"@),
        ("view.toggle_sidebar"@, "\u{30B5}\u{30A4}\u{30C9}\u{30D0}\u{30FC}\u{5207}\u{308A}\u{66FF}\u{3048}"@),
        ("view.toggle_terminal"@, "\u{30BF}\u{30FC}\u{30DF}\u{30CA}\u{30EB}\u{5207}\u{308A}\u{66FF}\u{3048}"@),
        ("view.minimap"@, "\u{30DF}\u{30CB}\u{30DE}\u{30C3}\u{30D7}"@),
        ("view.line_numbers"@, "\u{884C}\u{756A}\u{53F7}"@),
        ("view.word_wrap"@, "\u{6298}\u{308A}\u{8FD4}\u{3057}"@),
        ("view.markdown_preview"@, "Markdown\u{30D7}\u{30EC}\u{30D3}\u{30E5}\u{30FC}"@),
        ("view.zen_mode"@, "Zen\u{30E2}\u{30FC}\u{30C9}"@),
        ("view.zoom_in"@, "\u{62E1}\u{5927}"@),
        ("view.zoom_out"@, "\u{7E2E}\u{5C0F}"@),
        ("settings.theme"@, "\u{30C6}\u{30FC}\u{30DE}"@),
        ("settings.vim_mode"@, "Vim\u{30E2}\u{30FC}\u{30C9}"@),
        ("settings.font_size"@, "\u{30D5}\u{30A9}\u{30F3}\u{30C8}\u{30B5}\u{30A4}\u{30BA}:"@),
        ("settings.tab_size"@, "\u{30BF}\u{30D6}\u{30B5}\u{30A4}\u{30BA}"@),
        ("settings.auto_save"@, "\u{81EA}\u{52D5}\u{4FDD}\u{5B58}"@),
        ("settings.language"@, "\u{8A00}\u{8A9E}"@),
        ("help.about"@, "OpenEdit\u{306B}\u{3064}\u{3044}\u{3066}"@),
        ("help.shortcuts"@, "\u{30AD}\u{30FC}\u{30DC}\u{30FC}\u{30C9}\u{30B7}\u{30E7}\u{30FC}\u{30C8}\u{30AB}\u{30C3}\u{30C8}"@),
        ("dialog.save"@, "\u{4FDD}\u{5B58}"@),
        ("dialog.dont_save"@, "\u{4FDD}\u{5B58}\u{3057}\u{306A}\u{3044}"@),
        ("dialog.cancel"@, "\u{30AD}\u{30E3}\u{30F3}\u{30BB}\u{30EB}"@),
        ("dialog.ok"@, "OK"@),
        ("dialog.yes"@, "\u{306F}\u{3044}"@),
        ("dialog.no"@, "\u{3044}\u{3044}\u{3048}"@),
        ("dialog.close"@, "\u{9589}\u{3058}\u{308B}"@),
        ("dialog.reload"@, "\u{518D}\u{8AAD}\u{307F}\u{8FBC}\u{307F}"@),
        ("dialog.keep"@, "\u{4FDD}\u{6301}"@),
        ("dialog.unsaved_title"@, "\u{672A}\u{4FDD}\u{5B58}\u{306E}\u{5909}\u{66F4}"@),
        ("dialog.unsaved_message"@, "\u{9589}\u{3058}\u{308B}\u{524D}\u{306B}\u{5909}\u{66F4}\u{3092}\u{4FDD}\u{5B58}\u{3057}\u{307E}\u{3059}\u{304B}\u{FF1F}"@),
        ("search.find"@, "\u{691C}\u{7D22}:"@),
        ("search.replace_with"@, "\u{7F6E}\u{63DB}:"@),
        ("search.replace"@, "\u{7F6E}\u{63DB}"@),
        ("search.replace_all"@, "\u{3059}\u{3079}\u{3066}\u{7F6E}\u{63DB}"@),
        ("command_palette.hint"@, "\u{30B3}\u{30DE}\u{30F3}\u{30C9}\u{3092}\u{5165}\u{529B}\u{2026}"@),
        ("cmd.settings.change_language"@, "\u{8A2D}\u{5B9A}: \u{8A00}\u{8A9E}\u{3092}\u{5909}\u{66F4}"@),
    ]
}

/// The Japanese (key, text) pairs.
pub fn japanese_entries() -> (r: Vec<(&'static str, &'static str)>)
    ensures
        table_view(r@) == japanese_table(),
{
    let r = vec![
        ("menu.file", "\u{30D5}\u{30A1}\u{30A4}\u{30EB}"),
        ("menu.edit", "\u{7DE8}\u{96C6}"),
        ("menu.view", "\u{8868}\u{793A}"),
        ("menu.selection", "\u{9078}\u{629E}"),
        ("menu.go", "\u{79FB}\u{52D5}"),
        ("menu.terminal", "\u{30BF}\u{30FC}\u{30DF}\u{30CA}\u{30EB}"),
        ("menu.settings", "\u{8A2D}\u{5B9A}"),
        ("menu.help", "\u{30D8}\u{30EB}\u{30D7}"),
        ("file.new", "\u{65B0}\u{898F}\u{30D5}\u{30A1}\u{30A4}\u{30EB}"),
        ("file.open", "\u{30D5}\u{30A1}\u{30A4}\u{30EB}\u{3092}\u{958B}\u{304F}"),
        ("file.open_folder", "\u{30D5}\u{30A9}\u{30EB}\u{30C0}\u{30FC}\u{3092}\u{958B}\u{304F}"),
        ("file.save", "\u{4FDD}\u{5B58}"),
        ("file.save_as", "\u{540D}\u{524D}\u{3092}\u{4ED8}\u{3051}\u{3066}\u{4FDD}\u{5B58}"),
        ("file.close_tab", "\u{30BF}\u{30D6}\u{3092}\u{9589}\u{3058}\u{308B}"),
        ("file.exit", "\u{7D42}\u{4E86}"),
        ("edit.undo", "\u{5143}\u{306B}\u{623B}\u{3059}"),
        ("edit.redo", "\u{3084}\u{308A}\u{76F4}\u{3057}"),
        ("edit.cut", "\u{5207}\u{308A}\u{53D6}\u{308A}"),
        ("edit.copy", "\u{30B3}\u{30D4}\u{30FC}"),
        ("edit.paste", "\u{8CBC}\u{308A}\u{4ED8}\u{3051}"),
        ("edit.find", "\u{691C}\u{7D22}"),
        ("edit.find_in_files", "\u{30D5}\u{30A1}\u{30A4}\u{30EB}\u{5185}\u{691C}\u{7D22}"),
        ("edit.replace", "\u{7F6E}\u{63DB}"),
        ("edit.select_all", "\u{3059}\u{3079}\u{3066}\u{9078}\u{629E}"),
        ("edit.toggle_comment", "\u{30B3}\u{30E1}\u{30F3}\u{30C8}\u{5207}\u{308A}\u{66FF}\u{3048}"),
        ("view.command_palette", "\u{30B3}\u{30DE}\u{30F3}\u{30C9}\u{30D1}\u{30EC}\u{30C3}\u{30C8}"),
        ("view.toggle_sidebar", "\u{30B5}\u{30A4}\u{30C9}\u{30D0}\u{30FC}\u{5207}\u{308A}\u{66FF}\u{3048}"),
        ("view.toggle_terminal", "\u{30BF}\u{30FC}\u{30DF}\u{30CA}\u{30EB}\u{5207}\u{308A}\u{66FF}\u{3048}"),
        ("view.minimap", "\u{30DF}\u{30CB}\u{30DE}\u{30C3}\u{30D7}"),
        ("view.line_numbers", "\u{884C}\u{756A}\u{53F7}"),
        ("view.word_wrap", "\u{6298}\u{308A}\u{8FD4}\u{3057}"),
        ("view.markdown_preview", "Markdown\u{30D7}\u{30EC}\u{30D3}\u{30E5}\u{30FC}"),
        ("view.zen_mode", "Zen\u{30E2}\u{30FC}\u{30C9}"),
        ("view.zoom_in", "\u{62E1}\u{5927}"),
        ("view.zoom_out", "\u{7E2E}\u{5C0F}"),
        ("settings.theme", "\u{30C6}\u{30FC}\u{30DE}"),
        ("settings.vim_mode", "Vim\u{30E2}\u{30FC}\u{30C9}"),
        ("settings.font_size", "\u{30D5}\u{30A9}\u{30F3}\u{30C8}\u{30B5}\u{30A4}\u{30BA}:"),
        ("settings.tab_size", "\u{30BF}\u{30D6}\u{30B5}\u{30A4}\u{30BA}"),
        ("settings.auto_save", "\u{81EA}\u{52D5}\u{4FDD}\u{5B58}"),
        ("settings.language", "\u{8A00}\u{8A9E}"),
        ("help.about", "OpenEdit\u{306B}\u{3064}\u{3044}\u{3066}"),
        ("help.shortcuts", "\u{30AD}\u{30FC}\u{30DC}\u{30FC}\u{30C9}\u{30B7}\u{30E7}\u{30FC}\u{30C8}\u{30AB}\u{30C3}\u{30C8}"),
        ("dialog.save", "\u{4FDD}\u{5B58}"),
        ("dialog.dont_save", "\u{4FDD}\u{5B58}\u{3057}\u{306A}\u{3044}"),
        ("dialog.cancel", "\u{30AD}\u{30E3}\u{30F3}\u{30BB}\u{30EB}"),
        ("dialog.ok", "OK"),
        ("dialog.yes", "\u{306F}\u{3044}"),
        ("dialog.no", "\u{3044}\u{3044}\u{3048}"),
        ("dialog.close", "\u{9589}\u{3058}\u{308B}"),
        ("dialog.reload", "\u{518D}\u{8AAD}\u{307F}\u{8FBC}\u{307F}"),
        ("dialog.keep", "\u{4FDD}\u{6301}"),
        ("dialog.unsaved_title", "\u{672A}\u{4FDD}\u{5B58}\u{306E}\u{5909}\u{66F4}"),
        ("dialog.unsaved_message", "\u{9589}\u{3058}\u{308B}\u{524D}\u{306B}\u{5909}\u{66F4}\u{3092}\u{4FDD}\u{5B58}\u{3057}\u{307E}\u{3059}\u{304B}\u{FF1F}"),
        ("search.find", "\u{691C}\u{7D22}:"),
        ("search.replace_with", "\u{7F6E}\u{63DB}:"),
        ("search.replace", "\u{7F6E}\u{63DB}"),
        ("search.replace_all", "\u{3059}\u{3079}\u{3066}\u{7F6E}\u{63DB}"),
        ("command_palette.hint", "\u{30B3}\u{30DE}\u{30F3}\u{30C9}\u{3092}\u{5165}\u{529B}\u{2026}"),
        ("cmd.settings.change_language", "\u{8A2D}\u{5B9A}: \u{8A00}\u{8A9E}\u{3092}\u{5909}\u{66F4}"),
    ];
    assert(table_view(r@) =~= japanese_table());
    r
}

/// Holds translation strings for a single locale.
pub struct TranslationTable {
    entries: Vec<(&'static str, &'static str)>,
}

impl TranslationTable {
    /// The (key, text) pairs of the table.
    pub closed spec fn pairs(&self) -> Seq<(Seq<char>, Seq<char>)> {
        table_view(self.entries@)
    }

    pub fn new(entries: Vec<(&'static str, &'static str)>) -> (r: TranslationTable)
        ensures
            r.pairs() == table_view(entries@),
    {
        TranslationTable { entries }
    }

    pub fn get(&self, key: &str) -> (r: Option<&'static str>)
        ensures
            match r {
                Some(v) => lookup(self.pairs(), key@) == Some(v@),
                None => lookup(self.pairs(), key@) is None,
            },
    {
        let ghost tv = table_view(self.entries@);
        let mut i = self.entries.len();
        assert(tv.take(i as int) =~= tv);
        while i > 0
            invariant
                i <= self.entries@.len(),
                tv == table_view(self.entries@),
                lookup(tv, key@) == lookup(tv.take(i as int), key@),
            decreases i,
        {
            let ghost tk = tv.take(i as int);
            assert(tk.last() == tv[i - 1]);
            assert(tk.drop_last() =~= tv.take(i - 1));
            let e = self.entries[i - 1];
            if str_eq(e.0, key) {
                return Some(e.1);
            }
            i = i - 1;
        }
        None
    }
}

/// Container for all locale translation tables.
struct Translations {
    english: TranslationTable,
    german: TranslationTable,
    french: TranslationTable,
    spanish: TranslationTable,
    japanese: TranslationTable,
}

impl Translations {
    spec fn wf(&self) -> bool {
        &&& self.english.pairs() == english_table()
        &&& self.german.pairs() == german_table()
        &&& self.french.pairs() == french_table()
        &&& self.spanish.pairs() == spanish_table()
        &&& self.japanese.pairs() == japanese_table()
    }

    fn new() -> (r: Translations)
        ensures
            r.wf(),
    {
        Translations {
            english: TranslationTable::new(english_entries()),
            german: TranslationTable::new(german_entries()),
            french: TranslationTable::new(french_entries()),
            spanish: TranslationTable::new(spanish_entries()),
            japanese: TranslationTable::new(japanese_entries()),
        }
    }

    fn table(&self, locale: Locale) -> (r: Option<&TranslationTable>)
        requires
            self.wf(),
        ensures
            match r {
                Some(tab) => locale_table(locale) == Some(tab.pairs()),
                None => locale_table(locale) is None,
            },
    {
        match locale {
            Locale::English => Some(&self.english),
            Locale::German => Some(&self.german),
            Locale::French => Some(&self.french),
            Locale::Spanish => Some(&self.spanish),
            Locale::Japanese => Some(&self.japanese),
            _ => None,
        }
    }

    fn get<'a>(&self, locale: Locale, key: &'a str) -> (r: &'a str)
        requires
            self.wf(),
        ensures
            r@ == translate(locale, key@),
    {
        // Try the requested locale first, then fall back to English.
        if let Some(table) = self.table(locale) {
            if let Some(val) = table.get(key) {
                return val;
            }
        }
        if let Some(val) = self.english.get(key) {
            return val;
        }
        // If even English doesn't have it, return the key itself.
        key
    }
}

/// The translation tables.
fn translations() -> (r: Translations)
    ensures
        r.wf(),
{
    Translations::new()
}

/// Look up a translated string for the active locale `current`.
///
/// Falls back to English if the key is not found in the active locale.
/// Falls back to returning the key itself if not found in English either.
pub fn t<'a>(current: &Locale, key: &'a str) -> (r: &'a str)
    ensures
        r@ == translate(*current, key@),
{
    let locale = get_locale(current);
    translations().get(locale, key)
}

} // verus!
