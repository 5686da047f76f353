//! Editor-side logic of the OpenEdit text editor: macro scripts, translations,
//! the hex editor, fuzzy finders and the command palette, git line diffs and
//! blame, plugins, word completion, the markdown preview's blocks, the
//! language-server client, Find in Files, key bindings and the editor's row
//! geometry.

pub mod text;
pub mod macro_recorder;
pub mod i18n;
pub mod hex_view;
pub mod go_to_file;
pub mod color;
pub mod git;
pub mod builtin_plugins;
pub mod command_palette;
pub mod config;
pub mod syntax;
pub mod breadcrumb;
pub mod function_list;
pub mod go_to_symbol;
pub mod autocomplete;
pub mod editor_view;
pub mod languages;
pub mod markdown;
pub mod lsp;
pub mod diff_view;
pub mod keys;
pub mod search;
pub mod find_in_files;
pub mod bracket_colors;
pub mod viewport;
pub mod shortcuts;
pub mod workspace;
