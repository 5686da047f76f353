//! Editor key bindings: what a key press does in the editor, and the names
//! of the keys the vim emulation receives.

use vstd::prelude::*;
use crate::text::{chars_of, str_eq};

verus! {

/// The keys the editor binds.
#[derive(Debug, Clone, Copy, PartialEq, Eq, Structural)]
pub enum EditorKey {
    A,
    B,
    C,
    D,
    F,
    K,
    L,
    R,
    U,
    X,
    Y,
    Z,
    Slash,
    ArrowUp,
    ArrowDown,
    ArrowLeft,
    ArrowRight,
    Home,
    End,
    PageUp,
    PageDown,
    Backspace,
    Delete,
    Enter,
    Tab,
    Escape,
    /// Any other key.
    Other,
}

/// What a key press asks of the document.
#[derive(Debug, Clone, Copy, PartialEq, Eq, Structural)]
pub enum KeyCommand {
    Copy,
    Cut,
    MoveLineUp,
    MoveLineDown,
    DeleteLine,
    WordLeft,
    WordRight,
    Left,
    Right,
    Up,
    Down,
    DocStart,
    DocEnd,
    LineStart,
    LineEnd,
    PageUp,
    PageDown,
    DeleteWordLeft,
    Backspace,
    DeleteWordRight,
    DeleteForward,
    NewlineWithIndent,
    /// Previous snippet placeholder, or unindent.
    Outdent,
    /// Next snippet placeholder, snippet expansion, or four spaces.
    Indent,
    SelectAll,
    Redo,
    Undo,
    ToggleComment,
    DuplicateLine,
    SelectAllOccurrences,
    /// Cancel the snippet and the extra cursors.
    Cancel,
}

/// The command of a key press, by the bindings' order (the first that
/// applies wins).
pub open spec fn command_of(key: EditorKey, ctrl: bool, shift: bool, alt: bool) -> Option<KeyCommand> {
    match key {
        EditorKey::C => if ctrl { Some(KeyCommand::Copy) } else { None },
        EditorKey::X => if ctrl { Some(KeyCommand::Cut) } else { None },
        EditorKey::ArrowUp => if alt { Some(KeyCommand::MoveLineUp) } else { Some(KeyCommand::Up) },
        EditorKey::ArrowDown => if alt {
            Some(KeyCommand::MoveLineDown)
        } else {
            Some(KeyCommand::Down)
        },
        EditorKey::K => if ctrl && shift { Some(KeyCommand::DeleteLine) } else { None },
        EditorKey::ArrowLeft => if ctrl { Some(KeyCommand::WordLeft) } else { Some(KeyCommand::Left) },
        EditorKey::ArrowRight => if ctrl {
            Some(KeyCommand::WordRight)
        } else {
            Some(KeyCommand::Right)
        },
        EditorKey::Home => if ctrl { Some(KeyCommand::DocStart) } else { Some(KeyCommand::LineStart) },
        EditorKey::End => if ctrl { Some(KeyCommand::DocEnd) } else { Some(KeyCommand::LineEnd) },
        EditorKey::PageUp => Some(KeyCommand::PageUp),
        EditorKey::PageDown => Some(KeyCommand::PageDown),
        EditorKey::Backspace => if ctrl {
            Some(KeyCommand::DeleteWordLeft)
        } else {
            Some(KeyCommand::Backspace)
        },
        EditorKey::Delete => if ctrl {
            Some(KeyCommand::DeleteWordRight)
        } else {
            Some(KeyCommand::DeleteForward)
        },
        EditorKey::Enter => Some(KeyCommand::NewlineWithIndent),
        EditorKey::Tab => if shift { Some(KeyCommand::Outdent) } else { Some(KeyCommand::Indent) },
        EditorKey::A => if ctrl { Some(KeyCommand::SelectAll) } else { None },
        EditorKey::Z => if ctrl && shift {
            Some(KeyCommand::Redo)
        } else if ctrl {
            Some(KeyCommand::Undo)
        } else {
            None
        },
        EditorKey::Y => if ctrl { Some(KeyCommand::Redo) } else { None },
        EditorKey::Slash => if ctrl { Some(KeyCommand::ToggleComment) } else { None },
        EditorKey::D => if ctrl { Some(KeyCommand::DuplicateLine) } else { None },
        EditorKey::L => if ctrl && shift { Some(KeyCommand::SelectAllOccurrences) } else { None },
        EditorKey::Escape => Some(KeyCommand::Cancel),
        _ => None,
    }
}

/// The command a key press runs in the editor (none: the key does nothing
/// here).
pub fn key_command(key: EditorKey, ctrl: bool, shift: bool, alt: bool) -> (r: Option<KeyCommand>)
    ensures
        r == command_of(key, ctrl, shift, alt),
{
    match key {
        EditorKey::C if ctrl => Some(KeyCommand::Copy),
        EditorKey::X if ctrl => Some(KeyCommand::Cut),
        EditorKey::ArrowUp if alt => Some(KeyCommand::MoveLineUp),
        EditorKey::ArrowDown if alt => Some(KeyCommand::MoveLineDown),
        EditorKey::K if ctrl && shift => Some(KeyCommand::DeleteLine),
        EditorKey::ArrowLeft if ctrl => Some(KeyCommand::WordLeft),
        EditorKey::ArrowRight if ctrl => Some(KeyCommand::WordRight),
        EditorKey::ArrowLeft => Some(KeyCommand::Left),
        EditorKey::ArrowRight => Some(KeyCommand::Right),
        EditorKey::ArrowUp => Some(KeyCommand::Up),
        EditorKey::ArrowDown => Some(KeyCommand::Down),
        EditorKey::Home if ctrl => Some(KeyCommand::DocStart),
        EditorKey::End if ctrl => Some(KeyCommand::DocEnd),
        EditorKey::Home => Some(KeyCommand::LineStart),
        EditorKey::End => Some(KeyCommand::LineEnd),
        EditorKey::PageUp => Some(KeyCommand::PageUp),
        EditorKey::PageDown => Some(KeyCommand::PageDown),
        EditorKey::Backspace if ctrl => Some(KeyCommand::DeleteWordLeft),
        EditorKey::Backspace => Some(KeyCommand::Backspace),
        EditorKey::Delete if ctrl => Some(KeyCommand::DeleteWordRight),
        EditorKey::Delete => Some(KeyCommand::DeleteForward),
        EditorKey::Enter => Some(KeyCommand::NewlineWithIndent),
        EditorKey::Tab if shift => Some(KeyCommand::Outdent),
        EditorKey::Tab => Some(KeyCommand::Indent),
        EditorKey::A if ctrl => Some(KeyCommand::SelectAll),
        EditorKey::Z if ctrl && shift => Some(KeyCommand::Redo),
        EditorKey::Z if ctrl => Some(KeyCommand::Undo),
        EditorKey::Y if ctrl => Some(KeyCommand::Redo),
        EditorKey::Slash if ctrl => Some(KeyCommand::ToggleComment),
        EditorKey::D if ctrl => Some(KeyCommand::DuplicateLine),
        EditorKey::L if ctrl && shift => Some(KeyCommand::SelectAllOccurrences),
        EditorKey::Escape => Some(KeyCommand::Cancel),
        _ => None,
    }
}

/// Commands that always mark the document modified (cutting does only when
/// something was selected).
pub open spec fn always_modifies(c: KeyCommand) -> bool {
    match c {
        KeyCommand::MoveLineUp | KeyCommand::MoveLineDown | KeyCommand::DeleteLine
        | KeyCommand::DeleteWordLeft | KeyCommand::Backspace | KeyCommand::DeleteWordRight
        | KeyCommand::DeleteForward | KeyCommand::NewlineWithIndent | KeyCommand::Outdent
        | KeyCommand::Indent | KeyCommand::ToggleComment | KeyCommand::DuplicateLine => true,
        _ => false,
    }
}

/// Whether running `c` always marks the document modified.
pub fn modifies_document(c: KeyCommand) -> (r: bool)
    ensures
        r == always_modifies(c),
{
    match c {
        KeyCommand::MoveLineUp | KeyCommand::MoveLineDown | KeyCommand::DeleteLine
        | KeyCommand::DeleteWordLeft | KeyCommand::Backspace | KeyCommand::DeleteWordRight
        | KeyCommand::DeleteForward | KeyCommand::NewlineWithIndent | KeyCommand::Outdent
        | KeyCommand::Indent | KeyCommand::ToggleComment | KeyCommand::DuplicateLine => true,
        _ => false,
    }
}

/// Whether a recording macro records the key press of command `c`: all but
/// selecting every occurrence.
pub fn recorded_in_macro(c: KeyCommand) -> (r: bool)
    ensures
        r == (c != KeyCommand::SelectAllOccurrences),
{
    match c {
        KeyCommand::SelectAllOccurrences => false,
        _ => true,
    }
}

/// The letter of a Ctrl combination the vim emulation handles.
pub open spec fn vim_ctrl_letter(key: EditorKey) -> Option<char> {
    match key {
        EditorKey::R => Some('r'),
        EditorKey::F => Some('f'),
        EditorKey::B => Some('b'),
        EditorKey::D => Some('d'),
        EditorKey::U => Some('u'),
        _ => None,
    }
}

/// The name of a special key for the vim emulation.
pub open spec fn vim_key_name(key: EditorKey) -> Option<Seq<char>> {
    match key {
        EditorKey::Escape => Some("Escape"@),
        EditorKey::Enter => Some("Enter"@),
        EditorKey::Backspace => Some("Backspace"@),
        EditorKey::Delete => Some("Delete"@),
        EditorKey::Tab => Some("Tab"@),
        EditorKey::ArrowLeft => Some("ArrowLeft"@),
        EditorKey::ArrowRight => Some("ArrowRight"@),
        EditorKey::ArrowUp => Some("ArrowUp"@),
        EditorKey::ArrowDown => Some("ArrowDown"@),
        EditorKey::Home => Some("Home"@),
        EditorKey::End => Some("End"@),
        EditorKey::PageUp => Some("PageUp"@),
        EditorKey::PageDown => Some("PageDown"@),
        _ => None,
    }
}

/// The key as the vim emulation receives it: `Ctrl+` and a letter (upper
/// case with Shift) for the Ctrl combinations it handles, none for other Ctrl
/// combinations, the name of a special key, and none for printable keys
/// (which arrive as text).
pub fn egui_key_to_vim_str(key: EditorKey, ctrl: bool, shift: bool, alt: bool) -> (r: Option<String>)
    ensures
        ctrl ==> match vim_ctrl_letter(key) {
            Some(c) => r matches Some(s) && s@ == "Ctrl+"@.push(
                if shift {
                    ((c as u8) - 32) as char
                } else {
                    c
                },
            ),
            None => r is None,
        },
        !ctrl ==> match vim_key_name(key) {
            Some(n) => r matches Some(s) && s@ == n,
            None => r is None,
        },
{
    if ctrl {
        let base: Option<char> = match key {
            EditorKey::R => Some('r'),
            EditorKey::F => Some('f'),
            EditorKey::B => Some('b'),
            EditorKey::D => Some('d'),
            EditorKey::U => Some('u'),
            _ => None,
        };
        return match base {
            Some(b) => {
                let letter = if shift {
                    ((b as u8) - 32) as char
                } else {
                    b
                };
                let mut s = "Ctrl+".to_string();
                crate::text::push_char(&mut s, letter);
                Some(s)
            },
            None => None,
        };
    }
    let name: Option<&str> = match key {
        EditorKey::Escape => Some("Escape"),
        EditorKey::Enter => Some("Enter"),
        EditorKey::Backspace => Some("Backspace"),
        EditorKey::Delete => Some("Delete"),
        EditorKey::Tab => Some("Tab"),
        EditorKey::ArrowLeft => Some("ArrowLeft"),
        EditorKey::ArrowRight => Some("ArrowRight"),
        EditorKey::ArrowUp => Some("ArrowUp"),
        EditorKey::ArrowDown => Some("ArrowDown"),
        EditorKey::Home => Some("Home"),
        EditorKey::End => Some("End"),
        EditorKey::PageUp => Some("PageUp"),
        EditorKey::PageDown => Some("PageDown"),
        _ => None,
    };
    match name {
        Some(n) => Some(n.to_string()),
        None => None,
    }
}

/// The name a key press is recorded under in a macro (the key's name in the
/// windowing toolkit); none for the keys the editor does not bind.
pub open spec fn key_name(key: EditorKey) -> Option<Seq<char>> {
    match key {
        EditorKey::A => Some("A"@),
        EditorKey::B => Some("B"@),
        EditorKey::C => Some("C"@),
        EditorKey::D => Some("D"@),
        EditorKey::F => Some("F"@),
        EditorKey::K => Some("K"@),
        EditorKey::L => Some("L"@),
        EditorKey::R => Some("R"@),
        EditorKey::U => Some("U"@),
        EditorKey::X => Some("X"@),
        EditorKey::Y => Some("Y"@),
        EditorKey::Z => Some("Z"@),
        EditorKey::Slash => Some("Slash"@),
        EditorKey::ArrowUp => Some("ArrowUp"@),
        EditorKey::ArrowDown => Some("ArrowDown"@),
        EditorKey::ArrowLeft => Some("ArrowLeft"@),
        EditorKey::ArrowRight => Some("ArrowRight"@),
        EditorKey::Home => Some("Home"@),
        EditorKey::End => Some("End"@),
        EditorKey::PageUp => Some("PageUp"@),
        EditorKey::PageDown => Some("PageDown"@),
        EditorKey::Backspace => Some("Backspace"@),
        EditorKey::Delete => Some("Delete"@),
        EditorKey::Enter => Some("Enter"@),
        EditorKey::Tab => Some("Tab"@),
        EditorKey::Escape => Some("Escape"@),
        EditorKey::Other => None,
    }
}

/// The bound key whose name has this length and these first and last
/// characters (no two names agree on all three).
spec fn key_by_outline(n: Seq<char>) -> EditorKey {
    if n.len() == 1 && n[0] == 'A' && n[n.len() - 1] == 'A' {
        EditorKey::A
    } else if n.len() == 1 && n[0] == 'B' && n[n.len() - 1] == 'B' {
        EditorKey::B
    } else if n.len() == 1 && n[0] == 'C' && n[n.len() - 1] == 'C' {
        EditorKey::C
    } else if n.len() == 1 && n[0] == 'D' && n[n.len() - 1] == 'D' {
        EditorKey::D
    } else if n.len() == 1 && n[0] == 'F' && n[n.len() - 1] == 'F' {
        EditorKey::F
    } else if n.len() == 1 && n[0] == 'K' && n[n.len() - 1] == 'K' {
        EditorKey::K
    } else if n.len() == 1 && n[0] == 'L' && n[n.len() - 1] == 'L' {
        EditorKey::L
    } else if n.len() == 1 && n[0] == 'R' && n[n.len() - 1] == 'R' {
        EditorKey::R
    } else if n.len() == 1 && n[0] == 'U' && n[n.len() - 1] == 'U' {
        EditorKey::U
    } else if n.len() == 1 && n[0] == 'X' && n[n.len() - 1] == 'X' {
        EditorKey::X
    } else if n.len() == 1 && n[0] == 'Y' && n[n.len() - 1] == 'Y' {
        EditorKey::Y
    } else if n.len() == 1 && n[0] == 'Z' && n[n.len() - 1] == 'Z' {
        EditorKey::Z
    } else if n.len() == 5 && n[0] == 'S' && n[n.len() - 1] == 'h' {
        EditorKey::Slash
    } else if n.len() == 7 && n[0] == 'A' && n[n.len() - 1] == 'p' {
        EditorKey::ArrowUp
    } else if n.len() == 9 && n[0] == 'A' && n[n.len() - 1] == 'n' {
        EditorKey::ArrowDown
    } else if n.len() == 9 && n[0] == 'A' && n[n.len() - 1] == 't' {
        EditorKey::ArrowLeft
    } else if n.len() == 10 && n[0] == 'A' && n[n.len() - 1] == 't' {
        EditorKey::ArrowRight
    } else if n.len() == 4 && n[0] == 'H' && n[n.len() - 1] == 'e' {
        EditorKey::Home
    } else if n.len() == 3 && n[0] == 'E' && n[n.len() - 1] == 'd' {
        EditorKey::End
    } else if n.len() == 6 && n[0] == 'P' && n[n.len() - 1] == 'p' {
        EditorKey::PageUp
    } else if n.len() == 8 && n[0] == 'P' && n[n.len() - 1] == 'n' {
        EditorKey::PageDown
    } else if n.len() == 9 && n[0] == 'B' && n[n.len() - 1] == 'e' {
        EditorKey::Backspace
    } else if n.len() == 6 && n[0] == 'D' && n[n.len() - 1] == 'e' {
        EditorKey::Delete
    } else if n.len() == 5 && n[0] == 'E' && n[n.len() - 1] == 'r' {
        EditorKey::Enter
    } else if n.len() == 3 && n[0] == 'T' && n[n.len() - 1] == 'b' {
        EditorKey::Tab
    } else if n.len() == 6 && n[0] == 'E' && n[n.len() - 1] == 'e' {
        EditorKey::Escape
    } else {
        EditorKey::Other
    }
}

proof fn lemma_key_outline(k: EditorKey)
    requires
        key_name(k) is Some,
    ensures
        key_by_outline(key_name(k)->0) == k,
{
    match k {
        EditorKey::A => {
            reveal_strlit("A");
        },
        EditorKey::B => {
            reveal_strlit("B");
        },
        EditorKey::C => {
            reveal_strlit("C");
        },
        EditorKey::D => {
            reveal_strlit("D");
        },
        EditorKey::F => {
            reveal_strlit("F");
        },
        EditorKey::K => {
            reveal_strlit("K");
        },
        EditorKey::L => {
            reveal_strlit("L");
        },
        EditorKey::R => {
            reveal_strlit("R");
        },
        EditorKey::U => {
            reveal_strlit("U");
        },
        EditorKey::X => {
            reveal_strlit("X");
        },
        EditorKey::Y => {
            reveal_strlit("Y");
        },
        EditorKey::Z => {
            reveal_strlit("Z");
        },
        EditorKey::Slash => {
            reveal_strlit("Slash");
        },
        EditorKey::ArrowUp => {
            reveal_strlit("ArrowUp");
        },
        EditorKey::ArrowDown => {
            reveal_strlit("ArrowDown");
        },
        EditorKey::ArrowLeft => {
            reveal_strlit("ArrowLeft");
        },
        EditorKey::ArrowRight => {
            reveal_strlit("ArrowRight");
        },
        EditorKey::Home => {
            reveal_strlit("Home");
        },
        EditorKey::End => {
            reveal_strlit("End");
        },
        EditorKey::PageUp => {
            reveal_strlit("PageUp");
        },
        EditorKey::PageDown => {
            reveal_strlit("PageDown");
        },
        EditorKey::Backspace => {
            reveal_strlit("Backspace");
        },
        EditorKey::Delete => {
            reveal_strlit("Delete");
        },
        EditorKey::Enter => {
            reveal_strlit("Enter");
        },
        EditorKey::Tab => {
            reveal_strlit("Tab");
        },
        EditorKey::Escape => {
            reveal_strlit("Escape");
        },
        EditorKey::Other => {},
    }
}

/// No two bound keys share a name.
pub proof fn lemma_key_names_distinct(a: EditorKey, b: EditorKey)
    requires
        key_name(a) is Some,
        key_name(a) == key_name(b),
    ensures
        a == b,
{
    lemma_key_outline(a);
    lemma_key_outline(b);
}

/// The key recorded under `name` (`Other` for a name no bound key has).
pub fn key_named(name: &str) -> (r: EditorKey)
    ensures
        r != EditorKey::Other ==> key_name(r) == Some(name@),
        r == EditorKey::Other ==> forall|k: EditorKey| key_name(k) != Some(name@),
        forall|k: EditorKey| key_name(k) == Some(name@) ==> r == k,
{
    proof {
        assert forall|a: EditorKey, b: EditorKey| key_name(a) is Some && key_name(a) == key_name(b) implies a == b by {
            lemma_key_names_distinct(a, b);
        }
    }
    if str_eq(name, "A") {
        return EditorKey::A;
    }
    if str_eq(name, "B") {
        return EditorKey::B;
    }
    if str_eq(name, "C") {
        return EditorKey::C;
    }
    if str_eq(name, "D") {
        return EditorKey::D;
    }
    if str_eq(name, "F") {
        return EditorKey::F;
    }
    if str_eq(name, "K") {
        return EditorKey::K;
    }
    if str_eq(name, "L") {
        return EditorKey::L;
    }
    if str_eq(name, "R") {
        return EditorKey::R;
    }
    if str_eq(name, "U") {
        return EditorKey::U;
    }
    if str_eq(name, "X") {
        return EditorKey::X;
    }
    if str_eq(name, "Y") {
        return EditorKey::Y;
    }
    if str_eq(name, "Z") {
        return EditorKey::Z;
    }
    if str_eq(name, "Slash") {
        return EditorKey::Slash;
    }
    if str_eq(name, "ArrowUp") {
        return EditorKey::ArrowUp;
    }
    if str_eq(name, "ArrowDown") {
        return EditorKey::ArrowDown;
    }
    if str_eq(name, "ArrowLeft") {
        return EditorKey::ArrowLeft;
    }
    if str_eq(name, "ArrowRight") {
        return EditorKey::ArrowRight;
    }
    if str_eq(name, "Home") {
        return EditorKey::Home;
    }
    if str_eq(name, "End") {
        return EditorKey::End;
    }
    if str_eq(name, "PageUp") {
        return EditorKey::PageUp;
    }
    if str_eq(name, "PageDown") {
        return EditorKey::PageDown;
    }
    if str_eq(name, "Backspace") {
        return EditorKey::Backspace;
    }
    if str_eq(name, "Delete") {
        return EditorKey::Delete;
    }
    if str_eq(name, "Enter") {
        return EditorKey::Enter;
    }
    if str_eq(name, "Tab") {
        return EditorKey::Tab;
    }
    if str_eq(name, "Escape") {
        return EditorKey::Escape;
    }
    EditorKey::Other
}

/// What typing some text does at the cursor, given the character after it.
#[derive(Debug, Clone, Copy, PartialEq, Eq, Structural)]
pub enum TypedText {
    /// Move past the quote after the cursor (the document counts as
    /// modified).
    SkipQuote,
    /// Move past the closing bracket after the cursor.
    SkipCloser,
    /// Insert the typed opener and this closer, the cursor between them.
    InsertPair(char),
    /// Insert the text.
    Insert,
}

/// The closer that typing an opener inserts with it.
pub open spec fn closer_of(c: char) -> Option<char> {
    if c == '(' {
        Some(')')
    } else if c == '[' {
        Some(']')
    } else if c == '{' {
        Some('}')
    } else if c == '"' {
        Some('"')
    } else if c == '\'' {
        Some('\'')
    } else {
        None
    }
}

/// The bracket auto-close rule: a single typed opener inserts its closer too
/// (or steps over the same quote right after the cursor); a typed closing
/// bracket steps over the same bracket right after the cursor; anything else
/// is inserted as typed.
pub open spec fn typed_action(text: Seq<char>, next: Option<char>) -> TypedText {
    if text.len() != 1 {
        TypedText::Insert
    } else {
        let ch = text[0];
        match closer_of(ch) {
            Some(close) => if (ch == '"' || ch == '\'') && next == Some(ch) {
                TypedText::SkipQuote
            } else {
                TypedText::InsertPair(close)
            },
            None => if (ch == ')' || ch == ']' || ch == '}') && next == Some(ch) {
                TypedText::SkipCloser
            } else {
                TypedText::Insert
            },
        }
    }
}

/// What typing `text` does when `next` is the character after the cursor
/// (none at the end of the document).
pub fn typed_text_action(text: &str, next: Option<char>) -> (r: TypedText)
    ensures
        r == typed_action(text@, next),
{
    let cs = chars_of(text);
    if cs.len() != 1 {
        return TypedText::Insert;
    }
    let ch = cs[0];
    let close: Option<char> = if ch == '(' {
        Some(')')
    } else if ch == '[' {
        Some(']')
    } else if ch == '{' {
        Some('}')
    } else if ch == '"' {
        Some('"')
    } else if ch == '\'' {
        Some('\'')
    } else {
        None
    };
    match close {
        Some(c) => {
            if (ch == '"' || ch == '\'') && next == Some(ch) {
                TypedText::SkipQuote
            } else {
                TypedText::InsertPair(c)
            }
        },
        None => {
            if (ch == ')' || ch == ']' || ch == '}') && next == Some(ch) {
                TypedText::SkipCloser
            } else {
                TypedText::Insert
            }
        },
    }
}

} // verus!
