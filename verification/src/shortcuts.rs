//! The editor window's global shortcuts: which key press runs which window
//! action, which panel Escape closes, and cycling through the tabs.

use vstd::prelude::*;

verus! {

/// The keys the window's shortcuts use.
#[derive(Debug, Clone, Copy, PartialEq, Eq, Structural)]
pub enum AppKey {
    F7,
    F12,
    F11,
    Backslash,
    Q,
    L,
    Backtick,
    O,
    S,
    N,
    W,
    M,
    F,
    H,
    G,
    P,
    B,
    Tab,
    Plus,
    Equals,
    Minus,
    Num0,
    F2,
    Escape,
    /// Any other key.
    Other,
}

/// The window actions a shortcut runs.
#[derive(Debug, Clone, Copy, PartialEq, Eq, Structural)]
pub enum Shortcut {
    DiffPrevHunk,
    DiffNextHunk,
    FindReferences,
    GoToDefinition,
    ToggleZen,
    ToggleSplit,
    PlaybackMacro,
    ToggleMacroRecording,
    SelectAllOccurrences,
    ToggleTerminal,
    ToggleGoToSymbol,
    OpenFile,
    SaveAs,
    SaveFile,
    NewTab,
    CloseTab,
    ToggleMarkdownPreview,
    ToggleFindInFiles,
    ToggleSearch,
    ToggleReplace,
    GoToLine,
    ToggleCommandPalette,
    ToggleGoToFile,
    ToggleSidebar,
    PrevTab,
    NextTab,
    ZoomIn,
    ZoomOut,
    ZoomReset,
    ToggleBookmark,
    PrevBookmark,
    NextBookmark,
    CloseTopPanel,
}

/// The window action of a key press with Ctrl (or Cmd) and Shift as given,
/// by the bindings' order (the first that applies wins).
pub open spec fn shortcut_of(key: AppKey, ctrl: bool, shift: bool) -> Option<Shortcut> {
    match key {
        AppKey::F7 => if shift { Some(Shortcut::DiffPrevHunk) } else { Some(Shortcut::DiffNextHunk) },
        AppKey::F12 => if shift { Some(Shortcut::FindReferences) } else { if !shift { Some(Shortcut::GoToDefinition) } else { None } },
        AppKey::F11 => Some(Shortcut::ToggleZen),
        AppKey::Backslash => if ctrl { Some(Shortcut::ToggleSplit) } else { None },
        AppKey::Q => if ctrl && shift { Some(Shortcut::PlaybackMacro) } else { if ctrl { Some(Shortcut::ToggleMacroRecording) } else { None } },
        AppKey::L => if ctrl && shift { Some(Shortcut::SelectAllOccurrences) } else { None },
        AppKey::Backtick => if ctrl { Some(Shortcut::ToggleTerminal) } else { None },
        AppKey::O => if ctrl && shift { Some(Shortcut::ToggleGoToSymbol) } else { if ctrl { Some(Shortcut::OpenFile) } else { None } },
        AppKey::S => if ctrl && shift { Some(Shortcut::SaveAs) } else { if ctrl { Some(Shortcut::SaveFile) } else { None } },
        AppKey::N => if ctrl { Some(Shortcut::NewTab) } else { None },
        AppKey::W => if ctrl { Some(Shortcut::CloseTab) } else { None },
        AppKey::M => if ctrl && shift { Some(Shortcut::ToggleMarkdownPreview) } else { None },
        AppKey::F => if ctrl && shift { Some(Shortcut::ToggleFindInFiles) } else { if ctrl { Some(Shortcut::ToggleSearch) } else { None } },
        AppKey::H => if ctrl { Some(Shortcut::ToggleReplace) } else { None },
        AppKey::G => if ctrl { Some(Shortcut::GoToLine) } else { None },
        AppKey::P => if ctrl && shift { Some(Shortcut::ToggleCommandPalette) } else { if ctrl { Some(Shortcut::ToggleGoToFile) } else { None } },
        AppKey::B => if ctrl { Some(Shortcut::ToggleSidebar) } else { None },
        AppKey::Tab => if ctrl && shift { Some(Shortcut::PrevTab) } else { if ctrl { Some(Shortcut::NextTab) } else { None } },
        AppKey::Plus => if ctrl { Some(Shortcut::ZoomIn) } else { None },
        AppKey::Equals => if ctrl { Some(Shortcut::ZoomIn) } else { None },
        AppKey::Minus => if ctrl { Some(Shortcut::ZoomOut) } else { None },
        AppKey::Num0 => if ctrl { Some(Shortcut::ZoomReset) } else { None },
        AppKey::F2 => if ctrl { Some(Shortcut::ToggleBookmark) } else { if shift { Some(Shortcut::PrevBookmark) } else { Some(Shortcut::NextBookmark) } },
        AppKey::Escape => Some(Shortcut::CloseTopPanel),
        AppKey::Other => None,
    }
}

/// The window action a key press runs (none: not a window shortcut).
pub fn global_shortcut(key: AppKey, ctrl: bool, shift: bool) -> (r: Option<Shortcut>)
    ensures
        r == shortcut_of(key, ctrl, shift),
{
    match key {
        AppKey::F7 if shift => Some(Shortcut::DiffPrevHunk),
        AppKey::F7 => Some(Shortcut::DiffNextHunk),
        AppKey::F12 if shift => Some(Shortcut::FindReferences),
        AppKey::F12 if !shift => Some(Shortcut::GoToDefinition),
        AppKey::F11 => Some(Shortcut::ToggleZen),
        AppKey::Backslash if ctrl => Some(Shortcut::ToggleSplit),
        AppKey::Q if ctrl && shift => Some(Shortcut::PlaybackMacro),
        AppKey::Q if ctrl => Some(Shortcut::ToggleMacroRecording),
        AppKey::L if ctrl && shift => Some(Shortcut::SelectAllOccurrences),
        AppKey::Backtick if ctrl => Some(Shortcut::ToggleTerminal),
        AppKey::O if ctrl && shift => Some(Shortcut::ToggleGoToSymbol),
        AppKey::O if ctrl => Some(Shortcut::OpenFile),
        AppKey::S if ctrl && shift => Some(Shortcut::SaveAs),
        AppKey::S if ctrl => Some(Shortcut::SaveFile),
        AppKey::N if ctrl => Some(Shortcut::NewTab),
        AppKey::W if ctrl => Some(Shortcut::CloseTab),
        AppKey::M if ctrl && shift => Some(Shortcut::ToggleMarkdownPreview),
        AppKey::F if ctrl && shift => Some(Shortcut::ToggleFindInFiles),
        AppKey::F if ctrl => Some(Shortcut::ToggleSearch),
        AppKey::H if ctrl => Some(Shortcut::ToggleReplace),
        AppKey::G if ctrl => Some(Shortcut::GoToLine),
        AppKey::P if ctrl && shift => Some(Shortcut::ToggleCommandPalette),
        AppKey::P if ctrl => Some(Shortcut::ToggleGoToFile),
        AppKey::B if ctrl => Some(Shortcut::ToggleSidebar),
        AppKey::Tab if ctrl && shift => Some(Shortcut::PrevTab),
        AppKey::Tab if ctrl => Some(Shortcut::NextTab),
        AppKey::Plus if ctrl => Some(Shortcut::ZoomIn),
        AppKey::Equals if ctrl => Some(Shortcut::ZoomIn),
        AppKey::Minus if ctrl => Some(Shortcut::ZoomOut),
        AppKey::Num0 if ctrl => Some(Shortcut::ZoomReset),
        AppKey::F2 if ctrl => Some(Shortcut::ToggleBookmark),
        AppKey::F2 if shift => Some(Shortcut::PrevBookmark),
        AppKey::F2 => Some(Shortcut::NextBookmark),
        AppKey::Escape => Some(Shortcut::CloseTopPanel),
        _ => None,
    }
}

/// The panels Escape can close, from the first it closes to the last.
#[derive(Debug, Clone, Copy, PartialEq, Eq, Structural)]
pub enum Panel {
    RenameDialog,
    References,
    DiffView,
    GoToSymbol,
    GoToFile,
    GoToLine,
    Search,
    FindInFiles,
}

/// Which panels are open.
#[derive(Debug, Clone, Copy)]
pub struct OpenPanels {
    pub rename_dialog: bool,
    pub references: bool,
    pub diff_view: bool,
    pub go_to_symbol: bool,
    pub go_to_file: bool,
    pub go_to_line: bool,
    pub search: bool,
    pub find_in_files: bool,
}

/// The panel Escape closes: the first open one in the order of `Panel`;
/// none when all are closed.
pub open spec fn top_panel(p: OpenPanels) -> Option<Panel> {
    if p.rename_dialog {
        Some(Panel::RenameDialog)
    } else if p.references {
        Some(Panel::References)
    } else if p.diff_view {
        Some(Panel::DiffView)
    } else if p.go_to_symbol {
        Some(Panel::GoToSymbol)
    } else if p.go_to_file {
        Some(Panel::GoToFile)
    } else if p.go_to_line {
        Some(Panel::GoToLine)
    } else if p.search {
        Some(Panel::Search)
    } else if p.find_in_files {
        Some(Panel::FindInFiles)
    } else {
        None
    }
}

/// The panel that Escape closes.
pub fn panel_to_close(p: OpenPanels) -> (r: Option<Panel>)
    ensures
        r == top_panel(p),
{
    if p.rename_dialog {
        Some(Panel::RenameDialog)
    } else if p.references {
        Some(Panel::References)
    } else if p.diff_view {
        Some(Panel::DiffView)
    } else if p.go_to_symbol {
        Some(Panel::GoToSymbol)
    } else if p.go_to_file {
        Some(Panel::GoToFile)
    } else if p.go_to_line {
        Some(Panel::GoToLine)
    } else if p.search {
        Some(Panel::Search)
    } else if p.find_in_files {
        Some(Panel::FindInFiles)
    } else {
        None
    }
}

/// The tab after `active` among `count`, wrapping around to the first.
pub open spec fn tab_after(active: int, count: int) -> int {
    (active + 1) % count
}

/// The tab before `active` among `count`, wrapping around to the last.
pub open spec fn tab_before(active: int, count: int) -> int {
    if active == 0 {
        count - 1
    } else {
        active - 1
    }
}

/// The tab after `active`, wrapping around to the first.
pub fn next_tab(active: usize, count: usize) -> (r: usize)
    requires
        count > 0,
        active < usize::MAX,
    ensures
        r == tab_after(active as int, count as int),
{
    (active + 1) % count
}

/// The tab before `active`, wrapping around to the last.
pub fn prev_tab(active: usize, count: usize) -> (r: usize)
    requires
        count > 0,
    ensures
        r == tab_before(active as int, count as int),
{
    if active == 0 {
        count - 1
    } else {
        active - 1
    }
}

/// Going to the previous tab undoes going to the next one, and the other
/// way round.
pub proof fn lemma_tab_steps_undo(active: int, count: int)
    requires
        0 <= active < count,
    ensures
        tab_before(tab_after(active, count), count) == active,
        tab_after(tab_before(active, count), count) == active,
{
    if active + 1 < count {
        vstd::arithmetic::div_mod::lemma_small_mod((active + 1) as nat, count as nat);
    } else {
        vstd::arithmetic::div_mod::lemma_mod_self_0(count);
    }
    if active == 0 {
        vstd::arithmetic::div_mod::lemma_mod_self_0(count);
    } else {
        vstd::arithmetic::div_mod::lemma_small_mod(active as nat, count as nat);
    }
}

} // verus!
