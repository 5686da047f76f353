//! Persistent editor configuration: the user-interface section, the
//! defaults of the settings, and where the settings files live.

use vstd::prelude::*;
use crate::git::{join_path, joined_path};

verus! {

/// The user-interface section of the configuration.
pub struct UiSection {
    pub theme: String,
    pub show_minimap: bool,
    pub show_sidebar: bool,
}

/// The default tab width.
pub fn default_tab_size() -> (r: u32)
    ensures
        r == 4,
{
    4
}

/// The default theme name.
pub fn default_theme() -> (r: String)
    ensures
        r@ == "dark"@,
{
    "dark".to_string()
}

/// Whether the minimap shows by default.
pub fn default_show_minimap() -> (r: bool)
    ensures
        r,
{
    true
}

impl Default for UiSection {
    fn default() -> (r: UiSection)
        ensures
            r.theme@ == "dark"@,
            r.show_minimap,
            !r.show_sidebar,
    {
        UiSection { theme: default_theme(), show_minimap: default_show_minimap(), show_sidebar: false }
    }
}

/// The kind of system the settings folder is looked up for.
#[derive(Debug, Clone, Copy, PartialEq, Eq, Structural)]
pub enum ConfigPlatform {
    Windows,
    MacOs,
    /// Linux and the other Unix systems.
    OtherUnix,
}

/// The text of an optional string.
pub open spec fn opt_text(s: Option<String>) -> Option<Seq<char>> {
    match s {
        Some(t) => Some(t@),
        None => None,
    }
}

/// The folder that holds the settings folder: `APPDATA` on Windows,
/// `HOME/Library/Application Support` on macOS, else `XDG_CONFIG_HOME` or,
/// without it, `HOME/.config`; none when the variable it needs is unset.
pub open spec fn config_dir_of(
    platform: ConfigPlatform,
    appdata: Option<Seq<char>>,
    home: Option<Seq<char>>,
    xdg: Option<Seq<char>>,
) -> Option<Seq<char>> {
    match platform {
        ConfigPlatform::Windows => appdata,
        ConfigPlatform::MacOs => match home {
            Some(h) => Some(joined_path(joined_path(h, "Library"@), "Application Support"@)),
            None => None,
        },
        ConfigPlatform::OtherUnix => match xdg {
            Some(x) => Some(x),
            None => match home {
                Some(h) => Some(joined_path(h, ".config"@)),
                None => None,
            },
        },
    }
}

/// The path of the settings file `file_name` (in the `openedit` folder of
/// the settings folder), from the environment's values; none when the
/// variable the platform needs is unset.
pub fn config_file_path(
    platform: ConfigPlatform,
    appdata: Option<String>,
    home: Option<String>,
    xdg: Option<String>,
    file_name: &str,
) -> (r: Option<String>)
    ensures
        r is Some <==> config_dir_of(platform, opt_text(appdata), opt_text(home), opt_text(xdg)) is Some,
        r matches Some(p) ==> p@ == joined_path(
            joined_path(config_dir_of(platform, opt_text(appdata), opt_text(home), opt_text(xdg))->0, "openedit"@),
            file_name@,
        ),
{
    let dir: Option<String> = match platform {
        ConfigPlatform::Windows => appdata,
        ConfigPlatform::MacOs => match home {
            Some(h) => Some(join_path(join_path(h.as_str(), "Library").as_str(), "Application Support")),
            None => None,
        },
        ConfigPlatform::OtherUnix => match xdg {
            Some(x) => Some(x),
            None => match home {
                Some(h) => Some(join_path(h.as_str(), ".config")),
                None => None,
            },
        },
    };
    match dir {
        Some(d) => Some(join_path(join_path(d.as_str(), "openedit").as_str(), file_name)),
        None => None,
    }
}

} // verus!
