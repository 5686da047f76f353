//! The language shown for a file, from its extension.

use vstd::prelude::*;
use crate::text::{str_eq, lowercase, to_lowercase};

verus! {

/// The language of a (lower-case) file extension.
pub open spec fn language_of(e: Seq<char>) -> Seq<char> {
    if e == "rs"@ {
        "Rust"@
    } else if e == "py"@ || e == "pyw"@ {
        "Python"@
    } else if e == "js"@ || e == "mjs"@ || e == "cjs"@ {
        "JavaScript"@
    } else if e == "ts"@ || e == "mts"@ || e == "cts"@ {
        "TypeScript"@
    } else if e == "tsx"@ {
        "TSX"@
    } else if e == "jsx"@ {
        "JSX"@
    } else if e == "c"@ || e == "h"@ {
        "C"@
    } else if e == "cpp"@ || e == "cc"@ || e == "cxx"@ || e == "hpp"@ || e == "hxx"@ {
        "C++"@
    } else if e == "go"@ {
        "Go"@
    } else if e == "java"@ {
        "Java"@
    } else if e == "kt"@ || e == "kts"@ {
        "Kotlin"@
    } else if e == "swift"@ {
        "Swift"@
    } else if e == "rb"@ {
        "Ruby"@
    } else if e == "php"@ {
        "PHP"@
    } else if e == "html"@ || e == "htm"@ {
        "HTML"@
    } else if e == "css"@ {
        "CSS"@
    } else if e == "scss"@ || e == "sass"@ {
        "SCSS"@
    } else if e == "json"@ {
        "JSON"@
    } else if e == "yaml"@ || e == "yml"@ {
        "YAML"@
    } else if e == "toml"@ {
        "TOML"@
    } else if e == "xml"@ || e == "xsl"@ || e == "xsd"@ {
        "XML"@
    } else if e == "sql"@ {
        "SQL"@
    } else if e == "sh"@ || e == "bash"@ || e == "zsh"@ {
        "Bash"@
    } else if e == "ps1"@ || e == "psm1"@ {
        "PowerShell"@
    } else if e == "md"@ || e == "markdown"@ {
        "Markdown"@
    } else if e == "lua"@ {
        "Lua"@
    } else if e == "r"@ {
        "R"@
    } else if e == "dart"@ {
        "Dart"@
    } else if e == "zig"@ {
        "Zig"@
    } else if e == "ex"@ || e == "exs"@ {
        "Elixir"@
    } else if e == "erl"@ || e == "hrl"@ {
        "Erlang"@
    } else if e == "hs"@ {
        "Haskell"@
    } else if e == "ml"@ || e == "mli"@ {
        "OCaml"@
    } else if e == "cs"@ {
        "C#"@
    } else if e == "fs"@ || e == "fsx"@ {
        "F#"@
    } else if e == "txt"@ || e == "text"@ || e == "log"@ {
        "Plain Text"@
    } else if e == "ini"@ || e == "cfg"@ || e == "conf"@ {
        "INI"@
    } else if e == "dockerfile"@ {
        "Dockerfile"@
    } else if e == "makefile"@ {
        "Makefile"@
    } else {
        "Plain Text"@
    }
}

/// The language name of a lower-case extension.
fn language_name(e: &str) -> (r: &'static str)
    ensures
        r@ == language_of(e@),
{
    if str_eq(e, "rs") {
        "Rust"
    } else if str_eq(e, "py") || str_eq(e, "pyw") {
        "Python"
    } else if str_eq(e, "js") || str_eq(e, "mjs") || str_eq(e, "cjs") {
        "JavaScript"
    } else if str_eq(e, "ts") || str_eq(e, "mts") || str_eq(e, "cts") {
        "TypeScript"
    } else if str_eq(e, "tsx") {
        "TSX"
    } else if str_eq(e, "jsx") {
        "JSX"
    } else if str_eq(e, "c") || str_eq(e, "h") {
        "C"
    } else if str_eq(e, "cpp") || str_eq(e, "cc") || str_eq(e, "cxx") || str_eq(e, "hpp") || str_eq(e, "hxx") {
        "C++"
    } else if str_eq(e, "go") {
        "Go"
    } else if str_eq(e, "java") {
        "Java"
    } else if str_eq(e, "kt") || str_eq(e, "kts") {
        "Kotlin"
    } else if str_eq(e, "swift") {
        "Swift"
    } else if str_eq(e, "rb") {
        "Ruby"
    } else if str_eq(e, "php") {
        "PHP"
    } else if str_eq(e, "html") || str_eq(e, "htm") {
        "HTML"
    } else if str_eq(e, "css") {
        "CSS"
    } else if str_eq(e, "scss") || str_eq(e, "sass") {
        "SCSS"
    } else if str_eq(e, "json") {
        "JSON"
    } else if str_eq(e, "yaml") || str_eq(e, "yml") {
        "YAML"
    } else if str_eq(e, "toml") {
        "TOML"
    } else if str_eq(e, "xml") || str_eq(e, "xsl") || str_eq(e, "xsd") {
        "XML"
    } else if str_eq(e, "sql") {
        "SQL"
    } else if str_eq(e, "sh") || str_eq(e, "bash") || str_eq(e, "zsh") {
        "Bash"
    } else if str_eq(e, "ps1") || str_eq(e, "psm1") {
        "PowerShell"
    } else if str_eq(e, "md") || str_eq(e, "markdown") {
        "Markdown"
    } else if str_eq(e, "lua") {
        "Lua"
    } else if str_eq(e, "r") {
        "R"
    } else if str_eq(e, "dart") {
        "Dart"
    } else if str_eq(e, "zig") {
        "Zig"
    } else if str_eq(e, "ex") || str_eq(e, "exs") {
        "Elixir"
    } else if str_eq(e, "erl") || str_eq(e, "hrl") {
        "Erlang"
    } else if str_eq(e, "hs") {
        "Haskell"
    } else if str_eq(e, "ml") || str_eq(e, "mli") {
        "OCaml"
    } else if str_eq(e, "cs") {
        "C#"
    } else if str_eq(e, "fs") || str_eq(e, "fsx") {
        "F#"
    } else if str_eq(e, "txt") || str_eq(e, "text") || str_eq(e, "log") {
        "Plain Text"
    } else if str_eq(e, "ini") || str_eq(e, "cfg") || str_eq(e, "conf") {
        "INI"
    } else if str_eq(e, "dockerfile") {
        "Dockerfile"
    } else if str_eq(e, "makefile") {
        "Makefile"
    } else {
        "Plain Text"
    }
}

/// The language of a file with extension `ext` (compared ignoring case);
/// "Plain Text" for an unknown extension.
pub fn language_from_extension(ext: &str) -> (r: String)
    ensures
        r@ == language_of(lowercase(ext@)),
{
    let lower = to_lowercase(ext);
    language_name(lower.as_str()).to_string()
}

} // verus!
