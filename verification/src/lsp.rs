//! Reading Language Server Protocol responses: diagnostics, completions,
//! hover text, definitions, references and rename edits, from the JSON values
//! the server sends.

use vstd::prelude::*;
use crate::color::Rgba;
use crate::hex_view::{all_digits, digit_value, digits_value, parse_uint, parse_uint_chars};
use crate::autocomplete::{before_column, utf8_len, utf8_width, word_before_cursor, word_suffix};
use crate::text::{
    chars_of, decimal, digit_char, has_prefix, string_of, is_ws, lemma_trim_end_take, push_all, push_decimal, slice_range,
    str_eq, trim, trim_end, trim_start, trimmed, zero_padded, lines_chars, lines_of, parts_view,
};
use crate::macro_recorder::{join_chars, join_with};

verus! {

/// A JSON value as the LSP messages are read: a number is kept as what it
/// reads as an unsigned and as a signed 64-bit integer (none for fractions or
/// out-of-range values); an object keeps its entries in order.
#[derive(Debug)]
pub enum Json {
    Null,
    Bool(bool),
    Number(Option<u64>, Option<i64>),
    Str(String),
    Array(Vec<Json>),
    Object(Vec<(String, Json)>),
}

/// The value of the first entry of `es` under `key`.
pub open spec fn lookup(es: Seq<(String, Json)>, key: Seq<char>) -> Option<Json>
    decreases es.len(),
{
    if es.len() == 0 {
        None
    } else if es[0].0@ == key {
        Some(es[0].1)
    } else {
        lookup(es.drop_first(), key)
    }
}

/// `Value::get`: the member `key` of an object; none for other values.
pub open spec fn jget(v: Json, key: Seq<char>) -> Option<Json> {
    match v {
        Json::Object(es) => lookup(es@, key),
        _ => None,
    }
}

/// `Value::as_str`.
pub open spec fn jstr(v: Json) -> Option<Seq<char>> {
    match v {
        Json::Str(s) => Some(s@),
        _ => None,
    }
}

/// `Value::as_u64`.
pub open spec fn ju64(v: Json) -> Option<u64> {
    match v {
        Json::Number(u, _) => u,
        _ => None,
    }
}

/// `Value::as_i64`.
pub open spec fn ji64(v: Json) -> Option<i64> {
    match v {
        Json::Number(_, i) => i,
        _ => None,
    }
}

/// `Value::as_array`.
pub open spec fn jarray(v: Json) -> Option<Seq<Json>> {
    match v {
        Json::Array(a) => Some(a@),
        _ => None,
    }
}

/// The member `key` of `v`, read with `read`.
pub open spec fn member_str(v: Json, key: Seq<char>) -> Option<Seq<char>> {
    match jget(v, key) {
        Some(m) => jstr(m),
        None => None,
    }
}

/// The member `key` of `v` as an unsigned integer.
pub open spec fn member_u64(v: Json, key: Seq<char>) -> Option<u64> {
    match jget(v, key) {
        Some(m) => ju64(m),
        None => None,
    }
}

/// The member `key` of `v` as an array.
pub open spec fn member_array(v: Json, key: Seq<char>) -> Option<Seq<Json>> {
    match jget(v, key) {
        Some(m) => jarray(m),
        None => None,
    }
}

/// `Value::get`.
pub fn get<'a>(v: &'a Json, key: &str) -> (r: Option<&'a Json>)
    ensures
        match r {
            Some(x) => jget(*v, key@) == Some(*x),
            None => jget(*v, key@) is None,
        },
{
    match v {
        Json::Object(es) => {
            let n = es.len();
            let mut i: usize = 0;
            assert(es@.skip(0) =~= es@);
            while i < n
                invariant
                    i <= n,
                    n == es@.len(),
                    lookup(es@, key@) == lookup(es@.skip(i as int), key@),
                    jget(*v, key@) == lookup(es@, key@),
                decreases n - i,
            {
                assert(es@.skip(i as int).drop_first() =~= es@.skip(i + 1));
                assert(es@.skip(i as int)[0] == es@[i as int]);
                let entry = &es[i];
                if crate::text::str_eq(entry.0.as_str(), key) {
                    assert(lookup(es@.skip(i as int), key@) == Some(entry.1));
                    return Some(&entry.1);
                }
                i = i + 1;
            }
            assert(es@.skip(n as int) =~= Seq::<(String, Json)>::empty());
            None
        },
        _ => None,
    }
}

/// `Value::as_str`.
pub fn as_str(v: &Json) -> (r: Option<&str>)
    ensures
        match r {
            Some(s) => jstr(*v) == Some(s@),
            None => jstr(*v) is None,
        },
{
    match v {
        Json::Str(s) => Some(s.as_str()),
        _ => None,
    }
}

/// `Value::as_u64`.
pub fn as_u64(v: &Json) -> (r: Option<u64>)
    ensures
        r == ju64(*v),
{
    match v {
        Json::Number(u, _) => *u,
        _ => None,
    }
}

/// `Value::as_i64`.
pub fn as_i64(v: &Json) -> (r: Option<i64>)
    ensures
        r == ji64(*v),
{
    match v {
        Json::Number(_, i) => *i,
        _ => None,
    }
}

/// `Value::as_array`.
pub fn as_array(v: &Json) -> (r: Option<&Vec<Json>>)
    ensures
        match r {
            Some(a) => jarray(*v) == Some(a@),
            None => jarray(*v) is None,
        },
{
    match v {
        Json::Array(a) => Some(a),
        _ => None,
    }
}

/// The member `key` of `v` as text.
pub fn str_member(v: &Json, key: &str) -> (r: Option<String>)
    ensures
        match r {
            Some(s) => member_str(*v, key@) == Some(s@),
            None => member_str(*v, key@) is None,
        },
{
    match get(v, key) {
        Some(m) => match as_str(m) {
            Some(s) => Some(s.to_string()),
            None => None,
        },
        None => None,
    }
}

/// The member `key` of `v` as an unsigned integer.
pub fn u64_member(v: &Json, key: &str) -> (r: Option<u64>)
    ensures
        r == member_u64(*v, key@),
{
    match get(v, key) {
        Some(m) => as_u64(m),
        None => None,
    }
}

// ---------------------------------------------------------------------------
// Positions and locations
// ---------------------------------------------------------------------------

/// The (line, character) of an LSP position.
pub open spec fn position_of(v: Json) -> Option<(usize, usize)> {
    match (member_u64(v, "line"@), member_u64(v, "character"@)) {
        (Some(l), Some(c)) => Some((l as usize, c as usize)),
        _ => None,
    }
}

/// The `end` (or `start`) position of the range under `key` of `v`.
pub open spec fn range_point(v: Json, key: Seq<char>, point: Seq<char>) -> Option<(usize, usize)> {
    match jget(v, key) {
        Some(range) => match jget(range, point) {
            Some(p) => position_of(p),
            None => None,
        },
        None => None,
    }
}

/// The (line, character) of a position value.
fn read_position(v: &Json) -> (r: Option<(usize, usize)>)
    ensures
        r == position_of(*v),
{
    let line = u64_member(v, "line");
    let col = u64_member(v, "character");
    match (line, col) {
        (Some(l), Some(c)) => Some((l as usize, c as usize)),
        _ => None,
    }
}

/// The `point` position of the range under `key` of `v`.
fn read_range_point(v: &Json, key: &str, point: &str) -> (r: Option<(usize, usize)>)
    ensures
        r == range_point(*v, key@, point@),
{
    match get(v, key) {
        Some(range) => match get(range, point) {
            Some(p) => read_position(p),
            None => None,
        },
        None => None,
    }
}

/// A location in a file.
#[derive(Debug, Clone)]
pub struct LspLocation {
    pub uri: String,
    pub line: usize,
    pub col: usize,
}

/// A location as (uri, line, column).
pub open spec fn location_view(l: LspLocation) -> (Seq<char>, usize, usize) {
    (l.uri@, l.line, l.col)
}

/// The location of a `Location` (`uri` and `range`) or, failing a `uri`, a
/// `LocationLink` (`targetUri` and `targetRange`).
pub open spec fn single_location(v: Json) -> Option<(Seq<char>, usize, usize)> {
    if member_str(v, "uri"@) is Some {
        match range_point(v, "range"@, "start"@) {
            Some(p) => Some((member_str(v, "uri"@)->0, p.0, p.1)),
            None => None,
        }
    } else if member_str(v, "targetUri"@) is Some {
        match range_point(v, "targetRange"@, "start"@) {
            Some(p) => Some((member_str(v, "targetUri"@)->0, p.0, p.1)),
            None => None,
        }
    } else {
        None
    }
}

/// Parse a single Location or LocationLink JSON value.
pub fn parse_single_location(value: &Json) -> (r: Option<LspLocation>)
    ensures
        match r {
            Some(l) => single_location(*value) == Some(location_view(l)),
            None => single_location(*value) is None,
        },
{
    if let Some(uri) = str_member(value, "uri") {
        return match read_range_point(value, "range", "start") {
            Some((line, col)) => Some(LspLocation { uri, line, col }),
            None => None,
        };
    }
    if let Some(uri) = str_member(value, "targetUri") {
        return match read_range_point(value, "targetRange", "start") {
            Some((line, col)) => Some(LspLocation { uri, line, col }),
            None => None,
        };
    }
    None
}

/// The locations of the values that are locations, in order.
pub open spec fn locations_in(vs: Seq<Json>) -> Seq<(Seq<char>, usize, usize)>
    decreases vs.len(),
{
    if vs.len() == 0 {
        Seq::empty()
    } else {
        let rest = locations_in(vs.drop_last());
        match single_location(vs.last()) {
            Some(l) => rest.push(l),
            None => rest,
        }
    }
}

/// The locations of a `references` result: none for null, those of the
/// array's elements, or the single location.
pub open spec fn locations_of(v: Json) -> Seq<(Seq<char>, usize, usize)> {
    match v {
        Json::Null => Seq::empty(),
        Json::Array(a) => locations_in(a@),
        _ => match single_location(v) {
            Some(l) => seq![l],
            None => Seq::empty(),
        },
    }
}

/// The locations' views.
pub open spec fn locations_view(v: Seq<LspLocation>) -> Seq<(Seq<char>, usize, usize)> {
    v.map_values(|l: LspLocation| location_view(l))
}

/// Parse a Location[] response into a list of LspLocation (used for references).
pub fn parse_locations_response(result: &Json) -> (r: Vec<LspLocation>)
    ensures
        locations_view(r@) == locations_of(*result),
{
    match result {
        Json::Null => Vec::new(),
        Json::Array(items) => {
            let mut out: Vec<LspLocation> = Vec::new();
            let n = items.len();
            assert(items@.take(0) =~= Seq::<Json>::empty());
            for i in 0..n
                invariant
                    n == items@.len(),
                    locations_view(out@) == locations_in(items@.take(i as int)),
            {
                assert(items@.take(i + 1).drop_last() =~= items@.take(i as int));
                let ghost before = out@;
                match parse_single_location(&items[i]) {
                    Some(l) => {
                        out.push(l);
                        assert(locations_view(out@) =~= locations_view(before).push(location_view(l)));
                    },
                    None => {},
                }
            }
            assert(items@.take(n as int) =~= items@);
            out
        },
        _ => match parse_single_location(result) {
            Some(l) => {
                let v = vec![l];
                assert(locations_view(v@) =~= seq![location_view(l)]);
                v
            },
            None => Vec::new(),
        },
    }
}

/// The location a `definition` result points to: the first element of an
/// array, a `Location`, or a `LocationLink`.
pub open spec fn definition_of(v: Json) -> Option<(Seq<char>, usize, usize)> {
    let loc = if jarray(v) is Some {
        if jarray(v)->0.len() > 0 {
            Some(jarray(v)->0[0])
        } else {
            None
        }
    } else if jget(v, "uri"@) is Some {
        Some(v)
    } else {
        None
    };
    if jarray(v) is None && jget(v, "uri"@) is None && jget(v, "targetUri"@) is Some {
        match (member_str(v, "targetUri"@), range_point(v, "targetRange"@, "start"@)) {
            (Some(u), Some(p)) => Some((u, p.0, p.1)),
            _ => None,
        }
    } else {
        match loc {
            Some(l) => match (member_str(l, "uri"@), range_point(l, "range"@, "start"@)) {
                (Some(u), Some(p)) => Some((u, p.0, p.1)),
                _ => None,
            },
            None => None,
        }
    }
}

/// Parse a `definition` result: a Location, Location[] or LocationLink[].
pub fn parse_definition_response(result: &Json) -> (r: Option<LspLocation>)
    ensures
        match r {
            Some(l) => definition_of(*result) == Some(location_view(l)),
            None => definition_of(*result) is None,
        },
{
    let loc: &Json = if let Some(arr) = as_array(result) {
        if arr.len() > 0 {
            &arr[0]
        } else {
            return None;
        }
    } else if get(result, "uri").is_some() {
        result
    } else if get(result, "targetUri").is_some() {
        let uri = match str_member(result, "targetUri") {
            Some(u) => u,
            None => return None,
        };
        return match read_range_point(result, "targetRange", "start") {
            Some((line, col)) => Some(LspLocation { uri, line, col }),
            None => None,
        };
    } else {
        return None;
    };
    let uri = match str_member(loc, "uri") {
        Some(u) => u,
        None => return None,
    };
    match read_range_point(loc, "range", "start") {
        Some((line, col)) => Some(LspLocation { uri, line, col }),
        None => None,
    }
}

// ---------------------------------------------------------------------------
// Diagnostics
// ---------------------------------------------------------------------------

/// How severe a diagnostic is.
#[derive(Debug, Clone, Copy, PartialEq, Eq, Structural)]
pub enum DiagnosticSeverityLevel {
    Error,
    Warning,
    Info,
    Hint,
}

/// A diagnostic: its range, message and severity.
#[derive(Debug, Clone)]
pub struct LspDiagnostic {
    pub line: usize,
    pub col: usize,
    pub end_line: usize,
    pub end_col: usize,
    pub message: String,
    pub severity: DiagnosticSeverityLevel,
}

/// A diagnostic as (line, col, end line, end col, message, severity).
pub open spec fn diagnostic_view(d: LspDiagnostic) -> (usize, usize, usize, usize, Seq<char>, DiagnosticSeverityLevel) {
    (d.line, d.col, d.end_line, d.end_col, d.message@, d.severity)
}

/// The severity of a diagnostic value: 1 error, 2 warning, 3 information,
/// anything else (or none) a hint.
pub open spec fn severity_of(v: Json) -> DiagnosticSeverityLevel {
    match member_u64(v, "severity"@) {
        Some(1) => DiagnosticSeverityLevel::Error,
        Some(2) => DiagnosticSeverityLevel::Warning,
        Some(3) => DiagnosticSeverityLevel::Info,
        _ => DiagnosticSeverityLevel::Hint,
    }
}

/// The diagnostic a value describes, when it has a range with both ends
/// and a message.
pub open spec fn diagnostic_of(v: Json) -> Option<(usize, usize, usize, usize, Seq<char>, DiagnosticSeverityLevel)> {
    match (range_point(v, "range"@, "start"@), range_point(v, "range"@, "end"@), member_str(v, "message"@)) {
        (Some(s), Some(e), Some(m)) => Some((s.0, s.1, e.0, e.1, m, severity_of(v))),
        _ => None,
    }
}

/// The number the language server protocol gives a severity level.
pub open spec fn lsp_severity_number(l: DiagnosticSeverityLevel) -> nat {
    match l {
        DiagnosticSeverityLevel::Error => 1,
        DiagnosticSeverityLevel::Warning => 2,
        DiagnosticSeverityLevel::Info => 3,
        DiagnosticSeverityLevel::Hint => 4,
    }
}

/// A parsed diagnostic keeps the server's severity by the protocol's
/// numbering (1 error, 2 warning, 3 information, 4 hint), and any other or
/// missing severity is read as a hint.
pub proof fn lemma_diagnostic_severity(v: Json)
    ensures
        diagnostic_of(v) matches Some(d) ==> match member_u64(v, "severity"@) {
            Some(n) => if 1 <= n <= 4 {
                lsp_severity_number(d.5) == n
            } else {
                d.5 == DiagnosticSeverityLevel::Hint
            },
            None => d.5 == DiagnosticSeverityLevel::Hint,
        },
{
}

/// Parse one diagnostic of a `publishDiagnostics` notification.
pub fn parse_diagnostic(value: &Json) -> (r: Option<LspDiagnostic>)
    ensures
        match r {
            Some(d) => diagnostic_of(*value) == Some(diagnostic_view(d)),
            None => diagnostic_of(*value) is None,
        },
{
    let severity = match u64_member(value, "severity") {
        Some(1) => DiagnosticSeverityLevel::Error,
        Some(2) => DiagnosticSeverityLevel::Warning,
        Some(3) => DiagnosticSeverityLevel::Info,
        _ => DiagnosticSeverityLevel::Hint,
    };
    let start = read_range_point(value, "range", "start");
    let end = read_range_point(value, "range", "end");
    let message = str_member(value, "message");
    match (start, end, message) {
        (Some((line, col)), Some((end_line, end_col)), Some(message)) => Some(
            LspDiagnostic { line, col, end_line, end_col, message, severity },
        ),
        _ => None,
    }
}

/// The diagnostics of the values that are diagnostics, in order.
pub open spec fn diagnostics_in(vs: Seq<Json>) -> Seq<(usize, usize, usize, usize, Seq<char>, DiagnosticSeverityLevel)>
    decreases vs.len(),
{
    if vs.len() == 0 {
        Seq::empty()
    } else {
        let rest = diagnostics_in(vs.drop_last());
        match diagnostic_of(vs.last()) {
            Some(d) => rest.push(d),
            None => rest,
        }
    }
}

/// The diagnostics of a `publishDiagnostics` notification's parameters:
/// its `uri` (empty when missing) and the readable entries of its
/// `diagnostics` array.
pub fn parse_publish_diagnostics(params: &Json) -> (r: (String, Vec<LspDiagnostic>))
    ensures
        r.0@ == match member_str(*params, "uri"@) {
            Some(u) => u,
            None => Seq::empty(),
        },
        r.1@.map_values(|d: LspDiagnostic| diagnostic_view(d)) == match member_array(*params, "diagnostics"@) {
            Some(a) => diagnostics_in(a),
            None => Seq::empty(),
        },
{
    let uri = match str_member(params, "uri") {
        Some(u) => u,
        None => String::new(),
    };
    let mut out: Vec<LspDiagnostic> = Vec::new();
    if let Some(d) = get(params, "diagnostics") {
        if let Some(arr) = as_array(d) {
            let n = arr.len();
            assert(arr@.take(0) =~= Seq::<Json>::empty());
            for i in 0..n
                invariant
                    n == arr@.len(),
                    out@.map_values(|d: LspDiagnostic| diagnostic_view(d)) == diagnostics_in(arr@.take(i as int)),
            {
                assert(arr@.take(i + 1).drop_last() =~= arr@.take(i as int));
                let ghost before = out@;
                if let Some(diag) = parse_diagnostic(&arr[i]) {
                    out.push(diag);
                    assert(out@.map_values(|d: LspDiagnostic| diagnostic_view(d)) =~= before.map_values(
                        |d: LspDiagnostic| diagnostic_view(d),
                    ).push(diagnostic_view(diag)));
                }
            }
            assert(arr@.take(n as int) =~= arr@);
        }
    }
    assert(out@.len() == 0 ==> out@.map_values(|d: LspDiagnostic| diagnostic_view(d)) =~= Seq::empty());
    (uri, out)
}

// ---------------------------------------------------------------------------
// Completion
// ---------------------------------------------------------------------------

/// The name of an LSP completion item kind.
pub open spec fn kind_name(kind: u64) -> Seq<char> {
    if kind == 1 {
        "Text"@
    } else if kind == 2 {
        "Method"@
    } else if kind == 3 {
        "Function"@
    } else if kind == 4 {
        "Constructor"@
    } else if kind == 5 {
        "Field"@
    } else if kind == 6 {
        "Variable"@
    } else if kind == 7 {
        "Class"@
    } else if kind == 8 {
        "Interface"@
    } else if kind == 9 {
        "Module"@
    } else if kind == 10 {
        "Property"@
    } else if kind == 11 {
        "Unit"@
    } else if kind == 12 {
        "Value"@
    } else if kind == 13 {
        "Enum"@
    } else if kind == 14 {
        "Keyword"@
    } else if kind == 15 {
        "Snippet"@
    } else if kind == 16 {
        "Color"@
    } else if kind == 17 {
        "File"@
    } else if kind == 18 {
        "Reference"@
    } else if kind == 19 {
        "Folder"@
    } else if kind == 20 {
        "EnumMember"@
    } else if kind == 21 {
        "Constant"@
    } else if kind == 22 {
        "Struct"@
    } else if kind == 23 {
        "Event"@
    } else if kind == 24 {
        "Operator"@
    } else if kind == 25 {
        "TypeParameter"@
    } else {
        "Unknown"@
    }
}

/// The name of an LSP completion item kind ("Unknown" for other numbers).
pub fn completion_kind_name(kind: u64) -> (r: String)
    ensures
        r@ == kind_name(kind),
{
    let name = {
    if kind == 1 {
            "Text"
        } else if kind == 2 {
            "Method"
        } else if kind == 3 {
            "Function"
        } else if kind == 4 {
            "Constructor"
        } else if kind == 5 {
            "Field"
        } else if kind == 6 {
            "Variable"
        } else if kind == 7 {
            "Class"
        } else if kind == 8 {
            "Interface"
        } else if kind == 9 {
            "Module"
        } else if kind == 10 {
            "Property"
        } else if kind == 11 {
            "Unit"
        } else if kind == 12 {
            "Value"
        } else if kind == 13 {
            "Enum"
        } else if kind == 14 {
            "Keyword"
        } else if kind == 15 {
            "Snippet"
        } else if kind == 16 {
            "Color"
        } else if kind == 17 {
            "File"
        } else if kind == 18 {
            "Reference"
        } else if kind == 19 {
            "Folder"
        } else if kind == 20 {
            "EnumMember"
        } else if kind == 21 {
            "Constant"
        } else if kind == 22 {
            "Struct"
        } else if kind == 23 {
            "Event"
        } else if kind == 24 {
            "Operator"
        } else if kind == 25 {
            "TypeParameter"
        } else {
            "Unknown"
        }
    };
    name.to_string()
}

/// A completion item: label, detail, kind name and text to insert.
#[derive(Debug, Clone)]
pub struct LspCompletionItem {
    pub label: String,
    pub detail: Option<String>,
    pub kind: Option<String>,
    pub insert_text: Option<String>,
}

/// An optional text's characters.
pub open spec fn opt_view(o: Option<String>) -> Option<Seq<char>> {
    match o {
        Some(s) => Some(s@),
        None => None,
    }
}

/// A completion item's characters.
pub open spec fn item_view(c: LspCompletionItem) -> (Seq<char>, Option<Seq<char>>, Option<Seq<char>>, Option<Seq<char>>) {
    (c.label@, opt_view(c.detail), opt_view(c.kind), opt_view(c.insert_text))
}

/// The completion item a value describes (every value gives one; missing
/// members are empty or none).
pub open spec fn item_of(v: Json) -> (Seq<char>, Option<Seq<char>>, Option<Seq<char>>, Option<Seq<char>>) {
    (
        match member_str(v, "label"@) {
            Some(l) => l,
            None => Seq::empty(),
        },
        member_str(v, "detail"@),
        match member_u64(v, "kind"@) {
            Some(k) => Some(kind_name(k)),
            None => None,
        },
        member_str(v, "insertText"@),
    )
}

/// The completion items of a `completion` result: the `items` of a
/// completion list (which must be an array) or the elements of an array.
pub open spec fn completion_values(v: Json) -> Option<Seq<Json>> {
    if jget(v, "items"@) is Some {
        jarray(jget(v, "items"@)->0)
    } else {
        jarray(v)
    }
}

/// Parse a `completion` result into its items.
pub fn parse_completion_response(result: &Json) -> (r: Option<Vec<LspCompletionItem>>)
    ensures
        match r {
            Some(items) => completion_values(*result) matches Some(vs) && items@.map_values(
                |c: LspCompletionItem| item_view(c),
            ) == vs.map_values(|v: Json| item_of(v)),
            None => completion_values(*result) is None,
        },
{
    let items_val: &Vec<Json> = if let Some(items) = get(result, "items") {
        match as_array(items) {
            Some(a) => a,
            None => return None,
        }
    } else {
        match as_array(result) {
            Some(a) => a,
            None => return None,
        }
    };
    let ghost vs = items_val@;
    let mut out: Vec<LspCompletionItem> = Vec::new();
    let n = items_val.len();
    for i in 0..n
        invariant
            n == vs.len(),
            vs == items_val@,
            out@.map_values(|c: LspCompletionItem| item_view(c)) == vs.take(i as int).map_values(
                |v: Json| item_of(v),
            ),
    {
        let item = &items_val[i];
        let label = match str_member(item, "label") {
            Some(l) => l,
            None => String::new(),
        };
        let detail = str_member(item, "detail");
        let kind = match u64_member(item, "kind") {
            Some(k) => Some(completion_kind_name(k)),
            None => None,
        };
        let insert_text = str_member(item, "insertText");
        let c = LspCompletionItem { label, detail, kind, insert_text };
        let ghost before = out@;
        out.push(c);
        assert(item_view(c) == item_of(vs[i as int]));
        assert(out@.map_values(|c: LspCompletionItem| item_view(c)) =~= before.map_values(
            |c: LspCompletionItem| item_view(c),
        ).push(item_view(c)));
        assert(vs.take(i + 1).map_values(|v: Json| item_of(v)) =~= vs.take(i as int).map_values(
            |v: Json| item_of(v),
        ).push(item_of(vs[i as int])));
        assert(out@.map_values(|c: LspCompletionItem| item_view(c)) =~= vs.take(i + 1).map_values(
            |v: Json| item_of(v),
        ));
    }
    assert(vs.take(n as int) =~= vs);
    Some(out)
}

// ---------------------------------------------------------------------------
// Hover
// ---------------------------------------------------------------------------

/// The text of one part of an array of hover contents.
pub open spec fn hover_part(v: Json) -> Option<Seq<char>> {
    match member_str(v, "value"@) {
        Some(s) => Some(s),
        None => jstr(v),
    }
}

/// The texts of the parts that have one, in order.
pub open spec fn hover_parts(vs: Seq<Json>) -> Seq<Seq<char>>
    decreases vs.len(),
{
    if vs.len() == 0 {
        Seq::empty()
    } else {
        let rest = hover_parts(vs.drop_last());
        match hover_part(vs.last()) {
            Some(p) => rest.push(p),
            None => rest,
        }
    }
}

/// The parts joined with a blank line between them.
pub open spec fn joined(parts: Seq<Seq<char>>) -> Seq<char>
    decreases parts.len(),
{
    if parts.len() == 0 {
        Seq::empty()
    } else if parts.len() == 1 {
        parts[0]
    } else {
        joined(parts.drop_last()) + "\n\n"@ + parts.last()
    }
}

/// The text of a `hover` result's contents: a markup content's `value`, a
/// plain string, or the parts of an array joined by blank lines.
pub open spec fn hover_of(v: Json) -> Option<Seq<char>> {
    match jget(v, "contents"@) {
        Some(c) => if jget(c, "value"@) is Some {
            jstr(jget(c, "value"@)->0)
        } else if jstr(c) is Some {
            jstr(c)
        } else if jarray(c) is Some && hover_parts(jarray(c)->0).len() > 0 {
            Some(joined(hover_parts(jarray(c)->0)))
        } else {
            None
        },
        None => None,
    }
}

/// Parse a `hover` result into its text.
pub fn parse_hover_response(result: &Json) -> (r: Option<String>)
    ensures
        match r {
            Some(t) => hover_of(*result) == Some(t@),
            None => hover_of(*result) is None,
        },
{
    let contents = match get(result, "contents") {
        Some(c) => c,
        None => return None,
    };
    if let Some(value) = get(contents, "value") {
        return match as_str(value) {
            Some(s) => Some(s.to_string()),
            None => None,
        };
    }
    if let Some(s) = as_str(contents) {
        return Some(s.to_string());
    }
    if let Some(arr) = as_array(contents) {
        let mut text = String::new();
        let mut count: usize = 0;
        let n = arr.len();
        assert(arr@.take(0) =~= Seq::<Json>::empty());
        for i in 0..n
            invariant
                n == arr@.len(),
                count == hover_parts(arr@.take(i as int)).len(),
                count <= i,
                text@ == joined(hover_parts(arr@.take(i as int))),
        {
            assert(arr@.take(i + 1).drop_last() =~= arr@.take(i as int));
            let part = match str_member(&arr[i], "value") {
                Some(s) => Some(s),
                None => match as_str(&arr[i]) {
                    Some(s) => Some(s.to_string()),
                    None => None,
                },
            };
            let ghost parts = hover_parts(arr@.take(i as int));
            assert(arr@.take(i + 1).last() == arr@[i as int]);
            if let Some(p) = part {
                assert(hover_parts(arr@.take(i + 1)) == parts.push(p@));
                if count > 0 {
                    crate::text::push_all(&mut text, "\n\n");
                }
                crate::text::push_all(&mut text, p.as_str());
                count = count + 1;
                proof {
                    let np = parts.push(p@);
                    assert(np.drop_last() =~= parts);
                    if parts.len() == 0 {
                        assert(text@ =~= p@);
                    }
                }
            } else {
                assert(hover_parts(arr@.take(i + 1)) == parts);
            }
        }
        assert(arr@.take(n as int) =~= arr@);
        if count > 0 {
            return Some(text);
        }
    }
    None
}

// ---------------------------------------------------------------------------
// Rename
// ---------------------------------------------------------------------------

/// A text edit within a single file (for rename results).
#[derive(Debug, Clone)]
pub struct LspTextEdit {
    pub start_line: usize,
    pub start_col: usize,
    pub end_line: usize,
    pub end_col: usize,
    pub new_text: String,
}

/// Whether edit `a` is applied before edit `b` of the same file: edits are
/// applied bottom to top and right to left (so that applying one leaves the
/// positions of the rest valid), and edits that start at the same place in
/// the order they came in.
pub open spec fn applied_before(edits: Seq<LspTextEdit>, a: int, b: int) -> bool {
    let ea = edits[a];
    let eb = edits[b];
    ||| ea.start_line > eb.start_line
    ||| ea.start_line == eb.start_line && ea.start_col > eb.start_col
    ||| ea.start_line == eb.start_line && ea.start_col == eb.start_col && a < b
}

/// The order in which to apply a file's edits: the indices of all edits,
/// each once, bottom to top and right to left, ties in their given order.
pub fn edit_application_order(edits: &Vec<LspTextEdit>) -> (r: Vec<usize>)
    ensures
        r@.len() == edits@.len(),
        forall|k: int| 0 <= k < r@.len() ==> #[trigger] r@[k] < edits@.len(),
        forall|a: int, b: int| 0 <= a < b < r@.len() ==> applied_before(edits@, #[trigger] r@[a] as int, #[trigger] r@[b] as int),
{
    let n = edits.len();
    let mut order: Vec<usize> = Vec::new();
    for i in 0..n
        invariant
            n == edits@.len(),
            order@.len() == i,
            forall|k: int| 0 <= k < order@.len() ==> #[trigger] order@[k] < i,
            forall|a: int, b: int| 0 <= a < b < order@.len() ==> applied_before(edits@, #[trigger] order@[a] as int, #[trigger] order@[b] as int),
    {
        let line = edits[i].start_line;
        let col = edits[i].start_col;
        let mut p: usize = order.len();
        while p > 0 && (edits[order[p - 1]].start_line < line || (edits[order[p - 1]].start_line == line
            && edits[order[p - 1]].start_col < col))
            invariant
                p <= order@.len(),
                i < n,
                n == edits@.len(),
                line == edits@[i as int].start_line,
                col == edits@[i as int].start_col,
                forall|k: int| 0 <= k < order@.len() ==> #[trigger] order@[k] < i,
                forall|k: int| p <= k < order@.len() ==> applied_before(edits@, i as int, #[trigger] order@[k] as int),
            decreases p,
        {
            p = p - 1;
        }
        let ghost old_order = order@;
        order.insert(p, i);
        proof {
            assert forall|a: int, b: int| 0 <= a < b < order@.len() implies applied_before(
                edits@,
                #[trigger] order@[a] as int,
                #[trigger] order@[b] as int,
            ) by {
                if a < p && b < p {
                    assert(order@[a] == old_order[a] && order@[b] == old_order[b]);
                } else if a < p && b == p {
                    assert(order@[a] == old_order[a]);
                    let q = p - 1;
                    assert(old_order[q] < i);
                    if a < q {
                        assert(applied_before(edits@, old_order[a] as int, old_order[q] as int));
                    }
                } else if a < p && b > p {
                    assert(order@[a] == old_order[a] && order@[b] == old_order[b - 1]);
                } else if a == p {
                    assert(order@[b] == old_order[b - 1]);
                } else {
                    assert(order@[a] == old_order[a - 1] && order@[b] == old_order[b - 1]);
                }
            }
            assert forall|k: int| 0 <= k < order@.len() implies #[trigger] order@[k] < i + 1 by {
                if k < p {
                    assert(order@[k] == old_order[k]);
                } else if k > p {
                    assert(order@[k] == old_order[k - 1]);
                }
            }
        }
    }
    order
}

/// An edit as (start line, start col, end line, end col, new text).
pub open spec fn edit_view(e: LspTextEdit) -> (usize, usize, usize, usize, Seq<char>) {
    (e.start_line, e.start_col, e.end_line, e.end_col, e.new_text@)
}

/// The edits' views.
pub open spec fn edits_view(v: Seq<LspTextEdit>) -> Seq<(usize, usize, usize, usize, Seq<char>)> {
    v.map_values(|e: LspTextEdit| edit_view(e))
}

/// The text edit a value describes, when it has a full range and new text.
pub open spec fn edit_of(v: Json) -> Option<(usize, usize, usize, usize, Seq<char>)> {
    match (range_point(v, "range"@, "start"@), range_point(v, "range"@, "end"@), member_str(v, "newText"@)) {
        (Some(s), Some(e), Some(t)) => Some((s.0, s.1, e.0, e.1, t)),
        _ => None,
    }
}

/// Parse a single LSP TextEdit JSON object.
pub fn parse_text_edit(value: &Json) -> (r: Option<LspTextEdit>)
    ensures
        match r {
            Some(e) => edit_of(*value) == Some(edit_view(e)),
            None => edit_of(*value) is None,
        },
{
    let start = read_range_point(value, "range", "start");
    let end = read_range_point(value, "range", "end");
    let new_text = str_member(value, "newText");
    match (start, end, new_text) {
        (Some((start_line, start_col)), Some((end_line, end_col)), Some(new_text)) => Some(
            LspTextEdit { start_line, start_col, end_line, end_col, new_text },
        ),
        _ => None,
    }
}

/// The edits of the values that are edits, in order.
pub open spec fn edits_in(vs: Seq<Json>) -> Seq<(usize, usize, usize, usize, Seq<char>)>
    decreases vs.len(),
{
    if vs.len() == 0 {
        Seq::empty()
    } else {
        let rest = edits_in(vs.drop_last());
        match edit_of(vs.last()) {
            Some(e) => rest.push(e),
            None => rest,
        }
    }
}

/// The readable edits of an array of values.
fn parse_edits(arr: &Vec<Json>) -> (r: Vec<LspTextEdit>)
    ensures
        edits_view(r@) == edits_in(arr@),
{
    let mut out: Vec<LspTextEdit> = Vec::new();
    let n = arr.len();
    assert(arr@.take(0) =~= Seq::<Json>::empty());
    for i in 0..n
        invariant
            n == arr@.len(),
            edits_view(out@) == edits_in(arr@.take(i as int)),
    {
        assert(arr@.take(i + 1).drop_last() =~= arr@.take(i as int));
        let ghost before = out@;
        if let Some(e) = parse_text_edit(&arr[i]) {
            out.push(e);
            assert(edits_view(out@) =~= edits_view(before).push(edit_view(e)));
        }
    }
    assert(arr@.take(n as int) =~= arr@);
    out
}

/// A workspace edit returned from rename: edits grouped by file URI, each
/// URI once.
#[derive(Debug, Clone)]
pub struct LspWorkspaceEdit {
    pub changes: Vec<(String, Vec<LspTextEdit>)>,
}

/// The edits by file as a map.
pub open spec fn changes_map(v: Seq<(String, Vec<LspTextEdit>)>) -> Map<Seq<char>, Seq<(usize, usize, usize, usize, Seq<char>)>>
    decreases v.len(),
{
    if v.len() == 0 {
        Map::empty()
    } else {
        changes_map(v.drop_last()).insert(v.last().0@, edits_view(v.last().1@))
    }
}

/// No file occurs twice.
pub open spec fn unique_files(v: Seq<(String, Vec<LspTextEdit>)>) -> bool {
    forall|a: int, b: int| 0 <= a < b < v.len() ==> (#[trigger] v[a]).0@ != (#[trigger] v[b]).0@
}

/// The files of the first `changes` entries' map are those listed.
proof fn lemma_changes_domain(v: Seq<(String, Vec<LspTextEdit>)>)
    ensures
        forall|key: Seq<char>| changes_map(v).contains_key(key) <==> exists|k: int|
            0 <= k < v.len() && (#[trigger] v[k]).0@ == key,
    decreases v.len(),
{
    if v.len() > 0 {
        lemma_changes_domain(v.drop_last());
        assert forall|key: Seq<char>| changes_map(v).contains_key(key) <==> exists|k: int|
            0 <= k < v.len() && (#[trigger] v[k]).0@ == key by {
            if changes_map(v.drop_last()).contains_key(key) {
                let k = choose|k: int| 0 <= k < v.drop_last().len() && (#[trigger] v.drop_last()[k]).0@ == key;
                assert(v[k] == v.drop_last()[k]);
            }
            if exists|k: int| 0 <= k < v.len() && (#[trigger] v[k]).0@ == key {
                let k = choose|k: int| 0 <= k < v.len() && (#[trigger] v[k]).0@ == key;
                if k < v.len() - 1 {
                    assert(v.drop_last()[k] == v[k]);
                }
            }
        }
    }
}

/// Replacing the entry of a file replaces its edits in the map.
proof fn lemma_changes_update(v: Seq<(String, Vec<LspTextEdit>)>, k: int, x: (String, Vec<LspTextEdit>))
    requires
        unique_files(v),
        0 <= k < v.len(),
        v[k].0@ == x.0@,
    ensures
        changes_map(v.update(k, x)) == changes_map(v).insert(x.0@, edits_view(x.1@)),
    decreases v.len(),
{
    let w = v.update(k, x);
    if k == v.len() - 1 {
        assert(w.drop_last() =~= v.drop_last());
        assert(changes_map(w) =~= changes_map(v).insert(x.0@, edits_view(x.1@)));
    } else {
        assert(w.drop_last() =~= v.drop_last().update(k, x));
        assert(unique_files(v.drop_last())) by {
            assert forall|a: int, b: int| 0 <= a < b < v.drop_last().len() implies (#[trigger] v.drop_last()[a]).0@ != (#[trigger] v.drop_last()[b]).0@ by {
                assert(v.drop_last()[a] == v[a] && v.drop_last()[b] == v[b]);
            }
        }
        lemma_changes_update(v.drop_last(), k, x);
        assert(v[k].0@ != v[v.len() - 1].0@);
        assert(w.last() == v.last());
        assert(changes_map(w) =~= changes_map(v).insert(x.0@, edits_view(x.1@)));
    }
}

/// Sets the edits of file `uri` (replacing what it had).
fn set_file_edits(changes: &mut Vec<(String, Vec<LspTextEdit>)>, uri: String, edits: Vec<LspTextEdit>)
    requires
        unique_files(old(changes)@),
    ensures
        unique_files(final(changes)@),
        changes_map(final(changes)@) == changes_map(old(changes)@).insert(uri@, edits_view(edits@)),
{
    let n = changes.len();
    let mut k: usize = 0;
    while k < n && !crate::text::str_eq(changes[k].0.as_str(), uri.as_str())
        invariant
            k <= n,
            n == changes@.len(),
            forall|q: int| 0 <= q < k ==> (#[trigger] changes@[q]).0@ != uri@,
        decreases n - k,
    {
        k = k + 1;
    }
    let ghost before = changes@;
    if k < n {
        let ghost x = (uri, edits);
        proof {
            lemma_changes_update(before, k as int, x);
        }
        changes.set(k, (uri, edits));
        assert(changes@ == before.update(k as int, x));
        assert forall|a: int, b: int| 0 <= a < b < changes@.len() implies (#[trigger] changes@[a]).0@ != (#[trigger] changes@[b]).0@ by {
            assert(changes@[a].0@ == before[a].0@ && changes@[b].0@ == before[b].0@);
        }
    } else {
        changes.push((uri, edits));
        assert(changes@.drop_last() =~= before);
    }
}

/// Appends `edits` to those of file `uri`.
fn extend_file_edits(changes: &mut Vec<(String, Vec<LspTextEdit>)>, uri: String, edits: Vec<LspTextEdit>)
    requires
        unique_files(old(changes)@),
    ensures
        unique_files(final(changes)@),
        changes_map(final(changes)@) == changes_map(old(changes)@).insert(
            uri@,
            (if changes_map(old(changes)@).contains_key(uri@) {
                changes_map(old(changes)@)[uri@]
            } else {
                Seq::empty()
            }) + edits_view(edits@),
        ),
{
    proof {
        lemma_changes_domain(changes@);
    }
    let n = changes.len();
    let mut k: usize = 0;
    while k < n && !crate::text::str_eq(changes[k].0.as_str(), uri.as_str())
        invariant
            k <= n,
            n == changes@.len(),
            forall|q: int| 0 <= q < k ==> (#[trigger] changes@[q]).0@ != uri@,
        decreases n - k,
    {
        k = k + 1;
    }
    let ghost before = changes@;
    if k < n {
        let mut merged: Vec<LspTextEdit> = Vec::new();
        let old_edits = &changes[k].1;
        let m = old_edits.len();
        for j in 0..m
            invariant
                m == old_edits@.len(),
                edits_view(merged@) == edits_view(old_edits@.take(j as int)),
        {
            let e = &old_edits[j];
            let c = LspTextEdit {
                start_line: e.start_line,
                start_col: e.start_col,
                end_line: e.end_line,
                end_col: e.end_col,
                new_text: e.new_text.clone(),
            };
            let ghost mb = merged@;
            merged.push(c);
            assert(edits_view(merged@) =~= edits_view(mb).push(edit_view(c)));
            assert(old_edits@.take(j + 1) =~= old_edits@.take(j as int).push(old_edits@[j as int]));
            assert(edits_view(old_edits@.take(j + 1)) =~= edits_view(old_edits@.take(j as int)).push(edit_view(old_edits@[j as int])));
        }
        assert(old_edits@.take(m as int) =~= old_edits@);
        let ghost first = edits_view(merged@);
        let p = edits.len();
        // the new edits go behind the old ones
        let mut t: usize = 0;
        let ghost ev = edits@;
        while t < p
            invariant
                t <= p,
                p == ev.len(),
                edits@ == ev,
                edits_view(merged@) == first + edits_view(ev.take(t as int)),
            decreases p - t,
        {
            let e = &edits[t];
            let c = LspTextEdit {
                start_line: e.start_line,
                start_col: e.start_col,
                end_line: e.end_line,
                end_col: e.end_col,
                new_text: e.new_text.clone(),
            };
            let ghost mb = merged@;
            merged.push(c);
            assert(edits_view(merged@) =~= edits_view(mb).push(edit_view(c)));
            assert(ev.take(t + 1) =~= ev.take(t as int).push(ev[t as int]));
            assert(edits_view(ev.take(t + 1)) =~= edits_view(ev.take(t as int)).push(edit_view(ev[t as int])));
            t = t + 1;
        }
        assert(ev.take(p as int) =~= ev);
        proof {
            assert(changes_map(before).contains_key(uri@));
            lemma_changes_key_value(before, k as int);
        }
        let ghost x = (uri, merged);
        proof {
            lemma_changes_update(before, k as int, x);
        }
        changes.set(k, (uri, merged));
        assert(changes@ == before.update(k as int, x));
        assert forall|a: int, b: int| 0 <= a < b < changes@.len() implies (#[trigger] changes@[a]).0@ != (#[trigger] changes@[b]).0@ by {
            assert(changes@[a].0@ == before[a].0@ && changes@[b].0@ == before[b].0@);
        }
    } else {
        proof {
            if changes_map(before).contains_key(uri@) {
                let q = choose|q: int| 0 <= q < before.len() && (#[trigger] before[q]).0@ == uri@;
                assert(before[q].0@ != uri@);
            }
        }
        changes.push((uri, edits));
        assert(changes@.drop_last() =~= before);
        assert(Seq::<(usize, usize, usize, usize, Seq<char>)>::empty() + edits_view(edits@) =~= edits_view(edits@));
    }
}

/// The map holds an entry's edits under its file.
proof fn lemma_changes_key_value(v: Seq<(String, Vec<LspTextEdit>)>, k: int)
    requires
        unique_files(v),
        0 <= k < v.len(),
    ensures
        changes_map(v).contains_key(v[k].0@),
        changes_map(v)[v[k].0@] == edits_view(v[k].1@),
    decreases v.len(),
{
    if k < v.len() - 1 {
        assert(unique_files(v.drop_last())) by {
            assert forall|a: int, b: int| 0 <= a < b < v.drop_last().len() implies (#[trigger] v.drop_last()[a]).0@ != (#[trigger] v.drop_last()[b]).0@ by {
                assert(v.drop_last()[a] == v[a] && v.drop_last()[b] == v[b]);
            }
        }
        assert(v.drop_last()[k] == v[k]);
        lemma_changes_key_value(v.drop_last(), k);
        assert(v[k].0@ != v[v.len() - 1].0@);
    }
}

/// The edits by file of a `changes` object (file to edit array), files with
/// no readable edit left out.
pub open spec fn object_changes(es: Seq<(String, Json)>) -> Map<Seq<char>, Seq<(usize, usize, usize, usize, Seq<char>)>>
    decreases es.len(),
{
    if es.len() == 0 {
        Map::empty()
    } else {
        let m = object_changes(es.drop_last());
        match jarray(es.last().1) {
            Some(arr) => if edits_in(arr).len() > 0 {
                m.insert(es.last().0@, edits_in(arr))
            } else {
                m
            },
            None => m,
        }
    }
}

/// The file of a `TextDocumentEdit`.
pub open spec fn doc_change_uri(dc: Json) -> Option<Seq<char>> {
    match jget(dc, "textDocument"@) {
        Some(td) => member_str(td, "uri"@),
        None => None,
    }
}

/// `m` with the edits of each `TextDocumentEdit` appended to those of its
/// file.
pub open spec fn with_doc_changes(
    m: Map<Seq<char>, Seq<(usize, usize, usize, usize, Seq<char>)>>,
    dcs: Seq<Json>,
) -> Map<Seq<char>, Seq<(usize, usize, usize, usize, Seq<char>)>>
    decreases dcs.len(),
{
    if dcs.len() == 0 {
        m
    } else {
        let m1 = with_doc_changes(m, dcs.drop_last());
        let dc = dcs.last();
        match (doc_change_uri(dc), member_array(dc, "edits"@)) {
            (Some(u), Some(arr)) => if edits_in(arr).len() > 0 {
                m1.insert(
                    u,
                    (if m1.contains_key(u) {
                        m1[u]
                    } else {
                        Seq::empty()
                    }) + edits_in(arr),
                )
            } else {
                m1
            },
            _ => m1,
        }
    }
}

/// The edits by file of a `rename` result: those of its `changes` object,
/// then those of its `documentChanges`; none for null or when no file has an
/// edit.
pub open spec fn rename_of(v: Json) -> Option<Map<Seq<char>, Seq<(usize, usize, usize, usize, Seq<char>)>>> {
    if v is Null {
        None
    } else {
        let m0 = match jget(v, "changes"@) {
            Some(Json::Object(es)) => object_changes(es@),
            _ => Map::empty(),
        };
        let m = match member_array(v, "documentChanges"@) {
            Some(dcs) => with_doc_changes(m0, dcs),
            None => m0,
        };
        if m == Map::<Seq<char>, Seq<(usize, usize, usize, usize, Seq<char>)>>::empty() {
            None
        } else {
            Some(m)
        }
    }
}

/// Parse a WorkspaceEdit from a rename response.
pub fn parse_rename_response(result: &Json) -> (r: Option<LspWorkspaceEdit>)
    ensures
        match r {
            Some(e) => unique_files(e.changes@) && rename_of(*result) == Some(changes_map(e.changes@)),
            None => rename_of(*result) is None,
        },
{
    if let Json::Null = result {
        return None;
    }
    let mut changes: Vec<(String, Vec<LspTextEdit>)> = Vec::new();
    let ghost mut m0: Map<Seq<char>, Seq<(usize, usize, usize, usize, Seq<char>)>> = Map::empty();
    if let Some(c) = get(result, "changes") {
        if let Json::Object(es) = c {
            let n = es.len();
            assert(es@.take(0) =~= Seq::<(String, Json)>::empty());
            for i in 0..n
                invariant
                    n == es@.len(),
                    unique_files(changes@),
                    changes_map(changes@) == object_changes(es@.take(i as int)),
            {
                assert(es@.take(i + 1).drop_last() =~= es@.take(i as int));
                let entry = &es[i];
                if let Some(arr) = as_array(&entry.1) {
                    let edits = parse_edits(arr);
                    if edits.len() > 0 {
                        set_file_edits(&mut changes, entry.0.clone(), edits);
                    }
                }
            }
            assert(es@.take(n as int) =~= es@);
            proof {
                m0 = object_changes(es@);
            }
        }
    }
    assert(changes_map(changes@) == m0);
    let ghost mut m = m0;
    if let Some(d) = get(result, "documentChanges") {
        if let Some(dcs) = as_array(d) {
            let n = dcs.len();
            assert(dcs@.take(0) =~= Seq::<Json>::empty());
            for i in 0..n
                invariant
                    n == dcs@.len(),
                    unique_files(changes@),
                    changes_map(changes@) == with_doc_changes(m0, dcs@.take(i as int)),
            {
                assert(dcs@.take(i + 1).drop_last() =~= dcs@.take(i as int));
                let dc = &dcs[i];
                let uri = match get(dc, "textDocument") {
                    Some(td) => str_member(td, "uri"),
                    None => None,
                };
                let edits = match get(dc, "edits") {
                    Some(e) => as_array(e),
                    None => None,
                };
                match (uri, edits) {
                    (Some(uri), Some(arr)) => {
                        let parsed = parse_edits(arr);
                        if parsed.len() > 0 {
                            extend_file_edits(&mut changes, uri, parsed);
                        }
                    },
                    _ => {},
                }
            }
            assert(dcs@.take(n as int) =~= dcs@);
            proof {
                m = with_doc_changes(m0, dcs@);
            }
        }
    }
    assert(changes_map(changes@) == m);
    proof {
        lemma_changes_domain(changes@);
        if changes@.len() > 0 {
            assert(changes_map(changes@).contains_key(changes@[0].0@));
        } else {
            assert(changes_map(changes@) =~= Map::<Seq<char>, Seq<(usize, usize, usize, usize, Seq<char>)>>::empty());
        }
    }
    if changes.len() == 0 {
        return None;
    }
    Some(LspWorkspaceEdit { changes })
}

// ---------------------------------------------------------------------------
// Messages
// ---------------------------------------------------------------------------

/// The length a header line announces: the number after `Content-Length: `
/// of the trimmed line, when it is one.
pub open spec fn content_length_of(line: Seq<char>) -> Option<usize> {
    let t = trim(line);
    let p = "Content-Length: "@;
    if p.is_prefix_of(t) {
        parse_uint(t.skip(p.len() as int), 10)
    } else {
        None
    }
}

/// The body length a header line announces, if it is a `Content-Length`
/// header.
pub fn parse_content_length(line: &str) -> (r: Option<usize>)
    ensures
        r == content_length_of(line@),
{
    let cs = chars_of(line);
    let t = trimmed(cs.as_slice());
    let p = chars_of("Content-Length: ");
    if !has_prefix(t.as_slice(), p.as_slice()) {
        return None;
    }
    let rest = slice_range(t.as_slice(), p.len(), t.len());
    assert(rest@ =~= t@.skip(p@.len() as int));
    parse_uint_chars(rest.as_slice(), 10)
}

/// Messages from the LSP server to the UI thread.
#[derive(Debug, Clone)]
pub enum LspEvent {
    /// Diagnostics for a file.
    Diagnostics { uri: String, diagnostics: Vec<LspDiagnostic> },
    /// Completion results.
    Completions { request_id: i64, items: Vec<LspCompletionItem> },
    /// Hover result.
    Hover { request_id: i64, contents: String },
    /// Go to definition result.
    Definition { request_id: i64, location: Option<LspLocation> },
    /// Find references result.
    References { request_id: i64, locations: Vec<LspLocation> },
    /// Rename result (workspace edit).
    Rename { request_id: i64, edit: Option<LspWorkspaceEdit> },
    /// Server initialized successfully.
    Initialized,
    /// Server exited or errored.
    ServerError(String),
}

/// The id of a response (a message with an integer `id` and no `method`).
pub open spec fn response_id_of(msg: Json) -> Option<i64> {
    if member_str(msg, "method"@) is Some {
        None
    } else {
        match jget(msg, "id"@) {
            Some(i) => ji64(i),
            None => None,
        }
    }
}

#[verifier::external_type_specification]
#[verifier::external_body]
pub struct ExJsonValue(serde_json::Value);

/// The JSON value that `serde_json::from_slice` reads from a message body
/// (as a `serde_json::Value`, in the library's terms), none when the body is
/// not valid JSON.
pub uninterp spec fn json_document_of(body: Seq<u8>) -> Option<Json>;

/// `serde_json::from_slice` into a `Value`, converted to the library's
/// `Json`. The contract claims only that the result is `json_document_of`
/// of the bytes.
#[verifier::external_body]
fn parse_json_body(body: &[u8]) -> (r: Option<Json>)
    ensures
        r == json_document_of(body@),
{
    serde_json::from_slice::<serde_json::Value>(body).ok().map(|v| convert_json(&v))
}

/// A `serde_json::Value` in the library's terms (conversion only).
#[verifier::external_body]
fn convert_json(v: &serde_json::Value) -> Json {
    match v {
        serde_json::Value::Null => Json::Null,
        serde_json::Value::Bool(b) => Json::Bool(*b),
        serde_json::Value::Number(n) => Json::Number(n.as_u64(), n.as_i64()),
        serde_json::Value::String(t) => Json::Str(t.clone()),
        serde_json::Value::Array(a) => Json::Array(a.iter().map(convert_json).collect()),
        serde_json::Value::Object(o) => Json::Object(o.iter().map(|(k, x)| (k.clone(), convert_json(x))).collect()),
    }
}

/// A message body read from a server: its JSON value and, for a response,
/// the id it answers; none when the body is not valid JSON.
pub fn decode_message(body: &[u8]) -> (r: Option<(Json, Option<i64>)>)
    ensures
        r is Some <==> json_document_of(body@) is Some,
        r matches Some((m, id)) ==> json_document_of(body@) == Some(m) && id == response_id_of(m),
{
    match parse_json_body(body) {
        Some(m) => {
            let id = response_id(&m);
            Some((m, id))
        },
        None => None,
    }
}

/// The id of a response message, to look its request up by.
pub fn response_id(msg: &Json) -> (r: Option<i64>)
    ensures
        r == response_id_of(*msg),
{
    if str_member(msg, "method").is_some() {
        return None;
    }
    match get(msg, "id") {
        Some(i) => as_i64(i),
        None => None,
    }
}

/// `e` is the event for the result `result` of request `id`, whose kind is
/// `req`: a rename or references result for those requests; else completion
/// items, hover text or a definition, whichever the result reads as first.
pub open spec fn result_event(id: i64, result: Json, req: Option<Seq<char>>, e: LspEvent) -> bool {
    if req == Some("rename"@) {
        e matches LspEvent::Rename { request_id, edit } && request_id == id && match (edit, rename_of(result)) {
            (Some(w), Some(m)) => unique_files(w.changes@) && changes_map(w.changes@) == m,
            (None, None) => true,
            _ => false,
        }
    } else if req == Some("references"@) {
        e matches LspEvent::References { request_id, locations } && request_id == id
            && locations_view(locations@) == locations_of(result)
    } else if completion_values(result) is Some {
        e matches LspEvent::Completions { request_id, items } && request_id == id && items@.map_values(
            |c: LspCompletionItem| item_view(c),
        ) == completion_values(result)->0.map_values(|v: Json| item_of(v))
    } else if hover_of(result) is Some {
        e matches LspEvent::Hover { request_id, contents } && request_id == id && contents@ == hover_of(
            result,
        )->0
    } else if definition_of(result) is Some {
        e matches LspEvent::Definition { request_id, location } && request_id == id && (
        location matches Some(l) && location_view(l) == definition_of(result)->0)
    } else {
        false
    }
}

/// A result gives an event unless it is for neither rename nor references
/// and reads as none of completions, hover or definition.
pub open spec fn result_has_event(result: Json, req: Option<Seq<char>>) -> bool {
    req == Some("rename"@) || req == Some("references"@) || completion_values(result) is Some || hover_of(
        result,
    ) is Some || definition_of(result) is Some
}

/// The events a message from the server gives: the diagnostics of a
/// `publishDiagnostics` notification (with parameters); for a response with
/// a `result`, the result's event (see `result_event`) and then
/// `Initialized` when the result has `capabilities`; nothing otherwise.
pub open spec fn events_ok(msg: Json, req: Option<Seq<char>>, ev: Seq<LspEvent>) -> bool {
    if member_str(msg, "method"@) is Some {
        if member_str(msg, "method"@) == Some("textDocument/publishDiagnostics"@) && jget(msg, "params"@) is Some {
            let params = jget(msg, "params"@)->0;
            &&& ev.len() == 1
            &&& ev[0] matches LspEvent::Diagnostics { uri, diagnostics }
            &&& uri@ == match member_str(params, "uri"@) {
                Some(u) => u,
                None => Seq::empty(),
            }
            &&& diagnostics@.map_values(|d: LspDiagnostic| diagnostic_view(d)) == match member_array(
                params,
                "diagnostics"@,
            ) {
                Some(a) => diagnostics_in(a),
                None => Seq::empty(),
            }
        } else {
            ev.len() == 0
        }
    } else if response_id_of(msg) is Some && jget(msg, "result"@) is Some {
        let id = response_id_of(msg)->0;
        let result = jget(msg, "result"@)->0;
        let init = jget(result, "capabilities"@) is Some;
        let first = if result_has_event(result, req) { 1int } else { 0 };
        &&& ev.len() == first + if init { 1int } else { 0 }
        &&& result_has_event(result, req) ==> result_event(id, result, req, ev[0])
        &&& init ==> ev.last() is Initialized
    } else {
        ev.len() == 0
    }
}

/// The event for the result of request `id` of kind `req`, if it gives one.
fn result_to_event(id: i64, result: &Json, req: Option<&str>) -> (r: Option<LspEvent>)
    ensures
        match r {
            Some(e) => result_has_event(*result, opt_str_view(req)) && result_event(id, *result, opt_str_view(req), e),
            None => !result_has_event(*result, opt_str_view(req)),
        },
{
    proof {
        reveal_strlit("rename");
        reveal_strlit("references");
    }
    let is_rename = match req {
        Some(t) => crate::text::str_eq(t, "rename"),
        None => false,
    };
    let is_references = match req {
        Some(t) => crate::text::str_eq(t, "references"),
        None => false,
    };
    if is_rename {
        return Some(LspEvent::Rename { request_id: id, edit: parse_rename_response(result) });
    }
    if is_references {
        return Some(LspEvent::References { request_id: id, locations: parse_locations_response(result) });
    }
    if let Some(items) = parse_completion_response(result) {
        return Some(LspEvent::Completions { request_id: id, items });
    }
    if let Some(contents) = parse_hover_response(result) {
        return Some(LspEvent::Hover { request_id: id, contents });
    }
    if let Some(location) = parse_definition_response(result) {
        return Some(LspEvent::Definition { request_id: id, location: Some(location) });
    }
    None
}

/// An optional text's characters.
pub open spec fn opt_str_view(o: Option<&str>) -> Option<Seq<char>> {
    match o {
        Some(s) => Some(s@),
        None => None,
    }
}

/// The events a message from the server gives, for a response whose request
/// (looked up by its id) was of kind `req`.
pub fn events_for_message(msg: &Json, req: Option<&str>) -> (r: Vec<LspEvent>)
    ensures
        events_ok(*msg, opt_str_view(req), r@),
{
    let mut events: Vec<LspEvent> = Vec::new();
    if let Some(method) = str_member(msg, "method") {
        if crate::text::str_eq(method.as_str(), "textDocument/publishDiagnostics") {
            if let Some(params) = get(msg, "params") {
                let (uri, diagnostics) = parse_publish_diagnostics(params);
                events.push(LspEvent::Diagnostics { uri, diagnostics });
            }
        }
        return events;
    }
    let id = match response_id(msg) {
        Some(i) => i,
        None => return events,
    };
    let result = match get(msg, "result") {
        Some(res) => res,
        None => return events,
    };
    if let Some(e) = result_to_event(id, result, req) {
        events.push(e);
    }
    if get(result, "capabilities").is_some() {
        events.push(LspEvent::Initialized);
    }
    events
}

// ---------------------------------------------------------------------------
// Client state
// ---------------------------------------------------------------------------

/// The command and arguments of the language server for a language.
pub open spec fn server_command_of(language: Seq<char>) -> Option<(Seq<char>, Seq<Seq<char>>)> {
    if language == "Rust"@ {
        Some(("rust-analyzer"@, Seq::empty()))
    } else if language == "Python"@ {
        Some(("pyright-langserver"@, seq!["--stdio"@]))
    } else if language == "JavaScript"@ || language == "TypeScript"@ || language == "JSX"@
        || language == "TSX"@ {
        Some(("typescript-language-server"@, seq!["--stdio"@]))
    } else if language == "Go"@ {
        Some(("gopls"@, Seq::empty()))
    } else if language == "C"@ || language == "C++"@ {
        Some(("clangd"@, Seq::empty()))
    } else if language == "Lua"@ {
        Some(("lua-language-server"@, Seq::empty()))
    } else {
        None
    }
}

/// Get the LSP server command for a language.
pub fn server_command(language: &str) -> (r: Option<(&'static str, Vec<&'static str>)>)
    ensures
        match r {
            Some((c, args)) => server_command_of(language@) == Some(
                (c@, args@.map_values(|a: &str| a@)),
            ),
            None => server_command_of(language@) is None,
        },
{
    if str_eq(language, "Rust") {
        let v: Vec<&'static str> = Vec::new();
        assert(v@.map_values(|a: &str| a@) =~= Seq::<Seq<char>>::empty());
        Some(("rust-analyzer", v))
    } else if str_eq(language, "Python") {
        let v = vec!["--stdio"];
        assert(v@.map_values(|a: &str| a@) =~= seq!["--stdio"@]);
        Some(("pyright-langserver", v))
    } else if str_eq(language, "JavaScript") || str_eq(language, "TypeScript") || str_eq(
        language,
        "JSX",
    ) || str_eq(language, "TSX") {
        let v = vec!["--stdio"];
        assert(v@.map_values(|a: &str| a@) =~= seq!["--stdio"@]);
        Some(("typescript-language-server", v))
    } else if str_eq(language, "Go") {
        let v: Vec<&'static str> = Vec::new();
        assert(v@.map_values(|a: &str| a@) =~= Seq::<Seq<char>>::empty());
        Some(("gopls", v))
    } else if str_eq(language, "C") || str_eq(language, "C++") {
        let v: Vec<&'static str> = Vec::new();
        assert(v@.map_values(|a: &str| a@) =~= Seq::<Seq<char>>::empty());
        Some(("clangd", v))
    } else if str_eq(language, "Lua") {
        let v: Vec<&'static str> = Vec::new();
        assert(v@.map_values(|a: &str| a@) =~= Seq::<Seq<char>>::empty());
        Some(("lua-language-server", v))
    } else {
        None
    }
}

/// The LSP language identifier of a language (the name itself for others).
pub open spec fn language_id_of(language: Seq<char>) -> Seq<char> {
    if language == "Rust"@ {
        "rust"@
    } else if language == "Python"@ {
        "python"@
    } else if language == "JavaScript"@ {
        "javascript"@
    } else if language == "TypeScript"@ {
        "typescript"@
    } else if language == "Go"@ {
        "go"@
    } else if language == "C"@ {
        "c"@
    } else if language == "C++"@ {
        "cpp"@
    } else if language == "Lua"@ {
        "lua"@
    } else {
        language
    }
}

/// The LSP language identifier sent when a file of `language` opens.
pub fn language_id(language: &str) -> (r: &str)
    ensures
        r@ == language_id_of(language@),
{
    if str_eq(language, "Rust") {
        "rust"
    } else if str_eq(language, "Python") {
        "python"
    } else if str_eq(language, "JavaScript") {
        "javascript"
    } else if str_eq(language, "TypeScript") {
        "typescript"
    } else if str_eq(language, "Go") {
        "go"
    } else if str_eq(language, "C") {
        "c"
    } else if str_eq(language, "C++") {
        "cpp"
    } else if str_eq(language, "Lua") {
        "lua"
    } else {
        language
    }
}

/// The version last recorded for a file.
pub open spec fn latest_version(v: Seq<(String, i32)>, uri: Seq<char>) -> Option<i32>
    decreases v.len(),
{
    if v.len() == 0 {
        None
    } else if v.last().0@ == uri {
        Some(v.last().1)
    } else {
        latest_version(v.drop_last(), uri)
    }
}

/// The client side of the language servers: cached diagnostics, the results
/// waiting to be taken, the latest request of each kind, and the version of
/// each open file.
pub struct LspClientState {
    /// Cached diagnostics per file URI (each URI once).
    pub diagnostics: Vec<(String, Vec<LspDiagnostic>)>,
    pub pending_completions: Option<Vec<LspCompletionItem>>,
    pub pending_hover: Option<String>,
    pub pending_definition: Option<LspLocation>,
    pub pending_references: Option<Vec<LspLocation>>,
    pub pending_rename: Option<LspWorkspaceEdit>,
    pub last_completion_id: i64,
    pub last_hover_id: i64,
    pub last_definition_id: i64,
    pub last_references_id: i64,
    pub last_rename_id: i64,
    /// Version counters of the open files (each URI once).
    pub file_versions: Vec<(String, i32)>,
}

/// The diagnostics of a file, from the cache.
pub open spec fn cached_diagnostics(d: Seq<(String, Vec<LspDiagnostic>)>, uri: Seq<char>) -> Option<Seq<LspDiagnostic>>
    decreases d.len(),
{
    if d.len() == 0 {
        None
    } else if d.last().0@ == uri {
        Some(d.last().1@)
    } else {
        cached_diagnostics(d.drop_last(), uri)
    }
}

impl LspClientState {
    pub fn new() -> (r: LspClientState)
        ensures
            r.diagnostics@.len() == 0,
            r.pending_completions is None,
            r.pending_hover is None,
            r.pending_definition is None,
            r.pending_references is None,
            r.pending_rename is None,
            r.last_completion_id == 0,
            r.last_hover_id == 0,
            r.last_definition_id == 0,
            r.last_references_id == 0,
            r.last_rename_id == 0,
            r.file_versions@.len() == 0,
            r.versions_wf(),
    {
        LspClientState {
            diagnostics: Vec::new(),
            pending_completions: None,
            pending_hover: None,
            pending_definition: None,
            pending_references: None,
            pending_rename: None,
            last_completion_id: 0,
            last_hover_id: 0,
            last_definition_id: 0,
            last_references_id: 0,
            last_rename_id: 0,
            file_versions: Vec::new(),
        }
    }

    /// Takes in one event from a server: diagnostics replace those cached for
    /// the file; a result is kept when it answers the latest request of its
    /// kind and dropped when stale.
    pub fn apply_event(&mut self, event: LspEvent)
        ensures
            match event {
                LspEvent::Diagnostics { uri, diagnostics } => cached_diagnostics(
                    final(self).diagnostics@,
                    uri@,
                ) == Some(diagnostics@) && forall|u: Seq<char>|
                    u != uri@ ==> cached_diagnostics(final(self).diagnostics@, u)
                        == cached_diagnostics(old(self).diagnostics@, u),
                _ => final(self).diagnostics == old(self).diagnostics,
            },
            final(self).pending_completions == match event {
                LspEvent::Completions { request_id, items } => if request_id
                    == old(self).last_completion_id {
                    Some(items)
                } else {
                    old(self).pending_completions
                },
                _ => old(self).pending_completions,
            },
            final(self).pending_hover == match event {
                LspEvent::Hover { request_id, contents } => if request_id == old(self).last_hover_id {
                    Some(contents)
                } else {
                    old(self).pending_hover
                },
                _ => old(self).pending_hover,
            },
            final(self).pending_definition == match event {
                LspEvent::Definition { request_id, location } => if request_id
                    == old(self).last_definition_id {
                    location
                } else {
                    old(self).pending_definition
                },
                _ => old(self).pending_definition,
            },
            final(self).pending_references == match event {
                LspEvent::References { request_id, locations } => if request_id
                    == old(self).last_references_id {
                    Some(locations)
                } else {
                    old(self).pending_references
                },
                _ => old(self).pending_references,
            },
            final(self).pending_rename == match event {
                LspEvent::Rename { request_id, edit } => if request_id == old(self).last_rename_id {
                    edit
                } else {
                    old(self).pending_rename
                },
                _ => old(self).pending_rename,
            },
            final(self).last_completion_id == old(self).last_completion_id,
            final(self).last_hover_id == old(self).last_hover_id,
            final(self).last_definition_id == old(self).last_definition_id,
            final(self).last_references_id == old(self).last_references_id,
            final(self).last_rename_id == old(self).last_rename_id,
            final(self).file_versions == old(self).file_versions,
    {
        match event {
            LspEvent::Diagnostics { uri, diagnostics } => {
                let ghost before = self.diagnostics@;
                self.diagnostics.push((uri, diagnostics));
                assert(self.diagnostics@.drop_last() =~= before);
            },
            LspEvent::Completions { request_id, items } => {
                if request_id == self.last_completion_id {
                    self.pending_completions = Some(items);
                }
            },
            LspEvent::Hover { request_id, contents } => {
                if request_id == self.last_hover_id {
                    self.pending_hover = Some(contents);
                }
            },
            LspEvent::Definition { request_id, location } => {
                if request_id == self.last_definition_id {
                    self.pending_definition = location;
                }
            },
            LspEvent::References { request_id, locations } => {
                if request_id == self.last_references_id {
                    self.pending_references = Some(locations);
                }
            },
            LspEvent::Rename { request_id, edit } => {
                if request_id == self.last_rename_id {
                    self.pending_rename = edit;
                }
            },
            LspEvent::Initialized => {},
            LspEvent::ServerError(_) => {},
        }
    }

    /// The diagnostics cached for a file URI (none cached: empty).
    pub fn get_diagnostics(&self, uri: &str) -> (r: &[LspDiagnostic])
        ensures
            r@ == match cached_diagnostics(self.diagnostics@, uri@) {
                Some(d) => d,
                None => Seq::empty(),
            },
    {
        let mut k = self.diagnostics.len();
        assert(self.diagnostics@.take(k as int) =~= self.diagnostics@);
        while k > 0
            invariant
                k <= self.diagnostics@.len(),
                cached_diagnostics(self.diagnostics@, uri@) == cached_diagnostics(
                    self.diagnostics@.take(k as int),
                    uri@,
                ),
            decreases k,
        {
            let ghost tk = self.diagnostics@.take(k as int);
            assert(tk.drop_last() =~= self.diagnostics@.take(k - 1));
            assert(tk.last() == self.diagnostics@[k - 1]);
            if crate::text::str_eq(self.diagnostics[k - 1].0.as_str(), uri) {
                return self.diagnostics[k - 1].1.as_slice();
            }
            k = k - 1;
        }
        assert(self.diagnostics@.take(0) =~= Seq::<(String, Vec<LspDiagnostic>)>::empty());
        &[]
    }

    /// Take pending completions (clears them).
    pub fn take_completions(&mut self) -> (r: Option<Vec<LspCompletionItem>>)
        ensures
            r == old(self).pending_completions,
            final(self).pending_completions is None,
    {
        self.pending_completions.take()
    }

    /// Take pending hover (clears it).
    pub fn take_hover(&mut self) -> (r: Option<String>)
        ensures
            r == old(self).pending_hover,
            final(self).pending_hover is None,
    {
        self.pending_hover.take()
    }

    /// Take pending definition (clears it).
    pub fn take_definition(&mut self) -> (r: Option<LspLocation>)
        ensures
            r == old(self).pending_definition,
            final(self).pending_definition is None,
    {
        self.pending_definition.take()
    }

    /// Take pending references (clears them).
    pub fn take_references(&mut self) -> (r: Option<Vec<LspLocation>>)
        ensures
            r == old(self).pending_references,
            final(self).pending_references is None,
    {
        self.pending_references.take()
    }

    /// Take pending rename result (clears it).
    pub fn take_rename(&mut self) -> (r: Option<LspWorkspaceEdit>)
        ensures
            r == old(self).pending_rename,
            final(self).pending_rename is None,
    {
        self.pending_rename.take()
    }

    /// The version of an open file.
    pub open spec fn version_of(&self, uri: Seq<char>) -> Option<i32> {
        latest_version(self.file_versions@, uri)
    }

    /// Each open file has one version entry.
    pub open spec fn versions_wf(&self) -> bool {
        distinct_uris(self.file_versions@)
    }

    /// Where the version entry of `uri` is, if there is one.
    fn find_version(&self, uri: &str) -> (r: Option<usize>)
        ensures
            r matches Some(k) ==> k < self.file_versions@.len() && self.file_versions@[k as int].0@ == uri@,
            r is None ==> forall|j: int| 0 <= j < self.file_versions@.len() ==> (#[trigger] self.file_versions@[j]).0@ != uri@,
    {
        let n = self.file_versions.len();
        for i in 0..n
            invariant
                n == self.file_versions@.len(),
                forall|j: int| 0 <= j < i ==> (#[trigger] self.file_versions@[j]).0@ != uri@,
        {
            if crate::text::str_eq(self.file_versions[i].0.as_str(), uri) {
                return Some(i);
            }
        }
        None
    }

    /// Records `version` as the version of `uri`: in place where the file has
    /// an entry, else as a new entry.
    fn set_version(&mut self, uri: &str, version: i32)
        requires
            old(self).versions_wf(),
        ensures
            final(self).versions_wf(),
            final(self).version_of(uri@) == Some(version),
            forall|u: Seq<char>| u != uri@ ==> final(self).version_of(u) == old(self).version_of(u),
            final(self).file_versions@.len() <= old(self).file_versions@.len() + 1,
    {
        let ghost before = self.file_versions@;
        match self.find_version(uri) {
            Some(k) => {
                self.file_versions.set(k, (uri.to_string(), version));
                proof {
                    let after = self.file_versions@;
                    assert forall|i: int, j: int| 0 <= i < j < after.len() implies (#[trigger] after[i]).0@
                        != (#[trigger] after[j]).0@ by {
                        if i != k && j != k {
                            assert(before[i].0@ != before[j].0@);
                        } else if i == k {
                            assert(before[k as int].0@ != before[j].0@);
                        } else {
                            assert(before[i].0@ != before[k as int].0@);
                        }
                    }
                    lemma_latest_at(after, k as int, uri@);
                    assert forall|u: Seq<char>| u != uri@ implies latest_version(after, u) == latest_version(before, u) by {
                        lemma_latest_update_other(before, k as int, after[k as int], u);
                        assert(after =~= before.update(k as int, after[k as int]));
                    }
                }
            },
            None => {
                self.file_versions.push((uri.to_string(), version));
                proof {
                    let after = self.file_versions@;
                    assert(after.drop_last() =~= before);
                    assert forall|i: int, j: int| 0 <= i < j < after.len() implies (#[trigger] after[i]).0@
                        != (#[trigger] after[j]).0@ by {
                        if j == before.len() {
                            assert(before[i].0@ != uri@);
                        } else {
                            assert(before[i].0@ != before[j].0@);
                        }
                    }
                }
            },
        }
    }

    /// A file was opened: its version is 1.
    pub fn did_open(&mut self, uri: &str)
        requires
            old(self).versions_wf(),
        ensures
            final(self).versions_wf(),
            final(self).version_of(uri@) == Some(1i32),
            forall|u: Seq<char>| u != uri@ ==> final(self).version_of(u) == old(self).version_of(u),
            final(self).file_versions@.len() <= old(self).file_versions@.len() + 1,
    {
        self.set_version(uri, 1);
    }

    /// A file's content changed: its version goes up by one (from 1 when it
    /// had none), in place; returns the new version.
    pub fn did_change(&mut self, uri: &str) -> (r: i32)
        requires
            old(self).versions_wf(),
            old(self).version_of(uri@) matches Some(v) ==> v < i32::MAX,
        ensures
            final(self).versions_wf(),
            r == match old(self).version_of(uri@) {
                Some(v) => v + 1,
                None => 2,
            },
            final(self).version_of(uri@) == Some(r),
            forall|u: Seq<char>| u != uri@ ==> final(self).version_of(u) == old(self).version_of(u),
            final(self).file_versions@.len() <= old(self).file_versions@.len() + 1,
    {
        let v = match self.find_version(uri) {
            Some(k) => {
                proof {
                    lemma_latest_at(self.file_versions@, k as int, uri@);
                }
                self.file_versions[k].1 + 1
            },
            None => {
                proof {
                    lemma_latest_absent(self.file_versions@, uri@);
                }
                2
            },
        };
        self.set_version(uri, v);
        v
    }
}

/// No two entries are of the same file.
pub open spec fn distinct_uris(v: Seq<(String, i32)>) -> bool {
    forall|i: int, j: int| 0 <= i < j < v.len() ==> (#[trigger] v[i]).0@ != (#[trigger] v[j]).0@
}

/// With each file entered once, the version of the file of entry `k` is that
/// entry's.
proof fn lemma_latest_at(v: Seq<(String, i32)>, k: int, uri: Seq<char>)
    requires
        distinct_uris(v),
        0 <= k < v.len(),
        v[k].0@ == uri,
    ensures
        latest_version(v, uri) == Some(v[k].1),
    decreases v.len(),
{
    if k < v.len() - 1 {
        assert(v.last().0@ != uri) by {
            assert(v[k].0@ != v[v.len() - 1].0@);
        }
        let w = v.drop_last();
        assert forall|i: int, j: int| 0 <= i < j < w.len() implies (#[trigger] w[i]).0@ != (#[trigger] w[j]).0@ by {
            assert(v[i].0@ != v[j].0@);
        }
        lemma_latest_at(w, k, uri);
    }
}

/// A file with no entry has no version.
proof fn lemma_latest_absent(v: Seq<(String, i32)>, uri: Seq<char>)
    requires
        forall|j: int| 0 <= j < v.len() ==> (#[trigger] v[j]).0@ != uri,
    ensures
        latest_version(v, uri) is None,
    decreases v.len(),
{
    if v.len() > 0 {
        assert(v.last().0@ != uri) by {
            assert(v[v.len() - 1].0@ != uri);
        }
        let w = v.drop_last();
        assert forall|j: int| 0 <= j < w.len() implies (#[trigger] w[j]).0@ != uri by {
            assert(v[j].0@ != uri);
        }
        lemma_latest_absent(w, uri);
    }
}

/// Replacing an entry of another file leaves a file's version as it was.
proof fn lemma_latest_update_other(v: Seq<(String, i32)>, k: int, e: (String, i32), u: Seq<char>)
    requires
        0 <= k < v.len(),
        v[k].0@ != u,
        e.0@ != u,
    ensures
        latest_version(v.update(k, e), u) == latest_version(v, u),
    decreases v.len(),
{
    let w = v.update(k, e);
    if k == v.len() - 1 {
        assert(w.drop_last() =~= v.drop_last());
    } else {
        assert(w.drop_last() =~= v.drop_last().update(k, e));
        assert(w.last() == v.last());
        lemma_latest_update_other(v.drop_last(), k, e, u);
    }
}

/// State for the inline rename dialog.
pub struct RenameDialogState {
    pub visible: bool,
    pub input: String,
    /// Whether the text input should request focus on the next frame.
    pub needs_focus: bool,
}

impl Default for RenameDialogState {
    fn default() -> (r: RenameDialogState)
        ensures
            !r.visible,
            r.input@.len() == 0,
            !r.needs_focus,
    {
        RenameDialogState { visible: false, input: String::new(), needs_focus: false }
    }
}

impl RenameDialogState {
    /// Opens the dialog with `word` (the word under the cursor) as the
    /// proposed name, asking the input to take focus.
    pub fn open_with(&mut self, word: String)
        ensures
            final(self).visible,
            final(self).input == word,
            final(self).needs_focus,
    {
        self.visible = true;
        self.input = word;
        self.needs_focus = true;
    }

    /// Enter in the input confirms a non-empty name: the dialog closes and
    /// the name is returned; otherwise nothing changes.
    pub fn confirm(&mut self, enter: bool) -> (r: Option<String>)
        ensures
            old(self).visible && enter && old(self).input@.len() > 0 ==> r == Some(old(self).input)
                && !final(self).visible && final(self).input == old(self).input,
            !(old(self).visible && enter && old(self).input@.len() > 0) ==> r is None && *final(self) == *old(self),
            final(self).needs_focus == old(self).needs_focus,
    {
        if self.visible && enter && self.input.as_str().unicode_len() > 0 {
            self.visible = false;
            Some(self.input.clone())
        } else {
            None
        }
    }
}

/// The number of bytes of `s` in UTF-8.
pub fn utf8_length(s: &str) -> (r: usize)
    requires
        utf8_len(s@) <= usize::MAX,
    ensures
        r == utf8_len(s@),
{
    let cs = chars_of(s);
    let n = cs.len();
    let mut total: usize = 0;
    assert(cs@.take(0) =~= Seq::<char>::empty());
    for i in 0..n
        invariant
            n == cs@.len(),
            cs@ == s@,
            utf8_len(s@) <= usize::MAX,
            total == utf8_len(cs@.take(i as int)),
    {
        assert(cs@.take(i + 1).drop_last() =~= cs@.take(i as int));
        proof {
            lemma_utf8_len_prefix(cs@, i + 1);
        }
        let c = cs[i] as u32;
        let w: usize = if c < 0x80 {
            1
        } else if c < 0x800 {
            2
        } else if c < 0x10000 {
            3
        } else {
            4
        };
        total = total + w;
    }
    assert(cs@.take(n as int) =~= cs@);
    total
}

/// A prefix takes no more bytes than the whole.
proof fn lemma_utf8_len_prefix(s: Seq<char>, k: int)
    requires
        0 <= k <= s.len(),
    ensures
        utf8_len(s.take(k)) <= utf8_len(s),
    decreases s.len() - k,
{
    if k < s.len() {
        lemma_utf8_len_prefix(s, k + 1);
        assert(s.take(k + 1).drop_last() =~= s.take(k));
    } else {
        assert(s.take(k) =~= s);
    }
}

/// The header that frames a message body of `body` bytes' text.
pub open spec fn framed(body: Seq<char>) -> Seq<char> {
    "Content-Length: "@ + decimal(utf8_len(body)) + "\r\n\r\n"@ + body
}

/// The short kind mark the completion popup shows before an item.
pub open spec fn kind_icon(kind: Option<Seq<char>>) -> Seq<char> {
    match kind {
        Some(k) => {
            if k == "Function"@ || k == "Method"@ {
                "fn"@
            } else
            if k == "Variable"@ || k == "Field"@ {
                "var"@
            } else
            if k == "Class"@ || k == "Struct"@ {
                "cls"@
            } else
            if k == "Interface"@ {
                "ifc"@
            } else
            if k == "Module"@ {
                "mod"@
            } else
            if k == "Keyword"@ {
                "key"@
            } else
            if k == "Snippet"@ {
                "<>"@
            } else
            if k == "Constant"@ || k == "EnumMember"@ {
                "cst"@
            } else
            if k == "Enum"@ {
                "enm"@
            } else
            if k == "Property"@ {
                "prp"@
            } else {
                " - "@
            }
        },
        None => " - "@,
    }
}

/// The kind mark of a completion item.
pub fn completion_icon(kind: Option<&str>) -> (r: &'static str)
    ensures
        r@ == kind_icon(opt_str_view(kind)),
{
    if let Some(k) = kind {
        if str_eq(k, "Function") || str_eq(k, "Method") {
            return "fn";
        }
        if str_eq(k, "Variable") || str_eq(k, "Field") {
            return "var";
        }
        if str_eq(k, "Class") || str_eq(k, "Struct") {
            return "cls";
        }
        if str_eq(k, "Interface") {
            return "ifc";
        }
        if str_eq(k, "Module") {
            return "mod";
        }
        if str_eq(k, "Keyword") {
            return "key";
        }
        if str_eq(k, "Snippet") {
            return "<>";
        }
        if str_eq(k, "Constant") || str_eq(k, "EnumMember") {
            return "cst";
        }
        if str_eq(k, "Enum") {
            return "enm";
        }
        if str_eq(k, "Property") {
            return "prp";
        }
    }
    " - "
}

/// The color (red, green, blue) of a completion item's kind mark.
pub open spec fn kind_tint_rgb(kind: Option<Seq<char>>) -> (u8, u8, u8) {
    match kind {
        Some(k) => {
            if k == "Function"@ || k == "Method"@ {
                (220u8, 220u8, 170u8)
            } else
            if k == "Variable"@ || k == "Field"@ {
                (156u8, 220u8, 254u8)
            } else
            if k == "Class"@ || k == "Struct"@ {
                (78u8, 201u8, 176u8)
            } else
            if k == "Keyword"@ {
                (197u8, 134u8, 192u8)
            } else {
                (188u8, 188u8, 188u8)
            }
        },
        None => (188u8, 188u8, 188u8),
    }
}

/// The color of a completion item's kind mark.
pub fn completion_tint(kind: Option<&str>) -> (r: Rgba)
    ensures
        (r.r, r.g, r.b) == kind_tint_rgb(opt_str_view(kind)),
        r.a == 255,
{
    if let Some(k) = kind {
        if str_eq(k, "Function") || str_eq(k, "Method") {
            return Rgba::from_rgb(220, 220, 170);
        }
        if str_eq(k, "Variable") || str_eq(k, "Field") {
            return Rgba::from_rgb(156, 220, 254);
        }
        if str_eq(k, "Class") || str_eq(k, "Struct") {
            return Rgba::from_rgb(78, 201, 176);
        }
        if str_eq(k, "Keyword") {
            return Rgba::from_rgb(197, 134, 192);
        }
    }
    Rgba::from_rgb(188, 188, 188)
}

/// The part of an item's detail the popup shows: its first 30 characters.
pub fn detail_shown(detail: &str) -> (r: String)
    ensures
        r@ == detail@.take(if detail@.len() <= 30 { detail@.len() as int } else { 30 }),
{
    let cs = chars_of(detail);
    let n = if cs.len() <= 30 { cs.len() } else { 30 };
    let mut out = String::new();
    for i in 0..n
        invariant
            n <= cs@.len(),
            cs@ == detail@,
            out@ == detail@.take(i as int),
    {
        crate::text::push_char(&mut out, cs[i]);
        assert(detail@.take(i + 1) =~= detail@.take(i as int).push(detail@[i as int]));
    }
    out
}

/// The first and one-past-last items the completion popup shows: at most
/// ten, scrolled so that the selected one is shown.
pub fn popup_rows(selected: usize, len: usize) -> (r: (usize, usize))
    requires
        selected < usize::MAX,
    ensures
        ({
            let shown = if len <= 10 { len as int } else { 10 };
            let start = if selected >= shown { selected - shown + 1 } else { 0 };
            r.0 == start && r.1 == if start + shown <= len { start + shown } else { len as int }
        }),
{
    let shown = if len <= 10 { len } else { 10 };
    let start = if selected >= shown { selected - shown + 1 } else { 0 };
    let end = if start <= len && shown <= len - start { start + shown } else { len };
    (start, end)
}

/// The columns of the squiggle a diagnostic draws under line `line_idx`
/// of a view scrolled `col_offset` columns: from its start to its end on
/// its last line (at least one column), ten columns when it goes on; none
/// when it starts on another line.
pub open spec fn squiggle_span(d: LspDiagnostic, line_idx: usize, col_offset: usize) -> Option<(int, int)> {
    if d.line != line_idx {
        None
    } else {
        let start = if d.col >= col_offset { d.col - col_offset } else { 0 };
        let end = if d.end_line == line_idx {
            let e = if d.end_col >= col_offset { d.end_col - col_offset } else { 0 };
            if e >= start + 1 { e } else { start + 1 }
        } else {
            start + 10
        };
        Some((start, end))
    }
}

/// The squiggle columns of a diagnostic on a line (see `squiggle_span`).
pub fn squiggle_columns(d: &LspDiagnostic, line_idx: usize, col_offset: usize) -> (r: Option<(usize, usize)>)
    requires
        d.col + 10 <= usize::MAX,
    ensures
        match r {
            Some((a, b)) => squiggle_span(*d, line_idx, col_offset) == Some((a as int, b as int)),
            None => squiggle_span(*d, line_idx, col_offset) is None,
        },
{
    if d.line != line_idx {
        return None;
    }
    let start = d.col.saturating_sub(col_offset);
    let end = if d.end_line == line_idx {
        let e = d.end_col.saturating_sub(col_offset);
        if e >= start + 1 {
            e
        } else {
            start + 1
        }
    } else {
        start + 10
    };
    Some((start, end))
}

/// The color of a diagnostic's squiggle.
pub fn severity_color(severity: DiagnosticSeverityLevel) -> (r: Rgba)
    ensures
        (r.r, r.g, r.b, r.a) == match severity {
            DiagnosticSeverityLevel::Error => (255u8, 80u8, 80u8, 255u8),
            DiagnosticSeverityLevel::Warning => (255u8, 200u8, 50u8, 255u8),
            DiagnosticSeverityLevel::Info => (80u8, 180u8, 255u8, 255u8),
            DiagnosticSeverityLevel::Hint => (150u8, 150u8, 150u8, 255u8),
        },
{
    match severity {
        DiagnosticSeverityLevel::Error => Rgba::from_rgb(255, 80, 80),
        DiagnosticSeverityLevel::Warning => Rgba::from_rgb(255, 200, 50),
        DiagnosticSeverityLevel::Info => Rgba::from_rgb(80, 180, 255),
        DiagnosticSeverityLevel::Hint => Rgba::from_rgb(150, 150, 150),
    }
}

/// The files of the locations, each once, in the order they first appear.
pub open spec fn files_in_order(locs: Seq<(Seq<char>, usize, usize)>) -> Seq<Seq<char>>
    decreases locs.len(),
{
    if locs.len() == 0 {
        Seq::empty()
    } else {
        let rest = files_in_order(locs.drop_last());
        if rest.contains(locs.last().0) {
            rest
        } else {
            rest.push(locs.last().0)
        }
    }
}

/// The locations in file `uri`, in order.
pub open spec fn in_file(locs: Seq<(Seq<char>, usize, usize)>, uri: Seq<char>) -> Seq<(Seq<char>, usize, usize)> {
    locs.filter(at_file(uri))
}

/// Whether a location is in file `uri`.
pub open spec fn at_file(uri: Seq<char>) -> spec_fn((Seq<char>, usize, usize)) -> bool {
    |l: (Seq<char>, usize, usize)| l.0 == uri
}

/// The references grouped by file for the references panel: one group per
/// file in the order the files first appear, each with its locations in
/// order.
pub fn group_by_file(locs: &Vec<LspLocation>) -> (r: Vec<(String, Vec<LspLocation>)>)
    ensures
        r@.len() == files_in_order(locations_view(locs@)).len(),
        forall|k: int|
            0 <= k < r@.len() ==> (#[trigger] r@[k]).0@ == files_in_order(locations_view(locs@))[k]
                && locations_view(r@[k].1@) == in_file(locations_view(locs@), r@[k].0@),
{
    let ghost lv = locations_view(locs@);
    let mut groups: Vec<(String, Vec<LspLocation>)> = Vec::new();
    let n = locs.len();
    assert(lv.take(0) =~= Seq::<(Seq<char>, usize, usize)>::empty());
    for i in 0..n
        invariant
            n == locs@.len(),
            lv == locations_view(locs@),
            groups@.len() == files_in_order(lv.take(i as int)).len(),
            forall|k: int|
                0 <= k < groups@.len() ==> (#[trigger] groups@[k]).0@ == files_in_order(lv.take(i as int))[k]
                    && locations_view(groups@[k].1@) == in_file(lv.take(i as int), groups@[k].0@),
    {
        let ghost pre = lv.take(i as int);
        let ghost post = lv.take(i + 1);
        assert(post.drop_last() =~= pre);
        let ghost x = lv[i as int];
        assert(post.last() == x);
        assert(post =~= pre.push(x));
        let loc = &locs[i];
        let copy = LspLocation { uri: loc.uri.clone(), line: loc.line, col: loc.col };
        assert(location_view(copy) == x);
        let ghost order = files_in_order(pre);
        let m = groups.len();
        let mut k: usize = 0;
        while k < m && !str_eq(groups[k].0.as_str(), loc.uri.as_str())
            invariant
                m == groups@.len(),
                k <= m,
                forall|q: int| 0 <= q < k ==> (#[trigger] groups@[q]).0@ != loc.uri@,
            decreases m - k,
        {
            k = k + 1;
        }
        let found: Option<usize> = if k < m { Some(k) } else { None };
        proof {
            pre.lemma_filter_push(x, at_file(x.0));
        }
        match found {
            Some(k) => {
                let ghost before = groups@;
                let mut g = groups.remove(k);
                assert(g == before[k as int]);
                g.1.push(copy);
                let ghost gk = g;
                groups.insert(k, g);
                proof {
                    assert(groups@ =~= before.update(k as int, gk));
                    assert(gk.0 == before[k as int].0);
                    assert(gk.1@ == before[k as int].1@.push(copy));
                    assert(before[k as int].0@ == x.0);
                    lemma_files_distinct(pre);
                    assert forall|q: int| 0 <= q < groups@.len() implies (#[trigger] groups@[q]).0@
                        == files_in_order(post)[q] && locations_view(groups@[q].1@) == in_file(post, groups@[q].0@) by {
                        assert(order.contains(x.0)) by {
                            assert(order[k as int] == x.0);
                        }
                        assert(files_in_order(post) == order);
                        if q == k {
                            assert(locations_view(groups@[q].1@) =~= locations_view(before[q].1@).push(x));
                        } else {
                            assert(groups@[q] == before[q]);
                            pre.lemma_filter_push(x, at_file(before[q].0@));
                        }
                    }
                }
            },
            None => {
                let ghost before = groups@;
                let uri = loc.uri.clone();
                let mut v: Vec<LspLocation> = Vec::new();
                v.push(copy);
                let ghost entry = (uri, v);
                groups.push((uri, v));
                proof {
                    assert(groups@ =~= before.push(entry));
                    assert(v@ =~= seq![copy]);
                    assert(!order.contains(x.0)) by {
                        if order.contains(x.0) {
                            let q = order.index_of(x.0);
                            assert(before[q].0@ == x.0);
                        }
                    }
                    assert(files_in_order(post) == order.push(x.0));
                    assert forall|q: int| 0 <= q < groups@.len() implies (#[trigger] groups@[q]).0@
                        == files_in_order(post)[q] && locations_view(groups@[q].1@) == in_file(post, groups@[q].0@) by {
                        if q < before.len() {
                            assert(groups@[q] == before[q]);
                            pre.lemma_filter_push(x, at_file(before[q].0@));
                        } else {
                            assert(in_file(pre, x.0) =~= Seq::empty()) by {
                                assert forall|j: int| 0 <= j < pre.len() implies pre[j].0 != x.0 by {
                                    lemma_file_listed(pre, j);
                                }
                                lemma_filter_none(pre, x.0);
                            }
                            assert(locations_view(groups@[q].1@) =~= seq![x]);
                        }
                    }
                }
            },
        }
    }
    assert(lv.take(n as int) =~= lv);
    groups
}

/// The files in order are each listed once.
proof fn lemma_files_distinct(locs: Seq<(Seq<char>, usize, usize)>)
    ensures
        forall|a: int, b: int|
            0 <= a < b < files_in_order(locs).len() ==> files_in_order(locs)[a] != files_in_order(locs)[b],
    decreases locs.len(),
{
    if locs.len() > 0 {
        lemma_files_distinct(locs.drop_last());
        let rest = files_in_order(locs.drop_last());
        if !rest.contains(locs.last().0) {
            let f = rest.push(locs.last().0);
            assert forall|a: int, b: int| 0 <= a < b < f.len() implies f[a] != f[b] by {
                if b == rest.len() {
                    assert(f[a] == rest[a]);
                    if f[a] == f[b] {
                        assert(rest.contains(locs.last().0));
                    }
                }
            }
        }
    }
}

/// Every location's file is among the files in order.
proof fn lemma_file_listed(locs: Seq<(Seq<char>, usize, usize)>, j: int)
    requires
        0 <= j < locs.len(),
    ensures
        files_in_order(locs).contains(locs[j].0),
    decreases locs.len(),
{
    let rest = files_in_order(locs.drop_last());
    if j < locs.len() - 1 {
        lemma_file_listed(locs.drop_last(), j);
        assert(locs.drop_last()[j] == locs[j]);
        if !rest.contains(locs.last().0) {
            let q = rest.index_of(locs[j].0);
            assert(rest.push(locs.last().0)[q] == locs[j].0);
        }
    } else {
        if !rest.contains(locs.last().0) {
            assert(rest.push(locs.last().0)[rest.len() as int] == locs.last().0);
        }
    }
}

/// No location of another file passes the filter for `uri`.
proof fn lemma_filter_none(locs: Seq<(Seq<char>, usize, usize)>, uri: Seq<char>)
    requires
        forall|j: int| 0 <= j < locs.len() ==> locs[j].0 != uri,
    ensures
        in_file(locs, uri).len() == 0,
    decreases locs.len(),
{
    if locs.len() > 0 {
        lemma_filter_none(locs.drop_last(), uri);
        locs.drop_last().lemma_filter_push(locs.last(), at_file(uri));
        assert(locs.drop_last().push(locs.last()) =~= locs);
    } else {
        assert(in_file(locs, uri) =~= Seq::empty());
    }
}

/// A reference's line in the panel: its 1-based line and column.
pub fn reference_label(loc: &LspLocation) -> (r: String)
    requires
        loc.line < usize::MAX,
        loc.col < usize::MAX,
    ensures
        r@ == "Line "@ + decimal((loc.line + 1) as nat) + ", Col "@ + decimal((loc.col + 1) as nat),
{
    let mut t = String::new();
    push_all(&mut t, "Line ");
    push_decimal(&mut t, (loc.line + 1) as u64, 0);
    push_all(&mut t, ", Col ");
    push_decimal(&mut t, (loc.col + 1) as u64, 0);
    assert(zero_padded(decimal((loc.line + 1) as nat), 0) =~= decimal((loc.line + 1) as nat));
    assert(zero_padded(decimal((loc.col + 1) as nat), 0) =~= decimal((loc.col + 1) as nat));
    t
}

/// The completion popup's selection after the arrow keys: up moves to the
/// previous item or wraps to the last, down moves to the next or wraps to
/// the first.
pub fn completion_selection(selected: usize, len: usize, up: bool, down: bool) -> (r: usize)
    requires
        down ==> len > 0,
        selected < usize::MAX,
    ensures
        ({
            let s1 = if up {
                if selected > 0 { selected - 1 } else if len > 0 { len - 1 } else { 0 }
            } else {
                selected as int
            };
            r == if down { (s1 + 1) % (len as int) } else { s1 }
        }),
{
    let mut s = selected;
    if up {
        if s > 0 {
            s = s - 1;
        } else {
            s = len.saturating_sub(1);
        }
    }
    if down {
        s = (s + 1) % len;
    }
    s
}

/// The text accepting a completion inserts: its insert text, else its
/// label.
pub fn text_to_insert(item: &LspCompletionItem) -> (r: String)
    ensures
        r@ == match item.insert_text {
            Some(t) => t@,
            None => item.label@,
        },
{
    match &item.insert_text {
        Some(t) => t.clone(),
        None => item.label.clone(),
    }
}

/// Splitting a text splits its length in UTF-8.
proof fn lemma_utf8_len_split(s: Seq<char>, a: int)
    requires
        0 <= a <= s.len(),
    ensures
        utf8_len(s) == utf8_len(s.take(a)) + utf8_len(s.skip(a)),
    decreases s.len(),
{
    if a < s.len() {
        lemma_utf8_len_split(s.drop_last(), a);
        assert(s.drop_last().take(a) =~= s.take(a));
        assert(s.drop_last().skip(a) =~= s.skip(a).drop_last());
        assert(s.skip(a).last() == s.last());
    } else {
        assert(s.take(a) =~= s);
        assert(s.skip(a) =~= Seq::<char>::empty());
    }
}

/// How many backspaces accepting a completion first sends: one per byte (in
/// UTF-8) of the word fragment before the cursor.
pub fn completion_backspaces(line: &str, col: usize) -> (r: usize)
    requires
        utf8_len(line@) <= usize::MAX,
    ensures
        r == utf8_len(word_suffix(before_column(line@, col as int))),
{
    let prefix = word_before_cursor(line, col);
    proof {
        let b = before_column(line@, col as int);
        if col < line@.len() {
            lemma_utf8_len_prefix(line@, col as int);
        }
        lemma_utf8_len_split(b, b.len() - prefix@.len());
    }
    let text = string_of(prefix.as_slice());
    utf8_length(text.as_str())
}

/// What a hover popup shows of a hover text: its first 500 characters, of
/// those the first 15 lines (as `str::lines` splits them), joined by line
/// breaks.
pub open spec fn hover_shown(text: Seq<char>) -> Seq<char> {
    let t = if text.len() <= 500 { text } else { text.take(500) };
    let ls = lines_of(t);
    join_with(if ls.len() <= 15 { ls } else { ls.take(15) }, '\n')
}

/// The text a hover popup shows (see `hover_shown`).
pub fn hover_display(text: &str) -> (r: String)
    ensures
        r@ == hover_shown(text@),
{
    let cs = chars_of(text);
    let n = if cs.len() <= 500 { cs.len() } else { 500 };
    let t = slice_range(cs.as_slice(), 0, n);
    assert(t@ =~= if text@.len() <= 500 { text@ } else { text@.take(500) });
    let mut lines = lines_chars(t.as_slice());
    let ghost lv = parts_view(lines@);
    if lines.len() > 15 {
        lines.truncate(15);
        assert(parts_view(lines@) =~= lv.take(15));
    }
    let joined_chars = join_chars(&lines, '\n');
    string_of(joined_chars.as_slice())
}

/// The decimal digits of a number read back as that number.
proof fn lemma_decimal_reads_back(n: nat)
    ensures
        decimal(n).len() > 0,
        all_digits(decimal(n), 10),
        digits_value(decimal(n), 10) == n,
        '0' <= decimal(n)[0] <= '9',
        '0' <= decimal(n).last() <= '9',
    decreases n,
{
    let d = decimal(n);
    if n < 10 {
        assert(d == seq![digit_char(n as int)]);
        assert(d.drop_last() =~= Seq::<char>::empty());
        assert(digit_value(d[0], 10) == Some(n));
        assert(d.last() == d[0]);
        assert(digits_value(d, 10) == digits_value(d.drop_last(), 10) * 10 + n);
        assert(digits_value(d.drop_last(), 10) == 0);
    } else {
        lemma_decimal_reads_back(n / 10);
        let c = digit_char((n % 10) as int);
        assert(d == decimal(n / 10).push(c));
        assert(d.drop_last() =~= decimal(n / 10));
        assert(digit_value(c, 10) == Some(n % 10));
        assert forall|i: int| 0 <= i < d.len() implies (#[trigger] digit_value(d[i], 10)) is Some by {
            if i < d.len() - 1 {
                assert(d[i] == decimal(n / 10)[i]);
            }
        }
        assert(d[0] == decimal(n / 10)[0]);
        assert(d.last() == c);
        assert(digits_value(d, 10) == digits_value(decimal(n / 10), 10) * 10 + (n % 10));
        vstd::arithmetic::div_mod::lemma_fundamental_div_mod(n as int, 10);
    }
}

/// A `Content-Length` header line for `n` (with its line break) reads back
/// as `n`.
proof fn lemma_header_reads_back(n: nat)
    requires
        n <= usize::MAX,
    ensures
        content_length_of("Content-Length: "@ + decimal(n) + "\r\n"@) == Some(n as usize),
{
    reveal_strlit("Content-Length: ");
    reveal_strlit("\r\n");
    let p = "Content-Length: "@;
    let d = decimal(n);
    let line = p + d + "\r\n"@;
    lemma_decimal_reads_back(n);
    assert(line[0] == 'C');
    assert(trim_start(line) == line);
    let body = p + d;
    assert(line.take(body.len() as int) =~= body);
    assert forall|j: int| body.len() <= j < line.len() implies is_ws(#[trigger] line[j]) by {
        assert(line[j] == '\r' || line[j] == '\n');
    }
    lemma_trim_end_take(line, body.len() as int);
    assert(body.last() == d.last());
    assert(trim_end(body) == body);
    assert(trim(line) == body);
    assert(p.is_prefix_of(body));
    assert(body.skip(p.len() as int) =~= d);
    assert(d[0] != '+');
}

/// The first line of a framed message (its `Content-Length` header) reads
/// back as the body's length in bytes, which is what a reader of the
/// message needs to take the body.
pub proof fn lemma_frame_header_reads_back(body: Seq<char>)
    requires
        utf8_len(body) <= usize::MAX,
    ensures
        framed(body) == ("Content-Length: "@ + decimal(utf8_len(body)) + "\r\n"@) + "\r\n"@ + body,
        content_length_of("Content-Length: "@ + decimal(utf8_len(body)) + "\r\n"@) == Some(utf8_len(body) as usize),
{
    reveal_strlit("\r\n\r\n");
    reveal_strlit("\r\n");
    assert(framed(body) =~= ("Content-Length: "@ + decimal(utf8_len(body)) + "\r\n"@) + "\r\n"@ + body);
    lemma_header_reads_back(utf8_len(body));
}

/// A JSON-RPC message as sent to a server: the `Content-Length` header (the
/// body's length in bytes), a blank line, and the body.
pub fn frame_message(body: &str) -> (r: String)
    requires
        utf8_len(body@) <= u64::MAX,
        utf8_len(body@) <= usize::MAX,
    ensures
        r@ == framed(body@),
{
    let len = utf8_length(body);
    let mut out = String::new();
    push_all(&mut out, "Content-Length: ");
    push_decimal(&mut out, len as u64, 0);
    push_all(&mut out, "\r\n\r\n");
    push_all(&mut out, body);
    out
}

} // verus!
