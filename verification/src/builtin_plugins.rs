//! Built-in plugins: a word counter, lorem ipsum insertion and timestamp
//! insertion, with the calendar arithmetic the timestamp needs.

use vstd::prelude::*;
use crate::text::{
    decimal, push_decimal, zero_padded,
    chars_of, is_whitespace, is_ws, lines_chars, lines_of, parts_view, push_all, push_char, str_eq,
};
use vstd::arithmetic::div_mod::{
    lemma_fundamental_div_mod_converse,
    lemma_hoist_over_denominator,
    lemma_mod_multiples_vanish,
};

verus! {

// ---------------------------------------------------------------------------
// Proleptic Gregorian calendar
// ---------------------------------------------------------------------------

/// Whether `y` is a leap year of the Gregorian calendar.
pub open spec fn is_leap_year(y: int) -> bool {
    (y % 4 == 0 && y % 100 != 0) || y % 400 == 0
}

/// The number of days of month `m` (1-based) in year `y`.
pub open spec fn days_in_month(y: int, m: int) -> int {
    if m == 2 {
        if is_leap_year(y) { 29 } else { 28 }
    } else if m == 4 || m == 6 || m == 9 || m == 11 {
        30
    } else {
        31
    }
}

/// The days of year `y` before the first of month `m`.
pub open spec fn days_before_month(y: int, m: int) -> int {
    let common: int = if m <= 1 {
        0
    } else if m == 2 {
        31
    } else if m == 3 {
        59
    } else if m == 4 {
        90
    } else if m == 5 {
        120
    } else if m == 6 {
        151
    } else if m == 7 {
        181
    } else if m == 8 {
        212
    } else if m == 9 {
        243
    } else if m == 10 {
        273
    } else if m == 11 {
        304
    } else {
        334
    };
    if m > 2 && is_leap_year(y) {
        common + 1
    } else {
        common
    }
}

/// The number of leap years in `[0, y)` (negative for negative `y`).
pub open spec fn leap_years_before(y: int) -> int {
    (y + 3) / 4 - (y + 99) / 100 + (y + 399) / 400
}

/// The days from 0000-01-01 to the first of January of year `y`.
pub open spec fn days_before_year(y: int) -> int {
    365 * y + leap_years_before(y)
}

/// Whether `(y, m, d)` names a day of the calendar.
pub open spec fn valid_date(y: int, m: int, d: int) -> bool {
    1 <= m <= 12 && 1 <= d <= days_in_month(y, m)
}

/// The number of days from 1970-01-01 to `(y, m, d)`.
pub open spec fn days_since_epoch(y: int, m: int, d: int) -> int {
    days_before_year(y) + days_before_month(y, m) + d - 1 - days_before_year(1970)
}

/// The least day count `days_to_ymd` accepts.
pub const MIN_EPOCH_DAYS: i64 = -9223372036853910244;

/// The greatest day count `days_to_ymd` accepts.
pub const MAX_EPOCH_DAYS: i64 = 9223372036854056339;

/// Facts of one 400-year cycle of days, checked on every day of it.
proof fn lemma_day_of_era(doe: u32)
    requires
        doe < 146097,
    ensures
        ({
            let yoe = (doe - doe / 1460 + doe / 36524 - doe / 146096) / 365;
            let doy = doe - (365 * yoe + yoe / 4 - yoe / 100);
            &&& doe / 1460 <= doe
            &&& doe / 146096 <= doe - doe / 1460 + doe / 36524
            &&& yoe <= 399
            &&& 365 * yoe + yoe / 4 - yoe / 100 <= doe
            &&& doy <= 365
            &&& (doy == 365 ==> (((yoe + 1) % 4 == 0 && (yoe + 1) % 100 != 0) || (yoe + 1) % 400
                == 0))
        }),
{
    assert({
        let yoe = (doe - doe / 1460 + doe / 36524 - doe / 146096) / 365;
        let doy = doe - (365 * yoe + yoe / 4 - yoe / 100);
        &&& doe / 1460 <= doe
        &&& doe / 146096 <= doe - doe / 1460 + doe / 36524
        &&& yoe <= 399
        &&& 365 * yoe + yoe / 4 - yoe / 100 <= doe
        &&& doy <= 365
        &&& (doy == 365 ==> (((yoe + 1) % 4 == 0 && (yoe + 1) % 100 != 0) || (yoe + 1) % 400 == 0))
    }) by (bit_vector)
        requires
            doe < 146097,
    ;
}

/// The day of a March-based year: its month index (March is 0) and day.
proof fn lemma_day_of_year(doy: u32)
    requires
        doy <= 365,
    ensures
        ({
            let mp = (5 * doy + 2) / 153;
            let start = (153 * mp + 2) / 5;
            &&& mp <= 11
            &&& start <= doy
            &&& start == (if mp == 0 {
                0u32
            } else if mp == 1 {
                31
            } else if mp == 2 {
                61
            } else if mp == 3 {
                92
            } else if mp == 4 {
                122
            } else if mp == 5 {
                153
            } else if mp == 6 {
                184
            } else if mp == 7 {
                214
            } else if mp == 8 {
                245
            } else if mp == 9 {
                275
            } else if mp == 10 {
                306
            } else {
                337
            })
            &&& doy - start < (if mp == 1 || mp == 3 || mp == 6 || mp == 8 {
                30u32
            } else {
                31
            })
        }),
{
    assert({
        let mp = (5 * doy + 2) / 153;
        let start = (153 * mp + 2) / 5;
        &&& mp <= 11
        &&& start <= doy
        &&& start == (if mp == 0 {
            0u32
        } else if mp == 1 {
            31
        } else if mp == 2 {
            61
        } else if mp == 3 {
            92
        } else if mp == 4 {
            122
        } else if mp == 5 {
            153
        } else if mp == 6 {
            184
        } else if mp == 7 {
            214
        } else if mp == 8 {
            245
        } else if mp == 9 {
            275
        } else if mp == 10 {
            306
        } else {
            337
        })
        &&& doy - start < (if mp == 1 || mp == 3 || mp == 6 || mp == 8 {
            30u32
        } else {
            31
        })
    }) by (bit_vector)
        requires
            doy <= 365,
    ;
}

/// Leap years repeat every 400 years.
proof fn lemma_leap_period(e: int, t: int)
    ensures
        is_leap_year(400 * e + t) == is_leap_year(t),
{
    lemma_mod_multiples_vanish(100 * e, t, 4);
    lemma_mod_multiples_vanish(4 * e, t, 100);
    lemma_mod_multiples_vanish(e, t, 400);
    assert(4 * (100 * e) == 400 * e);
    assert(100 * (4 * e) == 400 * e);
}

/// The days from 0000-03-01 to the first of March of year `400 e + t`.
proof fn lemma_march_start(e: int, t: int)
    requires
        0 <= t <= 399,
    ensures
        days_before_year(400 * e + t) + 59 + (if is_leap_year(400 * e + t) { 1int } else { 0 }) - 60
            == 146097 * e + 365 * t + t / 4 - t / 100,
{
    let y = 400 * e + t;
    lemma_hoist_over_denominator(t + 3, 100 * e, 4);
    lemma_hoist_over_denominator(t + 99, 4 * e, 100);
    lemma_hoist_over_denominator(t + 399, e, 400);
    lemma_hoist_over_denominator(t + 4, 100 * e, 4);
    lemma_hoist_over_denominator(t + 100, 4 * e, 100);
    lemma_hoist_over_denominator(t + 400, e, 400);
    assert(100 * e * 4 == 400 * e) by (nonlinear_arith);
    assert(4 * e * 100 == 400 * e) by (nonlinear_arith);
    assert(e * 400 == 400 * e) by (nonlinear_arith);
    lemma_leap_period(e, t);
    // the leap years in [0, t] for t < 400
    assert((t + 3) / 4 - (t + 99) / 100 + (t + 399) / 400 + (if is_leap_year(t) { 1int } else { 0 })
        == t / 4 - t / 100 + 1) by (nonlinear_arith)
        requires
            0 <= t <= 399,
    ;
}

/// The first day of month `mp` of a March-based year (March is 0).
spec fn march_month_start(mp: int) -> int {
    if mp == 0 {
        0
    } else if mp == 1 {
        31
    } else if mp == 2 {
        61
    } else if mp == 3 {
        92
    } else if mp == 4 {
        122
    } else if mp == 5 {
        153
    } else if mp == 6 {
        184
    } else if mp == 7 {
        214
    } else if mp == 8 {
        245
    } else if mp == 9 {
        275
    } else if mp == 10 {
        306
    } else {
        337
    }
}

/// Day `doy` of March-based year `yoe` of era `era` (day `doe` of the era) is
/// the date `(y, m, d)`, `era * 146097 + doe - 719468` days after 1970-01-01.
#[verifier::rlimit(30)]
proof fn lemma_civil_date(era: int, doe: int, yoe: int, doy: int, mp: int, d: int, m: int, y: int)
    requires
        0 <= doe < 146097,
        0 <= yoe <= 399,
        doy == doe - (365 * yoe + yoe / 4 - yoe / 100),
        0 <= doy <= 365,
        doy == 365 ==> is_leap_year(yoe + 1),
        0 <= mp <= 11,
        march_month_start(mp) <= doy,
        doy - march_month_start(mp) < (if mp == 1 || mp == 3 || mp == 6 || mp == 8 {
            30int
        } else {
            31
        }),
        d == doy - march_month_start(mp) + 1,
        m == (if mp < 10 { mp + 3 } else { mp - 9 }),
        y == 400 * era + yoe + (if m <= 2 { 1int } else { 0 }),
    ensures
        valid_date(y, m, d),
        days_since_epoch(y, m, d) == era * 146097 + doe - 719468,
{
    lemma_march_start(era, yoe);
    lemma_leap_period(era, yoe + 1);
    assert(400 * era + (yoe + 1) == 400 * era + yoe + 1);
    assert(era * 146097 == 146097 * era) by (nonlinear_arith);
    assert(days_before_year(1970) == 719528);
    let yy = 400 * era + yoe;
    if m > 2 {
        assert(y == yy);
    } else {
        assert(y == yy + 1);
        lemma_next_year(yy);
    }
}

/// Adding `d` to `y` passes one more multiple of `d` than adding `d - 1`
/// exactly when `d` divides `y`.
proof fn lemma_div_step(y: int, d: int)
    requires
        d > 0,
    ensures
        (y + d) / d == (y + d - 1) / d + (if y % d == 0 { 1int } else { 0 }),
{
    let q = y / d;
    let r = y % d;
    vstd::arithmetic::div_mod::lemma_fundamental_div_mod(y, d);
    assert(q * d == d * q) by (nonlinear_arith);
    assert((q + 1) * d == q * d + d) by (nonlinear_arith);
    lemma_fundamental_div_mod_converse(y + d, d, q + 1, r);
    if r == 0 {
        lemma_fundamental_div_mod_converse(y + d - 1, d, q, d - 1);
    } else {
        lemma_fundamental_div_mod_converse(y + d - 1, d, q + 1, r - 1);
    }
}

/// A year has 365 days, and one more when it is a leap year.
proof fn lemma_next_year(yy: int)
    ensures
        days_before_year(yy + 1) == days_before_year(yy) + 365 + (if is_leap_year(yy) {
            1int
        } else {
            0
        }),
{
    lemma_div_step(yy, 4);
    lemma_div_step(yy, 100);
    lemma_div_step(yy, 400);
}

/// Days since 1970-01-01 to (year, month, day) of the proleptic Gregorian
/// calendar.
pub fn days_to_ymd(days: i64) -> (r: (i64, u32, u32))
    requires
        MIN_EPOCH_DAYS <= days <= MAX_EPOCH_DAYS,
    ensures
        valid_date(r.0 as int, r.1 as int, r.2 as int),
        days_since_epoch(r.0 as int, r.1 as int, r.2 as int) == days,
        days >= 0 ==> r.0 >= 0,
{
    let z: i64 = days + 719468;
    let era: i64 = if z >= 0 {
        z / 146097
    } else {
        -((146096 - z) / 146097)
    };
    proof {
        if z < 0 {
            let q = (146096 - z) / 146097;
            let r = (146096 - z) % 146097;
            assert(146096 - z == q * 146097 + r) by (nonlinear_arith)
                requires
                    q == (146096 - z) / 146097,
                    r == (146096 - z) % 146097,
            ;
            lemma_fundamental_div_mod_converse(z as int, 146097, -q, 146096 - r);
        }
        assert(z == era * 146097 + z % 146097) by (nonlinear_arith)
            requires
                era == z / 146097,
        ;
    }
    let doe: u32 = (z - era * 146097) as u32;
    proof {
        lemma_day_of_era(doe);
    }
    let yoe: u32 = (doe - doe / 1460 + doe / 36524 - doe / 146096) / 365;
    let y0: i64 = yoe as i64 + era * 400;
    let doy: u32 = doe - (365 * yoe + yoe / 4 - yoe / 100);
    proof {
        lemma_day_of_year(doy);
    }
    let mp: u32 = (5 * doy + 2) / 153;
    let d: u32 = doy - (153 * mp + 2) / 5 + 1;
    let m: u32 = if mp < 10 {
        mp + 3
    } else {
        mp - 9
    };
    let y: i64 = if m <= 2 {
        y0 + 1
    } else {
        y0
    };
    proof {
        if days >= 0 {
            assert(era >= 0) by (nonlinear_arith)
                requires
                    z >= 0,
                    era == z / 146097,
            ;
        }
        lemma_civil_date(
            era as int,
            doe as int,
            yoe as int,
            doy as int,
            mp as int,
            d as int,
            m as int,
            y as int,
        );
    }
    (y, m, d)
}

} // verus!


verus! {

// ---------------------------------------------------------------------------
// Plugin interface
// ---------------------------------------------------------------------------

/// Identity of a plugin.
pub struct PluginInfo {
    pub id: String,
    pub name: String,
    pub version: String,
    pub description: String,
}

/// A command a plugin offers to the command palette.
pub struct PluginCommand {
    pub id: String,
    pub label: String,
    pub shortcut: Option<String>,
}

/// What the editor does after a plugin command ran.
pub enum PluginAction {
    /// Nothing.
    NoAction,
    /// Show a message in the status bar.
    ShowMessage(String),
    /// Insert text at the cursor.
    InsertAtCursor(String),
}

/// The text an action inserts at the cursor, if it inserts one.
pub open spec fn inserted_text(a: PluginAction) -> Option<Seq<char>> {
    match a {
        PluginAction::InsertAtCursor(t) => Some(t@),
        _ => None,
    }
}

/// What a plugin command sees of the editor.
pub struct PluginContext<'a> {
    /// The text of the active document, if there is one.
    pub active_text: Option<&'a str>,
}

impl<'a> Default for PluginContext<'a> {
    fn default() -> (r: PluginContext<'a>)
        ensures
            r.active_text is None,
    {
        PluginContext { active_text: None }
    }
}

/// A plugin info record from its four texts.
fn plugin_info(id: &str, name: &str, version: &str, description: &str) -> (r: PluginInfo)
    ensures
        r.id@ == id@,
        r.name@ == name@,
        r.version@ == version@,
        r.description@ == description@,
{
    PluginInfo {
        id: id.to_string(),
        name: name.to_string(),
        version: version.to_string(),
        description: description.to_string(),
    }
}

/// A command without shortcut.
fn plugin_command(id: &str, label: &str) -> (r: PluginCommand)
    ensures
        r.id@ == id@,
        r.label@ == label@,
        r.shortcut is None,
{
    PluginCommand { id: id.to_string(), label: label.to_string(), shortcut: None }
}

// ---------------------------------------------------------------------------
// Word counter
// ---------------------------------------------------------------------------

/// The number of maximal runs of non-white-space characters in `s` (what
/// `str::split_whitespace` yields).
pub open spec fn word_count(s: Seq<char>) -> nat
    decreases s.len(),
{
    if s.len() == 0 {
        0
    } else {
        let starts = !is_ws(s.last()) && (s.len() == 1 || is_ws(s[s.len() - 2]));
        word_count(s.drop_last()) + if starts {
            1nat
        } else {
            0
        }
    }
}

proof fn lemma_word_count_bound(s: Seq<char>)
    ensures
        word_count(s) <= s.len(),
    decreases s.len(),
{
    if s.len() > 0 {
        lemma_word_count_bound(s.drop_last());
    }
}

/// The message the word counter shows for a text.
pub open spec fn count_message(words: nat, chars: nat, lines: nat) -> Seq<char> {
    "Words: "@ + decimal(words) + "  |  Characters: "@ + decimal(chars) + "  |  Lines: "@ + decimal(
        lines,
    )
}

/// The number of lines the word counter reports: that of `str::lines`, at
/// least one.
pub open spec fn reported_lines(s: Seq<char>) -> nat {
    if lines_of(s).len() == 0 {
        1
    } else {
        lines_of(s).len()
    }
}

/// Plugin that counts words in the active document.
pub struct WordCounterPlugin {
    word_count: usize,
}

impl WordCounterPlugin {
    /// The word count of the last document counted.
    pub closed spec fn last_count(&self) -> nat {
        self.word_count as nat
    }

    pub fn new() -> (r: WordCounterPlugin)
        ensures
            r.last_count() == 0,
    {
        WordCounterPlugin { word_count: 0 }
    }

    /// The number of white-space separated words of `text`.
    pub fn count_words(text: &str) -> (r: usize)
        ensures
            r == word_count(text@),
    {
        let cs = chars_of(text);
        let n = cs.len();
        let mut count: usize = 0;
        assert(cs@.take(0) =~= Seq::<char>::empty());
        for i in 0..n
            invariant
                n == cs@.len(),
                cs@ == text@,
                count == word_count(cs@.take(i as int)),
        {
            let ghost tk = cs@.take(i + 1);
            proof {
                assert(tk.drop_last() =~= cs@.take(i as int));
                lemma_word_count_bound(cs@.take(i as int));
            }
            let c = cs[i];
            if !is_whitespace(c) && (i == 0 || is_whitespace(cs[i - 1])) {
                count = count + 1;
            }
        }
        assert(cs@.take(n as int) =~= cs@);
        count
    }

    pub fn info(&self) -> (r: PluginInfo)
        ensures
            r.id@ == "builtin.word_counter"@,
            r.name@ == "Word Counter"@,
            r.version@ == "1.0.0"@,
            r.description@ == "Counts words in the active document"@,
    {
        plugin_info(
            "builtin.word_counter",
            "Word Counter",
            "1.0.0",
            "Counts words in the active document",
        )
    }

    pub fn commands(&self) -> (r: Vec<PluginCommand>)
        ensures
            r@.len() == 1,
            r@[0].id@ == "builtin.word_counter.show_count"@,
            r@[0].label@ == "Word Counter: Show Word Count"@,
            r@[0].shortcut is None,
    {
        vec![plugin_command("builtin.word_counter.show_count", "Word Counter: Show Word Count")]
    }

    /// Runs `show_count`: counts the words, characters and lines of the
    /// active document and shows them; other commands do nothing.
    pub fn execute_command(&mut self, command_id: &str, ctx: &PluginContext) -> (r: PluginAction)
        ensures
            command_id@ != "builtin.word_counter.show_count"@ ==> r is NoAction
                && final(self).last_count() == old(self).last_count(),
            command_id@ == "builtin.word_counter.show_count"@ ==> match ctx.active_text {
                Some(text) => r matches PluginAction::ShowMessage(m) && m@ == count_message(
                    word_count(text@),
                    text@.len(),
                    reported_lines(text@),
                ) && final(self).last_count() == word_count(text@),
                None => r matches PluginAction::ShowMessage(m) && m@ == "No active document"@
                    && final(self).last_count() == old(self).last_count(),
            },
    {
        if str_eq(command_id, "builtin.word_counter.show_count") {
            match ctx.active_text {
                Some(text) => {
                    self.word_count = Self::count_words(text);
                    let cs = chars_of(text);
                    let char_count = cs.len();
                    let lines = lines_chars(cs.as_slice());
                    let line_count = if lines.len() >= 1 {
                        lines.len()
                    } else {
                        1
                    };
                    proof {
                        assert(parts_view(lines@).len() == lines@.len());
                    }
                    let mut msg = String::new();
                    push_all(&mut msg, "Words: ");
                    push_decimal(&mut msg, self.word_count as u64, 0);
                    push_all(&mut msg, "  |  Characters: ");
                    push_decimal(&mut msg, char_count as u64, 0);
                    push_all(&mut msg, "  |  Lines: ");
                    push_decimal(&mut msg, line_count as u64, 0);
                    proof {
                        assert(msg@ =~= count_message(
                            word_count(text@),
                            text@.len(),
                            reported_lines(text@),
                        ));
                    }
                    PluginAction::ShowMessage(msg)
                },
                None => PluginAction::ShowMessage("No active document".to_string()),
            }
        } else {
            PluginAction::NoAction
        }
    }
}

} // verus!

verus! {

// ---------------------------------------------------------------------------
// Lorem ipsum
// ---------------------------------------------------------------------------

/// The sentence `insert_sentence` inserts.
pub open spec fn lorem_short() -> Seq<char> {
    "Lorem ipsum dolor sit amet, consectetur adipiscing elit."@
}

/// The paragraph `insert_paragraph` inserts.
pub open spec fn lorem_paragraph() -> Seq<char> {
    "Lorem ipsum dolor sit amet, consectetur adipiscing elit. \
Sed do eiusmod tempor incididunt ut labore et dolore magna aliqua. Ut enim ad minim veniam, \
quis nostrud exercitation ullamco laboris nisi ut aliquip ex ea commodo consequat. Duis aute \
irure dolor in reprehenderit in voluptate velit esse cillum dolore eu fugiat nulla pariatur. \
Excepteur sint occaecat cupidatat non proident, sunt in culpa qui officia deserunt mollit \
anim id est laborum."@
}

/// Plugin that inserts lorem ipsum placeholder text at the cursor.
pub struct LoremIpsumPlugin;

impl LoremIpsumPlugin {
    pub fn new() -> (r: LoremIpsumPlugin)
        ensures
            r == LoremIpsumPlugin,
    {
        LoremIpsumPlugin
    }

    pub fn info(&self) -> (r: PluginInfo)
        ensures
            r.id@ == "builtin.lorem_ipsum"@,
            r.name@ == "Lorem Ipsum"@,
            r.version@ == "1.0.0"@,
            r.description@ == "Insert lorem ipsum placeholder text"@,
    {
        plugin_info(
            "builtin.lorem_ipsum",
            "Lorem Ipsum",
            "1.0.0",
            "Insert lorem ipsum placeholder text",
        )
    }

    pub fn commands(&self) -> (r: Vec<PluginCommand>)
        ensures
            r@.len() == 2,
            r@[0].id@ == "builtin.lorem_ipsum.insert_sentence"@,
            r@[0].label@ == "Lorem Ipsum: Insert Sentence"@,
            r@[0].shortcut is None,
            r@[1].id@ == "builtin.lorem_ipsum.insert_paragraph"@,
            r@[1].label@ == "Lorem Ipsum: Insert Paragraph"@,
            r@[1].shortcut is None,
    {
        vec![
            plugin_command("builtin.lorem_ipsum.insert_sentence", "Lorem Ipsum: Insert Sentence"),
            plugin_command("builtin.lorem_ipsum.insert_paragraph", "Lorem Ipsum: Insert Paragraph"),
        ]
    }

    /// Inserts the sentence or the paragraph; other commands do nothing.
    pub fn execute_command(&mut self, command_id: &str, ctx: &PluginContext) -> (r: PluginAction)
        ensures
            command_id@ == "builtin.lorem_ipsum.insert_sentence"@ ==> inserted_text(r) == Some(
                lorem_short(),
            ),
            command_id@ == "builtin.lorem_ipsum.insert_paragraph"@ ==> inserted_text(r) == Some(
                lorem_paragraph(),
            ),
            command_id@ != "builtin.lorem_ipsum.insert_sentence"@ && command_id@
                != "builtin.lorem_ipsum.insert_paragraph"@ ==> r is NoAction,
    {
        proof {
            reveal_strlit("builtin.lorem_ipsum.insert_sentence");
            reveal_strlit("builtin.lorem_ipsum.insert_paragraph");
            assert("builtin.lorem_ipsum.insert_sentence"@.len() != "builtin.lorem_ipsum.insert_paragraph"@.len());
        }
        if str_eq(command_id, "builtin.lorem_ipsum.insert_sentence") {
            PluginAction::InsertAtCursor(
                "Lorem ipsum dolor sit amet, consectetur adipiscing elit.".to_string(),
            )
        } else if str_eq(command_id, "builtin.lorem_ipsum.insert_paragraph") {
            PluginAction::InsertAtCursor(
                "Lorem ipsum dolor sit amet, consectetur adipiscing elit. \
Sed do eiusmod tempor incididunt ut labore et dolore magna aliqua. Ut enim ad minim veniam, \
quis nostrud exercitation ullamco laboris nisi ut aliquip ex ea commodo consequat. Duis aute \
irure dolor in reprehenderit in voluptate velit esse cillum dolore eu fugiat nulla pariatur. \
Excepteur sint occaecat cupidatat non proident, sunt in culpa qui officia deserunt mollit \
anim id est laborum.".to_string(),
            )
        } else {
            PluginAction::NoAction
        }
    }
}

// ---------------------------------------------------------------------------
// Timestamp
// ---------------------------------------------------------------------------

/// The ISO 8601 text of date `(y, m, d)` at second `tod` of the day, in UTC.
pub open spec fn iso_text(y: int, m: int, d: int, tod: int) -> Seq<char> {
    zero_padded(decimal(y as nat), 4) + seq!['-'] + zero_padded(decimal(m as nat), 2) + seq!['-']
        + zero_padded(decimal(d as nat), 2) + seq!['T'] + zero_padded(
        decimal((tod / 3600) as nat),
        2,
    ) + seq![':'] + zero_padded(decimal(((tod % 3600) / 60) as nat), 2) + seq![':'] + zero_padded(
        decimal((tod % 60) as nat),
        2,
    ) + seq!['Z']
}

/// Whether `t` is the ISO 8601 text of the UTC time `secs` seconds after
/// 1970-01-01T00:00:00Z.
pub open spec fn is_iso_stamp(secs: u64, t: Seq<char>) -> bool {
    exists|y: int, m: int, d: int|
        valid_date(y, m, d) && days_since_epoch(y, m, d) == secs / 86400 && t == iso_text(
            y,
            m,
            d,
            (secs % 86400) as int,
        )
}

/// The ISO 8601 UTC time stamp (`YYYY-MM-DDTHH:MM:SSZ`) of `secs` seconds
/// after 1970-01-01T00:00:00Z.
pub fn iso_timestamp(secs: u64) -> (r: String)
    ensures
        is_iso_stamp(secs, r@),
{
    let days = secs / 86400;
    let tod = secs % 86400;
    let (y, m, d) = days_to_ymd(days as i64);
    let mut s = String::new();
    push_decimal(&mut s, y as u64, 4);
    push_char(&mut s, '-');
    push_decimal(&mut s, m as u64, 2);
    push_char(&mut s, '-');
    push_decimal(&mut s, d as u64, 2);
    push_char(&mut s, 'T');
    push_decimal(&mut s, tod / 3600, 2);
    push_char(&mut s, ':');
    push_decimal(&mut s, (tod % 3600) / 60, 2);
    push_char(&mut s, ':');
    push_decimal(&mut s, tod % 60, 2);
    push_char(&mut s, 'Z');
    assert(s@ =~= iso_text(y as int, m as int, d as int, tod as int));
    s
}

/// The text a timestamp command inserts, for the clock reading `now_secs`
/// (seconds since the Unix epoch): `insert_iso` gives the ISO 8601 UTC time,
/// `insert_unix` the seconds in decimal; other commands do nothing.
pub fn timestamp_action(command_id: &str, now_secs: u64) -> (r: PluginAction)
    ensures
        command_id@ == "builtin.timestamp.insert_iso"@ ==> inserted_text(r) is Some
            && is_iso_stamp(now_secs, inserted_text(r)->0),
        command_id@ == "builtin.timestamp.insert_unix"@ ==> inserted_text(r) == Some(
            decimal(now_secs as nat),
        ),
        command_id@ != "builtin.timestamp.insert_iso"@ && command_id@
            != "builtin.timestamp.insert_unix"@ ==> r is NoAction,
{
    proof {
        reveal_strlit("builtin.timestamp.insert_iso");
        reveal_strlit("builtin.timestamp.insert_unix");
        assert("builtin.timestamp.insert_iso"@.len() != "builtin.timestamp.insert_unix"@.len());
    }
    if str_eq(command_id, "builtin.timestamp.insert_iso") {
        PluginAction::InsertAtCursor(iso_timestamp(now_secs))
    } else if str_eq(command_id, "builtin.timestamp.insert_unix") {
        let mut s = String::new();
        push_decimal(&mut s, now_secs, 0);
        PluginAction::InsertAtCursor(s)
    } else {
        PluginAction::NoAction
    }
}

/// The system clock: whole seconds since the Unix epoch, 0 when the clock is
/// set before it (`SystemTime::elapsed` on `UNIX_EPOCH`). Nothing is stated of
/// the value: it is the time of the call.
#[verifier::external_body]
fn unix_time_secs() -> (r: u64) {
    std::time::UNIX_EPOCH.elapsed().map(|d| d.as_secs()).unwrap_or(0)
}

/// Plugin that inserts the current date and time.
pub struct TimestampPlugin;

impl TimestampPlugin {
    pub fn new() -> (r: TimestampPlugin)
        ensures
            r == TimestampPlugin,
    {
        TimestampPlugin
    }

    pub fn info(&self) -> (r: PluginInfo)
        ensures
            r.id@ == "builtin.timestamp"@,
            r.name@ == "Insert Timestamp"@,
            r.version@ == "1.0.0"@,
            r.description@ == "Insert current date/time at cursor"@,
    {
        plugin_info(
            "builtin.timestamp",
            "Insert Timestamp",
            "1.0.0",
            "Insert current date/time at cursor",
        )
    }

    pub fn commands(&self) -> (r: Vec<PluginCommand>)
        ensures
            r@.len() == 2,
            r@[0].id@ == "builtin.timestamp.insert_iso"@,
            r@[0].label@ == "Timestamp: Insert ISO 8601 Date/Time"@,
            r@[0].shortcut is None,
            r@[1].id@ == "builtin.timestamp.insert_unix"@,
            r@[1].label@ == "Timestamp: Insert Unix Timestamp"@,
            r@[1].shortcut is None,
    {
        vec![
            plugin_command("builtin.timestamp.insert_iso", "Timestamp: Insert ISO 8601 Date/Time"),
            plugin_command("builtin.timestamp.insert_unix", "Timestamp: Insert Unix Timestamp"),
        ]
    }

    /// Inserts the current time for the two timestamp commands (read from the
    /// system clock); other commands do nothing and do not read the clock.
    pub fn execute_command(&mut self, command_id: &str, ctx: &PluginContext) -> (r: PluginAction)
        ensures
            command_id@ == "builtin.timestamp.insert_iso"@ ==> inserted_text(r) is Some && exists|
                secs: u64,
            | #[trigger] is_iso_stamp(secs, inserted_text(r)->0),
            command_id@ == "builtin.timestamp.insert_unix"@ ==> exists|secs: u64|
                inserted_text(r) == Some(decimal(secs as nat)),
            command_id@ != "builtin.timestamp.insert_iso"@ && command_id@
                != "builtin.timestamp.insert_unix"@ ==> r is NoAction,
    {
        if str_eq(command_id, "builtin.timestamp.insert_iso") || str_eq(
            command_id,
            "builtin.timestamp.insert_unix",
        ) {
            let now = unix_time_secs();
            timestamp_action(command_id, now)
        } else {
            PluginAction::NoAction
        }
    }
}

} // verus!
