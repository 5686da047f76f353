//! Macro recording and playback.
//!
//! Records user actions (typed text, paste events, keyboard shortcuts) during a
//! recording session, keeps named macros, and converts macros to and from a
//! line-oriented, human-readable script format:
//!
//! ```text
//! type "hello"
//! paste "line1\nline2"
//! key ctrl+shift+S
//! ```

use vstd::prelude::*;
use crate::text::{lines_chars, lines_of, parts_view, split_on, lemma_split_on_len, lemma_lex_irreflexive, lemma_lex_total, lemma_lex_transitive, lex_less, lex_lt, chars_eq, chars_of, has_prefix, is_ws, lemma_trim_noop, slice_range, string_of, trim, trimmed};

verus! {

/// A single recordable action within a macro.
#[derive(Debug, Clone)]
pub enum MacroAction {
    /// Text typed by the user.
    InsertText(String),
    /// Text pasted from the clipboard.
    Paste(String),
    /// A keyboard shortcut or navigation key press.
    KeyAction { key: String, ctrl: bool, shift: bool, alt: bool },
}

/// The abstract value of a [`MacroAction`]: its strings as character sequences.
pub enum ActionView {
    InsertText(Seq<char>),
    Paste(Seq<char>),
    KeyAction { key: Seq<char>, ctrl: bool, shift: bool, alt: bool },
}

impl View for MacroAction {
    type V = ActionView;

    open spec fn view(&self) -> ActionView {
        match self {
            MacroAction::InsertText(t) => ActionView::InsertText(t@),
            MacroAction::Paste(t) => ActionView::Paste(t@),
            MacroAction::KeyAction { key, ctrl, shift, alt } => ActionView::KeyAction {
                key: key@,
                ctrl: *ctrl,
                shift: *shift,
                alt: *alt,
            },
        }
    }
}

/// The abstract values of a sequence of actions.
pub open spec fn actions_view(v: Seq<MacroAction>) -> Seq<ActionView> {
    v.map_values(|a: MacroAction| a@)
}

// ---------------------------------------------------------------------------
// Script format: specification
// ---------------------------------------------------------------------------

pub open spec fn type_word() -> Seq<char> {
    seq!['t', 'y', 'p', 'e', ' ']
}

pub open spec fn paste_word() -> Seq<char> {
    seq!['p', 'a', 's', 't', 'e', ' ']
}

pub open spec fn key_word() -> Seq<char> {
    seq!['k', 'e', 'y', ' ']
}

pub open spec fn ctrl_word() -> Seq<char> {
    seq!['c', 't', 'r', 'l']
}

pub open spec fn shift_word() -> Seq<char> {
    seq!['s', 'h', 'i', 'f', 't']
}

pub open spec fn alt_word() -> Seq<char> {
    seq!['a', 'l', 't']
}

/// How one character is written inside a quoted script string. Backslashes
/// and double quotes are escaped; newlines only when `newline` is set (paste
/// actions).
pub open spec fn escape_char(c: char, newline: bool) -> Seq<char> {
    if c == '\\' {
        seq!['\\', '\\']
    } else if c == '"' {
        seq!['\\', '"']
    } else if newline && c == '\n' {
        seq!['\\', 'n']
    } else {
        seq![c]
    }
}

/// The escaped form of `s`.
pub open spec fn escape(s: Seq<char>, newline: bool) -> Seq<char>
    decreases s.len(),
{
    if s.len() == 0 {
        Seq::empty()
    } else {
        escape(s.drop_last(), newline) + escape_char(s.last(), newline)
    }
}

/// `"` followed by the escaped text and a closing `"`.
pub open spec fn quoted(s: Seq<char>, newline: bool) -> Seq<char> {
    seq!['"'] + escape(s, newline) + seq!['"']
}

/// `parts` joined with `sep` between consecutive parts.
pub open spec fn join_with(parts: Seq<Seq<char>>, sep: char) -> Seq<char>
    decreases parts.len(),
{
    if parts.len() == 0 {
        Seq::empty()
    } else if parts.len() == 1 {
        parts[0]
    } else {
        join_with(parts.drop_last(), sep).push(sep) + parts.last()
    }
}

/// The parts of a key line: the enabled modifier names, then the key.
pub open spec fn key_parts(key: Seq<char>, ctrl: bool, shift: bool, alt: bool) -> Seq<Seq<char>> {
    (if ctrl { seq![ctrl_word()] } else { Seq::empty() }) + (if shift {
        seq![shift_word()]
    } else {
        Seq::empty()
    }) + (if alt { seq![alt_word()] } else { Seq::empty() }) + seq![key]
}

/// The script line of an action.
pub open spec fn script_line(a: ActionView) -> Seq<char> {
    match a {
        ActionView::InsertText(t) => type_word() + quoted(t, false),
        ActionView::Paste(t) => paste_word() + quoted(t, true),
        ActionView::KeyAction { key, ctrl, shift, alt } => key_word() + join_with(
            key_parts(key, ctrl, shift, alt),
            '+',
        ),
    }
}

/// The text after decoding the escapes `\\`, `\"` and `\n`. A backslash before
/// any other character is kept together with that character; a trailing lone
/// backslash is kept.
pub open spec fn unescape(s: Seq<char>) -> Seq<char>
    decreases s.len(),
{
    if s.len() == 0 {
        Seq::empty()
    } else if s[0] == '\\' {
        if s.len() == 1 {
            seq!['\\']
        } else if s[1] == '\\' {
            seq!['\\'] + unescape(s.skip(2))
        } else if s[1] == '"' {
            seq!['"'] + unescape(s.skip(2))
        } else if s[1] == 'n' {
            seq!['\n'] + unescape(s.skip(2))
        } else {
            seq!['\\', s[1]] + unescape(s.skip(2))
        }
    } else {
        seq![s[0]] + unescape(s.drop_first())
    }
}

/// The string a quoted script argument denotes: after trimming, it must start
/// and end with `"` and hold at least these two characters.
pub open spec fn parse_quoted(s: Seq<char>) -> Option<Seq<char>> {
    let t = trim(s);
    if t.len() >= 2 && t[0] == '"' && t.last() == '"' {
        Some(unescape(t.subrange(1, t.len() - 1)))
    } else {
        None
    }
}

/// Whether `w` is one of the parts before the last one.
pub open spec fn has_word(parts: Seq<Seq<char>>, w: Seq<char>) -> bool {
    exists|j: int| 0 <= j < parts.len() - 1 && parts[j] == w
}

/// The key action denoted by the text after `key `.
pub open spec fn parse_key(rest: Seq<char>) -> ActionView {
    let parts = split_on(trim(rest), '+');
    ActionView::KeyAction {
        key: parts.last(),
        ctrl: has_word(parts, ctrl_word()),
        shift: has_word(parts, shift_word()),
        alt: has_word(parts, alt_word()),
    }
}

/// The action a script line denotes, if any. Blank lines, comment lines
/// (starting with `#`) and lines of unknown form denote none.
pub open spec fn parse_line(line: Seq<char>) -> Option<ActionView> {
    let l = trim(line);
    if l.len() == 0 || l[0] == '#' {
        None
    } else if type_word().is_prefix_of(l) {
        match parse_quoted(l.skip(5)) {
            Some(t) => Some(ActionView::InsertText(t)),
            None => None,
        }
    } else if paste_word().is_prefix_of(l) {
        match parse_quoted(l.skip(6)) {
            Some(t) => Some(ActionView::Paste(t)),
            None => None,
        }
    } else if key_word().is_prefix_of(l) {
        Some(parse_key(l.skip(4)))
    } else {
        None
    }
}

/// The script of a sequence of actions: one line per action, joined by `\n`.
pub open spec fn script_text(actions: Seq<ActionView>) -> Seq<char> {
    join_with(actions.map_values(|a: ActionView| script_line(a)), '\n')
}

/// The actions a script denotes: the actions of its lines, in order, with the
/// lines that denote none skipped.
pub open spec fn parse_script(s: Seq<char>) -> Seq<ActionView> {
    lines_of(s).filter_map(|l: Seq<char>| parse_line(l))
}

// ---------------------------------------------------------------------------
// Script format: lemmas
// ---------------------------------------------------------------------------

pub proof fn lemma_escape_take(s: Seq<char>, i: int, newline: bool)
    requires
        0 <= i < s.len(),
    ensures
        escape(s.take(i + 1), newline) == escape(s.take(i), newline) + escape_char(s[i], newline),
{
    assert(s.take(i + 1).drop_last() =~= s.take(i));
}

pub proof fn lemma_escape_append(a: Seq<char>, b: Seq<char>, newline: bool)
    ensures
        escape(a + b, newline) == escape(a, newline) + escape(b, newline),
    decreases b.len(),
{
    if b.len() == 0 {
        assert(a + b =~= a);
        assert(escape(a, newline) + escape(b, newline) =~= escape(a, newline));
    } else {
        assert((a + b).drop_last() =~= a + b.drop_last());
        lemma_escape_append(a, b.drop_last(), newline);
        assert((a + b).last() == b.last());
        assert(escape(a, newline) + escape(b, newline) =~= escape(a, newline) + escape(
            b.drop_last(),
            newline,
        ) + escape_char(b.last(), newline));
    }
}

/// Unescaping undoes escaping.
pub proof fn lemma_unescape_escape(s: Seq<char>, newline: bool)
    ensures
        unescape(escape(s, newline)) == s,
    decreases s.len(),
{
    if s.len() > 0 {
        let c = s[0];
        let rest = s.drop_first();
        assert(s =~= seq![c] + rest);
        lemma_escape_append(seq![c], rest, newline);
        let sc = seq![c];
        assert(sc.drop_last() =~= Seq::<char>::empty());
        assert(sc.last() == c);
        assert(escape(Seq::<char>::empty(), newline) =~= Seq::<char>::empty());
        assert(Seq::<char>::empty() + escape_char(c, newline) =~= escape_char(c, newline));
        assert(escape(sc, newline) =~= escape_char(c, newline));
        lemma_unescape_escape(rest, newline);
        let e = escape(s, newline);
        let er = escape(rest, newline);
        if c == '\\' || c == '"' || (newline && c == '\n') {
            assert(e.skip(2) =~= er);
        } else {
            assert(e.drop_first() =~= er);
        }
    }
}

/// Appending characters without a separator extends the last part.
pub proof fn lemma_split_append(a: Seq<char>, b: Seq<char>, sep: char)
    requires
        !b.contains(sep),
    ensures
        split_on(a + b, sep) == split_on(a, sep).update(
            split_on(a, sep).len() - 1,
            split_on(a, sep).last() + b,
        ),
    decreases b.len(),
{
    lemma_split_on_len(a, sep);
    if b.len() == 0 {
        assert(a + b =~= a);
        assert(split_on(a, sep).last() + b =~= split_on(a, sep).last());
        assert(split_on(a, sep).update(split_on(a, sep).len() - 1, split_on(a, sep).last())
            =~= split_on(a, sep));
    } else {
        let bd = b.drop_last();
        assert(!bd.contains(sep)) by {
            if bd.contains(sep) {
                let k = choose|k: int| 0 <= k < bd.len() && bd[k] == sep;
                assert(b[k] == sep);
            }
        }
        lemma_split_append(a, bd, sep);
        assert((a + b).drop_last() =~= a + bd);
        assert((a + b).last() == b.last());
        assert(b.last() != sep) by {
            assert(b[b.len() - 1] == b.last());
        }
        let p = split_on(a, sep);
        assert(p.last() + bd + seq![b.last()] =~= p.last() + b);
        lemma_split_on_len(a + bd, sep);
        let pp = split_on(a + bd, sep);
        assert(pp.len() == p.len());
        assert(pp.last() == p.last() + bd);
        assert(split_on(a + b, sep) == pp.update(pp.len() - 1, pp.last().push(b.last())));
        assert((p.last() + bd).push(b.last()) =~= p.last() + b);
        assert(split_on(a + b, sep) =~= p.update(p.len() - 1, p.last() + b));
    }
}

/// Splitting a joined sequence of separator-free parts gives the parts back.
pub proof fn lemma_split_join(parts: Seq<Seq<char>>, sep: char)
    requires
        parts.len() >= 1,
        forall|i: int| 0 <= i < parts.len() ==> !(#[trigger] parts[i]).contains(sep),
    ensures
        split_on(join_with(parts, sep), sep) == parts,
    decreases parts.len(),
{
    if parts.len() == 1 {
        lemma_split_append(Seq::empty(), parts[0], sep);
        assert(Seq::<char>::empty() + parts[0] =~= parts[0]);
        assert(split_on(Seq::<char>::empty(), sep) =~= seq![Seq::<char>::empty()]);
        assert(Seq::<char>::empty() + parts[0] =~= parts[0]);
        assert(seq![Seq::<char>::empty()].update(0, Seq::<char>::empty() + parts[0]) =~= parts);
    } else {
        let pre = parts.drop_last();
        assert forall|i: int| 0 <= i < pre.len() implies !(#[trigger] pre[i]).contains(sep) by {
            assert(pre[i] == parts[i]);
        }
        lemma_split_join(pre, sep);
        let j = join_with(pre, sep);
        let jp = j.push(sep);
        assert(jp.drop_last() =~= j);
        assert(split_on(jp, sep) == split_on(j, sep).push(Seq::empty()));
        assert(!parts.last().contains(sep)) by {
            assert(parts[parts.len() - 1] == parts.last());
        }
        lemma_split_append(jp, parts.last(), sep);
        assert(Seq::<char>::empty() + parts.last() =~= parts.last());
        assert(pre.push(Seq::empty()).update(pre.len() as int, Seq::<char>::empty() + parts.last())
            =~= parts);
    }
}

/// Conditions under which a key action's script line reads back as the same
/// action: the key is not empty, does not begin or end with white space, and
/// holds no `+`.
pub open spec fn key_roundtrips(key: Seq<char>) -> bool {
    &&& key.len() > 0
    &&& !is_ws(key[0])
    &&& !is_ws(key.last())
    &&& !key.contains('+')
}

/// Whether the script line of `a` reads back as `a`.
pub open spec fn action_roundtrips(a: ActionView) -> bool {
    match a {
        ActionView::KeyAction { key, .. } => key_roundtrips(key),
        _ => true,
    }
}

proof fn lemma_quoted_parses(t: Seq<char>, newline: bool)
    ensures
        parse_quoted(quoted(t, newline)) == Some(t),
{
    let q = quoted(t, newline);
    let e = escape(t, newline);
    assert(q[0] == '"');
    assert(q.last() == '"');
    assert(!is_ws('"'));
    lemma_trim_noop(q);
    assert(q.subrange(1, q.len() - 1) =~= e);
    lemma_unescape_escape(t, newline);
}

/// A script line reads back as the action it was written from.
pub proof fn lemma_script_line_roundtrip(a: ActionView)
    requires
        action_roundtrips(a),
    ensures
        parse_line(script_line(a)) == Some(a),
{
    let l = script_line(a);
    match a {
        ActionView::InsertText(t) => {
            let q = quoted(t, false);
            assert(l == type_word() + q);
            assert(l[0] == 't');
            assert(l.last() == q.last());
            assert(!is_ws('t') && !is_ws('"'));
            lemma_trim_noop(l);
            assert(type_word().is_prefix_of(l));
            assert(l.skip(5) =~= q);
            lemma_quoted_parses(t, false);
        },
        ActionView::Paste(t) => {
            let q = quoted(t, true);
            assert(l[0] == 'p');
            assert(l.last() == q.last());
            assert(!is_ws('p') && !is_ws('"'));
            lemma_trim_noop(l);
            assert(!type_word().is_prefix_of(l)) by {
                assert(l[0] != type_word()[0]);
            }
            assert(paste_word().is_prefix_of(l));
            assert(l.skip(6) =~= q);
            lemma_quoted_parses(t, true);
        },
        ActionView::KeyAction { key, ctrl, shift, alt } => {
            let parts = key_parts(key, ctrl, shift, alt);
            let mods = parts.drop_last();
            assert(parts.last() == key);
            assert forall|i: int| 0 <= i < parts.len() implies !(#[trigger] parts[i]).contains(
                '+',
            ) by {
                if i < parts.len() - 1 {
                    let w = parts[i];
                    assert(w == ctrl_word() || w == shift_word() || w == alt_word());
                    if w.contains('+') {
                        let k = choose|k: int| 0 <= k < w.len() && w[k] == '+';
                        assert(w[k] != '+');
                    }
                }
            }
            let j = join_with(parts, '+');
            lemma_join_first_last(parts, '+');
            assert(!is_ws('c') && !is_ws('s') && !is_ws('a') && !is_ws('k'));
            assert(j.len() > 0);
            assert(!is_ws(j[0]));
            assert(!is_ws(j.last()));
            assert(l == key_word() + j);
            assert(l[0] == 'k');
            assert(l.last() == j.last());
            lemma_trim_noop(l);
            lemma_trim_noop(j);
            assert(!type_word().is_prefix_of(l)) by {
                assert(l[0] != type_word()[0]);
            }
            assert(!paste_word().is_prefix_of(l)) by {
                assert(l[0] != paste_word()[0]);
            }
            assert(key_word().is_prefix_of(l));
            assert(l.skip(4) =~= j);
            lemma_split_join(parts, '+');
            assert(has_word(parts, ctrl_word()) == ctrl) by {
                if ctrl {
                    assert(parts[0] == ctrl_word());
                } else {
                    if has_word(parts, ctrl_word()) {
                        let k = choose|k: int| 0 <= k < parts.len() - 1 && parts[k] == ctrl_word();
                        assert(parts[k][0] != ctrl_word()[0] || parts[k].len() != ctrl_word().len());
                    }
                }
            }
            assert(has_word(parts, shift_word()) == shift) by {
                if shift {
                    let k = if ctrl { 1int } else { 0int };
                    assert(parts[k] == shift_word());
                } else {
                    if has_word(parts, shift_word()) {
                        let k = choose|k: int| 0 <= k < parts.len() - 1 && parts[k] == shift_word();
                        assert(parts[k][0] != shift_word()[0] || parts[k].len()
                            != shift_word().len());
                    }
                }
            }
            assert(has_word(parts, alt_word()) == alt) by {
                if alt {
                    let k = parts.len() - 2;
                    assert(parts[k] == alt_word());
                } else {
                    if has_word(parts, alt_word()) {
                        let k = choose|k: int| 0 <= k < parts.len() - 1 && parts[k] == alt_word();
                        assert(parts[k][0] != alt_word()[0] || parts[k].len() != alt_word().len());
                    }
                }
            }
        },
    }
}

/// The first character of a join is that of the first part, and the last that
/// of the last part, when those parts are not empty.
pub proof fn lemma_join_first_last(parts: Seq<Seq<char>>, sep: char)
    requires
        parts.len() >= 1,
        parts[0].len() > 0,
        parts.last().len() > 0,
    ensures
        join_with(parts, sep).len() > 0,
        join_with(parts, sep)[0] == parts[0][0],
        join_with(parts, sep).last() == parts.last().last(),
    decreases parts.len(),
{
    if parts.len() > 1 {
        let pre = parts.drop_last();
        if pre.len() > 1 {
            lemma_join_len_pos(pre, sep);
        }
        lemma_join_first(pre, sep);
    }
}

proof fn lemma_join_len_pos(parts: Seq<Seq<char>>, sep: char)
    requires
        parts.len() > 1,
    ensures
        join_with(parts, sep).len() > 0,
{
}

proof fn lemma_join_first(parts: Seq<Seq<char>>, sep: char)
    requires
        parts.len() >= 1,
        parts[0].len() > 0,
    ensures
        join_with(parts, sep).len() > 0,
        join_with(parts, sep)[0] == parts[0][0],
    decreases parts.len(),
{
    if parts.len() > 1 {
        lemma_join_first(parts.drop_last(), sep);
    }
}

/// Conditions under which an action survives a trip through a whole script:
/// its line reads back as the action and holds no line break (typed text is
/// written without escaping line breaks).
pub open spec fn script_safe(a: ActionView) -> bool {
    match a {
        ActionView::InsertText(t) => !t.contains('\n'),
        ActionView::Paste(_) => true,
        ActionView::KeyAction { key, .. } => key_roundtrips(key) && !key.contains('\n'),
    }
}

proof fn lemma_escape_no_newline(t: Seq<char>, newline: bool)
    requires
        newline || !t.contains('\n'),
    ensures
        !escape(t, newline).contains('\n'),
    decreases t.len(),
{
    if t.len() > 0 {
        assert(!t.drop_last().contains('\n') || newline) by {
            if t.drop_last().contains('\n') {
                let k = choose|k: int| 0 <= k < t.drop_last().len() && t.drop_last()[k] == '\n';
                assert(t[k] == '\n');
            }
        }
        lemma_escape_no_newline(t.drop_last(), newline);
        assert(newline || t.last() != '\n') by {
            if !newline {
                assert(t[t.len() - 1] == t.last());
            }
        }
        let a = escape(t.drop_last(), newline);
        let b = escape_char(t.last(), newline);
        assert(!b.contains('\n'));
        if (a + b).contains('\n') {
            let k = choose|k: int| 0 <= k < (a + b).len() && (a + b)[k] == '\n';
            if k < a.len() {
                assert(a[k] == '\n');
            } else {
                assert(b[k - a.len()] == '\n');
            }
        }
    }
}

proof fn lemma_join_excludes(parts: Seq<Seq<char>>, sep: char, c: char)
    requires
        sep != c,
        forall|i: int| 0 <= i < parts.len() ==> !(#[trigger] parts[i]).contains(c),
    ensures
        !join_with(parts, sep).contains(c),
    decreases parts.len(),
{
    if parts.len() > 1 {
        let pre = parts.drop_last();
        assert forall|i: int| 0 <= i < pre.len() implies !(#[trigger] pre[i]).contains(c) by {
            assert(pre[i] == parts[i]);
        }
        lemma_join_excludes(pre, sep, c);
        let a = join_with(pre, sep).push(sep);
        let b = parts.last();
        assert(!b.contains(c)) by {
            assert(parts[parts.len() - 1] == b);
        }
        if (a + b).contains(c) {
            let k = choose|k: int| 0 <= k < (a + b).len() && (a + b)[k] == c;
            if k < a.len() - 1 {
                assert(join_with(pre, sep)[k] == c);
            } else if k == a.len() - 1 {
                assert(a[k] == sep);
            } else {
                assert(b[k - a.len()] == c);
            }
        }
    } else if parts.len() == 1 {
        assert(!parts[0].contains(c));
    }
}

proof fn lemma_word_excludes(w: Seq<char>, c: char)
    requires
        w == ctrl_word() || w == shift_word() || w == alt_word(),
        c == '\n' || c == '+',
    ensures
        !w.contains(c),
{
    if w.contains(c) {
        let k = choose|k: int| 0 <= k < w.len() && w[k] == c;
        assert(w[k] != c);
    }
}

/// Facts about one script line that the script-level reading needs.
proof fn lemma_script_line_shape(a: ActionView)
    requires
        script_safe(a),
    ensures
        script_line(a).len() > 0,
        !script_line(a).contains('\n'),
        script_line(a).last() != '\r',
        parse_line(script_line(a)) == Some(a),
{
    lemma_script_line_roundtrip(a);
    let l = script_line(a);
    match a {
        ActionView::InsertText(t) => {
            lemma_escape_no_newline(t, false);
            let e = escape(t, false);
            assert(l =~= type_word() + seq!['"'] + e + seq!['"']);
            if l.contains('\n') {
                let k = choose|k: int| 0 <= k < l.len() && l[k] == '\n';
                if 6 <= k < 6 + e.len() {
                    assert(e[k - 6] == '\n');
                }
            }
        },
        ActionView::Paste(t) => {
            lemma_escape_no_newline(t, true);
            let e = escape(t, true);
            assert(l =~= paste_word() + seq!['"'] + e + seq!['"']);
            if l.contains('\n') {
                let k = choose|k: int| 0 <= k < l.len() && l[k] == '\n';
                if 7 <= k < 7 + e.len() {
                    assert(e[k - 7] == '\n');
                }
            }
        },
        ActionView::KeyAction { key, ctrl, shift, alt } => {
            let parts = key_parts(key, ctrl, shift, alt);
            assert forall|i: int| 0 <= i < parts.len() implies !(#[trigger] parts[i]).contains(
                '\n',
            ) by {
                if i < parts.len() - 1 {
                    lemma_word_excludes(parts[i], '\n');
                }
            }
            lemma_join_excludes(parts, '+', '\n');
            lemma_join_first_last(parts, '+');
            let j = join_with(parts, '+');
            assert(l =~= key_word() + j);
            assert(l.last() == key.last());
            assert(is_ws('\r'));
            if l.contains('\n') {
                let k = choose|k: int| 0 <= k < l.len() && l[k] == '\n';
                if k >= 4 {
                    assert(j[k - 4] == '\n');
                }
            }
        },
    }
}

proof fn lemma_parse_lines(actions: Seq<ActionView>)
    requires
        forall|i: int| 0 <= i < actions.len() ==> script_safe(#[trigger] actions[i]),
    ensures
        actions.map_values(|a: ActionView| script_line(a)).filter_map(|l: Seq<char>| parse_line(l))
            == actions,
    decreases actions.len(),
{
    let ls = actions.map_values(|a: ActionView| script_line(a));
    if actions.len() > 0 {
        let pre = actions.drop_last();
        assert forall|i: int| 0 <= i < pre.len() implies script_safe(#[trigger] pre[i]) by {
            assert(pre[i] == actions[i]);
        }
        lemma_parse_lines(pre);
        assert(ls.drop_last() =~= pre.map_values(|a: ActionView| script_line(a)));
        assert(script_safe(actions[actions.len() - 1]));
        lemma_script_line_shape(actions.last());
        assert(ls.last() == script_line(actions.last()));
        assert(pre + seq![actions.last()] =~= actions);
    }
}

/// A script written from actions reads back as the same actions, provided
/// each action's line reads back as the action and holds no line break
/// (`script_safe`).
pub proof fn lemma_script_roundtrip(actions: Seq<ActionView>)
    requires
        forall|i: int| 0 <= i < actions.len() ==> script_safe(#[trigger] actions[i]),
    ensures
        parse_script(script_text(actions)) == actions,
{
    let ls = actions.map_values(|a: ActionView| script_line(a));
    let text = join_with(ls, '\n');
    assert forall|i: int| 0 <= i < ls.len() implies !(#[trigger] ls[i]).contains('\n') && ls[i].len()
        > 0 && ls[i].last() != '\r' by {
        assert(script_safe(actions[i]));
        lemma_script_line_shape(actions[i]);
    }
    lemma_parse_lines(actions);
    if ls.len() == 0 {
        assert(text =~= Seq::<char>::empty());
        assert(split_on(text, '\n') =~= seq![Seq::<char>::empty()]);
        assert(lines_of(text) =~= Seq::<Seq<char>>::empty());
        assert(ls =~= Seq::<Seq<char>>::empty());
    } else {
        lemma_split_join(ls, '\n');
        assert(lines_of(text) =~= ls);
    }
}

// ---------------------------------------------------------------------------
// Script format: executable code
// ---------------------------------------------------------------------------

/// Appends the escaped form of `t` to `out`.
fn push_escaped(out: &mut Vec<char>, t: &[char], newline: bool)
    ensures
        final(out)@ == old(out)@ + escape(t@, newline),
{
    let n = t.len();
    assert(t@.take(0) =~= Seq::<char>::empty());
    assert(old(out)@ + escape(Seq::<char>::empty(), newline) =~= old(out)@);
    for i in 0..n
        invariant
            n == t@.len(),
            out@ == old(out)@ + escape(t@.take(i as int), newline),
    {
        let c = t[i];
        proof {
            lemma_escape_take(t@, i as int, newline);
        }
        let ghost before = out@;
        if c == '\\' {
            out.push('\\');
            out.push('\\');
        } else if c == '"' {
            out.push('\\');
            out.push('"');
        } else if newline && c == '\n' {
            out.push('\\');
            out.push('n');
        } else {
            out.push(c);
        }
        assert(out@ =~= before + escape_char(c, newline));
    }
    assert(t@.take(n as int) =~= t@);
}

/// Appends the characters of `p` to `out`.
fn push_chars(out: &mut Vec<char>, p: &[char])
    ensures
        final(out)@ == old(out)@ + p@,
{
    let n = p.len();
    for i in 0..n
        invariant
            n == p@.len(),
            out@ == old(out)@ + p@.take(i as int),
    {
        out.push(p[i]);
        assert(p@.take(i + 1) =~= p@.take(i as int).push(p@[i as int]));
    }
    assert(p@.take(n as int) =~= p@);
}

/// `parts` joined with `sep`.
pub(crate) fn join_chars(parts: &Vec<Vec<char>>, sep: char) -> (r: Vec<char>)
    ensures
        r@ == join_with(parts_view(parts@), sep),
{
    let ghost pv = parts_view(parts@);
    let mut out: Vec<char> = Vec::new();
    let n = parts.len();
    assert(pv.take(0) =~= Seq::<Seq<char>>::empty());
    for i in 0..n
        invariant
            n == parts@.len(),
            pv == parts_view(parts@),
            out@ == join_with(pv.take(i as int), sep),
    {
        let ghost tk = pv.take(i + 1);
        assert(tk.drop_last() =~= pv.take(i as int));
        assert(tk.last() == parts@[i as int]@);
        if i > 0 {
            out.push(sep);
        }
        push_chars(&mut out, parts[i].as_slice());
        if i == 0 {
            assert(out@ =~= tk[0]);
        }
    }
    assert(pv.take(n as int) =~= pv);
    out
}

/// The characters `w`, as a vector.
fn word(w: &str) -> (r: Vec<char>)
    ensures
        r@ == w@,
{
    chars_of(w)
}

fn ctrl_chars() -> (r: Vec<char>)
    ensures
        r@ == ctrl_word(),
{
    let r = vec!['c', 't', 'r', 'l'];
    assert(r@ =~= ctrl_word());
    r
}

fn shift_chars() -> (r: Vec<char>)
    ensures
        r@ == shift_word(),
{
    let r = vec!['s', 'h', 'i', 'f', 't'];
    assert(r@ =~= shift_word());
    r
}

fn alt_chars() -> (r: Vec<char>)
    ensures
        r@ == alt_word(),
{
    let r = vec!['a', 'l', 't'];
    assert(r@ =~= alt_word());
    r
}

impl MacroAction {
    /// A copy of this action.
    pub fn duplicate(&self) -> (r: MacroAction)
        ensures
            r@ == self@,
    {
        match self {
            MacroAction::InsertText(t) => MacroAction::InsertText(t.clone()),
            MacroAction::Paste(t) => MacroAction::Paste(t.clone()),
            MacroAction::KeyAction { key, ctrl, shift, alt } => MacroAction::KeyAction {
                key: key.clone(),
                ctrl: *ctrl,
                shift: *shift,
                alt: *alt,
            },
        }
    }

    /// The characters of this action's script line.
    fn script_line_chars(&self) -> (r: Vec<char>)
        ensures
            r@ == script_line(self@),
    {
        match self {
            MacroAction::InsertText(text) => {
                let mut out = vec!['t', 'y', 'p', 'e', ' ', '"'];
                let t = chars_of(text.as_str());
                push_escaped(&mut out, t.as_slice(), false);
                out.push('"');
                assert(out@ =~= script_line(self@));
                out
            },
            MacroAction::Paste(text) => {
                let mut out = vec!['p', 'a', 's', 't', 'e', ' ', '"'];
                let t = chars_of(text.as_str());
                push_escaped(&mut out, t.as_slice(), true);
                out.push('"');
                assert(out@ =~= script_line(self@));
                out
            },
            MacroAction::KeyAction { key, ctrl, shift, alt } => {
                let mut parts: Vec<Vec<char>> = Vec::new();
                if *ctrl {
                    parts.push(ctrl_chars());
                }
                if *shift {
                    parts.push(shift_chars());
                }
                if *alt {
                    parts.push(alt_chars());
                }
                parts.push(chars_of(key.as_str()));
                assert(parts_view(parts@) =~= key_parts(key@, *ctrl, *shift, *alt));
                let j = join_chars(&parts, '+');
                let mut out = vec!['k', 'e', 'y', ' '];
                push_chars(&mut out, j.as_slice());
                assert(out@ =~= script_line(self@));
                out
            },
        }
    }

    /// Convert a single macro action to a human-readable script line.
    pub fn to_script_line(&self) -> (r: String)
        ensures
            r@ == script_line(self@),
    {
        let cs = self.script_line_chars();
        string_of(cs.as_slice())
    }

    /// Parse a single script line into a MacroAction, returning None on invalid input.
    pub fn from_script_line(line: &str) -> (r: Option<MacroAction>)
        ensures
            match r {
                Some(a) => parse_line(line@) == Some(a@),
                None => parse_line(line@) is None,
            },
    {
        let cs = chars_of(line);
        parse_line_chars(cs.as_slice())
    }
}

/// The action denoted by the script line `line`.
fn parse_line_chars(line: &[char]) -> (r: Option<MacroAction>)
    ensures
        match r {
            Some(a) => parse_line(line@) == Some(a@),
            None => parse_line(line@) is None,
        },
{
    let l = trimmed(line);
    if l.len() == 0 || l[0] == '#' {
        return None;
    }
    let tw = vec!['t', 'y', 'p', 'e', ' '];
    let pw = vec!['p', 'a', 's', 't', 'e', ' '];
    let kw = vec!['k', 'e', 'y', ' '];
    assert(tw@ =~= type_word());
    assert(pw@ =~= paste_word());
    assert(kw@ =~= key_word());
    if has_prefix(l.as_slice(), tw.as_slice()) {
        let rest = slice_range(l.as_slice(), 5, l.len());
        assert(rest@ =~= l@.skip(5));
        match parse_quoted_chars(rest.as_slice()) {
            Some(t) => Some(MacroAction::InsertText(string_of(t.as_slice()))),
            None => None,
        }
    } else if has_prefix(l.as_slice(), pw.as_slice()) {
        let rest = slice_range(l.as_slice(), 6, l.len());
        assert(rest@ =~= l@.skip(6));
        match parse_quoted_chars(rest.as_slice()) {
            Some(t) => Some(MacroAction::Paste(string_of(t.as_slice()))),
            None => None,
        }
    } else if has_prefix(l.as_slice(), kw.as_slice()) {
        let rest = slice_range(l.as_slice(), 4, l.len());
        assert(rest@ =~= l@.skip(4));
        Some(parse_key_chars(rest.as_slice()))
    } else {
        None
    }
}

/// The key action denoted by `rest` (the text after `key `).
fn parse_key_chars(rest: &[char]) -> (r: MacroAction)
    ensures
        r@ == parse_key(rest@),
{
    let t = trimmed(rest);
    let cw = ctrl_chars();
    let sw = shift_chars();
    let aw = alt_chars();
    let mut current: Vec<char> = Vec::new();
    let mut ctrl = false;
    let mut shift = false;
    let mut alt = false;
    let n = t.len();
    assert(t@.take(0) =~= Seq::<char>::empty());
    for i in 0..n
        invariant
            n == t@.len(),
            cw@ == ctrl_word(),
            sw@ == shift_word(),
            aw@ == alt_word(),
            current@ == split_on(t@.take(i as int), '+').last(),
            ctrl == has_word(split_on(t@.take(i as int), '+'), ctrl_word()),
            shift == has_word(split_on(t@.take(i as int), '+'), shift_word()),
            alt == has_word(split_on(t@.take(i as int), '+'), alt_word()),
    {
        let c = t[i];
        let ghost sp = split_on(t@.take(i as int), '+');
        let ghost tk = t@.take(i + 1);
        proof {
            lemma_split_on_len(t@.take(i as int), '+');
            assert(tk.drop_last() =~= t@.take(i as int));
            assert(tk.last() == c);
        }
        if c == '+' {
            let ghost sp2 = sp.push(Seq::empty());
            assert(split_on(tk, '+') == sp2);
            if chars_eq(current.as_slice(), cw.as_slice()) {
                ctrl = true;
            }
            if chars_eq(current.as_slice(), sw.as_slice()) {
                shift = true;
            }
            if chars_eq(current.as_slice(), aw.as_slice()) {
                alt = true;
            }
            proof {
                assert forall|w: Seq<char>| #[trigger]
                    has_word(sp2, w) == (has_word(sp, w) || sp.last() == w) by {
                    if has_word(sp2, w) {
                        let k = choose|k: int| 0 <= k < sp2.len() - 1 && sp2[k] == w;
                        if k < sp.len() - 1 {
                            assert(has_word(sp, w));
                        }
                    }
                    if has_word(sp, w) {
                        let k = choose|k: int| 0 <= k < sp.len() - 1 && sp[k] == w;
                        assert(sp2[k] == w);
                    }
                    if sp.last() == w {
                        assert(sp2[sp.len() - 1] == w);
                    }
                }
                assert(has_word(sp2, ctrl_word()) == (has_word(sp, ctrl_word()) || sp.last()
                    == ctrl_word()));
                assert(has_word(sp2, shift_word()) == (has_word(sp, shift_word()) || sp.last()
                    == shift_word()));
                assert(has_word(sp2, alt_word()) == (has_word(sp, alt_word()) || sp.last()
                    == alt_word()));
            }
            current = Vec::new();
            assert(current@ =~= sp2.last());
        } else {
            let ghost sp2 = sp.update(sp.len() - 1, sp.last().push(c));
            assert(split_on(tk, '+') == sp2);
            current.push(c);
            proof {
                assert forall|w: Seq<char>| #[trigger] has_word(sp2, w) == has_word(sp, w) by {
                    if has_word(sp2, w) {
                        let k = choose|k: int| 0 <= k < sp2.len() - 1 && sp2[k] == w;
                        assert(sp[k] == w);
                    }
                    if has_word(sp, w) {
                        let k = choose|k: int| 0 <= k < sp.len() - 1 && sp[k] == w;
                        assert(sp2[k] == w);
                    }
                }
                assert(has_word(sp2, ctrl_word()) == has_word(sp, ctrl_word()));
                assert(has_word(sp2, shift_word()) == has_word(sp, shift_word()));
                assert(has_word(sp2, alt_word()) == has_word(sp, alt_word()));
            }
        }
    }
    assert(t@.take(n as int) =~= t@);
    MacroAction::KeyAction { key: string_of(current.as_slice()), ctrl, shift, alt }
}

/// The unescaped form of `s`.
fn unescape_chars(s: &[char]) -> (r: Vec<char>)
    ensures
        r@ == unescape(s@),
{
    let mut r: Vec<char> = Vec::new();
    let n = s.len();
    let mut i: usize = 0;
    assert(s@.skip(0) =~= s@);
    while i < n
        invariant
            i <= n,
            n == s@.len(),
            unescape(s@) == r@ + unescape(s@.skip(i as int)),
        decreases n - i,
    {
        let ghost rest = s@.skip(i as int);
        let ghost before = r@;
        assert(rest[0] == s@[i as int]);
        if s[i] == '\\' {
            if i + 1 == n {
                r.push('\\');
                i = i + 1;
                assert(s@.skip(i as int) =~= Seq::<char>::empty());
                assert(r@ + unescape(s@.skip(i as int)) =~= before + unescape(rest));
            } else {
                let d = s[i + 1];
                assert(rest[1] == d);
                assert(rest.skip(2) =~= s@.skip(i + 2));
                if d == '\\' {
                    r.push('\\');
                } else if d == '"' {
                    r.push('"');
                } else if d == 'n' {
                    r.push('\n');
                } else {
                    r.push('\\');
                    r.push(d);
                }
                i = i + 2;
                assert(r@ + unescape(s@.skip(i as int)) =~= before + unescape(rest));
            }
        } else {
            r.push(s[i]);
            assert(rest.drop_first() =~= s@.skip(i + 1));
            i = i + 1;
            assert(r@ + unescape(s@.skip(i as int)) =~= before + unescape(rest));
        }
    }
    assert(s@.skip(n as int) =~= Seq::<char>::empty());
    assert(r@ + Seq::<char>::empty() =~= r@);
    r
}

/// The string a quoted script argument denotes.
fn parse_quoted_chars(s: &[char]) -> (r: Option<Vec<char>>)
    ensures
        match r {
            Some(t) => parse_quoted(s@) == Some(t@),
            None => parse_quoted(s@) is None,
        },
{
    let t = trimmed(s);
    let n = t.len();
    if n < 2 || t[0] != '"' || t[n - 1] != '"' {
        return None;
    }
    let inner = slice_range(t.as_slice(), 1, n - 1);
    Some(unescape_chars(inner.as_slice()))
}

/// Parse a double-quoted string with backslash escapes (`\\`, `\"`, `\n`).
fn parse_quoted_string(s: &str) -> (r: Option<String>)
    ensures
        match r {
            Some(t) => parse_quoted(s@) == Some(t@),
            None => parse_quoted(s@) is None,
        },
{
    let cs = chars_of(s);
    match parse_quoted_chars(cs.as_slice()) {
        Some(t) => Some(string_of(t.as_slice())),
        None => None,
    }
}

/// The script lines of `actions`.
fn script_lines(actions: &[MacroAction]) -> (r: Vec<Vec<char>>)
    ensures
        parts_view(r@) == actions_view(actions@).map_values(|a: ActionView| script_line(a)),
{
    let mut r: Vec<Vec<char>> = Vec::new();
    let n = actions.len();
    for i in 0..n
        invariant
            n == actions@.len(),
            r@.len() == i,
            forall|k: int| 0 <= k < i ==> (#[trigger] r@[k])@ == script_line(actions@[k]@),
    {
        r.push(actions[i].script_line_chars());
    }
    assert(parts_view(r@) =~= actions_view(actions@).map_values(|a: ActionView| script_line(a)));
    r
}

/// Convert a list of macro actions to a multi-line script string.
pub fn actions_to_script(actions: &[MacroAction]) -> (r: String)
    ensures
        r@ == script_text(actions_view(actions@)),
{
    let lines = script_lines(actions);
    let j = join_chars(&lines, '\n');
    string_of(j.as_slice())
}

/// Parse a multi-line script string into a list of macro actions.
/// Blank lines and lines starting with '#' are skipped.
pub fn actions_from_script(script: &str) -> (r: Vec<MacroAction>)
    ensures
        actions_view(r@) == parse_script(script@),
{
    let cs = chars_of(script);
    let lines = lines_chars(cs.as_slice());
    let ghost lv = parts_view(lines@);
    let mut r: Vec<MacroAction> = Vec::new();
    let n = lines.len();
    assert(lv.take(0) =~= Seq::<Seq<char>>::empty());
    for i in 0..n
        invariant
            n == lines@.len(),
            lv == parts_view(lines@),
            lv == lines_of(script@),
            actions_view(r@) == lv.take(i as int).filter_map(|l: Seq<char>| parse_line(l)),
    {
        proof {
            lv.lemma_filter_map_take_succ(|l: Seq<char>| parse_line(l), i as int);
        }
        let ghost before = actions_view(r@);
        match parse_line_chars(lines[i].as_slice()) {
            Some(a) => {
                r.push(a);
                assert(actions_view(r@) =~= before + seq![a@]);
            },
            None => {},
        }
    }
    assert(lv.take(n as int) =~= lv);
    r
}

// ---------------------------------------------------------------------------
// Named macro slots
// ---------------------------------------------------------------------------

/// A copy of a sequence of actions.
pub fn clone_actions(v: &[MacroAction]) -> (r: Vec<MacroAction>)
    ensures
        actions_view(r@) == actions_view(v@),
{
    let mut r: Vec<MacroAction> = Vec::new();
    let n = v.len();
    for i in 0..n
        invariant
            n == v@.len(),
            r@.len() == i,
            forall|k: int| 0 <= k < i ==> (#[trigger] r@[k])@ == v@[k]@,
    {
        r.push(v[i].duplicate());
    }
    assert(actions_view(r@) =~= actions_view(v@));
    r
}

/// The map with keys `ks` and values `vs` (the value of the first position
/// holding a key, which for distinct keys is its only position).
pub open spec fn assoc_map(ks: Seq<Seq<char>>, vs: Seq<Seq<ActionView>>) -> Map<
    Seq<char>,
    Seq<ActionView>,
> {
    Map::new(
        |k: Seq<char>| ks.contains(k),
        |k: Seq<char>| vs[ks.index_of(k)],
    )
}

/// Strictly increasing in lexicographic order (hence free of duplicates).
pub open spec fn strictly_sorted(ks: Seq<Seq<char>>) -> bool {
    forall|i: int, j: int| 0 <= i < j < ks.len() ==> lex_lt(#[trigger] ks[i], #[trigger] ks[j])
}

proof fn lemma_sorted_distinct(ks: Seq<Seq<char>>, i: int, j: int)
    requires
        strictly_sorted(ks),
        0 <= i < ks.len(),
        0 <= j < ks.len(),
        ks[i] == ks[j],
    ensures
        i == j,
{
    if i < j {
        lemma_lex_irreflexive(ks[i]);
    } else if j < i {
        lemma_lex_irreflexive(ks[i]);
    }
}

proof fn lemma_assoc_at(ks: Seq<Seq<char>>, vs: Seq<Seq<ActionView>>, i: int)
    requires
        strictly_sorted(ks),
        ks.len() == vs.len(),
        0 <= i < ks.len(),
    ensures
        assoc_map(ks, vs).contains_key(ks[i]),
        assoc_map(ks, vs)[ks[i]] == vs[i],
{
    assert(ks.contains(ks[i]));
    let j = ks.index_of(ks[i]);
    lemma_sorted_distinct(ks, i, j);
}

/// Named macro slots: a map from names to action sequences, kept sorted by
/// name.
pub struct NamedMacros {
    entries: Vec<(String, Vec<MacroAction>)>,
}

impl NamedMacros {
    /// The names, in stored order.
    pub closed spec fn keys(&self) -> Seq<Seq<char>> {
        self.entries@.map_values(|e: (String, Vec<MacroAction>)| e.0@)
    }

    /// The action sequences, in stored order.
    pub closed spec fn vals(&self) -> Seq<Seq<ActionView>> {
        self.entries@.map_values(|e: (String, Vec<MacroAction>)| actions_view(e.1@))
    }

    /// The entries are kept strictly sorted by name.
    pub closed spec fn wf(&self) -> bool {
        strictly_sorted(self.keys())
    }

    /// The names in increasing order.
    pub closed spec fn sorted_names(&self) -> Seq<Seq<char>> {
        self.keys()
    }

    /// Every well-formed map lists its names in increasing order.
    pub proof fn lemma_names(&self)
        requires
            self.wf(),
        ensures
            strictly_sorted(self.sorted_names()),
            self.sorted_names().to_set() == self@.dom(),
            self.sorted_names().len() == self@.dom().len(),
    {
        let ks = self.keys();
        assert(ks.to_set() =~= self@.dom());
        assert(ks.no_duplicates()) by {
            assert forall|i: int, j: int|
                0 <= i < ks.len() && 0 <= j < ks.len() && i != j implies ks[i] != ks[j] by {
                if ks[i] == ks[j] {
                    lemma_sorted_distinct(ks, i, j);
                }
            }
        }
        ks.unique_seq_to_set();
    }

    /// An empty map.
    pub fn new() -> (r: NamedMacros)
        ensures
            r.wf(),
            r@ == Map::<Seq<char>, Seq<ActionView>>::empty(),
    {
        let r = NamedMacros { entries: Vec::new() };
        assert(r@ =~= Map::<Seq<char>, Seq<ActionView>>::empty());
        r
    }

    /// Number of named macros.
    pub fn len(&self) -> (r: usize)
        requires
            self.wf(),
        ensures
            r == self@.dom().len(),
    {
        proof {
            self.lemma_names();
        }
        self.entries.len()
    }

    /// Whether there are no named macros.
    pub fn is_empty(&self) -> (r: bool)
        requires
            self.wf(),
        ensures
            r == (self@.dom().len() == 0),
    {
        self.len() == 0
    }

    /// The position of `name`, if it is present.
    fn find(&self, name: &[char]) -> (r: Option<usize>)
        ensures
            match r {
                Some(i) => i < self.keys().len() && self.keys()[i as int] == name@,
                None => !self.keys().contains(name@),
            },
    {
        let n = self.entries.len();
        for i in 0..n
            invariant
                n == self.entries@.len(),
                forall|k: int| 0 <= k < i ==> self.keys()[k] != name@,
        {
            let kc = chars_of(self.entries[i].0.as_str());
            if chars_eq(kc.as_slice(), name) {
                return Some(i);
            }
        }
        proof {
            if self.keys().contains(name@) {
                let k = choose|k: int| 0 <= k < self.keys().len() && self.keys()[k] == name@;
                assert(self.keys()[k] != name@);
            }
        }
        None
    }

    /// Whether a macro named `name` exists.
    pub fn contains_key(&self, name: &str) -> (r: bool)
        requires
            self.wf(),
        ensures
            r == self@.contains_key(name@),
    {
        let nc = chars_of(name);
        self.find(nc.as_slice()).is_some()
    }

    /// The actions stored under `name`.
    pub fn get(&self, name: &str) -> (r: Option<&Vec<MacroAction>>)
        requires
            self.wf(),
        ensures
            match r {
                Some(v) => self@.contains_key(name@) && actions_view(v@) == self@[name@],
                None => !self@.contains_key(name@),
            },
    {
        let nc = chars_of(name);
        match self.find(nc.as_slice()) {
            Some(i) => {
                proof {
                    lemma_assoc_at(self.keys(), self.vals(), i as int);
                }
                Some(&self.entries[i].1)
            },
            None => None,
        }
    }

    /// Store `actions` under `name`, replacing what was stored there.
    pub fn insert(&mut self, name: String, actions: Vec<MacroAction>)
        requires
            old(self).wf(),
        ensures
            final(self).wf(),
            final(self)@ == old(self)@.insert(name@, actions_view(actions@)),
    {
        let ghost ok = self.keys();
        let ghost ov = self.vals();
        let ghost om = self@;
        let ghost nk = name@;
        let ghost nv = actions_view(actions@);
        let nc = chars_of(name.as_str());
        match self.find(nc.as_slice()) {
            Some(i) => {
                self.entries.set(i, (name, actions));
                proof {
                    assert(self.keys() =~= ok.update(i as int, nk));
                    assert(self.keys() =~= ok);
                    assert(self.vals() =~= ov.update(i as int, nv));
                    assert forall|k: Seq<char>| #[trigger] self@.contains_key(k) == om.insert(
                        nk,
                        nv,
                    ).contains_key(k) by {}
                    assert forall|k: Seq<char>| self@.contains_key(k) implies #[trigger] self@[k]
                        == om.insert(nk, nv)[k] by {
                        let j = ok.index_of(k);
                        assert(ok.contains(k));
                        lemma_assoc_at(self.keys(), self.vals(), j);
                        if k != nk {
                            lemma_assoc_at(ok, ov, j);
                            assert(j != i);
                        } else {
                            lemma_sorted_distinct(ok, i as int, j);
                        }
                    }
                    assert(self@ =~= om.insert(nk, nv));
                }
            },
            None => {
                let n = self.entries.len();
                let mut p: usize = 0;
                let mut stop = false;
                while p < n && !stop
                    invariant
                        p <= n,
                        n == self.entries@.len(),
                        self.keys() == ok,
                        !ok.contains(nk),
                        nc@ == nk,
                        forall|k: int| 0 <= k < p ==> lex_lt(#[trigger] ok[k], nk),
                        stop ==> p < n && lex_lt(nk, ok[p as int]),
                    decreases (n - p) + (if stop { 0int } else { 1int }),
                {
                    let kc = chars_of(self.entries[p].0.as_str());
                    if lex_less(nc.as_slice(), kc.as_slice()) {
                        stop = true;
                    } else {
                        proof {
                            assert(ok[p as int] != nk);
                            lemma_lex_total(ok[p as int], nk);
                        }
                        p = p + 1;
                    }
                }
                proof {
                    if p < n {
                        assert forall|k: int| p <= k < n implies lex_lt(nk, #[trigger] ok[k]) by {
                            if k > p {
                                lemma_lex_transitive(nk, ok[p as int], ok[k]);
                            }
                        }
                    }
                }
                self.entries.insert(p, (name, actions));
                proof {
                    let ks = self.keys();
                    assert(ks =~= ok.insert(p as int, nk));
                    assert(self.vals() =~= ov.insert(p as int, nv));
                    assert(strictly_sorted(ks)) by {
                        assert forall|i: int, j: int| 0 <= i < j < ks.len() implies lex_lt(
                            #[trigger] ks[i],
                            #[trigger] ks[j],
                        ) by {
                            if j < p {
                            } else if j == p {
                            } else if i < p {
                                assert(ks[j] == ok[j - 1]);
                                if j - 1 >= p {
                                    assert(lex_lt(nk, ok[j - 1]));
                                    lemma_lex_transitive(ok[i], nk, ok[j - 1]);
                                }
                            } else if i == p {
                                assert(ks[j] == ok[j - 1]);
                            } else {
                                assert(ks[i] == ok[i - 1]);
                                assert(ks[j] == ok[j - 1]);
                            }
                        }
                    }
                    assert forall|k: Seq<char>| #[trigger] self@.contains_key(k) == om.insert(
                        nk,
                        nv,
                    ).contains_key(k) by {
                        if ks.contains(k) {
                            let j = choose|j: int| 0 <= j < ks.len() && ks[j] == k;
                            if j < p {
                                assert(ok[j] == k);
                            } else if j > p {
                                assert(ok[j - 1] == k);
                            }
                        }
                        if ok.contains(k) {
                            let j = choose|j: int| 0 <= j < ok.len() && ok[j] == k;
                            if j < p {
                                assert(ks[j] == k);
                            } else {
                                assert(ks[j + 1] == k);
                            }
                        }
                        if k == nk {
                            assert(ks[p as int] == k);
                        }
                    }
                    assert forall|k: Seq<char>| self@.contains_key(k) implies #[trigger] self@[k]
                        == om.insert(nk, nv)[k] by {
                        let j = ks.index_of(k);
                        assert(ks.contains(k));
                        lemma_assoc_at(ks, self.vals(), j);
                        if k != nk {
                            if j < p {
                                assert(ok[j] == k);
                                lemma_assoc_at(ok, ov, j);
                            } else {
                                assert(j != p);
                                assert(ok[j - 1] == k);
                                lemma_assoc_at(ok, ov, j - 1);
                            }
                        }
                    }
                    assert(self@ =~= om.insert(nk, nv));
                }
            },
        }
    }

    /// Remove the macro named `name`, if present.
    pub fn remove(&mut self, name: &str)
        requires
            old(self).wf(),
        ensures
            final(self).wf(),
            final(self)@ == old(self)@.remove(name@),
    {
        let ghost ok = self.keys();
        let ghost ov = self.vals();
        let ghost om = self@;
        let nc = chars_of(name);
        match self.find(nc.as_slice()) {
            Some(i) => {
                self.entries.remove(i);
                proof {
                    let ks = self.keys();
                    assert(ks =~= ok.remove(i as int));
                    assert(self.vals() =~= ov.remove(i as int));
                    assert(strictly_sorted(ks)) by {
                        assert forall|a: int, b: int| 0 <= a < b < ks.len() implies lex_lt(
                            #[trigger] ks[a],
                            #[trigger] ks[b],
                        ) by {
                            let a2 = if a < i { a } else { a + 1 };
                            let b2 = if b < i { b } else { b + 1 };
                            assert(ks[a] == ok[a2]);
                            assert(ks[b] == ok[b2]);
                        }
                    }
                    assert forall|k: Seq<char>| #[trigger] self@.contains_key(k) == om.remove(
                        name@,
                    ).contains_key(k) by {
                        if ks.contains(k) {
                            let j = choose|j: int| 0 <= j < ks.len() && ks[j] == k;
                            let j2 = if j < i { j } else { j + 1 };
                            assert(ok[j2] == k);
                            if k == name@ {
                                lemma_sorted_distinct(ok, i as int, j2);
                            }
                        }
                        if ok.contains(k) && k != name@ {
                            let j = choose|j: int| 0 <= j < ok.len() && ok[j] == k;
                            assert(j != i);
                            if j < i {
                                assert(ks[j] == k);
                            } else {
                                assert(ks[j - 1] == k);
                            }
                        }
                    }
                    assert forall|k: Seq<char>| self@.contains_key(k) implies #[trigger] self@[k]
                        == om.remove(name@)[k] by {
                        let j = ks.index_of(k);
                        assert(ks.contains(k));
                        lemma_assoc_at(ks, self.vals(), j);
                        let j2 = if j < i { j } else { j + 1 };
                        assert(ok[j2] == k);
                        lemma_assoc_at(ok, ov, j2);
                    }
                    assert(self@ =~= om.remove(name@));
                }
            },
            None => {
                assert(om.remove(name@) =~= om);
            },
        }
    }

    /// All names, in increasing order.
    pub fn names(&self) -> (r: Vec<String>)
        requires
            self.wf(),
        ensures
            r@.map_values(|s: String| s@) == self.sorted_names(),
    {
        let mut r: Vec<String> = Vec::new();
        let n = self.entries.len();
        for i in 0..n
            invariant
                n == self.entries@.len(),
                r@.len() == i,
                forall|k: int| 0 <= k < i ==> (#[trigger] r@[k])@ == self.keys()[k],
        {
            r.push(self.entries[i].0.clone());
        }
        assert(r@.map_values(|s: String| s@) =~= self.sorted_names());
        r
    }
}

impl View for NamedMacros {
    type V = Map<Seq<char>, Seq<ActionView>>;

    closed spec fn view(&self) -> Map<Seq<char>, Seq<ActionView>> {
        assoc_map(self.keys(), self.vals())
    }
}

// ---------------------------------------------------------------------------
// Recorder
// ---------------------------------------------------------------------------

/// The abstract value of the saved-macro list.
pub open spec fn saved_view(v: Seq<(String, Vec<MacroAction>)>) -> Seq<(Seq<char>, Seq<ActionView>)> {
    v.map_values(|e: (String, Vec<MacroAction>)| (e.0@, actions_view(e.1@)))
}

/// The slots and saved list after merging loaded macros one after another:
/// each replaces the slot of its name, and is appended to the saved list
/// when its name had no slot.
pub open spec fn merged_macros(
    named: Map<Seq<char>, Seq<ActionView>>,
    saved: Seq<(Seq<char>, Seq<ActionView>)>,
    loaded: Seq<(Seq<char>, Seq<ActionView>)>,
) -> (Map<Seq<char>, Seq<ActionView>>, Seq<(Seq<char>, Seq<ActionView>)>)
    decreases loaded.len(),
{
    if loaded.len() == 0 {
        (named, saved)
    } else {
        let (m, s) = merged_macros(named, saved, loaded.drop_last());
        let e = loaded.last();
        (m.insert(e.0, e.1), if m.contains_key(e.0) { s } else { s.push(e) })
    }
}

/// A macro saved under a name is what a later lookup of that name gives
/// back, and the other names keep their macros; after deleting a name, a
/// lookup of it finds nothing.
pub proof fn lemma_saved_macro_reads_back(
    slots: Map<Seq<char>, Seq<ActionView>>,
    name: Seq<char>,
    actions: Seq<ActionView>,
    other: Seq<char>,
)
    requires
        other != name,
    ensures
        slots.insert(name, actions).contains_key(name),
        slots.insert(name, actions)[name] == actions,
        slots.insert(name, actions).contains_key(other) == slots.contains_key(other),
        slots.contains_key(other) ==> slots.insert(name, actions)[other] == slots[other],
        !slots.remove(name).contains_key(name),
{
}

/// Records and stores macros for later playback.
pub struct MacroRecorder {
    /// Whether currently recording user actions.
    pub recording: bool,
    /// Actions recorded during the current (or most recent) session.
    pub actions: Vec<MacroAction>,
    /// Named saved macros, in the order they were saved.
    pub saved_macros: Vec<(String, Vec<MacroAction>)>,
    /// Named macro slots for lookup by name.
    pub named_macros: NamedMacros,
}

impl MacroRecorder {
    /// The recorder's internal invariant.
    pub open spec fn wf(&self) -> bool {
        self.named_macros.wf()
    }

    /// Create a new MacroRecorder with no recorded actions.
    pub fn new() -> (r: MacroRecorder)
        ensures
            r.wf(),
            !r.recording,
            r.actions@.len() == 0,
            r.saved_macros@.len() == 0,
            r.named_macros@ == Map::<Seq<char>, Seq<ActionView>>::empty(),
    {
        MacroRecorder {
            recording: false,
            actions: Vec::new(),
            saved_macros: Vec::new(),
            named_macros: NamedMacros::new(),
        }
    }

    /// Start recording a new macro. Clears any previously recorded (unsaved) actions.
    pub fn start_recording(&mut self)
        ensures
            final(self).recording,
            final(self).actions@.len() == 0,
            final(self).saved_macros@ == old(self).saved_macros@,
            final(self).named_macros == old(self).named_macros,
    {
        self.actions.clear();
        self.recording = true;
    }

    /// Stop recording the current macro.
    pub fn stop_recording(&mut self)
        ensures
            !final(self).recording,
            final(self).actions@ == old(self).actions@,
            final(self).saved_macros@ == old(self).saved_macros@,
            final(self).named_macros == old(self).named_macros,
    {
        self.recording = false;
    }

    /// Record an action if currently recording.
    pub fn record_action(&mut self, action: MacroAction)
        ensures
            final(self).recording == old(self).recording,
            final(self).actions@ == if old(self).recording {
                old(self).actions@.push(action)
            } else {
                old(self).actions@
            },
            final(self).saved_macros@ == old(self).saved_macros@,
            final(self).named_macros == old(self).named_macros,
    {
        if self.recording {
            self.actions.push(action);
        }
    }

    /// Whether the recorder is currently active.
    pub fn is_recording(&self) -> (r: bool)
        ensures
            r == self.recording,
    {
        self.recording
    }

    /// Save the current recorded actions under the given name (in-memory).
    /// Nothing is saved when no action was recorded.
    pub fn save_macro(&mut self, name: String)
        requires
            old(self).wf(),
        ensures
            final(self).wf(),
            final(self).recording == old(self).recording,
            final(self).actions@ == old(self).actions@,
            old(self).actions@.len() == 0 ==> final(self).saved_macros@ == old(self).saved_macros@
                && final(self).named_macros@ == old(self).named_macros@,
            old(self).actions@.len() > 0 ==> saved_view(final(self).saved_macros@) == saved_view(
                old(self).saved_macros@,
            ).push((name@, actions_view(old(self).actions@))) && final(self).named_macros@ == old(
                self,
            ).named_macros@.insert(name@, actions_view(old(self).actions@)),
    {
        if self.actions.len() > 0 {
            let actions = clone_actions(self.actions.as_slice());
            let actions2 = clone_actions(self.actions.as_slice());
            self.named_macros.insert(name.clone(), actions);
            let ghost before = saved_view(self.saved_macros@);
            self.saved_macros.push((name, actions2));
            assert(saved_view(self.saved_macros@) =~= before.push(
                (name@, actions_view(self.actions@)),
            ));
        }
    }

    /// Get the last recorded macro actions (from the current/most recent session).
    pub fn last_recorded(&self) -> (r: &[MacroAction])
        ensures
            r@ == self.actions@,
    {
        self.actions.as_slice()
    }

    /// Get a named macro's actions by name.
    pub fn get_named_macro(&self, name: &str) -> (r: Option<&[MacroAction]>)
        requires
            self.wf(),
        ensures
            match r {
                Some(v) => self.named_macros@.contains_key(name@) && actions_view(v@)
                    == self.named_macros@[name@],
                None => !self.named_macros@.contains_key(name@),
            },
    {
        match self.named_macros.get(name) {
            Some(v) => Some(v.as_slice()),
            None => None,
        }
    }

    /// Load a named macro into the current actions buffer (for playback).
    /// Returns whether a macro of that name exists.
    pub fn load_named_macro(&mut self, name: &str) -> (r: bool)
        requires
            old(self).wf(),
        ensures
            final(self).wf(),
            r == old(self).named_macros@.contains_key(name@),
            r ==> actions_view(final(self).actions@) == old(self).named_macros@[name@],
            !r ==> final(self).actions@ == old(self).actions@,
            final(self).recording == old(self).recording,
            final(self).saved_macros@ == old(self).saved_macros@,
            final(self).named_macros == old(self).named_macros,
    {
        match self.named_macros.get(name) {
            Some(v) => {
                let copy = clone_actions(v.as_slice());
                self.actions = copy;
                true
            },
            None => false,
        }
    }

    /// Delete a named macro (its slot and every saved entry of that name).
    pub fn delete_named_macro(&mut self, name: &str)
        requires
            old(self).wf(),
        ensures
            final(self).wf(),
            final(self).named_macros@ == old(self).named_macros@.remove(name@),
            saved_view(final(self).saved_macros@) == saved_view(old(self).saved_macros@).filter(
                |e: (Seq<char>, Seq<ActionView>)| e.0 != name@,
            ),
            final(self).recording == old(self).recording,
            final(self).actions@ == old(self).actions@,
    {
        self.named_macros.remove(name);
        let nc = chars_of(name);
        let ghost old_saved = saved_view(self.saved_macros@);
        let mut kept: Vec<(String, Vec<MacroAction>)> = Vec::new();
        let n = self.saved_macros.len();
        assert(old_saved.take(0) =~= Seq::<(Seq<char>, Seq<ActionView>)>::empty());
        for i in 0..n
            invariant
                n == self.saved_macros@.len(),
                old_saved == saved_view(self.saved_macros@),
                nc@ == name@,
                saved_view(kept@) == old_saved.take(i as int).filter(
                    |e: (Seq<char>, Seq<ActionView>)| e.0 != name@,
                ),
        {
            let kc = chars_of(self.saved_macros[i].0.as_str());
            let ghost before = saved_view(kept@);
            assert(old_saved[i as int].0 == kc@);
            proof {
                assert(old_saved.take(i + 1) =~= old_saved.take(i as int).push(old_saved[i as int]));
                old_saved.take(i as int).lemma_filter_push(
                    old_saved[i as int],
                    |e: (Seq<char>, Seq<ActionView>)| e.0 != name@,
                );
            }
            if !chars_eq(kc.as_slice(), nc.as_slice()) {
                let entry = (
                    self.saved_macros[i].0.clone(),
                    clone_actions(self.saved_macros[i].1.as_slice()),
                );
                kept.push(entry);
                assert(saved_view(kept@) =~= before.push(old_saved[i as int]));
            }
        }
        assert(old_saved.take(n as int) =~= old_saved);
        self.saved_macros = kept;
    }

    /// Merges macros loaded from storage: each replaces the slot of its name,
    /// and one whose name had no slot is also appended to the saved list.
    pub fn merge_loaded_macros(&mut self, loaded: Vec<(String, Vec<MacroAction>)>)
        requires
            old(self).wf(),
        ensures
            final(self).wf(),
            (final(self).named_macros@, saved_view(final(self).saved_macros@)) == merged_macros(
                old(self).named_macros@,
                saved_view(old(self).saved_macros@),
                saved_view(loaded@),
            ),
            final(self).recording == old(self).recording,
            final(self).actions@ == old(self).actions@,
    {
        let ghost lv = saved_view(loaded@);
        let ghost m0 = self.named_macros@;
        let ghost s0 = saved_view(self.saved_macros@);
        let n = loaded.len();
        assert(lv.take(0) =~= Seq::<(Seq<char>, Seq<ActionView>)>::empty());
        for i in 0..n
            invariant
                n == loaded@.len(),
                lv == saved_view(loaded@),
                self.wf(),
                (self.named_macros@, saved_view(self.saved_macros@)) == merged_macros(m0, s0, lv.take(i as int)),
                self.recording == old(self).recording,
                self.actions@ == old(self).actions@,
        {
            assert(lv.take(i + 1).drop_last() =~= lv.take(i as int));
            let name = loaded[i].0.clone();
            let actions = clone_actions(loaded[i].1.as_slice());
            assert(lv[i as int] == (name@, actions_view(actions@)));
            if !self.named_macros.contains_key(name.as_str()) {
                let saved_copy = clone_actions(actions.as_slice());
                let ghost before = saved_view(self.saved_macros@);
                self.saved_macros.push((name.clone(), saved_copy));
                assert(saved_view(self.saved_macros@) =~= before.push((name@, actions_view(actions@))));
            }
            self.named_macros.insert(name, actions);
        }
        assert(lv.take(n as int) =~= lv);
    }

    /// Get a sorted list of all named macro names.
    pub fn macro_names(&self) -> (r: Vec<String>)
        requires
            self.wf(),
        ensures
            r@.map_values(|s: String| s@) == self.named_macros.sorted_names(),
    {
        self.named_macros.names()
    }
}

impl Default for MacroRecorder {
    fn default() -> (r: MacroRecorder)
        ensures
            r.wf(),
            !r.recording,
            r.actions@.len() == 0,
            r.saved_macros@.len() == 0,
            r.named_macros@ == Map::<Seq<char>, Seq<ActionView>>::empty(),
    {
        MacroRecorder::new()
    }
}

} // verus!
