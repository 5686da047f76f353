//! Hex editor helpers: byte-edit actions and parsing of the go-to-offset input.

use vstd::prelude::*;
use crate::text::{
    chars_of, decimal, hexadecimal, push_all, push_char, push_decimal, push_hex, trim, trimmed, zero_padded,
};

verus! {

/// Action returned by hex view when the user edits a byte.
#[derive(Debug, Clone)]
pub enum HexAction {
    /// No action.
    NoAction,
    /// A byte was edited at the given offset with the given new value.
    EditByte { offset: usize, old_byte: u8, new_byte: u8 },
}

/// The value of `c` as a digit in base `radix` (10 or 16), if it is one.
pub open spec fn digit_value(c: char, radix: nat) -> Option<nat> {
    if '0' <= c && c <= '9' {
        Some((c as u32 - '0' as u32) as nat)
    } else if radix == 16 && 'a' <= c && c <= 'f' {
        Some((c as u32 - 'a' as u32 + 10) as nat)
    } else if radix == 16 && 'A' <= c && c <= 'F' {
        Some((c as u32 - 'A' as u32 + 10) as nat)
    } else {
        None
    }
}

/// Whether every character of `ds` is a digit in base `radix`.
pub open spec fn all_digits(ds: Seq<char>, radix: nat) -> bool {
    forall|i: int| 0 <= i < ds.len() ==> (#[trigger] digit_value(ds[i], radix)) is Some
}

/// The number the digit string `ds` denotes in base `radix`.
pub open spec fn digits_value(ds: Seq<char>, radix: nat) -> nat
    decreases ds.len(),
{
    if ds.len() == 0 {
        0
    } else {
        digits_value(ds.drop_last(), radix) * radix + match digit_value(ds.last(), radix) {
            Some(d) => d,
            None => 0,
        }
    }
}

/// What `usize::from_str_radix(s, radix).ok()` returns (and, for radix 10,
/// `s.parse::<usize>().ok()`): an optional `+` sign, then at least one digit,
/// all of them valid in the radix, denoting a value that fits in `usize`.
pub open spec fn parse_uint(s: Seq<char>, radix: nat) -> Option<usize> {
    let ds = if s.len() >= 1 && s[0] == '+' {
        s.drop_first()
    } else {
        s
    };
    if ds.len() == 0 || !all_digits(ds, radix) || digits_value(ds, radix) > usize::MAX {
        None
    } else {
        Some(digits_value(ds, radix) as usize)
    }
}

/// Whether `c` is an ASCII hexadecimal digit.
pub open spec fn is_hex_digit(c: char) -> bool {
    digit_value(c, 16) is Some
}

/// Whether `c` is an ASCII letter.
pub open spec fn is_ascii_letter(c: char) -> bool {
    ('a' <= c && c <= 'z') || ('A' <= c && c <= 'Z')
}

/// The offset that an input string denotes: after trimming, hexadecimal after
/// a `0x`/`0X` prefix; hexadecimal when made only of hex digits and holding a
/// letter; decimal otherwise.
pub open spec fn offset_value(s: Seq<char>) -> Option<usize> {
    let t = trim(s);
    if t.len() == 0 {
        None
    } else if t.len() >= 2 && t[0] == '0' && (t[1] == 'x' || t[1] == 'X') {
        parse_uint(t.skip(2), 16)
    } else if (forall|i: int| 0 <= i < t.len() ==> #[trigger] is_hex_digit(t[i])) && (exists|i: int|
        0 <= i < t.len() && #[trigger] is_ascii_letter(t[i])) {
        parse_uint(t, 16)
    } else {
        parse_uint(t, 10)
    }
}

/// Parse a hex digit character to its numeric value.
pub fn hex_digit_value(ch: char) -> (r: Option<u8>)
    ensures
        match digit_value(ch, 16) {
            Some(d) => r == Some(d as u8),
            None => r is None,
        },
{
    if '0' <= ch && ch <= '9' {
        Some((ch as u32 - '0' as u32) as u8)
    } else if 'a' <= ch && ch <= 'f' {
        Some((ch as u32 - 'a' as u32 + 10) as u8)
    } else if 'A' <= ch && ch <= 'F' {
        Some((ch as u32 - 'A' as u32 + 10) as u8)
    } else {
        None
    }
}

/// The digit value of `c` in base `radix` (10 or 16).
fn digit_of(c: char, radix: u32) -> (r: Option<u32>)
    requires
        radix == 10 || radix == 16,
    ensures
        match digit_value(c, radix as nat) {
            Some(d) => r == Some(d as u32),
            None => r is None,
        },
{
    if '0' <= c && c <= '9' {
        Some(c as u32 - '0' as u32)
    } else if radix == 16 && 'a' <= c && c <= 'f' {
        Some(c as u32 - 'a' as u32 + 10)
    } else if radix == 16 && 'A' <= c && c <= 'F' {
        Some(c as u32 - 'A' as u32 + 10)
    } else {
        None
    }
}

proof fn lemma_digits_value_take(ds: Seq<char>, i: int, radix: nat)
    requires
        0 <= i < ds.len(),
    ensures
        digits_value(ds.take(i + 1), radix) == digits_value(ds.take(i), radix) * radix + match digit_value(
            ds[i],
            radix,
        ) {
            Some(d) => d,
            None => 0,
        },
{
    assert(ds.take(i + 1).drop_last() =~= ds.take(i));
}

proof fn lemma_digits_value_monotone(ds: Seq<char>, i: int, radix: nat)
    requires
        0 <= i <= ds.len(),
        radix >= 1,
    ensures
        digits_value(ds.take(i), radix) <= digits_value(ds, radix),
    decreases ds.len() - i,
{
    if i < ds.len() {
        lemma_digits_value_monotone(ds, i + 1, radix);
        lemma_digits_value_take(ds, i, radix);
        let v = digits_value(ds.take(i), radix);
        assert(v <= v * radix) by (nonlinear_arith)
            requires
                radix >= 1,
        ;
    } else {
        assert(ds.take(i) =~= ds);
    }
}

/// `usize::from_str_radix(s, radix).ok()` for radix 10 or 16.
pub fn parse_uint_chars(s: &[char], radix: u32) -> (r: Option<usize>)
    requires
        radix == 10 || radix == 16,
    ensures
        r == parse_uint(s@, radix as nat),
{
    let start: usize = if s.len() >= 1 && s[0] == '+' {
        1
    } else {
        0
    };
    let ghost ds = s@.skip(start as int);
    assert(ds =~= if s@.len() >= 1 && s@[0] == '+' {
        s@.drop_first()
    } else {
        s@
    });
    if start >= s.len() {
        return None;
    }
    let mut acc: usize = 0;
    let mut i: usize = start;
    assert(ds.take(0) =~= Seq::<char>::empty());
    while i < s.len()
        invariant
            start <= i <= s@.len(),
            ds == s@.skip(start as int),
            ds == if s@.len() >= 1 && s@[0] == '+' {
                s@.drop_first()
            } else {
                s@
            },
            ds.len() > 0,
            radix == 10 || radix == 16,
            all_digits(ds.take(i - start), radix as nat),
            acc as nat == digits_value(ds.take(i - start), radix as nat),
        decreases s@.len() - i,
    {
        let k = i - start;
        assert(ds[k as int] == s@[i as int]);
        proof {
            lemma_digits_value_take(ds, k as int, radix as nat);
        }
        match digit_of(s[i], radix) {
            None => {
                assert(!all_digits(ds, radix as nat)) by {
                    assert(digit_value(ds[k as int], radix as nat) is None);
                }
                return None;
            },
            Some(d) => {
                let m = acc.checked_mul(radix as usize);
                match m {
                    None => {
                        proof {
                            assert(acc * radix > usize::MAX);
                            lemma_digits_value_monotone(ds, k + 1, radix as nat);
                        }
                        return None;
                    },
                    Some(m) => {
                        match m.checked_add(d as usize) {
                            None => {
                                proof {
                                    lemma_digits_value_monotone(ds, k + 1, radix as nat);
                                }
                                return None;
                            },
                            Some(v) => {
                                acc = v;
                            },
                        }
                    },
                }
            },
        }
        proof {
            assert forall|j: int| 0 <= j < ds.take(k + 1).len() implies (#[trigger] digit_value(
                ds.take(k + 1)[j],
                radix as nat,
            )) is Some by {
                if j < k {
                    assert(ds.take(k + 1)[j] == ds.take(k as int)[j]);
                }
            }
        }
        i = i + 1;
    }
    assert(ds.take(i - start) =~= ds);
    Some(acc)
}

/// Parse an offset string (hex with optional "0x" prefix, or plain decimal).
pub fn parse_offset(s: &str) -> (r: Option<usize>)
    ensures
        r == offset_value(s@),
{
    let cs = chars_of(s);
    let t = trimmed(cs.as_slice());
    let n = t.len();
    if n == 0 {
        return None;
    }
    if n >= 2 && t[0] == '0' && (t[1] == 'x' || t[1] == 'X') {
        let mut rest: Vec<char> = Vec::new();
        let mut i: usize = 2;
        while i < n
            invariant
                2 <= i <= n,
                n == t@.len(),
                rest@ == t@.subrange(2, i as int),
            decreases n - i,
        {
            rest.push(t[i]);
            assert(t@.subrange(2, i + 1) =~= t@.subrange(2, i as int).push(t@[i as int]));
            i = i + 1;
        }
        assert(rest@ =~= t@.skip(2));
        return parse_uint_chars(rest.as_slice(), 16);
    }
    let mut all_hex = true;
    let mut any_alpha = false;
    for i in 0..n
        invariant
            n == t@.len(),
            all_hex == (forall|j: int| 0 <= j < i ==> #[trigger] is_hex_digit(t@[j])),
            any_alpha == (exists|j: int| 0 <= j < i && #[trigger] is_ascii_letter(t@[j])),
    {
        let c = t[i];
        let h = hex_digit_value(c);
        if h.is_none() {
            all_hex = false;
        }
        proof {
            assert(is_hex_digit(t@[i as int]) == h.is_some());
        }
        if ('a' <= c && c <= 'z') || ('A' <= c && c <= 'Z') {
            any_alpha = true;
        }
        proof {
            if any_alpha {
                if is_ascii_letter(t@[i as int]) {
                    assert(exists|j: int| 0 <= j < i + 1 && #[trigger] is_ascii_letter(t@[j]));
                }
            }
        }
    }
    if all_hex && any_alpha {
        parse_uint_chars(t.as_slice(), 16)
    } else {
        parse_uint_chars(t.as_slice(), 10)
    }
}

/// The editing state of the hex view (its scroll position aside): the
/// bytes, the layout width, the selected byte, a pending high nibble, and
/// the go-to-offset dialog.
pub struct HexEditor {
    /// Whether hex view is active for the current tab.
    pub active: bool,
    /// Raw bytes of the file.
    pub data: Vec<u8>,
    /// Number of bytes per row (default 16).
    pub bytes_per_row: usize,
    /// Currently selected byte offset (for highlighting).
    pub selected_offset: Option<usize>,
    /// First nibble entered during hex editing (high nibble, 0-15).
    /// When set, we're waiting for the second nibble.
    pub editing_nibble: Option<u8>,
    /// Whether the go-to-offset dialog is open.
    pub go_to_offset_open: bool,
    /// Text input for go-to-offset dialog.
    pub go_to_offset_input: String,
}

impl Default for HexEditor {
    fn default() -> (r: HexEditor)
        ensures
            !r.active,
            r.data@.len() == 0,
            r.bytes_per_row == 16,
            r.selected_offset is None,
            r.editing_nibble is None,
            !r.go_to_offset_open,
            r.go_to_offset_input@.len() == 0,
    {
        HexEditor {
            active: false,
            data: Vec::new(),
            bytes_per_row: 16,
            selected_offset: None,
            editing_nibble: None,
            go_to_offset_open: false,
            go_to_offset_input: String::new(),
        }
    }
}

/// The keys of one frame that the hex view reacts to.
pub struct HexKeys {
    /// Characters typed (those that are hex digits edit the selected byte).
    pub typed: Vec<char>,
    pub escape: bool,
    /// Ctrl+G.
    pub go_to_offset: bool,
    pub left: bool,
    pub right: bool,
    pub up: bool,
    pub down: bool,
}

/// Where the arrow keys move the selection, by priority left, right, up,
/// down; none when the move would leave the data.
pub open spec fn arrow_target(sel: int, len: int, bpr: int, left: bool, right: bool, up: bool, down: bool) -> Option<int> {
    if left && sel > 0 {
        Some(sel - 1)
    } else if right && sel + 1 < len {
        Some(sel + 1)
    } else if up && sel >= bpr {
        Some(sel - bpr)
    } else if down && sel + bpr < len {
        Some(sel + bpr)
    } else {
        None
    }
}

/// The byte that completing a nibble edit writes.
pub open spec fn combined_byte(high: u8, low: u8) -> u8 {
    ((high << 4u8) | low) as u8
}

/// The nibble value of a typed character, if it is a hex digit.
pub open spec fn nibble_of(c: char) -> Option<u8> {
    match digit_value(c, 16) {
        Some(v) => Some(v as u8),
        None => None,
    }
}

/// The bytes, selection and pending nibble after typing `chars` (when the
/// dialog is closed), with the last byte edit made: a hex digit with a byte
/// selected either becomes the pending high nibble or, with one pending,
/// completes the byte, which is written, and the selection moves on when a
/// byte follows.
pub open spec fn typed_edits(data: Seq<u8>, sel: Option<usize>, nibble: Option<u8>, chars: Seq<char>) -> (
    Seq<u8>,
    Option<usize>,
    Option<u8>,
    Option<(usize, u8, u8)>,
)
    decreases chars.len(),
{
    if chars.len() == 0 {
        (data, sel, nibble, None)
    } else {
        let (d, s, n, last) = typed_edits(data, sel, nibble, chars.drop_last());
        match (s, nibble_of(chars.last())) {
            (Some(o), Some(v)) => if o < d.len() {
                match n {
                    Some(h) => {
                        let nb = combined_byte(h, v);
                        (
                            d.update(o as int, nb),
                            if o + 1 < d.len() { Some((o + 1) as usize) } else { s },
                            None,
                            Some((o, d[o as int], nb)),
                        )
                    },
                    None => (d, s, Some(v), last),
                }
            } else {
                (d, s, n, last)
            },
            _ => (d, s, n, last),
        }
    }
}

/// The selection lies inside data of length `len`, and a pending nibble is
/// a nibble.
pub open spec fn hex_in_bounds(len: int, sel: Option<usize>, nibble: Option<u8>) -> bool {
    &&& sel matches Some(o) ==> o < len
    &&& nibble matches Some(v) ==> v <= 15
}

/// An arrow moves the selection only to another byte of the data.
pub proof fn lemma_arrow_in_bounds(sel: int, len: int, bpr: int, left: bool, right: bool, up: bool, down: bool)
    requires
        0 <= sel < len,
        0 <= bpr,
    ensures
        arrow_target(sel, len, bpr, left, right, up, down) matches Some(t) ==> 0 <= t < len,
{
}

/// Typing hex digits keeps the data's length, keeps the selection inside the
/// data and a pending nibble at most 15, and its last edit writes its new
/// byte at an offset inside the data.
pub proof fn lemma_typed_edits_in_bounds(data: Seq<u8>, sel: Option<usize>, nibble: Option<u8>, chars: Seq<char>)
    requires
        hex_in_bounds(data.len() as int, sel, nibble),
    ensures
        ({
            let (d, s, n, last) = typed_edits(data, sel, nibble, chars);
            &&& d.len() == data.len()
            &&& hex_in_bounds(data.len() as int, s, n)
            &&& last matches Some((o, ob, nb)) ==> o < d.len() && d[o as int] == nb
        }),
    decreases chars.len(),
{
    if chars.len() > 0 {
        lemma_typed_edits_in_bounds(data, sel, nibble, chars.drop_last());
    }
}

impl HexEditor {
    /// Reacts to one frame's keys: Escape drops a pending nibble and closes
    /// the dialog; Ctrl+G opens the dialog with an empty input; an arrow moves
    /// the selection (dropping a pending nibble); typed hex digits edit bytes
    /// while the dialog is closed. Returns the last byte edit and, when an
    /// arrow moved the selection, where to.
    #[verifier::rlimit(50)]
    pub fn handle_keys(&mut self, keys: &HexKeys) -> (r: (HexAction, Option<usize>))
        ensures
            final(self).active == old(self).active,
            final(self).bytes_per_row == old(self).bytes_per_row,
            final(self).go_to_offset_open == ((old(self).go_to_offset_open && !keys.escape) || keys.go_to_offset),
            final(self).go_to_offset_input@ == if keys.go_to_offset && !(old(self).go_to_offset_open && !keys.escape) {
                Seq::<char>::empty()
            } else {
                old(self).go_to_offset_input@
            },
            ({
                let nib0 = if keys.escape {
                    None
                } else {
                    old(self).editing_nibble
                };
                let moved = match old(self).selected_offset {
                    Some(sel) => arrow_target(
                        sel as int,
                        old(self).data@.len() as int,
                        old(self).bytes_per_row as int,
                        keys.left,
                        keys.right,
                        keys.up,
                        keys.down,
                    ),
                    None => None,
                };
                let sel1 = match moved {
                    Some(t) => Some(t as usize),
                    None => old(self).selected_offset,
                };
                let nib1 = if moved is Some {
                    None
                } else {
                    nib0
                };
                &&& r.1 == match moved {
                    Some(t) => Some(t as usize),
                    None => None,
                }
                &&& if final(self).go_to_offset_open {
                    &&& final(self).data@ == old(self).data@
                    &&& final(self).selected_offset == sel1
                    &&& final(self).editing_nibble == nib1
                    &&& r.0 is NoAction
                } else {
                    let (d, s, n, last) = typed_edits(old(self).data@, sel1, nib1, keys.typed@);
                    &&& final(self).data@ == d
                    &&& final(self).selected_offset == s
                    &&& final(self).editing_nibble == n
                    &&& match last {
                        Some((o, ob, nb)) => r.0 == HexAction::EditByte { offset: o, old_byte: ob, new_byte: nb },
                        None => r.0 is NoAction,
                    }
                }
            }),
            hex_in_bounds(old(self).data@.len() as int, old(self).selected_offset, old(self).editing_nibble)
                ==> {
                &&& final(self).data@.len() == old(self).data@.len()
                &&& hex_in_bounds(old(self).data@.len() as int, final(self).selected_offset, final(self).editing_nibble)
                &&& r.0 matches HexAction::EditByte { offset, new_byte, .. } ==> offset < final(self).data@.len()
                    && final(self).data@[offset as int] == new_byte
                &&& r.1 matches Some(t) ==> t < old(self).data@.len()
            },
    {
        let ghost in_bounds = hex_in_bounds(self.data@.len() as int, self.selected_offset, self.editing_nibble);
        if keys.escape {
            self.editing_nibble = None;
            if self.go_to_offset_open {
                self.go_to_offset_open = false;
            }
        }
        if keys.go_to_offset && !self.go_to_offset_open {
            self.go_to_offset_open = true;
            self.go_to_offset_input = String::new();
        }
        let mut moved: Option<usize> = None;
        if let Some(sel) = self.selected_offset {
            let bpr = self.bytes_per_row;
            let len = self.data.len();
            let new_sel = if keys.left && sel > 0 {
                Some(sel - 1)
            } else if keys.right && sel < len && 1 < len - sel {
                Some(sel + 1)
            } else if keys.up && sel >= bpr {
                Some(sel - bpr)
            } else if keys.down && sel < len && bpr < len - sel {
                Some(sel + bpr)
            } else {
                None
            };
            if let Some(ns) = new_sel {
                self.selected_offset = Some(ns);
                self.editing_nibble = None;
                moved = Some(ns);
            }
        }
        assert(in_bounds ==> hex_in_bounds(self.data@.len() as int, self.selected_offset, self.editing_nibble));
        let mut action = HexAction::NoAction;
        if !self.go_to_offset_open {
            let ghost d0 = self.data@;
            let ghost s0 = self.selected_offset;
            let ghost n0 = self.editing_nibble;
            let ghost input0 = self.go_to_offset_input@;
            let n = keys.typed.len();
            assert(keys.typed@.take(0) =~= Seq::<char>::empty());
            for i in 0..n
                invariant
                    n == keys.typed@.len(),
                    self.active == old(self).active,
                    self.bytes_per_row == old(self).bytes_per_row,
                    self.go_to_offset_open == false,
                    self.go_to_offset_input@ == input0,
                    ({
                        let (d, s, nb, last) = typed_edits(d0, s0, n0, keys.typed@.take(i as int));
                        &&& self.data@ == d
                        &&& self.selected_offset == s
                        &&& self.editing_nibble == nb
                        &&& match last {
                            Some((o, ob, b)) => action == HexAction::EditByte { offset: o, old_byte: ob, new_byte: b },
                            None => action is NoAction,
                        }
                    }),
            {
                assert(keys.typed@.take(i + 1).drop_last() =~= keys.typed@.take(i as int));
                let ch = keys.typed[i];
                let v = hex_digit_value(ch);
                assert(v == nibble_of(ch));
                if let (Some(sel), Some(nibble_val)) = (self.selected_offset, v) {
                    if sel < self.data.len() {
                        if let Some(high_nibble) = self.editing_nibble {
                            let old_byte = self.data[sel];
                            let new_byte: u8 = (high_nibble << 4u8) | nibble_val;
                            self.data.set(sel, new_byte);
                            self.editing_nibble = None;
                            action = HexAction::EditByte { offset: sel, old_byte, new_byte };
                            if sel < self.data.len() && 1 < self.data.len() - sel {
                                self.selected_offset = Some(sel + 1);
                            }
                        } else {
                            self.editing_nibble = Some(nibble_val);
                        }
                    }
                }
            }
            assert(keys.typed@.take(n as int) =~= keys.typed@);
            proof {
                if in_bounds {
                    lemma_typed_edits_in_bounds(d0, s0, n0, keys.typed@);
                }
            }
        }
        (action, moved)
    }
}

/// The number of rows the data fills.
pub open spec fn row_count(len: nat, bpr: nat) -> nat {
    if len == 0 {
        0
    } else {
        ((len - 1) / (bpr as int) + 1) as nat
    }
}

/// The hex column text of the byte `off` shown at column `i` of its row:
/// two digits and a space, the pending nibble and `_` while the selected
/// byte is edited, blanks past the data; a space in front of the ninth.
pub open spec fn hex_cell(data: Seq<u8>, sel: Option<usize>, nibble: Option<u8>, off: int, i: int) -> Seq<char> {
    let gap = if i == 8 {
        seq![' ']
    } else {
        Seq::empty()
    };
    gap + if off < data.len() {
        if sel == Some(off as usize) && nibble is Some {
            hexadecimal(nibble->0 as nat).push('_')
        } else {
            zero_padded(hexadecimal(data[off] as nat), 2).push(' ')
        }
    } else {
        seq![' ', ' ', ' ']
    }
}

/// The character the ASCII column shows for a byte: itself when printable
/// (space included), else `.`.
pub open spec fn ascii_cell(b: u8) -> char {
    if 0x20 <= b <= 0x7e {
        b as char
    } else {
        '.'
    }
}

/// The hex column text of the first `k` columns of the row starting at
/// `base`.
pub open spec fn hex_cells(data: Seq<u8>, sel: Option<usize>, nibble: Option<u8>, base: int, k: int) -> Seq<char>
    decreases k,
{
    if k <= 0 {
        Seq::empty()
    } else {
        hex_cells(data, sel, nibble, base, k - 1) + hex_cell(data, sel, nibble, base + k - 1, k - 1)
    }
}

/// The ASCII column text of the first `k` columns of the row starting at
/// `base` (blanks past the data).
pub open spec fn ascii_cells(data: Seq<u8>, base: int, k: int) -> Seq<char>
    decreases k,
{
    if k <= 0 {
        Seq::empty()
    } else {
        ascii_cells(data, base, k - 1).push(
            if base + k - 1 < data.len() {
                ascii_cell(data[base + k - 1])
            } else {
                ' '
            },
        )
    }
}

impl HexEditor {
    /// The number of rows the data fills.
    pub fn total_rows(&self) -> (r: usize)
        requires
            self.data@.len() > 0 ==> self.bytes_per_row > 0,
        ensures
            r == row_count(self.data@.len(), self.bytes_per_row as nat),
    {
        let len = self.data.len();
        if len == 0 {
            0
        } else {
            (len - 1) / self.bytes_per_row + 1
        }
    }

    /// The offset column text of a row: its first offset in upper-case hex,
    /// at least eight digits.
    pub fn offset_label(&self, row: usize) -> (r: String)
        requires
            row * self.bytes_per_row <= u64::MAX,
        ensures
            r@ == zero_padded(hexadecimal((row * self.bytes_per_row) as nat), 8),
    {
        let mut t = String::new();
        proof {
            vstd::arithmetic::mul::lemma_mul_nonnegative(row as int, self.bytes_per_row as int);
        }
        let off = row as u64 * self.bytes_per_row as u64;
        push_hex(&mut t, off, 8);
        t
    }

    /// The hex and ASCII column texts of a row.
    pub fn row_text(&self, row: usize) -> (r: (String, String))
        requires
            (row + 1) * self.bytes_per_row <= usize::MAX,
        ensures
            r.0@ == hex_cells(
                self.data@,
                self.selected_offset,
                self.editing_nibble,
                row * self.bytes_per_row,
                self.bytes_per_row as int,
            ),
            r.1@ == ascii_cells(self.data@, row * self.bytes_per_row, self.bytes_per_row as int),
    {
        let bpr = self.bytes_per_row;
        proof {
            vstd::arithmetic::mul::lemma_mul_is_distributive_add_other_way(bpr as int, row as int, 1);
            vstd::arithmetic::mul::lemma_mul_nonnegative(row as int, bpr as int);
        }
        let base = row * bpr;
        let len = self.data.len();
        let mut hex = String::new();
        let mut ascii = String::new();
        for i in 0..bpr
            invariant
                bpr == self.bytes_per_row,
                base == row * bpr,
                base + bpr <= usize::MAX,
                len == self.data@.len(),
                hex@ == hex_cells(self.data@, self.selected_offset, self.editing_nibble, base as int, i as int),
                ascii@ == ascii_cells(self.data@, base as int, i as int),
        {
            let off = base + i;
            let ghost before = hex@;
            if i == 8 {
                push_char(&mut hex, ' ');
            }
            let ghost gapped = hex@;
            if off < len {
                let b = self.data[off];
                let editing = match (self.selected_offset, self.editing_nibble) {
                    (Some(sel), Some(h)) => if sel == off {
                        Some(h)
                    } else {
                        None
                    },
                    _ => None,
                };
                match editing {
                    Some(h) => {
                        push_hex(&mut hex, h as u64, 0);
                        push_char(&mut hex, '_');
                        assert(zero_padded(hexadecimal(h as nat), 0) =~= hexadecimal(h as nat));
                    },
                    None => {
                        push_hex(&mut hex, b as u64, 2);
                        push_char(&mut hex, ' ');
                    },
                }
                let shown = if 0x20 <= b && b <= 0x7e {
                    b as char
                } else {
                    '.'
                };
                push_char(&mut ascii, shown);
            } else {
                push_all(&mut hex, "   ");
                push_char(&mut ascii, ' ');
                proof {
                    reveal_strlit("   ");
                }
            }
            assert(hex@ =~= before + hex_cell(
                self.data@,
                self.selected_offset,
                self.editing_nibble,
                off as int,
                i as int,
            ));
        }
        (hex, ascii)
    }

    /// The status line under the bytes: the size and row count, and the
    /// selected offset (hex and decimal, marked while a byte is edited).
    pub fn info_text(&self) -> (r: String)
        requires
            self.data@.len() > 0 ==> self.bytes_per_row > 0,
        ensures
            r@ == match self.selected_offset {
                Some(sel) => decimal(self.data@.len()) + " bytes ("@ + decimal(
                    row_count(self.data@.len(), self.bytes_per_row as nat),
                ) + " rows) | Offset: 0x"@ + hexadecimal(sel as nat) + " ("@ + decimal(sel as nat)
                    + ")"@ + (if self.editing_nibble is Some {
                    " [editing]"@
                } else {
                    ""@
                }) + "  |  Ctrl+G: Go to offset"@,
                None => decimal(self.data@.len()) + " bytes ("@ + decimal(
                    row_count(self.data@.len(), self.bytes_per_row as nat),
                ) + " rows)  |  Ctrl+G: Go to offset"@,
            },
    {
        let rows = self.total_rows();
        let mut t = String::new();
        push_decimal(&mut t, self.data.len() as u64, 0);
        push_all(&mut t, " bytes (");
        push_decimal(&mut t, rows as u64, 0);
        match self.selected_offset {
            Some(sel) => {
                push_all(&mut t, " rows) | Offset: 0x");
                push_hex(&mut t, sel as u64, 0);
                push_all(&mut t, " (");
                push_decimal(&mut t, sel as u64, 0);
                push_all(&mut t, ")");
                if self.editing_nibble.is_some() {
                    push_all(&mut t, " [editing]");
                } else {
                    proof {
                        reveal_strlit("");
                        assert(t@ =~= t@ + ""@);
                    }
                }
                push_all(&mut t, "  |  Ctrl+G: Go to offset");
                assert(zero_padded(hexadecimal(sel as nat), 0) =~= hexadecimal(sel as nat));
            },
            None => {
                push_all(&mut t, " rows)  |  Ctrl+G: Go to offset");
            },
        }
        assert(zero_padded(decimal(self.data@.len()), 0) =~= decimal(self.data@.len()));
        assert(zero_padded(decimal(rows as nat), 0) =~= decimal(rows as nat));
        t
    }
}

/// The byte under a click in the hex column: `hex_col` counts character
/// cells from the column's left edge (three per byte, one more between the
/// eighth and ninth); none outside the bytes of the row or past the data.
pub open spec fn clicked_offset(row: int, hex_col: int, bpr: int, len: int) -> Option<int> {
    let adjusted = if hex_col >= 25 {
        hex_col - 1
    } else {
        hex_col
    };
    let byte_in_row = adjusted / 3;
    if hex_col < 50 && byte_in_row < bpr && row * bpr + byte_in_row < len {
        Some(row * bpr + byte_in_row)
    } else {
        None
    }
}

impl HexEditor {
    /// Selects the byte under a click in row `row` (counted from the top of
    /// the data) at character cell `hex_col` of the hex column, dropping a
    /// pending nibble; nothing changes when no byte is there.
    pub fn click_hex(&mut self, row: usize, hex_col: usize) -> (r: Option<usize>)
        ensures
            r == match clicked_offset(
                row as int,
                hex_col as int,
                old(self).bytes_per_row as int,
                old(self).data@.len() as int,
            ) {
                Some(o) => Some(o as usize),
                None => None,
            },
            r matches Some(o) ==> final(self).selected_offset == Some(o) && final(self).editing_nibble is None,
            r is None ==> final(self).selected_offset == old(self).selected_offset && final(self).editing_nibble
                == old(self).editing_nibble,
            final(self).data == old(self).data,
            final(self).bytes_per_row == old(self).bytes_per_row,
            final(self).active == old(self).active,
            final(self).go_to_offset_open == old(self).go_to_offset_open,
            final(self).go_to_offset_input == old(self).go_to_offset_input,
    {
        if hex_col >= 50 {
            return None;
        }
        let adjusted = if hex_col >= 25 {
            hex_col - 1
        } else {
            hex_col
        };
        let byte_in_row = adjusted / 3;
        let bpr = self.bytes_per_row;
        if byte_in_row >= bpr {
            return None;
        }
        let len = self.data.len();
        proof {
            vstd::arithmetic::mul::lemma_mul_nonnegative(row as int, bpr as int);
        }
        let start = row.checked_mul(bpr);
        match start {
            Some(b) => {
                if b < len && byte_in_row < len - b {
                    let o = b + byte_in_row;
                    self.selected_offset = Some(o);
                    self.editing_nibble = None;
                    Some(o)
                } else {
                    None
                }
            },
            None => None,
        }
    }

    /// Confirms the go-to-offset input: an offset inside the data (as
    /// `parse_offset` reads the input) becomes the selection, dropping a
    /// pending nibble; the dialog closes either way. Returns the offset
    /// selected.
    pub fn confirm_go_to_offset(&mut self) -> (r: Option<usize>)
        ensures
            r == match offset_value(old(self).go_to_offset_input@) {
                Some(o) => if o < old(self).data@.len() {
                    Some(o)
                } else {
                    None
                },
                None => None,
            },
            r matches Some(o) ==> final(self).selected_offset == Some(o) && final(self).editing_nibble is None,
            r is None ==> final(self).selected_offset == old(self).selected_offset && final(self).editing_nibble
                == old(self).editing_nibble,
            !final(self).go_to_offset_open,
            final(self).go_to_offset_input == old(self).go_to_offset_input,
            final(self).data == old(self).data,
            final(self).bytes_per_row == old(self).bytes_per_row,
            final(self).active == old(self).active,
    {
        let mut r: Option<usize> = None;
        if let Some(offset) = parse_offset(self.go_to_offset_input.as_str()) {
            if offset < self.data.len() {
                self.selected_offset = Some(offset);
                self.editing_nibble = None;
                r = Some(offset);
            }
        }
        self.go_to_offset_open = false;
        r
    }
}

} // verus!
