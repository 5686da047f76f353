//! Text logic of the editor view: matching brackets and the word under the
//! cursor, on a document's characters and character offsets.

use vstd::prelude::*;
use crate::autocomplete::{is_word_char, word_char};

verus! {

/// A bracket character.
pub open spec fn is_bracket_char(c: char) -> bool {
    c == '(' || c == ')' || c == '[' || c == ']' || c == '{' || c == '}'
}

/// Whether `c` is one of `()[]{}`.
pub fn is_bracket(c: char) -> (r: bool)
    ensures
        r == is_bracket_char(c),
{
    c == '(' || c == ')' || c == '[' || c == ']' || c == '{' || c == '}'
}

/// The offset of the bracket to match for the cursor at `offset`: the
/// character at the cursor when it is a bracket, else the one before it.
pub open spec fn bracket_at_cursor(text: Seq<char>, offset: int) -> Option<int> {
    if offset < text.len() && is_bracket_char(text[offset]) {
        Some(offset)
    } else if offset > 0 && is_bracket_char(text[offset - 1]) {
        Some(offset - 1)
    } else {
        None
    }
}

/// The (opening, closing) pair a bracket belongs to.
pub open spec fn pair_of(c: char) -> (char, char) {
    if c == '(' || c == ')' {
        ('(', ')')
    } else if c == '[' || c == ']' {
        ('[', ']')
    } else {
        ('{', '}')
    }
}

/// Openings minus closings of the pair among `text[from..to]`.
pub open spec fn nesting(text: Seq<char>, from: int, to: int, open: char, close: char) -> int
    decreases to - from,
{
    if to <= from {
        0
    } else {
        nesting(text, from, to - 1, open, close) + (if text[to - 1] == open {
            1int
        } else {
            0
        }) - (if text[to - 1] == close {
            1int
        } else {
            0
        })
    }
}

/// Openings minus closings of the pair among `text[from..to]`, counted from
/// the end.
pub open spec fn nesting_back(text: Seq<char>, from: int, to: int, open: char, close: char) -> int
    decreases to - from,
{
    if to <= from {
        0
    } else {
        nesting_back(text, from + 1, to, open, close) + (if text[from] == close {
            1int
        } else {
            0
        }) - (if text[from] == open {
            1int
        } else {
            0
        })
    }
}

/// The pair of the bracket at `s` is not balanced over `text[s..e]`.
pub open spec fn open_run(text: Seq<char>, s: int, e: int) -> bool {
    nesting(text, s, e, pair_of(text[s]).0, pair_of(text[s]).1) != 0
}

/// The pair of the bracket at `s` is not balanced over `text[b..=s]`.
pub open spec fn close_run(text: Seq<char>, b: int, s: int) -> bool {
    nesting_back(text, b, s + 1, pair_of(text[s]).0, pair_of(text[s]).1) != 0
}

/// `j` is the match of the bracket at `s`: for an opening bracket the first
/// offset after which the pair is balanced again, for a closing one the last
/// offset from which it is.
pub open spec fn matches_bracket(text: Seq<char>, s: int, j: int) -> bool {
    let (open, close) = pair_of(text[s]);
    if text[s] == open {
        &&& s <= j < text.len()
        &&& nesting(text, s, j + 1, open, close) == 0
        &&& forall|e: int| s < e <= j ==> #[trigger] open_run(text, s, e)
    } else {
        &&& 0 <= j <= s
        &&& nesting_back(text, j, s + 1, open, close) == 0
        &&& forall|b: int| j < b <= s ==> #[trigger] close_run(text, b, s)
    }
}

/// The offset of the bracket that matches the one at or before the cursor
/// at `offset` (see `bracket_at_cursor`), if it has one.
pub fn find_matching_bracket(text: &[char], offset: usize) -> (r: Option<usize>)
    requires
        offset <= text@.len(),
        text@.len() <= i32::MAX,
    ensures
        match r {
            Some(j) => bracket_at_cursor(text@, offset as int) matches Some(s) && matches_bracket(
                text@,
                s,
                j as int,
            ),
            None => bracket_at_cursor(text@, offset as int) matches Some(s) ==> forall|j: int|
                !matches_bracket(text@, s, j),
        },
{
    let total = text.len();
    let check: usize;
    if offset < total && is_bracket(text[offset]) {
        check = offset;
    } else if offset > 0 && is_bracket(text[offset - 1]) {
        check = offset - 1;
    } else {
        return None;
    }
    let ch = text[check];
    let (open, close, forward) = if ch == '(' {
        ('(', ')', true)
    } else if ch == '[' {
        ('[', ']', true)
    } else if ch == '{' {
        ('{', '}', true)
    } else if ch == ')' {
        ('(', ')', false)
    } else if ch == ']' {
        ('[', ']', false)
    } else {
        ('{', '}', false)
    };
    let ghost s = check as int;
    assert(pair_of(text@[s]) == (open, close));
    let mut depth: i32 = 0;
    if forward {
        let mut i = check;
        while i < total
            invariant
                0 <= s < total,
                s <= i <= total,
                bracket_at_cursor(text@, offset as int) == Some(s),
                total == text@.len(),
                total <= i32::MAX,
                text@[s] == open,
                pair_of(text@[s]) == (open, close),
                depth == nesting(text@, s, i as int, open, close),
                -(i - s) <= depth <= i - s,
                forall|e: int| s < e <= i ==> #[trigger] open_run(text@, s, e),
            decreases total - i,
        {
            let c = text[i];
            if c == open {
                depth += 1;
            }
            if c == close {
                depth -= 1;
            }
            if depth == 0 {
                return Some(i);
            }
            i = i + 1;
        }
        proof {
            assert forall|j: int| !matches_bracket(text@, s, j) by {
                if s <= j < text@.len() {
                    assert(open_run(text@, s, j + 1));
                }
            }
        }
    } else {
        let mut i: usize = check + 1;
        while i > 0
            invariant
                0 <= i <= s + 1,
                0 <= s < total,
                bracket_at_cursor(text@, offset as int) == Some(s),
                total == text@.len(),
                total <= i32::MAX,
                text@[s] == close,
                text@[s] != open,
                pair_of(text@[s]) == (open, close),
                depth == nesting_back(text@, i as int, s + 1, open, close),
                -(s + 1 - i) <= depth <= s + 1 - i,
                forall|b: int| i <= b <= s ==> #[trigger] close_run(text@, b, s),
            decreases i,
        {
            let c = text[i - 1];
            if c == close {
                depth += 1;
            }
            if c == open {
                depth -= 1;
            }
            if depth == 0 {
                return Some(i - 1);
            }
            i = i - 1;
        }
        proof {
            assert forall|j: int| !matches_bracket(text@, s, j) by {
                if 0 <= j <= s {
                    assert(close_run(text@, j, s));
                }
            }
        }
    }
    None
}

/// The word (run of word characters) around offset `offset` of `text`, as
/// a range: the cursor is taken at the last character when past it, and an
/// empty range at the cursor when its character is not a word character.
pub open spec fn word_range_ok(text: Seq<char>, offset: int, start: int, end: int) -> bool {
    let at = if offset < text.len() - 1 {
        offset
    } else {
        text.len() - 1
    };
    if text.len() == 0 || !is_word_char(text[at]) {
        start == end
    } else {
        &&& 0 <= start <= at < end <= text.len()
        &&& forall|k: int| start <= k < end ==> is_word_char(#[trigger] text[k])
        &&& (start == 0 || !is_word_char(text[start - 1]))
        &&& (end == text.len() || !is_word_char(text[end]))
    }
}

/// The range of the word under the cursor at `offset` (empty when there is
/// none).
pub fn word_range_at(text: &[char], offset: usize) -> (r: (usize, usize))
    ensures
        word_range_ok(text@, offset as int, r.0 as int, r.1 as int),
        r.0 <= r.1 <= text@.len(),
{
    let total = text.len();
    if total == 0 {
        return (0, 0);
    }
    let at = if offset < total - 1 {
        offset
    } else {
        total - 1
    };
    if !word_char(text[at]) {
        return (0, 0);
    }
    let mut start = at;
    while start > 0 && word_char(text[start - 1])
        invariant
            start <= at < total,
            total == text@.len(),
            forall|k: int| start <= k <= at ==> is_word_char(#[trigger] text@[k]),
        decreases start,
    {
        start = start - 1;
    }
    let mut end = at;
    while end < total && word_char(text[end])
        invariant
            at <= end <= total,
            total == text@.len(),
            forall|k: int| at <= k < end ==> is_word_char(#[trigger] text@[k]),
        decreases total - end,
    {
        end = end + 1;
    }
    (start, end)
}

} // verus!
