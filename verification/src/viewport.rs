//! Editor geometry in rows and columns: the visual rows of the shown lines
//! (with word wrap), keeping the cursor in view, and the selections of a
//! block (column) selection.

use vstd::prelude::*;
use crate::text::{decimal, decimal_chars, push_char};
use crate::color::Rgba;

verus! {

/// A visual row in the editor, mapping a screen row to a logical line and
/// column offset. Without word wrap each line has one row at offset 0; with
/// it, long lines produce several.
#[derive(Debug, Clone, Copy, PartialEq, Eq, Structural)]
pub struct VisualRow {
    pub line_idx: usize,
    pub col_offset: usize,
    pub is_first: bool,
}

/// The visual rows of one line with `count` characters: one row at offset
/// 0 without wrap or for an empty line, else one every `wrap` columns.
pub open spec fn line_rows(line: usize, count: nat, word_wrap: bool, wrap: nat) -> Seq<VisualRow> {
    if !word_wrap || count == 0 {
        seq![VisualRow { line_idx: line, col_offset: 0, is_first: true }]
    } else {
        Seq::new(
            ((count - 1) as int / wrap as int + 1) as nat,
            |k: int| VisualRow { line_idx: line, col_offset: (k * wrap) as usize, is_first: k == 0 },
        )
    }
}

/// The visual rows of the shown lines, given as (line index, character
/// count) in display order.
pub open spec fn rows_of(lines: Seq<(usize, usize)>, word_wrap: bool, wrap: nat) -> Seq<VisualRow>
    decreases lines.len(),
{
    if lines.len() == 0 {
        Seq::empty()
    } else {
        rows_of(lines.drop_last(), word_wrap, wrap) + line_rows(
            lines.last().0,
            lines.last().1 as nat,
            word_wrap,
            wrap,
        )
    }
}

/// The visual rows of the shown lines (hidden folded lines are not given).
pub fn visual_rows(lines: &[(usize, usize)], word_wrap: bool, wrap_cols: usize) -> (r: Vec<VisualRow>)
    requires
        word_wrap ==> wrap_cols > 0,
    ensures
        r@ == rows_of(lines@, word_wrap, wrap_cols as nat),
{
    let mut rows: Vec<VisualRow> = Vec::new();
    let n = lines.len();
    assert(lines@.take(0) =~= Seq::<(usize, usize)>::empty());
    for i in 0..n
        invariant
            n == lines@.len(),
            word_wrap ==> wrap_cols > 0,
            rows@ == rows_of(lines@.take(i as int), word_wrap, wrap_cols as nat),
    {
        assert(lines@.take(i + 1).drop_last() =~= lines@.take(i as int));
        let (line_idx, count) = lines[i];
        let ghost before = rows@;
        let ghost want = line_rows(line_idx, count as nat, word_wrap, wrap_cols as nat);
        if !word_wrap || count == 0 {
            rows.push(VisualRow { line_idx, col_offset: 0, is_first: true });
            assert(rows@ =~= before + want);
        } else {
            let mut offset: usize = 0;
            let mut k: usize = 0;
            let ghost total = ((count - 1) as int / wrap_cols as int + 1) as nat;
            proof {
                vstd::arithmetic::div_mod::lemma_fundamental_div_mod((count - 1) as int, wrap_cols as int);
            }
            loop
                invariant_except_break
                    offset == k * wrap_cols,
                    offset < count,
                    k < total,
                    rows@ == before + want.take(k as int),
                invariant
                    wrap_cols > 0,
                    count > 0,
                    word_wrap,
                    total == ((count - 1) as int / wrap_cols as int + 1) as nat,
                    want == line_rows(line_idx, count as nat, word_wrap, wrap_cols as nat),
                ensures
                    rows@ == before + want,
                decreases count - offset,
            {
                rows.push(VisualRow { line_idx, col_offset: offset, is_first: k == 0 });
                assert(want.take(k + 1) =~= want.take(k as int).push(want[k as int]));
                if wrap_cols >= count - offset {
                    proof {
                        assert(k + 1 == total) by (nonlinear_arith)
                            requires
                                offset == k * wrap_cols,
                                wrap_cols >= count - offset,
                                offset < count,
                                total == (count - 1) / (wrap_cols as int) + 1,
                                wrap_cols > 0,
                        {
                            vstd::arithmetic::div_mod::lemma_fundamental_div_mod((count - 1) as int, wrap_cols as int);
                        }
                    }
                    assert(want.take(total as int) =~= want);
                    break;
                }
                proof {
                    assert(k + 1 < total) by (nonlinear_arith)
                        requires
                            offset == k * wrap_cols,
                            wrap_cols < count - offset,
                            total == (count - 1) / (wrap_cols as int) + 1,
                            wrap_cols > 0,
                    {
                        vstd::arithmetic::div_mod::lemma_fundamental_div_mod((count - 1) as int, wrap_cols as int);
                    }
                    assert((k + 1) * wrap_cols == k * wrap_cols + wrap_cols) by (nonlinear_arith);
                }
                offset = offset + wrap_cols;
                k = k + 1;
            }
        }
    }
    assert(lines@.take(n as int) =~= lines@);
    rows
}

/// Whether row `vr` shows column `col` of line `line` (rows `wrap` columns
/// wide).
pub open spec fn shows(vr: VisualRow, line: usize, col: usize, wrap: nat) -> bool {
    vr.line_idx == line && vr.col_offset <= col && col < vr.col_offset + wrap
}

/// The row lookups that find the cursor's row.
pub enum RowLookup {
    /// A row showing the cursor's column (without wrap: a row of its line).
    Cursor,
    /// A row of the cursor's line.
    Line,
    /// A row of the cursor's line or a later one.
    LineOrLater,
}

/// Whether a row answers the lookup for a cursor at `line`, `col`.
pub open spec fn row_hit(vr: VisualRow, q: RowLookup, line: usize, col: usize, word_wrap: bool, wrap: nat) -> bool {
    match q {
        RowLookup::Cursor => if word_wrap {
            shows(vr, line, col, wrap)
        } else {
            vr.line_idx == line
        },
        RowLookup::Line => vr.line_idx == line,
        RowLookup::LineOrLater => vr.line_idx >= line,
    }
}

/// Whether `i` is the first index of a row answering the lookup.
pub open spec fn first_hit(rows: Seq<VisualRow>, i: int, q: RowLookup, line: usize, col: usize, word_wrap: bool, wrap: nat) -> bool {
    &&& 0 <= i < rows.len()
    &&& row_hit(rows[i], q, line, col, word_wrap, wrap)
    &&& forall|j: int| 0 <= j < i ==> !row_hit(#[trigger] rows[j], q, line, col, word_wrap, wrap)
}

/// Whether `i` is the last index of a row answering the lookup.
pub open spec fn last_hit(rows: Seq<VisualRow>, i: int, q: RowLookup, line: usize, col: usize, word_wrap: bool, wrap: nat) -> bool {
    &&& 0 <= i < rows.len()
    &&& row_hit(rows[i], q, line, col, word_wrap, wrap)
    &&& forall|j: int| i < j < rows.len() ==> !row_hit(#[trigger] rows[j], q, line, col, word_wrap, wrap)
}

/// Whether some row answers the lookup.
pub open spec fn any_hit(rows: Seq<VisualRow>, q: RowLookup, line: usize, col: usize, word_wrap: bool, wrap: nat) -> bool {
    exists|j: int| 0 <= j < rows.len() && row_hit(#[trigger] rows[j], q, line, col, word_wrap, wrap)
}

/// The visual row of the cursor: the first row showing its column (without
/// wrap, the first row of its line); with wrap, past the line's last column,
/// the line's last row; on a hidden line, the first row of a later line;
/// else the last row.
pub open spec fn cursor_row_ok(rows: Seq<VisualRow>, line: usize, col: usize, word_wrap: bool, wrap: nat, r: int) -> bool {
    if any_hit(rows, RowLookup::Cursor, line, col, word_wrap, wrap) {
        first_hit(rows, r, RowLookup::Cursor, line, col, word_wrap, wrap)
    } else if word_wrap && any_hit(rows, RowLookup::Line, line, col, word_wrap, wrap) {
        last_hit(rows, r, RowLookup::Line, line, col, word_wrap, wrap)
    } else if any_hit(rows, RowLookup::LineOrLater, line, col, word_wrap, wrap) {
        first_hit(rows, r, RowLookup::LineOrLater, line, col, word_wrap, wrap)
    } else {
        r == if rows.len() > 0 { rows.len() - 1 } else { 0 }
    }
}

/// The first row answering the lookup.
fn find_first(rows: &[VisualRow], q: RowLookup, line: usize, col: usize, word_wrap: bool, wrap_cols: usize) -> (r: Option<usize>)
    ensures
        match r {
            Some(i) => first_hit(rows@, i as int, q, line, col, word_wrap, wrap_cols as nat),
            None => !any_hit(rows@, q, line, col, word_wrap, wrap_cols as nat),
        },
{
    for i in 0..rows.len()
        invariant
            forall|j: int| 0 <= j < i ==> !row_hit(#[trigger] rows@[j], q, line, col, word_wrap, wrap_cols as nat),
    {
        let vr = rows[i];
        let hit = match q {
            RowLookup::Cursor => if word_wrap {
                vr.line_idx == line && vr.col_offset <= col && col - vr.col_offset < wrap_cols
            } else {
                vr.line_idx == line
            },
            RowLookup::Line => vr.line_idx == line,
            RowLookup::LineOrLater => vr.line_idx >= line,
        };
        assert(hit == row_hit(rows@[i as int], q, line, col, word_wrap, wrap_cols as nat));
        if hit {
            return Some(i);
        }
    }
    None
}

/// The cursor's visual row among `rows` (see `cursor_row_ok`).
pub fn cursor_visual_row(rows: &[VisualRow], line: usize, col: usize, word_wrap: bool, wrap_cols: usize) -> (r: usize)
    ensures
        cursor_row_ok(rows@, line, col, word_wrap, wrap_cols as nat, r as int),
{
    if let Some(i) = find_first(rows, RowLookup::Cursor, line, col, word_wrap, wrap_cols) {
        return i;
    }
    if word_wrap {
        let mut i = rows.len();
        while i > 0
            invariant
                i <= rows@.len(),
                word_wrap,
                !any_hit(rows@, RowLookup::Cursor, line, col, word_wrap, wrap_cols as nat),
                forall|j: int|
                    i <= j < rows@.len() ==> !row_hit(#[trigger] rows@[j], RowLookup::Line, line, col, word_wrap, wrap_cols as nat),
            decreases i,
        {
            if rows[i - 1].line_idx == line {
                assert(last_hit(rows@, i - 1, RowLookup::Line, line, col, word_wrap, wrap_cols as nat));
                return i - 1;
            }
            i = i - 1;
        }
    }
    if let Some(i) = find_first(rows, RowLookup::LineOrLater, line, col, word_wrap, wrap_cols) {
        return i;
    }
    if rows.len() > 0 {
        rows.len() - 1
    } else {
        0
    }
}

/// The scroll position after keeping the cursor in view: three rows of
/// margin above and below, and without wrap two columns left and five right
/// of an 80-column view (arithmetic saturating at 0).
pub open spec fn scrolled(
    cursor_row: int,
    cursor_col: int,
    word_wrap: bool,
    visible: int,
    scroll_line: int,
    scroll_col: int,
) -> (int, int) {
    let below = if visible >= 3 { visible - 3 } else { 0 };
    let line = if cursor_row < scroll_line + 3 {
        if cursor_row >= 3 { cursor_row - 3 } else { 0 }
    } else if cursor_row >= scroll_line + below {
        let keep = if visible >= 4 { visible - 4 } else { 0 };
        if cursor_row >= keep { cursor_row - keep } else { 0 }
    } else {
        scroll_line
    };
    let col = if word_wrap {
        scroll_col
    } else if cursor_col < scroll_col + 2 {
        if cursor_col >= 2 { cursor_col - 2 } else { 0 }
    } else if cursor_col >= scroll_col + 80 {
        cursor_col - 75
    } else {
        scroll_col
    };
    (line, col)
}

/// The first shown row and column after keeping the cursor (at visual row
/// `cursor_row`, column `cursor_col`) in a view of `visible` rows.
pub fn scroll_to_cursor(
    cursor_row: usize,
    cursor_col: usize,
    word_wrap: bool,
    visible: usize,
    scroll_line: usize,
    scroll_col: usize,
) -> (r: (usize, usize))
    ensures
        (r.0 as int, r.1 as int) == scrolled(
            cursor_row as int,
            cursor_col as int,
            word_wrap,
            visible as int,
            scroll_line as int,
            scroll_col as int,
        ),
{
    let below = visible.saturating_sub(3);
    let line = if cursor_row < 3 || cursor_row - 3 < scroll_line {
        cursor_row.saturating_sub(3)
    } else if cursor_row >= scroll_line && cursor_row - scroll_line >= below {
        cursor_row.saturating_sub(visible.saturating_sub(4))
    } else {
        scroll_line
    };
    let col = if word_wrap {
        scroll_col
    } else if cursor_col < 2 || cursor_col - 2 < scroll_col {
        cursor_col.saturating_sub(2)
    } else if cursor_col >= scroll_col && cursor_col - scroll_col >= 80 {
        cursor_col - 75
    } else {
        scroll_col
    };
    (line, col)
}

/// The selections of a block selection between two corners: on each line
/// of the block that exists, from the left to the right column, each
/// clamped to the line's length; as (line, anchor column, cursor column).
pub fn block_selections(start: (usize, usize), end: (usize, usize), line_lens: &[usize]) -> (r: Vec<(usize, usize, usize)>)
    ensures
        ({
            let lo = if start.0 <= end.0 { start.0 } else { end.0 };
            let hi = if start.0 <= end.0 { end.0 } else { start.0 };
            let cl = if start.1 <= end.1 { start.1 } else { end.1 };
            let ch = if start.1 <= end.1 { end.1 } else { start.1 };
            let stop = if hi + 1 <= line_lens@.len() { hi + 1 } else { line_lens@.len() as int };
            &&& r@.len() == if stop > lo { stop - lo } else { 0 }
            &&& forall|k: int|
                0 <= k < r@.len() ==> #[trigger] r@[k] == (
                    (lo + k) as usize,
                    if cl <= line_lens@[lo + k] { cl } else { line_lens@[lo + k] },
                    if ch <= line_lens@[lo + k] { ch } else { line_lens@[lo + k] },
                )
        }),
{
    let lo = if start.0 <= end.0 { start.0 } else { end.0 };
    let hi = if start.0 <= end.0 { end.0 } else { start.0 };
    let cl = if start.1 <= end.1 { start.1 } else { end.1 };
    let ch = if start.1 <= end.1 { end.1 } else { start.1 };
    let n = line_lens.len();
    let mut r: Vec<(usize, usize, usize)> = Vec::new();
    let mut line = lo;
    while line < n && line <= hi
        invariant
            lo <= line,
            line <= hi + 1,
            line <= n || line == lo,
            n == line_lens@.len(),
            r@.len() == line - lo,
            forall|k: int|
                0 <= k < r@.len() ==> #[trigger] r@[k] == (
                    (lo + k) as usize,
                    if cl <= line_lens@[lo + k] { cl } else { line_lens@[lo + k] },
                    if ch <= line_lens@[lo + k] { ch } else { line_lens@[lo + k] },
                ),
        decreases n - line,
    {
        let len = line_lens[line];
        let a = if cl <= len { cl } else { len };
        let b = if ch <= len { ch } else { len };
        r.push((line, a, b));
        line = line + 1;
    }
    r
}

/// `s` with spaces in front up to `width` characters (what `{:>width$}`
/// writes).
pub open spec fn right_aligned(s: Seq<char>, width: nat) -> Seq<char> {
    if s.len() >= width {
        s
    } else {
        Seq::new((width - s.len()) as nat, |i: int| ' ') + s
    }
}

/// The width of the gutter's line numbers: the digits of the line count,
/// at least three.
pub fn gutter_digits(total_lines: usize) -> (r: usize)
    ensures
        r == if decimal(total_lines as nat).len() >= 3 { decimal(total_lines as nat).len() } else { 3 },
{
    let d = decimal_chars(total_lines as u64);
    if d.len() >= 3 {
        d.len()
    } else {
        3
    }
}

/// The gutter's label of line `line_idx` (0-based): its 1-based number,
/// right-aligned to `width`.
pub fn gutter_label(line_idx: usize, width: usize) -> (r: String)
    requires
        line_idx < usize::MAX,
    ensures
        r@ == right_aligned(decimal((line_idx + 1) as nat), width as nat),
{
    let d = decimal_chars((line_idx + 1) as u64);
    let mut out = String::new();
    let mut k = d.len();
    while k < width
        invariant
            d@.len() <= k,
            k <= width || k == d@.len(),
            out@ == Seq::new((k - d@.len()) as nat, |i: int| ' '),
        decreases width - k,
    {
        push_char(&mut out, ' ');
        assert(Seq::new((k + 1 - d@.len()) as nat, |i: int| ' ') =~= Seq::new((k - d@.len()) as nat, |i: int| ' ').push(' '));
        k = k + 1;
    }
    let ghost pad = out@;
    for i in 0..d.len()
        invariant
            out@ == pad + d@.take(i as int),
    {
        push_char(&mut out, d[i]);
        assert(d@.take(i + 1) =~= d@.take(i as int).push(d@[i as int]));
    }
    assert(d@.take(d@.len() as int) =~= d@);
    assert(right_aligned(d@, width as nat) =~= pad + d@);
    out
}

/// The color of character `i` of a line of `n` characters: that of the last
/// highlight span covering it (spans are clamped to the line), else the
/// default.
pub open spec fn span_color(spans: Seq<(usize, usize, Rgba)>, n: int, i: int, default: Rgba) -> Rgba
    decreases spans.len(),
{
    if spans.len() == 0 {
        default
    } else {
        let s = spans.last();
        let start = if s.0 <= n { s.0 as int } else { n };
        let end = if s.1 <= n { s.1 as int } else { n };
        if start <= i < end {
            s.2
        } else {
            span_color(spans.drop_last(), n, i, default)
        }
    }
}

/// Whether `runs` are the maximal runs of one color of characters `vs..ve`:
/// consecutive, non-empty, each of the color of its characters, neighbors of
/// different colors.
pub open spec fn color_runs_ok(
    spans: Seq<(usize, usize, Rgba)>,
    n: int,
    default: Rgba,
    vs: int,
    ve: int,
    runs: Seq<(usize, usize, Rgba)>,
) -> bool {
    &&& (runs.len() == 0) == (vs == ve)
    &&& runs.len() > 0 ==> runs[0].0 == vs && runs.last().1 == ve
    &&& forall|k: int| 0 <= k < runs.len() - 1 ==> (#[trigger] runs[k]).1 == runs[k + 1].0 && runs[k].2 != runs[k + 1].2
    &&& forall|k: int| 0 <= k < runs.len() ==> (#[trigger] runs[k]).0 < runs[k].1
    &&& forall|k: int, i: int|
        #![trigger runs[k], span_color(spans, n, i, default)]
        0 <= k < runs.len() && runs[k].0 <= i < runs[k].1 ==> span_color(spans, n, i, default) == runs[k].2
}

/// The shown characters of a line of `n` characters scrolled `scroll_col`
/// columns, at most `max_chars` of them when given.
pub open spec fn visible_range(n: int, scroll_col: int, max_chars: Option<usize>) -> (int, int) {
    let vs = if scroll_col <= n { scroll_col } else { n };
    let ve = match max_chars {
        Some(m) => if vs + m <= n { vs + m } else { n },
        None => n,
    };
    (vs, ve)
}

/// The runs of one color in which a highlighted line's shown characters are
/// drawn, as (first character, one past the last, color).
pub fn color_runs(
    n: usize,
    spans: &[(usize, usize, Rgba)],
    default: Rgba,
    scroll_col: usize,
    max_chars: Option<usize>,
) -> (r: Vec<(usize, usize, Rgba)>)
    ensures
        color_runs_ok(
            spans@,
            n as int,
            default,
            visible_range(n as int, scroll_col as int, max_chars).0,
            visible_range(n as int, scroll_col as int, max_chars).1,
            r@,
        ),
{
    let mut colors: Vec<Rgba> = Vec::new();
    for i in 0..n
        invariant
            colors@.len() == i,
            forall|j: int| 0 <= j < i ==> (#[trigger] colors@[j]) == default,
    {
        colors.push(default);
    }
    assert(spans@.take(0) =~= Seq::<(usize, usize, Rgba)>::empty());
    for t in 0..spans.len()
        invariant
            colors@.len() == n,
            forall|j: int| 0 <= j < n ==> (#[trigger] colors@[j]) == span_color(spans@.take(t as int), n as int, j, default),
    {
        let (s0, s1, c) = spans[t];
        let start = if s0 <= n { s0 } else { n };
        let end = if s1 <= n { s1 } else { n };
        let ghost prev = colors@;
        let ghost tk = spans@.take(t + 1);
        assert(tk.drop_last() =~= spans@.take(t as int));
        assert(tk.last() == spans@[t as int]);
        let mut j = start;
        while j < end
            invariant
                start <= j,
                start <= end ==> j <= end,
                start > end ==> j == start,
                end <= n,
                colors@.len() == n,
                prev.len() == n,
                forall|q: int| 0 <= q < n && !(start <= q < j) ==> (#[trigger] colors@[q]) == prev[q],
                forall|q: int| start <= q < j ==> (#[trigger] colors@[q]) == c,
            decreases end - j,
        {
            colors.set(j, c);
            j = j + 1;
        }
        assert forall|q: int| 0 <= q < n implies (#[trigger] colors@[q]) == span_color(tk, n as int, q, default) by {
            if start <= q < end {
                assert(colors@[q] == c);
            } else {
                assert(colors@[q] == prev[q]);
            }
        }
    }
    assert(spans@.take(spans@.len() as int) =~= spans@);
    let vs = if scroll_col <= n { scroll_col } else { n };
    let ve = match max_chars {
        Some(m) => if m <= n - vs { vs + m } else { n },
        None => n,
    };
    let mut runs: Vec<(usize, usize, Rgba)> = Vec::new();
    if vs == ve {
        return runs;
    }
    let mut run_start = vs;
    let mut current = colors[vs];
    let mut i = vs + 1;
    while i < ve
        invariant
            vs < ve <= n,
            colors@.len() == n,
            forall|j: int| 0 <= j < n ==> (#[trigger] colors@[j]) == span_color(spans@, n as int, j, default),
            vs <= run_start < i <= ve,
            current == colors@[run_start as int],
            forall|q: int| run_start <= q < i ==> (#[trigger] colors@[q]) == current,
            runs@.len() == 0 ==> run_start == vs,
            runs@.len() > 0 ==> runs@[0].0 == vs && runs@.last().1 == run_start && runs@.last().2 != current,
            forall|k: int| 0 <= k < runs@.len() - 1 ==> (#[trigger] runs@[k]).1 == runs@[k + 1].0 && runs@[k].2 != runs@[k + 1].2,
            forall|k: int| 0 <= k < runs@.len() ==> (#[trigger] runs@[k]).0 < runs@[k].1,
            forall|k: int, q: int|
                #![trigger runs@[k], span_color(spans@, n as int, q, default)]
                0 <= k < runs@.len() && runs@[k].0 <= q < runs@[k].1 ==> span_color(spans@, n as int, q, default) == runs@[k].2,
        decreases ve - i,
    {
        if colors[i] != current {
            proof {
                assert forall|q: int| run_start <= q < i implies span_color(spans@, n as int, q, default) == current by {
                    assert(colors@[q] == current);
                }
            }
            let ghost before = runs@;
            runs.push((run_start, i, current));
            proof {
                assert forall|k: int, q: int|
                    #![trigger runs@[k], span_color(spans@, n as int, q, default)]
                    0 <= k < runs@.len() && runs@[k].0 <= q < runs@[k].1 implies span_color(spans@, n as int, q, default)
                        == runs@[k].2 by {
                    if k < before.len() {
                        assert(runs@[k] == before[k]);
                    }
                }
            }
            run_start = i;
            current = colors[i];
        }
        i = i + 1;
    }
    proof {
        assert forall|q: int| run_start <= q < ve implies span_color(spans@, n as int, q, default) == current by {
            assert(colors@[q] == current);
        }
    }
    let ghost before = runs@;
    runs.push((run_start, ve, current));
    proof {
        assert forall|k: int, q: int|
            #![trigger runs@[k], span_color(spans@, n as int, q, default)]
            0 <= k < runs@.len() && runs@[k].0 <= q < runs@[k].1 implies span_color(spans@, n as int, q, default)
                == runs@[k].2 by {
            if k < before.len() {
                assert(runs@[k] == before[k]);
            }
        }
    }
    runs
}

/// The columns of a visual row that a selection from `from` to `to` (line,
/// column; `from` first) covers, as offsets from the row's start; none when
/// it covers none. The row ends at the line's end, or `wrap` columns on with
/// word wrap.
pub open spec fn row_selection_span(
    from: (usize, usize),
    to: (usize, usize),
    vr: VisualRow,
    line_len: int,
    word_wrap: bool,
    wrap: int,
) -> Option<(int, int)> {
    if vr.line_idx < from.0 || vr.line_idx > to.0 {
        None
    } else {
        let row_end = if word_wrap && vr.col_offset + wrap <= line_len { vr.col_offset + wrap } else { line_len };
        let a = if vr.line_idx == from.0 { from.1 as int } else { 0 };
        let b = if vr.line_idx == to.0 { to.1 as int } else { line_len };
        let start = if a >= vr.col_offset { a } else { vr.col_offset as int };
        let end = if b <= row_end { b } else { row_end };
        if start >= end {
            None
        } else {
            Some((start - vr.col_offset, end - vr.col_offset))
        }
    }
}

/// The part of a visual row a selection covers (see `row_selection_span`).
pub fn row_selection(
    from: (usize, usize),
    to: (usize, usize),
    vr: VisualRow,
    line_len: usize,
    word_wrap: bool,
    wrap_cols: usize,
) -> (r: Option<(usize, usize)>)
    ensures
        match r {
            Some((a, b)) => row_selection_span(from, to, vr, line_len as int, word_wrap, wrap_cols as int)
                == Some((a as int, b as int)),
            None => row_selection_span(from, to, vr, line_len as int, word_wrap, wrap_cols as int) is None,
        },
{
    if vr.line_idx < from.0 || vr.line_idx > to.0 {
        return None;
    }
    let row_end = if word_wrap && vr.col_offset <= line_len && wrap_cols <= line_len - vr.col_offset {
        vr.col_offset + wrap_cols
    } else {
        line_len
    };
    let a = if vr.line_idx == from.0 { from.1 } else { 0 };
    let b = if vr.line_idx == to.0 { to.1 } else { line_len };
    let start = if a >= vr.col_offset { a } else { vr.col_offset };
    let end = if b <= row_end { b } else { row_end };
    if start >= end {
        None
    } else {
        Some((start - vr.col_offset, end - vr.col_offset))
    }
}

/// The mark drawn over a white-space character when white space is shown:
/// a middle dot for a space, an arrow for a tab.
pub open spec fn whitespace_mark(c: char) -> Option<char> {
    if c == ' ' {
        Some('\u{00B7}')
    } else if c == '\t' {
        Some('\u{2192}')
    } else {
        None
    }
}

/// The white-space marks of the shown characters `vs..ve` of a line, as
/// (character index, mark), in order.
pub open spec fn marks_in(line: Seq<char>, vs: int, k: int) -> Seq<(usize, char)>
    decreases k - vs,
{
    if k <= vs {
        Seq::empty()
    } else {
        let rest = marks_in(line, vs, k - 1);
        match whitespace_mark(line[k - 1]) {
            Some(m) => rest.push(((k - 1) as usize, m)),
            None => rest,
        }
    }
}

/// The white-space marks of the shown characters of a line.
pub fn whitespace_marks(line: &[char], vs: usize, ve: usize) -> (r: Vec<(usize, char)>)
    requires
        vs <= ve <= line@.len(),
    ensures
        r@ == marks_in(line@, vs as int, ve as int),
{
    let mut out: Vec<(usize, char)> = Vec::new();
    let mut i = vs;
    while i < ve
        invariant
            vs <= i <= ve,
            ve <= line@.len(),
            out@ == marks_in(line@, vs as int, i as int),
        decreases ve - i,
    {
        let c = line[i];
        if c == ' ' {
            out.push((i, '\u{00B7}'));
        } else if c == '\t' {
            out.push((i, '\u{2192}'));
        }
        i = i + 1;
    }
    out
}

/// The number of leading spaces of a line.
pub open spec fn leading_spaces(line: Seq<char>) -> nat
    decreases line.len(),
{
    if line.len() > 0 && line[0] == ' ' {
        1 + leading_spaces(line.drop_first())
    } else {
        0
    }
}

/// The number of indent guides a line shows: its leading spaces in whole
/// tab widths.
pub fn indent_levels(line: &[char], tab_size: usize) -> (r: usize)
    requires
        tab_size > 0,
    ensures
        r == leading_spaces(line@) / (tab_size as nat),
{
    let mut k: usize = 0;
    assert(line@.skip(0) =~= line@);
    while k < line.len() && line[k] == ' '
        invariant
            k <= line@.len(),
            leading_spaces(line@) == k + leading_spaces(line@.skip(k as int)),
        decreases line@.len() - k,
    {
        assert(line@.skip(k as int).drop_first() =~= line@.skip(k + 1));
        k = k + 1;
    }
    assert(leading_spaces(line@.skip(k as int)) == 0) by {
        if k < line@.len() {
            assert(line@.skip(k as int)[0] == line@[k as int]);
        }
    }
    k / tab_size
}

/// The first index from `from` on of a drawn row at screen row `screen_row`.
pub open spec fn drawn_at(drawn: Seq<(usize, VisualRow)>, screen_row: usize, from: int) -> Option<int>
    decreases drawn.len() - from,
{
    if from < 0 || from >= drawn.len() {
        None
    } else if drawn[from].0 == screen_row {
        Some(from)
    } else {
        drawn_at(drawn, screen_row, from + 1)
    }
}

/// The document position under the mouse: the visual row drawn at screen
/// row `screen_row` (the last drawn one when none is), `raw_col` columns
/// into it (plus the horizontal scroll without wrap), clamped to the
/// document's lines and the line's length.
pub open spec fn position_at(
    drawn: Seq<(usize, VisualRow)>,
    screen_row: usize,
    raw_col: int,
    word_wrap: bool,
    scroll_col: int,
    line_lens: Seq<usize>,
) -> (int, int) {
    let (line_idx, col_offset) = match drawn_at(drawn, screen_row, 0) {
        Some(k) => (drawn[k].1.line_idx as int, drawn[k].1.col_offset as int),
        None => if drawn.len() > 0 {
            (drawn.last().1.line_idx as int, drawn.last().1.col_offset as int)
        } else {
            (0, 0)
        },
    };
    let col = col_offset + raw_col + if word_wrap { 0 } else { scroll_col };
    let last = if line_lens.len() > 0 { line_lens.len() - 1 } else { 0 };
    let line = if line_idx <= last { line_idx } else { last };
    let len = if line < line_lens.len() { line_lens[line] as int } else { 0 };
    (line, if col <= len { col } else { len })
}

/// The document position (line, column) under the mouse (see
/// `position_at`), for a pointer `raw_col` columns into the text area.
pub fn position_under_mouse(
    drawn: &[(usize, VisualRow)],
    screen_row: usize,
    raw_col: usize,
    word_wrap: bool,
    scroll_col: usize,
    line_lens: &[usize],
) -> (r: (usize, usize))
    requires
        raw_col + scroll_col <= usize::MAX,
        forall|k: int| 0 <= k < drawn@.len() ==> (#[trigger] drawn@[k]).1.col_offset + raw_col + scroll_col <= usize::MAX,
    ensures
        (r.0 as int, r.1 as int) == position_at(drawn@, screen_row, raw_col as int, word_wrap, scroll_col as int, line_lens@),
{
    let mut k: usize = 0;
    while k < drawn.len() && drawn[k].0 != screen_row
        invariant
            k <= drawn@.len(),
            drawn_at(drawn@, screen_row, 0) == drawn_at(drawn@, screen_row, k as int),
        decreases drawn@.len() - k,
    {
        k = k + 1;
    }
    let (line_idx, col_offset) = if k < drawn.len() {
        (drawn[k].1.line_idx, drawn[k].1.col_offset)
    } else if drawn.len() > 0 {
        (drawn[drawn.len() - 1].1.line_idx, drawn[drawn.len() - 1].1.col_offset)
    } else {
        (0, 0)
    };
    proof {
        if k < drawn@.len() {
            assert(drawn@[k as int].1.col_offset + raw_col + scroll_col <= usize::MAX);
        } else if drawn@.len() > 0 {
            assert(drawn@[drawn@.len() - 1].1.col_offset + raw_col + scroll_col <= usize::MAX);
        }
    }
    let col = col_offset + raw_col + if word_wrap { 0 } else { scroll_col };
    let last = if line_lens.len() > 0 { line_lens.len() - 1 } else { 0 };
    let line = if line_idx <= last { line_idx } else { last };
    let len = if line < line_lens.len() { line_lens[line] } else { 0 };
    (line, if col <= len { col } else { len })
}

} // verus!
