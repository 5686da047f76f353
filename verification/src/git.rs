//! Git integration state: per-line diff statuses for the gutter, file-level
//! statuses for the sidebar, blame annotations, and the refresh schedule.
//!
//! Reading the repository (through `git2`) and the clock happen around this
//! module; it holds and updates what was read.

use vstd::prelude::*;
use crate::text::{chars_of, lines_chars, lines_of, parts_view, str_eq, string_of};
use crate::color::Rgba;
use std::collections::HashMap;

verus! {

/// Per-line diff status for the gutter.
#[derive(Debug, Clone, Copy, PartialEq, Eq, Structural)]
pub enum LineDiffStatus {
    Added,
    Modified,
    Removed,
}

/// File-level status in the working tree.
#[derive(Debug, Clone, Copy, PartialEq, Eq, Structural)]
pub enum FileGitStatus {
    Modified,
    Staged,
    Untracked,
    Conflict,
    Deleted,
    Renamed,
    New,
    Unchanged,
}

// ---------------------------------------------------------------------------
// Line diff: specification
// ---------------------------------------------------------------------------

/// The smallest `k` in `k0..=limit` with `ni + k < m` and `old[oi] == new[ni + k]`.
pub open spec fn ahead_in_new(
    old: Seq<Seq<char>>,
    new: Seq<Seq<char>>,
    oi: int,
    ni: int,
    k0: int,
    limit: int,
) -> Option<int>
    decreases limit - k0 + 1,
{
    if k0 > limit {
        None
    } else if ni + k0 < new.len() && old[oi] == new[ni + k0] {
        Some(k0)
    } else {
        ahead_in_new(old, new, oi, ni, k0 + 1, limit)
    }
}

/// The smallest `k` in `k0..=limit` with `oi + k < n` and `old[oi + k] == new[ni]`.
pub open spec fn ahead_in_old(
    old: Seq<Seq<char>>,
    new: Seq<Seq<char>>,
    oi: int,
    ni: int,
    k0: int,
    limit: int,
) -> Option<int>
    decreases limit - k0 + 1,
{
    if k0 > limit {
        None
    } else if oi + k0 < old.len() && old[oi + k0] == new[ni] {
        Some(k0)
    } else {
        ahead_in_old(old, new, oi, ni, k0 + 1, limit)
    }
}

pub open spec fn min_int(a: int, b: int) -> int {
    if a <= b {
        a
    } else {
        b
    }
}

/// Greedy matching of old lines against new lines, from positions `oi`/`ni`
/// on, marking matched lines in `mo` (old) and `mn` (new). Equal lines match
/// and both sides advance; otherwise the old line is looked for up to three
/// lines ahead in the new side and the new line up to three lines ahead in the
/// old side, the nearer hit winning (the new side on a tie); with no hit both
/// sides advance by one line.
pub open spec fn greedy_match(
    old: Seq<Seq<char>>,
    new: Seq<Seq<char>>,
    oi: int,
    ni: int,
    mo: Seq<bool>,
    mn: Seq<bool>,
) -> (Seq<bool>, Seq<bool>)
    decreases old.len() - oi + new.len() - ni,
{
    if oi < 0 || ni < 0 || oi >= old.len() || ni >= new.len() {
        (mo, mn)
    } else if old[oi] == new[ni] {
        greedy_match(old, new, oi + 1, ni + 1, mo.update(oi, true), mn.update(ni, true))
    } else {
        let fnew = ahead_in_new(old, new, oi, ni, 1, min_int(3, new.len() - ni));
        let fold = ahead_in_old(old, new, oi, ni, 1, min_int(3, old.len() - oi));
        match fnew {
            Some(k) if k >= 1 && (fold matches Some(ko) ==> k <= ko) && ni + k < new.len() => greedy_match(
                old,
                new,
                oi + 1,
                ni + k + 1,
                mo.update(oi, true),
                mn.update(ni + k, true),
            ),
            _ => match fold {
                Some(k) if k >= 1 && oi + k < old.len() => greedy_match(
                    old,
                    new,
                    oi + k + 1,
                    ni + 1,
                    mo.update(oi + k, true),
                    mn.update(ni, true),
                ),
                _ => greedy_match(old, new, oi + 1, ni + 1, mo, mn),
            },
        }
    }
}

/// The old line that new line `i` corresponds to by proportion: ⌊i·n/m⌋.
pub open spec fn scaled(i: int, n: int, m: int) -> int {
    (i * n) / m
}

/// First pass over the new lines `0..i`: each unmatched new line is reported
/// as modified when its proportional old line is unmatched (which then counts
/// as matched), and as added otherwise. Returns the entries and the updated
/// old-line marks.
pub open spec fn mark_new_lines(mn: Seq<bool>, mo: Seq<bool>, n: int, m: int, i: int) -> (
    Seq<(int, LineDiffStatus)>,
    Seq<bool>,
)
    decreases i,
{
    if i <= 0 {
        (Seq::empty(), mo)
    } else {
        let (l, mo1) = mark_new_lines(mn, mo, n, m, i - 1);
        let j = i - 1;
        if mn[j] {
            (l, mo1)
        } else {
            let c = scaled(j, n, m);
            if c < n && !mo1[c] {
                (l.push((j, LineDiffStatus::Modified)), mo1.update(c, true))
            } else {
                (l.push((j, LineDiffStatus::Added)), mo1)
            }
        }
    }
}

/// The new line where a removal of old line `i` is shown: ⌊i·m/n⌋, at most
/// the last new line.
pub open spec fn removal_line(i: int, n: int, m: int) -> int {
    min_int(scaled(i, m, n), m - 1)
}

/// Whether some entry is on line `line`.
pub open spec fn has_line(l: Seq<(int, LineDiffStatus)>, line: int) -> bool {
    exists|k: int| 0 <= k < l.len() && (#[trigger] l[k]).0 == line
}

/// Second pass over the old lines `0..i`: each unmatched old line adds a
/// removal on its proportional new line, unless that line already has an
/// entry.
pub open spec fn mark_old_lines(
    base: Seq<(int, LineDiffStatus)>,
    mo: Seq<bool>,
    n: int,
    m: int,
    i: int,
) -> Seq<(int, LineDiffStatus)>
    decreases i,
{
    if i <= 0 {
        base
    } else {
        let l = mark_old_lines(base, mo, n, m, i - 1);
        let j = i - 1;
        if !mo[j] && !has_line(l, removal_line(j, n, m)) {
            l.push((removal_line(j, n, m), LineDiffStatus::Removed))
        } else {
            l
        }
    }
}

/// The entries of the line diff between `old` and `new`, in the order they
/// are found (before ordering by line).
pub open spec fn diff_entries(old: Seq<Seq<char>>, new: Seq<Seq<char>>) -> Seq<(int, LineDiffStatus)> {
    let n = old.len() as int;
    let m = new.len() as int;
    if n == 0 {
        Seq::new(m as nat, |i: int| (i, LineDiffStatus::Added))
    } else if m == 0 {
        seq![(0int, LineDiffStatus::Removed)]
    } else {
        let (mo, mn) = greedy_match(
            old,
            new,
            0,
            0,
            Seq::new(n as nat, |i: int| false),
            Seq::new(m as nat, |i: int| false),
        );
        let (l, mo2) = mark_new_lines(mn, mo, n, m, m);
        mark_old_lines(l, mo2, n, m, n)
    }
}

/// The entry list as (line, status) pairs with `usize` lines.
pub open spec fn entries_view(r: Seq<(usize, LineDiffStatus)>) -> Seq<(int, LineDiffStatus)> {
    r.map_values(|e: (usize, LineDiffStatus)| (e.0 as int, e.1))
}

/// Lines strictly increasing.
pub open spec fn lines_increasing(l: Seq<(int, LineDiffStatus)>) -> bool {
    forall|a: int, b: int| 0 <= a < b < l.len() ==> (#[trigger] l[a]).0 < (#[trigger] l[b]).0
}

/// No two entries share a line.
pub open spec fn lines_distinct(l: Seq<(int, LineDiffStatus)>) -> bool {
    forall|a: int, b: int| 0 <= a < l.len() && 0 <= b < l.len() && a != b ==> (#[trigger] l[a]).0
        != (#[trigger] l[b]).0
}

// ---------------------------------------------------------------------------
// Line diff: lemmas
// ---------------------------------------------------------------------------

proof fn lemma_scaled_bound(i: int, n: int, m: int)
    requires
        0 <= i < m,
        0 <= n,
    ensures
        0 <= scaled(i, n, m) < n || n == 0,
        0 <= scaled(i, n, m),
{
    assert(0 <= i * n) by (nonlinear_arith)
        requires
            0 <= i,
            0 <= n,
    ;
    assert(i * n < m * n || n == 0) by (nonlinear_arith)
        requires
            0 <= i < m,
            0 <= n,
    ;
    if n > 0 {
        assert((i * n) / m < n) by (nonlinear_arith)
            requires
                i * n < m * n,
                m > 0,
        ;
    }
    assert((i * n) / m >= 0) by (nonlinear_arith)
        requires
            i * n >= 0,
            m > 0,
    ;
}

proof fn lemma_greedy_lens(
    old: Seq<Seq<char>>,
    new: Seq<Seq<char>>,
    oi: int,
    ni: int,
    mo: Seq<bool>,
    mn: Seq<bool>,
)
    requires
        mo.len() == old.len(),
        mn.len() == new.len(),
    ensures
        greedy_match(old, new, oi, ni, mo, mn).0.len() == old.len(),
        greedy_match(old, new, oi, ni, mo, mn).1.len() == new.len(),
    decreases old.len() - oi + new.len() - ni,
{
    if oi < 0 || ni < 0 || oi >= old.len() || ni >= new.len() {
    } else if old[oi] == new[ni] {
        lemma_greedy_lens(old, new, oi + 1, ni + 1, mo.update(oi, true), mn.update(ni, true));
    } else {
        let fnew = ahead_in_new(old, new, oi, ni, 1, min_int(3, new.len() - ni));
        let fold = ahead_in_old(old, new, oi, ni, 1, min_int(3, old.len() - oi));
        match fnew {
            Some(k) if k >= 1 && (fold matches Some(ko) ==> k <= ko) && ni + k < new.len() => {
                lemma_greedy_lens(
                    old,
                    new,
                    oi + 1,
                    ni + k + 1,
                    mo.update(oi, true),
                    mn.update(ni + k, true),
                );
            },
            _ => match fold {
                Some(k) if k >= 1 && oi + k < old.len() => {
                    lemma_greedy_lens(
                        old,
                        new,
                        oi + k + 1,
                        ni + 1,
                        mo.update(oi + k, true),
                        mn.update(ni, true),
                    );
                },
                _ => {
                    lemma_greedy_lens(old, new, oi + 1, ni + 1, mo, mn);
                },
            },
        }
    }
}

proof fn lemma_mark_new_shape(mn: Seq<bool>, mo: Seq<bool>, n: int, m: int, i: int)
    requires
        mn.len() == m,
        mo.len() == n,
        0 <= i <= m,
        n > 0,
    ensures
        mark_new_lines(mn, mo, n, m, i).1.len() == n,
        lines_increasing(mark_new_lines(mn, mo, n, m, i).0),
        forall|k: int|
            0 <= k < mark_new_lines(mn, mo, n, m, i).0.len() ==> 0 <= (#[trigger] mark_new_lines(
                mn,
                mo,
                n,
                m,
                i,
            ).0[k]).0 < i,
    decreases i,
{
    if i > 0 {
        lemma_mark_new_shape(mn, mo, n, m, i - 1);
        lemma_scaled_bound(i - 1, n, m);
    }
}

proof fn lemma_mark_old_shape(
    base: Seq<(int, LineDiffStatus)>,
    mo: Seq<bool>,
    n: int,
    m: int,
    i: int,
)
    requires
        mo.len() == n,
        0 <= i <= n,
        m > 0,
        lines_distinct(base),
        forall|k: int| 0 <= k < base.len() ==> 0 <= (#[trigger] base[k]).0 < m,
    ensures
        lines_distinct(mark_old_lines(base, mo, n, m, i)),
        forall|k: int|
            0 <= k < mark_old_lines(base, mo, n, m, i).len() ==> 0 <= (#[trigger] mark_old_lines(
                base,
                mo,
                n,
                m,
                i,
            )[k]).0 < m,
    decreases i,
{
    if i > 0 {
        lemma_mark_old_shape(base, mo, n, m, i - 1);
        lemma_scaled_bound(i - 1, m, n);
        let l = mark_old_lines(base, mo, n, m, i - 1);
        let line = removal_line(i - 1, n, m);
        if !mo[i - 1] && !has_line(l, line) {
            let l2 = l.push((line, LineDiffStatus::Removed));
            assert forall|a: int, b: int|
                0 <= a < l2.len() && 0 <= b < l2.len() && a != b implies (#[trigger] l2[a]).0
                != (#[trigger] l2[b]).0 by {
                if a == l.len() as int {
                    assert(l[b] == l2[b]);
                } else if b == l.len() as int {
                    assert(l[a] == l2[a]);
                } else {
                    assert(l[a] == l2[a] && l[b] == l2[b]);
                }
            }
        }
    }
}

proof fn lemma_increasing_distinct(l: Seq<(int, LineDiffStatus)>)
    requires
        lines_increasing(l),
    ensures
        lines_distinct(l),
{
    assert forall|a: int, b: int| 0 <= a < l.len() && 0 <= b < l.len() && a != b implies (
    #[trigger] l[a]).0 != (#[trigger] l[b]).0 by {
        if a < b {
            assert(l[a].0 < l[b].0);
        } else {
            assert(l[b].0 < l[a].0);
        }
    }
}

/// The entries of a line diff are on distinct lines, each a valid new-line
/// index (line 0 when the new side is empty).
pub proof fn lemma_diff_entries_shape(old: Seq<Seq<char>>, new: Seq<Seq<char>>)
    ensures
        lines_distinct(diff_entries(old, new)),
        forall|k: int|
            0 <= k < diff_entries(old, new).len() ==> 0 <= (#[trigger] diff_entries(old, new)[k]).0
                < if new.len() == 0 {
                1
            } else {
                new.len() as int
            },
{
    let n = old.len() as int;
    let m = new.len() as int;
    let e = diff_entries(old, new);
    if n == 0 {
        assert(lines_increasing(e));
        lemma_increasing_distinct(e);
    } else if m == 0 {
    } else {
        let f0 = Seq::new(n as nat, |i: int| false);
        let f1 = Seq::new(m as nat, |i: int| false);
        lemma_greedy_lens(old, new, 0, 0, f0, f1);
        let (mo, mn) = greedy_match(old, new, 0, 0, f0, f1);
        lemma_mark_new_shape(mn, mo, n, m, m);
        let (l, mo2) = mark_new_lines(mn, mo, n, m, m);
        lemma_increasing_distinct(l);
        lemma_mark_old_shape(l, mo2, n, m, n);
    }
}

proof fn lemma_greedy_identical(
    s: Seq<Seq<char>>,
    i: int,
    mo: Seq<bool>,
    mn: Seq<bool>,
)
    requires
        0 <= i <= s.len(),
        mo.len() == s.len(),
        mn.len() == s.len(),
        forall|k: int| 0 <= k < i ==> mo[k] && mn[k],
    ensures
        forall|k: int| 0 <= k < s.len() ==> #[trigger] greedy_match(s, s, i, i, mo, mn).0[k],
        forall|k: int| 0 <= k < s.len() ==> #[trigger] greedy_match(s, s, i, i, mo, mn).1[k],
        greedy_match(s, s, i, i, mo, mn).0.len() == s.len(),
        greedy_match(s, s, i, i, mo, mn).1.len() == s.len(),
    decreases s.len() - i,
{
    if i < s.len() {
        lemma_greedy_identical(s, i + 1, mo.update(i, true), mn.update(i, true));
    }
}

proof fn lemma_mark_new_all_matched(mn: Seq<bool>, mo: Seq<bool>, n: int, m: int, i: int)
    requires
        0 <= i <= m,
        mn.len() == m,
        forall|k: int| 0 <= k < m ==> #[trigger] mn[k],
    ensures
        mark_new_lines(mn, mo, n, m, i).0.len() == 0,
        mark_new_lines(mn, mo, n, m, i).1 == mo,
    decreases i,
{
    if i > 0 {
        lemma_mark_new_all_matched(mn, mo, n, m, i - 1);
    }
}

proof fn lemma_mark_old_all_matched(
    base: Seq<(int, LineDiffStatus)>,
    mo: Seq<bool>,
    n: int,
    m: int,
    i: int,
)
    requires
        0 <= i <= n,
        mo.len() == n,
        forall|k: int| 0 <= k < n ==> #[trigger] mo[k],
    ensures
        mark_old_lines(base, mo, n, m, i) == base,
    decreases i,
{
    if i > 0 {
        lemma_mark_old_all_matched(base, mo, n, m, i - 1);
    }
}

/// Identical contents have no line diff.
pub proof fn lemma_identical_no_diff(s: Seq<Seq<char>>)
    ensures
        diff_entries(s, s).len() == 0,
{
    let n = s.len() as int;
    if n > 0 {
        let f = Seq::new(n as nat, |i: int| false);
        lemma_greedy_identical(s, 0, f, f);
        let g = greedy_match(s, s, 0, 0, f, f);
        let mo = g.0;
        let mn = g.1;
        lemma_mark_new_all_matched(mn, mo, n, n, n);
        let h = mark_new_lines(mn, mo, n, n, n);
        assert(h.0 =~= Seq::<(int, LineDiffStatus)>::empty());
        lemma_mark_old_all_matched(h.0, h.1, n, n, n);
        assert(diff_entries(s, s) == mark_old_lines(h.0, h.1, n, n, n));
    }
}

// ---------------------------------------------------------------------------
// Line diff: executable code
// ---------------------------------------------------------------------------

/// The characters of a sequence of string slices.
pub open spec fn strs_view(v: Seq<&str>) -> Seq<Seq<char>> {
    v.map_values(|s: &str| s@)
}

/// Simple line diff using greedy matching to produce per-line statuses,
/// ordered by line. Identical contents give no entries; an empty old side
/// marks every new line added; an empty new side gives one removal on line 0.
pub fn compute_line_diff(old: &[&str], new: &[&str]) -> (r: Vec<(usize, LineDiffStatus)>)
    ensures
        lines_increasing(entries_view(r@)),
        forall|e: (int, LineDiffStatus)|
            entries_view(r@).contains(e) <==> diff_entries(strs_view(old@), strs_view(new@)).contains(
                e,
            ),
        strs_view(old@) == strs_view(new@) ==> r@.len() == 0,
        old@.len() == 0 ==> entries_view(r@) == Seq::new(new@.len(), |i: int| (i, LineDiffStatus::Added)),
        old@.len() > 0 && new@.len() == 0 ==> entries_view(r@) == seq![(0int, LineDiffStatus::Removed)],
{
    let r = greedy_line_diff(old, new);
    proof {
        let ov = strs_view(old@);
        let nv = strs_view(new@);
        let rv = entries_view(r@);
        if ov == nv {
            lemma_identical_no_diff(ov);
            if r@.len() > 0 {
                assert(rv.contains(rv[0]));
            }
        }
        if old@.len() == 0 {
            assert(ov =~= Seq::<Seq<char>>::empty());
            lemma_all_lines_new(nv);
            lemma_increasing_same_entries(rv, diff_entries(ov, nv));
        }
        if old@.len() > 0 && new@.len() == 0 {
            assert(nv =~= Seq::<Seq<char>>::empty());
            lemma_all_lines_gone(ov);
            lemma_increasing_same_entries(rv, diff_entries(ov, nv));
        }
    }
    r
}

/// Two lists of entries in strictly increasing line order that hold the
/// same entries are the same list.
pub proof fn lemma_increasing_same_entries(a: Seq<(int, LineDiffStatus)>, b: Seq<(int, LineDiffStatus)>)
    requires
        lines_increasing(a),
        lines_increasing(b),
        forall|e: (int, LineDiffStatus)| a.contains(e) <==> b.contains(e),
    ensures
        a == b,
    decreases a.len(),
{
    if a.len() == 0 {
        if b.len() > 0 {
            assert(b.contains(b[0]));
        }
        assert(a =~= b);
    } else {
        assert(a.contains(a[0]));
        assert(b.len() > 0);
        assert(b.contains(b[0]));
        let i = choose|i: int| 0 <= i < b.len() && b[i] == a[0];
        let j = choose|j: int| 0 <= j < a.len() && a[j] == b[0];
        assert(i == 0) by {
            if i > 0 {
                assert(b[0].0 < b[i].0);
                if j > 0 {
                    assert(a[0].0 < a[j].0);
                }
            }
        }
        let ta = a.drop_first();
        let tb = b.drop_first();
        assert forall|e: (int, LineDiffStatus)| ta.contains(e) <==> tb.contains(e) by {
            if ta.contains(e) {
                let x = choose|x: int| 0 <= x < ta.len() && ta[x] == e;
                assert(a[x + 1] == e);
                assert(a.contains(e));
                let y = choose|y: int| 0 <= y < b.len() && b[y] == e;
                assert(a[0].0 < a[x + 1].0);
                assert(y != 0);
                assert(tb[y - 1] == e);
            }
            if tb.contains(e) {
                let x = choose|x: int| 0 <= x < tb.len() && tb[x] == e;
                assert(b[x + 1] == e);
                assert(b.contains(e));
                let y = choose|y: int| 0 <= y < a.len() && a[y] == e;
                assert(b[0].0 < b[x + 1].0);
                assert(y != 0);
                assert(ta[y - 1] == e);
            }
        }
        lemma_increasing_same_entries(ta, tb);
        assert(b[0] == a[0]);
        assert(a.len() == b.len());
        assert forall|k: int| 0 <= k < a.len() implies a[k] == b[k] by {
            if k > 0 {
                assert(a[k] == ta[k - 1]);
                assert(b[k] == tb[k - 1]);
            }
        }
        assert(a =~= b);
    }
}

/// The greedy line diff, entry by entry.
fn greedy_line_diff(old: &[&str], new: &[&str]) -> (r: Vec<(usize, LineDiffStatus)>)
    ensures
        lines_increasing(entries_view(r@)),
        forall|e: (int, LineDiffStatus)|
            entries_view(r@).contains(e) <==> diff_entries(strs_view(old@), strs_view(new@)).contains(
                e,
            ),
{
    let ghost ov = strs_view(old@);
    let ghost nv = strs_view(new@);
    let n = old.len();
    let m = new.len();
    if n == 0 {
        let mut result: Vec<(usize, LineDiffStatus)> = Vec::new();
        for i in 0..m
            invariant
                m == new@.len(),
                result@.len() == i,
                forall|k: int| 0 <= k < i ==> (#[trigger] result@[k]) == (k as usize, LineDiffStatus::Added),
        {
            result.push((i, LineDiffStatus::Added));
        }
        proof {
            assert(entries_view(result@) =~= diff_entries(ov, nv));
        }
        return result;
    }
    if m == 0 {
        let mut result: Vec<(usize, LineDiffStatus)> = Vec::new();
        result.push((0, LineDiffStatus::Removed));
        proof {
            assert(entries_view(result@) =~= diff_entries(ov, nv));
        }
        return result;
    }
    let mut matched_new: Vec<bool> = vec![false; m];
    let mut matched_old: Vec<bool> = vec![false; n];
    let ghost f0 = matched_old@;
    let ghost f1 = matched_new@;
    assert(f0 =~= Seq::new(n as nat, |i: int| false));
    assert(f1 =~= Seq::new(m as nat, |i: int| false));
    let mut oi: usize = 0;
    let mut ni: usize = 0;
    while oi < n && ni < m
        invariant
            n == old@.len(),
            m == new@.len(),
            n > 0 && m > 0,
            ov == strs_view(old@),
            nv == strs_view(new@),
            oi <= n,
            ni <= m,
            matched_old@.len() == n,
            matched_new@.len() == m,
            greedy_match(ov, nv, 0, 0, f0, f1) == greedy_match(
                ov,
                nv,
                oi as int,
                ni as int,
                matched_old@,
                matched_new@,
            ),
        decreases n - oi + m - ni,
    {
        if str_eq(old[oi], new[ni]) {
            matched_old.set(oi, true);
            matched_new.set(ni, true);
            oi = oi + 1;
            ni = ni + 1;
        } else {
            let lookahead: usize = if m - ni < 3 {
                m - ni
            } else {
                3
            };
            let mut found_in_new: Option<usize> = None;
            let mut k: usize = 1;
            while k <= lookahead
                invariant_except_break
                    found_in_new is None,
                    ahead_in_new(ov, nv, oi as int, ni as int, 1, lookahead as int) == ahead_in_new(
                        ov,
                        nv,
                        oi as int,
                        ni as int,
                        k as int,
                        lookahead as int,
                    ),
                invariant
                    1 <= k <= lookahead + 1,
                    lookahead <= 3,
                    lookahead == min_int(3, m - ni),
                    oi < n,
                    ni < m,
                    n == old@.len(),
                    m == new@.len(),
                    ov == strs_view(old@),
                    nv == strs_view(new@),
                ensures
                    ahead_in_new(ov, nv, oi as int, ni as int, 1, lookahead as int) == match found_in_new {
                        Some(k) => Some(k as int),
                        None => None::<int>,
                    },
                    found_in_new matches Some(k) ==> 1 <= k && ni + k < m,
                decreases lookahead + 1 - k,
            {
                if ni + k < m && str_eq(old[oi], new[ni + k]) {
                    found_in_new = Some(k);
                    break;
                }
                k = k + 1;
            }
            let lookahead_old: usize = if n - oi < 3 {
                n - oi
            } else {
                3
            };
            let mut found_in_old: Option<usize> = None;
            let mut k2: usize = 1;
            while k2 <= lookahead_old
                invariant_except_break
                    found_in_old is None,
                    ahead_in_old(ov, nv, oi as int, ni as int, 1, lookahead_old as int)
                        == ahead_in_old(ov, nv, oi as int, ni as int, k2 as int, lookahead_old as int),
                invariant
                    1 <= k2 <= lookahead_old + 1,
                    lookahead_old <= 3,
                    lookahead_old == min_int(3, n - oi),
                    oi < n,
                    ni < m,
                    n == old@.len(),
                    m == new@.len(),
                    ov == strs_view(old@),
                    nv == strs_view(new@),
                ensures
                    ahead_in_old(ov, nv, oi as int, ni as int, 1, lookahead_old as int) == match found_in_old {
                        Some(k) => Some(k as int),
                        None => None::<int>,
                    },
                    found_in_old matches Some(k) ==> 1 <= k && oi + k < n,
                decreases lookahead_old + 1 - k2,
            {
                if oi + k2 < n && str_eq(old[oi + k2], new[ni]) {
                    found_in_old = Some(k2);
                    break;
                }
                k2 = k2 + 1;
            }
            let take_new = match found_in_new {
                Some(k) => match found_in_old {
                    Some(ko) => k <= ko,
                    None => true,
                },
                None => false,
            };
            if take_new {
                let k = found_in_new.unwrap();
                ni = ni + k;
                matched_old.set(oi, true);
                matched_new.set(ni, true);
                oi = oi + 1;
                ni = ni + 1;
            } else if found_in_old.is_some() {
                let k = found_in_old.unwrap();
                oi = oi + k;
                matched_old.set(oi, true);
                matched_new.set(ni, true);
                oi = oi + 1;
                ni = ni + 1;
            } else {
                oi = oi + 1;
                ni = ni + 1;
            }
        }
    }
    let ghost mo = matched_old@;
    let ghost mn = matched_new@;
    assert(greedy_match(ov, nv, 0, 0, f0, f1) == (mo, mn));
    // New lines that were not matched.
    let mut result: Vec<(usize, LineDiffStatus)> = Vec::new();
    for i in 0..m
        invariant
            n == old@.len(),
            m == new@.len(),
            n > 0 && m > 0,
            matched_new@ == mn,
            mn.len() == m,
            mo.len() == n,
            (entries_view(result@), matched_old@) == mark_new_lines(mn, mo, n as int, m as int, i as int),
    {
        let ghost before = entries_view(result@);
        let ghost before_mo = matched_old@;
        if !matched_new[i] {
            let a = i as u128;
            let b = n as u128;
            let d = m as u128;
            assert(a * b <= 0xffff_ffff_ffff_fffe_0000_0000_0000_0001u128) by (nonlinear_arith)
                requires
                    a <= 0xffff_ffff_ffff_ffffu128,
                    b <= 0xffff_ffff_ffff_ffffu128,
            ;
            let q = a * b / d;
            proof {
                lemma_scaled_bound(i as int, n as int, m as int);
            }
            let corresponding_old = q as usize;
            proof {
                lemma_scaled_bound(i as int, n as int, m as int);
                assert(corresponding_old as int == scaled(i as int, n as int, m as int));
                lemma_mark_new_shape(mn, mo, n as int, m as int, i as int);
            }
            if corresponding_old < n && !matched_old[corresponding_old] {
                result.push((i, LineDiffStatus::Modified));
                matched_old.set(corresponding_old, true);
            } else {
                result.push((i, LineDiffStatus::Added));
            }
            assert(entries_view(result@) =~= mark_new_lines(mn, mo, n as int, m as int, i + 1).0);
        }
    }
    let ghost base = entries_view(result@);
    let ghost mo2 = matched_old@;
    proof {
        lemma_mark_new_shape(mn, mo, n as int, m as int, m as int);
    }
    // Old lines that were not matched.
    for i in 0..n
        invariant
            n == old@.len(),
            m == new@.len(),
            n > 0 && m > 0,
            matched_old@ == mo2,
            mo2.len() == n,
            entries_view(result@) == mark_old_lines(base, mo2, n as int, m as int, i as int),
    {
        if !matched_old[i] {
            let a = i as u128;
            let b = m as u128;
            let d = n as u128;
            assert(a * b <= 0xffff_ffff_ffff_fffe_0000_0000_0000_0001u128) by (nonlinear_arith)
                requires
                    a <= 0xffff_ffff_ffff_ffffu128,
                    b <= 0xffff_ffff_ffff_ffffu128,
            ;
            let q = a * b / d;
            proof {
                lemma_scaled_bound(i as int, m as int, n as int);
            }
            let corresponding_new = q as usize;
            proof {
                lemma_scaled_bound(i as int, m as int, n as int);
                assert(corresponding_new as int == scaled(i as int, m as int, n as int));
            }
            let new_line = if corresponding_new < m - 1 {
                corresponding_new
            } else {
                m - 1
            };
            let ghost cur = entries_view(result@);
            let mut present = false;
            let len = result.len();
            for j in 0..len
                invariant
                    len == result@.len(),
                    cur == entries_view(result@),
                    present == (exists|k: int| 0 <= k < j && (#[trigger] cur[k]).0 == new_line as int),
            {
                if result[j].0 == new_line {
                    present = true;
                }
                proof {
                    if result@[j as int].0 == new_line {
                        assert(cur[j as int].0 == new_line as int);
                    }
                }
            }
            if !present {
                result.push((new_line, LineDiffStatus::Removed));
                assert(entries_view(result@) =~= cur.push((new_line as int, LineDiffStatus::Removed)));
            }
        }
    }
    let ghost pre = entries_view(result@);
    assert(pre == diff_entries(ov, nv));
    proof {
        lemma_diff_entries_shape(ov, nv);
    }
    // Order by line: every entry is on its own line below `m`.
    let mut slots: Vec<u8> = vec![0u8; m];
    let len = result.len();
    for j in 0..len
        invariant
            len == result@.len(),
            pre == entries_view(result@),
            lines_distinct(pre),
            forall|k: int| 0 <= k < pre.len() ==> 0 <= (#[trigger] pre[k]).0 < m,
            slots@.len() == m,
            forall|l: int|
                0 <= l < m ==> (#[trigger] slots@[l] != 0) == (exists|k: int|
                    0 <= k < j && (#[trigger] pre[k]).0 == l),
            forall|k: int| 0 <= k < j ==> slots@[(#[trigger] pre[k]).0] == status_code(pre[k].1),
    {
        let (line, status) = result[j];
        assert(pre[j as int] == (line as int, status));
        let code: u8 = match status {
            LineDiffStatus::Added => 1,
            LineDiffStatus::Modified => 2,
            LineDiffStatus::Removed => 3,
        };
        slots.set(line, code);
        proof {
            assert forall|k: int| 0 <= k < j implies pre[k].0 != line as int by {
                assert(k != j);
            }
        }
    }
    let mut out: Vec<(usize, LineDiffStatus)> = Vec::new();
    for l in 0..m
        invariant
            m == slots@.len(),
            pre == entries_view(result@),
            lines_distinct(pre),
            forall|k: int| 0 <= k < pre.len() ==> 0 <= (#[trigger] pre[k]).0 < m,
            forall|x: int|
                0 <= x < m ==> (#[trigger] slots@[x] != 0) == (exists|k: int|
                    0 <= k < pre.len() && (#[trigger] pre[k]).0 == x),
            forall|k: int| 0 <= k < pre.len() ==> slots@[(#[trigger] pre[k]).0] == status_code(pre[k].1),
            forall|a: int| 0 <= a < out@.len() ==> (#[trigger] out@[a]).0 < l,
            lines_increasing(entries_view(out@)),
            forall|e: (int, LineDiffStatus)|
                entries_view(out@).contains(e) <==> (pre.contains(e) && e.0 < l),
    {
        let code = slots[l];
        if code != 0 {
            let status = if code == 1 {
                LineDiffStatus::Added
            } else if code == 2 {
                LineDiffStatus::Modified
            } else {
                LineDiffStatus::Removed
            };
            let ghost before = entries_view(out@);
            out.push((l, status));
            proof {
                let k = choose|k: int| 0 <= k < pre.len() && (#[trigger] pre[k]).0 == l as int;
                assert(status_code(pre[k].1) == code);
                assert(pre[k].1 == status);
                let ov2 = entries_view(out@);
                assert(ov2 =~= before.push((l as int, status)));
                assert forall|e: (int, LineDiffStatus)| ov2.contains(e) <==> (pre.contains(e) && e.0
                    < l + 1) by {
                    if ov2.contains(e) {
                        let a = choose|a: int| 0 <= a < ov2.len() && ov2[a] == e;
                        if a < before.len() {
                            assert(before.contains(e));
                        } else {
                            assert(pre.contains(pre[k]));
                        }
                    }
                    if pre.contains(e) && e.0 < l + 1 {
                        if e.0 < l {
                            assert(before.contains(e));
                            let a = choose|a: int| 0 <= a < before.len() && before[a] == e;
                            assert(ov2[a] == e);
                        } else {
                            let b = choose|b: int| 0 <= b < pre.len() && pre[b] == e;
                            assert(b == k);
                            assert(ov2[before.len() as int] == e);
                        }
                    }
                }
                assert forall|a: int| 0 <= a < out@.len() implies (#[trigger] out@[a]).0 < l + 1 by {
                    if a < before.len() {
                        assert(out@[a].0 == before[a].0);
                    }
                }
            }
        } else {
            proof {
                assert forall|e: (int, LineDiffStatus)| entries_view(out@).contains(e) <==> (
                pre.contains(e) && e.0 < l + 1) by {
                    if pre.contains(e) && e.0 == l {
                        let b = choose|b: int| 0 <= b < pre.len() && pre[b] == e;
                        assert(slots@[l as int] != 0);
                    }
                }
            }
        }
    }
    proof {
        assert forall|e: (int, LineDiffStatus)| entries_view(out@).contains(e) <==> pre.contains(e) by {
            if pre.contains(e) {
                let b = choose|b: int| 0 <= b < pre.len() && pre[b] == e;
                assert(pre[b].0 < m);
            }
        }
    }
    out
}

/// Every new line is reported added when there is no old content.
pub proof fn lemma_all_lines_new(new: Seq<Seq<char>>)
    ensures
        diff_entries(Seq::empty(), new) == Seq::new(new.len(), |i: int| (i, LineDiffStatus::Added)),
{
}

/// A file emptied of all lines shows a single removal at its first line.
pub proof fn lemma_all_lines_gone(old: Seq<Seq<char>>)
    requires
        old.len() > 0,
    ensures
        diff_entries(old, Seq::empty()) == seq![(0int, LineDiffStatus::Removed)],
{
}

/// The line diff of a file whose committed content is `head` (none for a file
/// not in HEAD) and whose working-tree content is `current`: every line added
/// when the file is new, otherwise the diff of their lines.
pub open spec fn content_diff(head: Option<Seq<char>>, current: Seq<char>) -> Seq<(int, LineDiffStatus)> {
    match head {
        None => Seq::new(lines_of(current).len(), |i: int| (i, LineDiffStatus::Added)),
        Some(h) => diff_entries(lines_of(h), lines_of(current)),
    }
}

/// String slices of character vectors, as the line diff takes them.
fn line_strings(lines: &Vec<Vec<char>>) -> (r: Vec<String>)
    ensures
        r@.map_values(|s: String| s@) == parts_view(lines@),
{
    let mut r: Vec<String> = Vec::new();
    let n = lines.len();
    for i in 0..n
        invariant
            n == lines@.len(),
            r@.len() == i,
            forall|k: int| 0 <= k < i ==> (#[trigger] r@[k])@ == lines@[k]@,
    {
        r.push(string_of(lines[i].as_slice()));
    }
    assert(r@.map_values(|s: String| s@) =~= parts_view(lines@));
    r
}

fn as_strs(v: &Vec<String>) -> (r: Vec<&str>)
    ensures
        strs_view(r@) == v@.map_values(|s: String| s@),
{
    let mut r: Vec<&str> = Vec::new();
    let n = v.len();
    for i in 0..n
        invariant
            n == v@.len(),
            r@.len() == i,
            forall|k: int| 0 <= k < i ==> (#[trigger] r@[k])@ == v@[k]@,
    {
        r.push(v[i].as_str());
    }
    assert(strs_view(r@) =~= v@.map_values(|s: String| s@));
    r
}

/// Line diff of a file against its committed content (`head`, none when the
/// file is not in HEAD), lines split as `str::lines` splits them.
pub fn line_diff_for_contents(head: Option<&str>, current: &str) -> (r: Vec<(usize, LineDiffStatus)>)
    ensures
        lines_increasing(entries_view(r@)),
        forall|e: (int, LineDiffStatus)|
            entries_view(r@).contains(e) <==> content_diff(
                match head {
                    Some(h) => Some(h@),
                    None => None,
                },
                current@,
            ).contains(e),
{
    let cur_chars = chars_of(current);
    let cur_lines = lines_chars(cur_chars.as_slice());
    match head {
        None => {
            let mut diffs: Vec<(usize, LineDiffStatus)> = Vec::new();
            let count = cur_lines.len();
            for i in 0..count
                invariant
                    diffs@.len() == i,
                    forall|k: int| 0 <= k < i ==> (#[trigger] diffs@[k]) == (k as usize, LineDiffStatus::Added),
            {
                diffs.push((i, LineDiffStatus::Added));
            }
            assert(entries_view(diffs@) =~= content_diff(None, current@));
            diffs
        },
        Some(h) => {
            let head_chars = chars_of(h);
            let head_lines = lines_chars(head_chars.as_slice());
            let old_owned = line_strings(&head_lines);
            let new_owned = line_strings(&cur_lines);
            let old = as_strs(&old_owned);
            let new = as_strs(&new_owned);
            compute_line_diff(old.as_slice(), new.as_slice())
        },
    }
}

// ---------------------------------------------------------------------------
// Repository state
// ---------------------------------------------------------------------------

/// Summary for a single file in the sidebar.
#[derive(Debug, Clone)]
pub struct FileStatusEntry {
    pub path: String,
    pub status: FileGitStatus,
}

/// The status bits of a working-tree entry that the sidebar distinguishes.
#[derive(Debug, Clone, Copy)]
pub struct StatusFlags {
    pub conflicted: bool,
    pub index_new: bool,
    pub index_modified: bool,
    pub index_deleted: bool,
    pub index_renamed: bool,
    pub wt_new: bool,
    pub wt_modified: bool,
    pub wt_deleted: bool,
    pub wt_renamed: bool,
}

/// The sidebar status of an entry with the given bits, by priority; none for
/// entries the sidebar does not list.
pub open spec fn classify(f: StatusFlags) -> Option<FileGitStatus> {
    if f.conflicted {
        Some(FileGitStatus::Conflict)
    } else if f.index_new {
        Some(FileGitStatus::New)
    } else if f.index_modified || f.index_renamed {
        Some(FileGitStatus::Staged)
    } else if f.wt_modified {
        Some(FileGitStatus::Modified)
    } else if f.wt_deleted || f.index_deleted {
        Some(FileGitStatus::Deleted)
    } else if f.wt_new {
        Some(FileGitStatus::Untracked)
    } else if f.wt_renamed || f.index_renamed {
        Some(FileGitStatus::Renamed)
    } else {
        None
    }
}

/// What the sidebar reports of an entry's status bits:
/// - a conflict is reported as such whatever else is set, and only then;
/// - a file added to the index (and not conflicted) is reported new;
/// - a modification or rename staged in the index (of a file neither
///   conflicted nor newly added) is reported staged, never as an unstaged
///   modification;
/// - an unstaged modification is reported modified exactly when nothing
///   above applies;
/// - each other status is backed by its own bit, no status is "unchanged",
///   and an entry with no bit set is left out.
pub proof fn lemma_classify_laws(f: StatusFlags)
    ensures
        f.conflicted ==> classify(f) == Some(FileGitStatus::Conflict),
        classify(f) == Some(FileGitStatus::Conflict) ==> f.conflicted,
        !f.conflicted && f.index_new ==> classify(f) == Some(FileGitStatus::New),
        classify(f) == Some(FileGitStatus::New) ==> f.index_new,
        !f.conflicted && !f.index_new && (f.index_modified || f.index_renamed) ==> classify(f) == Some(
            FileGitStatus::Staged,
        ),
        classify(f) == Some(FileGitStatus::Staged) ==> f.index_modified || f.index_renamed,
        classify(f) == Some(FileGitStatus::Modified) <==> (!f.conflicted && !f.index_new && !f.index_modified
            && !f.index_renamed && f.wt_modified),
        classify(f) == Some(FileGitStatus::Deleted) ==> f.wt_deleted || f.index_deleted,
        classify(f) == Some(FileGitStatus::Untracked) ==> f.wt_new,
        classify(f) == Some(FileGitStatus::Renamed) ==> f.wt_renamed,
        classify(f) != Some(FileGitStatus::Unchanged),
        classify(f) is None <==> !(f.conflicted || f.index_new || f.index_modified || f.index_deleted
            || f.index_renamed || f.wt_new || f.wt_modified || f.wt_deleted || f.wt_renamed),
{
}

/// The sidebar status of an entry with the given bits.
pub fn classify_status(f: StatusFlags) -> (r: Option<FileGitStatus>)
    ensures
        r == classify(f),
{
    if f.conflicted {
        Some(FileGitStatus::Conflict)
    } else if f.index_new {
        Some(FileGitStatus::New)
    } else if f.index_modified || f.index_renamed {
        Some(FileGitStatus::Staged)
    } else if f.wt_modified {
        Some(FileGitStatus::Modified)
    } else if f.wt_deleted || f.index_deleted {
        Some(FileGitStatus::Deleted)
    } else if f.wt_new {
        Some(FileGitStatus::Untracked)
    } else if f.wt_renamed || f.index_renamed {
        Some(FileGitStatus::Renamed)
    } else {
        None
    }
}

/// One hunk of blame output: 1-based first line, line count, and the author
/// name when the signature has a readable one.
#[derive(Debug, Clone)]
pub struct BlameHunk {
    pub final_start_line: usize,
    pub lines_in_hunk: usize,
    pub author: Option<String>,
}

/// The author shown for a hunk (`?` when the signature has no name).
pub open spec fn hunk_author(h: BlameHunk) -> Seq<char> {
    match h.author {
        Some(a) => a@,
        None => seq!['?'],
    }
}

/// The 0-based first line of a hunk.
pub open spec fn hunk_start(h: BlameHunk) -> int {
    if h.final_start_line >= 1 {
        h.final_start_line - 1
    } else {
        0
    }
}

/// Blame annotations of a list of hunks: every line of every hunk maps to the
/// hunk's author, later hunks overriding earlier ones.
pub open spec fn blame_map(hunks: Seq<BlameHunk>) -> Map<usize, Seq<char>>
    decreases hunks.len(),
{
    if hunks.len() == 0 {
        Map::empty()
    } else {
        let h = hunks.last();
        blame_map(hunks.drop_last()).union_prefer_right(
            Map::new(
                |l: usize| hunk_start(h) <= l < hunk_start(h) + h.lines_in_hunk,
                |l: usize| hunk_author(h),
            ),
        )
    }
}

/// The hunks' line ranges fit in `usize`.
pub open spec fn hunks_fit(hunks: Seq<BlameHunk>) -> bool {
    forall|i: int|
        0 <= i < hunks.len() ==> hunk_start(#[trigger] hunks[i]) + hunks[i].lines_in_hunk <= usize::MAX
}

/// The line-diff cache: (path, diffs) pairs in insertion order.
pub struct LineDiffCache {
    entries: Vec<(String, Vec<(usize, LineDiffStatus)>)>,
}

/// What `Path::new(a) == Path::new(b)` returns: whether the two paths have the
/// same components.
pub uninterp spec fn same_path(a: Seq<char>, b: Seq<char>) -> bool;

/// `Path` equality: compares the paths component by component.
#[verifier::external_body]
pub(crate) fn paths_equal(a: &str, b: &str) -> (r: bool)
    ensures
        r == same_path(a@, b@),
{
    std::path::Path::new(a) == std::path::Path::new(b)
}

/// What `Path::new(root).join(rel)` gives, as a string.
pub uninterp spec fn joined_path(root: Seq<char>, rel: Seq<char>) -> Seq<char>;

/// `Path::join`: `rel` appended to `root` (or `rel` itself when absolute).
#[verifier::external_body]
pub(crate) fn join_path(root: &str, rel: &str) -> (r: String)
    ensures
        r@ == joined_path(root@, rel@),
{
    std::path::Path::new(root).join(rel).to_string_lossy().into_owned()
}

impl LineDiffCache {
    /// The cached paths, in insertion order.
    pub closed spec fn paths(&self) -> Seq<Seq<char>> {
        self.entries@.map_values(|e: (String, Vec<(usize, LineDiffStatus)>)| e.0@)
    }

    /// The cached diffs, in insertion order.
    pub closed spec fn diffs(&self) -> Seq<Seq<(int, LineDiffStatus)>> {
        self.entries@.map_values(|e: (String, Vec<(usize, LineDiffStatus)>)| entries_view(e.1@))
    }

    /// An empty cache.
    pub fn new() -> (r: LineDiffCache)
        ensures
            r.paths().len() == 0,
    {
        LineDiffCache { entries: Vec::new() }
    }

    /// Whether nothing is cached.
    pub fn is_empty(&self) -> (r: bool)
        ensures
            r == (self.paths().len() == 0),
    {
        self.entries.len() == 0
    }

    /// Drop every cached diff.
    pub fn clear(&mut self)
        ensures
            final(self).paths().len() == 0,
    {
        self.entries.clear();
    }

    /// The position of the first cached path equal to `path`.
    fn position(&self, path: &str) -> (r: Option<usize>)
        ensures
            match r {
                Some(i) => i < self.paths().len() && same_path(self.paths()[i as int], path@) && forall|
                    k: int,
                | 0 <= k < i ==> !same_path(#[trigger] self.paths()[k], path@),
                None => forall|k: int|
                    0 <= k < self.paths().len() ==> !same_path(#[trigger] self.paths()[k], path@),
            },
    {
        let n = self.entries.len();
        for i in 0..n
            invariant
                n == self.entries@.len(),
                forall|k: int| 0 <= k < i ==> !same_path(#[trigger] self.paths()[k], path@),
        {
            if paths_equal(self.entries[i].0.as_str(), path) {
                return Some(i);
            }
        }
        None
    }

    /// Whether a diff for `path` is cached.
    pub fn contains_key(&self, path: &str) -> (r: bool)
        ensures
            r == exists|k: int| 0 <= k < self.paths().len() && same_path(#[trigger] self.paths()[k], path@),
    {
        self.position(path).is_some()
    }

    /// The cached diff for `path` (empty when none is cached).
    pub fn get(&self, path: &str) -> (r: &[(usize, LineDiffStatus)])
        ensures
            (exists|k: int| 0 <= k < self.paths().len() && same_path(#[trigger] self.paths()[k], path@))
                ==> exists|k: int|
                0 <= k < self.paths().len() && same_path(#[trigger] self.paths()[k], path@) && (forall|
                    j: int,
                | 0 <= j < k ==> !same_path(#[trigger] self.paths()[j], path@)) && entries_view(r@)
                    == self.diffs()[k],
            (forall|k: int| 0 <= k < self.paths().len() ==> !same_path(#[trigger] self.paths()[k], path@))
                ==> r@.len() == 0,
    {
        match self.position(path) {
            Some(i) => self.entries[i].1.as_slice(),
            None => &[],
        }
    }

    /// Cache `diffs` for `path` when no diff is cached for it yet.
    pub fn insert_if_absent(&mut self, path: String, diffs: Vec<(usize, LineDiffStatus)>)
        ensures
            (exists|k: int| 0 <= k < old(self).paths().len() && same_path(
                #[trigger] old(self).paths()[k],
                path@,
            )) ==> final(self).paths() == old(self).paths() && final(self).diffs() == old(self).diffs(),
            (forall|k: int|
                0 <= k < old(self).paths().len() ==> !same_path(#[trigger] old(self).paths()[k], path@))
                ==> final(self).paths() == old(self).paths().push(path@) && final(self).diffs() == old(
                self,
            ).diffs().push(entries_view(diffs@)),
    {
        if self.position(path.as_str()).is_none() {
            let ghost op = self.paths();
            let ghost od = self.diffs();
            self.entries.push((path, diffs));
            assert(self.paths() =~= op.push(path@));
            assert(self.diffs() =~= od.push(entries_view(diffs@)));
        }
    }
}

/// Default minimum interval between status refreshes, in milliseconds.
pub const REFRESH_INTERVAL_MS: u64 = 5000;

/// Blame annotations as a map from line to author characters.
pub open spec fn blame_view(m: Map<usize, String>) -> Map<usize, Seq<char>> {
    m.map_values(|s: String| s@)
}

/// Manages git repository state for the editor.
pub struct GitManager {
    /// Cached repo root path.
    pub repo_root: Option<String>,
    /// Current branch name.
    pub branch: Option<String>,
    /// Per-file line diff status (file path → line statuses).
    pub line_diffs: LineDiffCache,
    /// File-level status list for sidebar display.
    pub file_statuses: Vec<FileStatusEntry>,
    /// Whether to show git blame annotations.
    pub show_blame: bool,
    /// Cached blame info (line → author).
    pub blame_info: HashMap<usize, String>,
    /// Time of the last refresh (milliseconds on the caller's monotonic clock).
    pub last_refresh: Option<u64>,
    /// Minimum interval between refreshes, in milliseconds.
    pub refresh_interval: u64,
}

impl GitManager {
    /// The repository's working directory, when one was found.
    pub open spec fn root(&self) -> Option<Seq<char>> {
        match self.repo_root {
            Some(r) => Some(r@),
            None => None,
        }
    }

    /// The time of the last refresh.
    pub open spec fn last_refresh_at(&self) -> Option<u64> {
        self.last_refresh
    }

    /// The minimum interval between refreshes.
    pub open spec fn interval(&self) -> u64 {
        self.refresh_interval
    }

    /// A manager with no repository.
    pub fn new() -> (r: GitManager)
        ensures
            r.root() is None,
            r.branch is None,
            r.line_diffs.paths().len() == 0,
            r.file_statuses@.len() == 0,
            !r.show_blame,
            r.blame_info@ == Map::<usize, String>::empty(),
            r.last_refresh_at() is None,
            r.interval() == REFRESH_INTERVAL_MS,
    {
        GitManager {
            repo_root: None,
            branch: None,
            line_diffs: LineDiffCache::new(),
            file_statuses: Vec::new(),
            show_blame: false,
            blame_info: HashMap::new(),
            last_refresh: None,
            refresh_interval: REFRESH_INTERVAL_MS,
        }
    }

    /// Record the outcome of discovering a repository from the workspace:
    /// its working directory and current branch, or nothing.
    pub fn set_repository(&mut self, root: Option<String>, branch: Option<String>)
        ensures
            final(self).root() == match root {
                Some(r) => Some(r@),
                None => None,
            },
            final(self).branch == branch,
            final(self).line_diffs == old(self).line_diffs,
            final(self).file_statuses == old(self).file_statuses,
            final(self).blame_info == old(self).blame_info,
            final(self).last_refresh_at() == old(self).last_refresh_at(),
            final(self).interval() == old(self).interval(),
            final(self).show_blame == old(self).show_blame,
    {
        self.repo_root = root;
        self.branch = branch;
    }

    /// The repository's working directory, if one was found.
    pub fn repo_root(&self) -> (r: Option<&String>)
        ensures
            match r {
                Some(s) => self.root() == Some(s@),
                None => self.root() is None,
            },
    {
        match &self.repo_root {
            Some(r) => Some(r),
            None => None,
        }
    }

    /// Periodic refresh check, called each frame with the current time:
    /// returns whether the statuses are due to be read again (a repository is
    /// open, and none was read yet or the interval has passed since), and in
    /// that case records `now_ms` as the time of the refresh.
    pub fn maybe_refresh(&mut self, now_ms: u64) -> (r: bool)
        ensures
            r == (old(self).root() is Some && match old(self).last_refresh_at() {
                Some(t) => now_ms >= t && now_ms - t >= old(self).interval(),
                None => true,
            }),
            final(self).last_refresh_at() == if r {
                Some(now_ms)
            } else {
                old(self).last_refresh_at()
            },
            final(self).root() == old(self).root(),
            final(self).interval() == old(self).interval(),
            final(self).branch == old(self).branch,
            final(self).line_diffs == old(self).line_diffs,
            final(self).file_statuses == old(self).file_statuses,
            final(self).blame_info == old(self).blame_info,
            final(self).show_blame == old(self).show_blame,
    {
        if self.repo_root.is_none() {
            return false;
        }
        let should_refresh = match self.last_refresh {
            Some(t) => now_ms >= t && now_ms - t >= self.refresh_interval,
            None => true,
        };
        if should_refresh {
            self.last_refresh = Some(now_ms);
        }
        should_refresh
    }

    /// Replace the sidebar statuses with those read from the repository:
    /// the branch name, and each entry's path (relative to the working
    /// directory) with its status bits; entries of no listed status are left
    /// out, and paths are made absolute. With no repository the statuses are
    /// cleared and the branch is kept.
    pub fn refresh_statuses(&mut self, branch: Option<String>, entries: Vec<(String, StatusFlags)>)
        ensures
            old(self).root() is None ==> final(self).file_statuses@.len() == 0 && final(self).branch
                == old(self).branch,
            old(self).root() is Some ==> final(self).branch == branch,
            final(self).file_statuses@.len() <= entries@.len(),
            old(self).root() is Some ==> forall|k: int| 0 <= k < final(self).file_statuses@.len() ==> exists|j: int|
                0 <= j < entries@.len() && classify(entries@[j].1) == Some(
                    (#[trigger] final(self).file_statuses@[k]).status,
                ) && final(self).file_statuses@[k].path@ == joined_path(
                    old(self).root()->0,
                    entries@[j].0@,
                ),
            old(self).root() is Some ==> final(self).file_statuses@.map_values(|e: FileStatusEntry| (e.path@, e.status))
                == status_list(old(self).root()->0, entries@),
            final(self).root() == old(self).root(),
            final(self).line_diffs == old(self).line_diffs,
            final(self).blame_info == old(self).blame_info,
            final(self).last_refresh_at() == old(self).last_refresh_at(),
            final(self).interval() == old(self).interval(),
            final(self).show_blame == old(self).show_blame,
    {
        let root = match &self.repo_root {
            Some(r) => r.clone(),
            None => {
                self.file_statuses = Vec::new();
                return;
            },
        };
        self.branch = branch;
        let ghost rv = root@;
        let mut out: Vec<FileStatusEntry> = Vec::new();
        let n = entries.len();
        assert(entries@.take(0) =~= Seq::<(String, StatusFlags)>::empty());
        for i in 0..n
            invariant
                n == entries@.len(),
                rv == root@,
                out@.map_values(|e: FileStatusEntry| (e.path@, e.status)) == status_list(
                    rv,
                    entries@.take(i as int),
                ),
                out@.len() <= i,
                forall|k: int| 0 <= k < out@.len() ==> exists|j: int|
                    0 <= j < i && classify(entries@[j].1) == Some((#[trigger] out@[k]).status)
                        && out@[k].path@ == joined_path(rv, entries@[j].0@),
        {
            let ghost tk = entries@.take(i + 1);
            assert(tk.drop_last() =~= entries@.take(i as int));
            let ghost before = out@.map_values(|e: FileStatusEntry| (e.path@, e.status));
            match classify_status(entries[i].1) {
                Some(status) => {
                    let path = join_path(root.as_str(), entries[i].0.as_str());
                    out.push(FileStatusEntry { path, status });
                    assert(out@.map_values(|e: FileStatusEntry| (e.path@, e.status)) =~= before.push(
                        (joined_path(rv, entries@[i as int].0@), status),
                    ));
                },
                None => {},
            }
        }
        assert(entries@.take(n as int) =~= entries@);
        self.file_statuses = out;
    }

    /// Invalidate cached file-level info (call after save).
    pub fn invalidate_file_cache(&mut self)
        ensures
            final(self).line_diffs.paths().len() == 0,
            final(self).blame_info@ == Map::<usize, String>::empty(),
            final(self).root() == old(self).root(),
            final(self).branch == old(self).branch,
            final(self).file_statuses == old(self).file_statuses,
            final(self).last_refresh_at() == old(self).last_refresh_at(),
            final(self).interval() == old(self).interval(),
            final(self).show_blame == old(self).show_blame,
    {
        self.line_diffs.clear();
        self.blame_info.clear();
    }

    /// Record the line diff computed for `file_path`, unless one is cached.
    pub fn store_line_diff(&mut self, file_path: String, diffs: Vec<(usize, LineDiffStatus)>)
        ensures
            (exists|k: int| 0 <= k < old(self).line_diffs.paths().len() && same_path(
                #[trigger] old(self).line_diffs.paths()[k],
                file_path@,
            )) ==> final(self).line_diffs == old(self).line_diffs || (final(self).line_diffs.paths()
                == old(self).line_diffs.paths() && final(self).line_diffs.diffs() == old(
                self,
            ).line_diffs.diffs()),
            (forall|k: int|
                0 <= k < old(self).line_diffs.paths().len() ==> !same_path(
                    #[trigger] old(self).line_diffs.paths()[k],
                    file_path@,
                )) ==> final(self).line_diffs.paths() == old(self).line_diffs.paths().push(
                file_path@,
            ) && final(self).line_diffs.diffs() == old(self).line_diffs.diffs().push(
                entries_view(diffs@),
            ),
    {
        self.line_diffs.insert_if_absent(file_path, diffs);
    }

    /// Compute blame annotations for a file from its blame hunks; `None`
    /// when the blame could not be read, which leaves no annotations.
    pub fn compute_blame(&mut self, hunks: Option<Vec<BlameHunk>>)
        requires
            hunks matches Some(h) ==> hunks_fit(h@),
        ensures
            blame_view(final(self).blame_info@) == match hunks {
                Some(h) => blame_map(h@),
                None => Map::empty(),
            },
            final(self).root() == old(self).root(),
            final(self).branch == old(self).branch,
            final(self).line_diffs == old(self).line_diffs,
            final(self).file_statuses == old(self).file_statuses,
            final(self).show_blame == old(self).show_blame,
    {
        broadcast use vstd::std_specs::hash::group_hash_axioms;

        self.blame_info.clear();
        assert(blame_view(self.blame_info@) =~= Map::<usize, Seq<char>>::empty());
        let hunks = match hunks {
            Some(h) => h,
            None => {
                return;
            },
        };
        let n = hunks.len();
        assert(hunks@.take(0) =~= Seq::<BlameHunk>::empty());
        for i in 0..n
            invariant
                n == hunks@.len(),
                hunks_fit(hunks@),
                blame_view(self.blame_info@) == blame_map(hunks@.take(i as int)),
                self.repo_root == old(self).repo_root,
                self.branch == old(self).branch,
                self.line_diffs == old(self).line_diffs,
                self.file_statuses == old(self).file_statuses,
                self.show_blame == old(self).show_blame,
        {
            let hunk = &hunks[i];
            assert(hunk_start(hunks@[i as int]) + hunks@[i as int].lines_in_hunk <= usize::MAX);
            let author: String = match &hunk.author {
                Some(a) => a.clone(),
                None => {
                    let q = "?".to_string();
                    proof {
                        reveal_strlit("?");
                    }
                    q
                },
            };
            assert(author@ =~= hunk_author(hunks@[i as int]));
            let start_line = if hunk.final_start_line >= 1 {
                hunk.final_start_line - 1
            } else {
                0
            };
            let line_count = hunk.lines_in_hunk;
            let ghost prev = blame_map(hunks@.take(i as int));
            for offset in 0..line_count
                invariant
                    start_line as int == hunk_start(hunks@[i as int]),
                    line_count == hunks@[i as int].lines_in_hunk,
                    start_line + line_count <= usize::MAX,
                    author@ == hunk_author(hunks@[i as int]),
                    self.repo_root == old(self).repo_root,
                    self.branch == old(self).branch,
                    self.line_diffs == old(self).line_diffs,
                    self.file_statuses == old(self).file_statuses,
                    self.show_blame == old(self).show_blame,
                    blame_view(self.blame_info@) == prev.union_prefer_right(
                        Map::new(
                            |l: usize| start_line <= l < start_line + offset,
                            |l: usize| author@,
                        ),
                    ),
            {
                let ghost before = self.blame_info@;
                let a2 = author.clone();
                self.blame_info.insert(start_line + offset, a2);
                assert(blame_view(self.blame_info@) =~= blame_view(before).insert(
                    (start_line + offset) as usize,
                    author@,
                ));
                assert(blame_view(self.blame_info@) =~= prev.union_prefer_right(
                    Map::new(
                        |l: usize| start_line <= l < start_line + offset + 1,
                        |l: usize| author@,
                    ),
                ));
            }
            let ghost tk = hunks@.take(i + 1);
            assert(tk.drop_last() =~= hunks@.take(i as int));
            assert(tk.last() == hunks@[i as int]);
            assert(blame_view(self.blame_info@) =~= blame_map(tk));
        }
        assert(hunks@.take(n as int) =~= hunks@);
    }

    /// Get line diff statuses for a given file (empty when none is cached).
    pub fn get_line_diffs(&self, path: &str) -> (r: &[(usize, LineDiffStatus)])
        ensures
            (exists|k: int|
                0 <= k < self.line_diffs.paths().len() && same_path(
                    #[trigger] self.line_diffs.paths()[k],
                    path@,
                )) ==> exists|k: int|
                0 <= k < self.line_diffs.paths().len() && same_path(
                    #[trigger] self.line_diffs.paths()[k],
                    path@,
                ) && (forall|j: int|
                    0 <= j < k ==> !same_path(#[trigger] self.line_diffs.paths()[j], path@))
                    && entries_view(r@) == self.line_diffs.diffs()[k],
            (forall|k: int|
                0 <= k < self.line_diffs.paths().len() ==> !same_path(
                    #[trigger] self.line_diffs.paths()[k],
                    path@,
                )) ==> r@.len() == 0,
    {
        self.line_diffs.get(path)
    }

    /// Get file status for a given path: that of the first listed entry for
    /// the path, or `Unchanged`.
    pub fn get_file_status(&self, path: &str) -> (r: FileGitStatus)
        ensures
            r == first_status(self.file_statuses@, path@),
    {
        let n = self.file_statuses.len();
        assert(self.file_statuses@.skip(0) =~= self.file_statuses@);
        for i in 0..n
            invariant
                n == self.file_statuses@.len(),
                first_status(self.file_statuses@, path@) == first_status(
                    self.file_statuses@.skip(i as int),
                    path@,
                ),
                forall|k: int| 0 <= k < i ==> !same_path(#[trigger] self.file_statuses@[k].path@, path@),
        {
            let ghost rest = self.file_statuses@.skip(i as int);
            assert(rest.drop_first() =~= self.file_statuses@.skip(i + 1));
            assert(rest[0] == self.file_statuses@[i as int]);
            if paths_equal(self.file_statuses[i].path.as_str(), path) {
                return self.file_statuses[i].status;
            }
        }
        assert(self.file_statuses@.skip(n as int) =~= Seq::<FileStatusEntry>::empty());
        FileGitStatus::Unchanged
    }
}

/// The status of the first entry for `path`, or `Unchanged`.
pub open spec fn first_status(entries: Seq<FileStatusEntry>, path: Seq<char>) -> FileGitStatus
    decreases entries.len(),
{
    if entries.len() == 0 {
        FileGitStatus::Unchanged
    } else if same_path(entries[0].path@, path) {
        entries[0].status
    } else {
        first_status(entries.drop_first(), path)
    }
}

/// The sidebar list for the raw status entries under `root`.
pub open spec fn status_list(root: Seq<char>, entries: Seq<(String, StatusFlags)>) -> Seq<(Seq<char>, FileGitStatus)>
    decreases entries.len(),
{
    if entries.len() == 0 {
        Seq::empty()
    } else {
        let rest = status_list(root, entries.drop_last());
        match classify(entries.last().1) {
            Some(s) => rest.push((joined_path(root, entries.last().0@), s)),
            None => rest,
        }
    }
}

impl Default for GitManager {
    fn default() -> (r: GitManager)
        ensures
            r.root() is None,
            r.branch is None,
            r.line_diffs.paths().len() == 0,
            r.file_statuses@.len() == 0,
            !r.show_blame,
            r.blame_info@ == Map::<usize, String>::empty(),
            r.last_refresh_at() is None,
            r.interval() == REFRESH_INTERVAL_MS,
    {
        GitManager::new()
    }
}

/// The sidebar indicator of a file status: a one-letter label and its color.
pub fn git_status_indicator(status: FileGitStatus) -> (r: (&'static str, Rgba))
    ensures
        r.0@ == status_label(status),
        r.1 == status_color(status),
{
    let r = match status {
        FileGitStatus::Modified => ("M", Rgba::from_rgb(80, 160, 255)),
        FileGitStatus::Staged => ("S", Rgba::from_rgb(80, 200, 80)),
        FileGitStatus::Untracked => ("U", Rgba::from_rgb(150, 150, 150)),
        FileGitStatus::Conflict => ("!", Rgba::from_rgb(220, 60, 60)),
        FileGitStatus::Deleted => ("D", Rgba::from_rgb(220, 60, 60)),
        FileGitStatus::Renamed => ("R", Rgba::from_rgb(200, 180, 80)),
        FileGitStatus::New => ("A", Rgba::from_rgb(80, 200, 80)),
        FileGitStatus::Unchanged => ("", Rgba::transparent()),
    };
    proof {
        reveal_strlit("M");
        reveal_strlit("S");
        reveal_strlit("U");
        reveal_strlit("!");
        reveal_strlit("D");
        reveal_strlit("R");
        reveal_strlit("A");
        reveal_strlit("");
        assert(r.0@ =~= status_label(status));
    }
    r
}

/// The one-letter sidebar label of a status (empty when unchanged).
pub open spec fn status_label(s: FileGitStatus) -> Seq<char> {
    match s {
        FileGitStatus::Modified => seq!['M'],
        FileGitStatus::Staged => seq!['S'],
        FileGitStatus::Untracked => seq!['U'],
        FileGitStatus::Conflict => seq!['!'],
        FileGitStatus::Deleted => seq!['D'],
        FileGitStatus::Renamed => seq!['R'],
        FileGitStatus::New => seq!['A'],
        FileGitStatus::Unchanged => Seq::empty(),
    }
}

/// The sidebar color of a status.
pub open spec fn status_color(s: FileGitStatus) -> Rgba {
    match s {
        FileGitStatus::Modified => Rgba { r: 80, g: 160, b: 255, a: 255 },
        FileGitStatus::Staged => Rgba { r: 80, g: 200, b: 80, a: 255 },
        FileGitStatus::Untracked => Rgba { r: 150, g: 150, b: 150, a: 255 },
        FileGitStatus::Conflict => Rgba { r: 220, g: 60, b: 60, a: 255 },
        FileGitStatus::Deleted => Rgba { r: 220, g: 60, b: 60, a: 255 },
        FileGitStatus::Renamed => Rgba { r: 200, g: 180, b: 80, a: 255 },
        FileGitStatus::New => Rgba { r: 80, g: 200, b: 80, a: 255 },
        FileGitStatus::Unchanged => Rgba { r: 0, g: 0, b: 0, a: 0 },
    }
}

/// The slot code of a status.
pub open spec fn status_code(s: LineDiffStatus) -> u8 {
    match s {
        LineDiffStatus::Added => 1,
        LineDiffStatus::Modified => 2,
        LineDiffStatus::Removed => 3,
    }
}

/// The gutter mark of a line: the status of the first diff entry for it,
/// with its color (green added, blue modified, red removed).
pub fn gutter_mark(line_diffs: &[(usize, LineDiffStatus)], line_idx: usize) -> (r: Option<(LineDiffStatus, Rgba)>)
    ensures
        match r {
            Some((st, c)) => exists|k: int|
                0 <= k < line_diffs@.len() && (#[trigger] line_diffs@[k]).0 == line_idx && line_diffs@[k].1 == st
                    && forall|j: int| 0 <= j < k ==> (#[trigger] line_diffs@[j]).0 != line_idx,
                None => forall|j: int| 0 <= j < line_diffs@.len() ==> (#[trigger] line_diffs@[j]).0 != line_idx,
        },
        r matches Some((st, c)) ==> (c.r, c.g, c.b, c.a) == match st {
            LineDiffStatus::Added => (80u8, 200u8, 80u8, 255u8),
            LineDiffStatus::Modified => (80u8, 160u8, 255u8, 255u8),
            LineDiffStatus::Removed => (220u8, 60u8, 60u8, 255u8),
        },
{
    let n = line_diffs.len();
    for k in 0..n
        invariant
            n == line_diffs@.len(),
            forall|j: int| 0 <= j < k ==> (#[trigger] line_diffs@[j]).0 != line_idx,
    {
        let (l, st) = line_diffs[k];
        if l == line_idx {
            let c = match st {
                LineDiffStatus::Added => Rgba::from_rgb(80, 200, 80),
                LineDiffStatus::Modified => Rgba::from_rgb(80, 160, 255),
                LineDiffStatus::Removed => Rgba::from_rgb(220, 60, 60),
            };
            assert(line_diffs@[k as int].0 == line_idx);
            return Some((st, c));
        }
    }
    None
}

} // verus!
