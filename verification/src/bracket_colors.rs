//! Bracket pair colorization: each bracket gets the color of its nesting
//! depth, cycling through a fixed palette.

use vstd::prelude::*;
use crate::color::Rgba;
use crate::text::chars_of;

verus! {

/// The number of colors the depths cycle through.
pub const BRACKET_COLOR_COUNT: usize = 6;

/// The palette: gold, orchid, deep sky blue, orange, lime green, hot pink.
pub open spec fn palette(i: int) -> Rgba {
    if i == 0 {
        Rgba { r: 255, g: 215, b: 0, a: 255 }
    } else if i == 1 {
        Rgba { r: 218, g: 112, b: 214, a: 255 }
    } else if i == 2 {
        Rgba { r: 0, g: 191, b: 255, a: 255 }
    } else if i == 3 {
        Rgba { r: 255, g: 165, b: 0, a: 255 }
    } else if i == 4 {
        Rgba { r: 50, g: 205, b: 50, a: 255 }
    } else {
        Rgba { r: 255, g: 105, b: 180, a: 255 }
    }
}

/// Color `i` of the palette.
pub fn bracket_color(i: usize) -> (r: Rgba)
    requires
        i < BRACKET_COLOR_COUNT,
    ensures
        r == palette(i as int),
{
    if i == 0 {
        Rgba::from_rgb(255, 215, 0)
    } else if i == 1 {
        Rgba::from_rgb(218, 112, 214)
    } else if i == 2 {
        Rgba::from_rgb(0, 191, 255)
    } else if i == 3 {
        Rgba::from_rgb(255, 165, 0)
    } else if i == 4 {
        Rgba::from_rgb(50, 205, 50)
    } else {
        Rgba::from_rgb(255, 105, 180)
    }
}

/// A bracket with its position and nesting depth.
#[derive(Debug, Clone)]
pub struct ColoredBracket {
    pub col: usize,
    pub depth: usize,
    pub color: Rgba,
}

/// An opening bracket.
pub open spec fn is_open_bracket(c: char) -> bool {
    c == '(' || c == '[' || c == '{'
}

/// A closing bracket.
pub open spec fn is_close_bracket(c: char) -> bool {
    c == ')' || c == ']' || c == '}'
}

/// The depth after character `c` at depth `d`: one deeper after an opening
/// bracket, one shallower (never below zero) after a closing one.
pub open spec fn step_depth(d: nat, c: char) -> nat {
    if is_open_bracket(c) {
        d + 1
    } else if is_close_bracket(c) {
        if d == 0 {
            0
        } else {
            (d - 1) as nat
        }
    } else {
        d
    }
}

/// The depth after the characters `s`, starting at depth `d`.
pub open spec fn depth_after(d: nat, s: Seq<char>) -> nat
    decreases s.len(),
{
    if s.len() == 0 {
        d
    } else {
        step_depth(depth_after(d, s.drop_last()), s.last())
    }
}

/// The brackets of `s` as (column, depth) pairs, for a line that starts at
/// depth `d`: an opening bracket has the depth before it, a closing one the
/// depth after it.
pub open spec fn brackets_of(d: nat, s: Seq<char>) -> Seq<(int, nat)>
    decreases s.len(),
{
    if s.len() == 0 {
        Seq::empty()
    } else {
        let rest = brackets_of(d, s.drop_last());
        let before = depth_after(d, s.drop_last());
        let col = s.len() - 1;
        if is_open_bracket(s.last()) {
            rest.push((col, before))
        } else if is_close_bracket(s.last()) {
            rest.push((col, step_depth(before, s.last())))
        } else {
            rest
        }
    }
}

/// Reading one more character of a line: each of `(`, `[` and `{` is a
/// bracket at its column with the depth before it and goes one level
/// deeper; each of `)`, `]` and `}` first comes one level up (not below
/// zero) and is a bracket at its column with that depth; any other
/// character is no bracket and keeps the depth.
pub proof fn lemma_bracket_step(d: nat, s: Seq<char>, c: char)
    ensures
        c == '(' || c == '[' || c == '{' ==> {
            &&& brackets_of(d, s.push(c)) == brackets_of(d, s).push((s.len() as int, depth_after(d, s)))
            &&& depth_after(d, s.push(c)) == depth_after(d, s) + 1
        },
        c == ')' || c == ']' || c == '}' ==> {
            let up = if depth_after(d, s) == 0 { 0 } else { (depth_after(d, s) - 1) as nat };
            &&& brackets_of(d, s.push(c)) == brackets_of(d, s).push((s.len() as int, up))
            &&& depth_after(d, s.push(c)) == up
        },
        !(c == '(' || c == '[' || c == '{' || c == ')' || c == ']' || c == '}') ==> {
            &&& brackets_of(d, s.push(c)) == brackets_of(d, s)
            &&& depth_after(d, s.push(c)) == depth_after(d, s)
        },
{
    assert(s.push(c).drop_last() =~= s);
}

/// Every bracket character of a line is reported, in order: the reported
/// brackets are as many as the line's bracket characters, and each sits on
/// one of them.
pub proof fn lemma_brackets_cover_line(d: nat, s: Seq<char>)
    ensures
        brackets_of(d, s).len() == s.filter(|c: char| c == '(' || c == '[' || c == '{' || c == ')' || c == ']' || c == '}').len(),
        forall|k: int| 0 <= k < brackets_of(d, s).len() ==> {
            let col = (#[trigger] brackets_of(d, s)[k]).0;
            &&& 0 <= col < s.len()
            &&& (s[col] == '(' || s[col] == '[' || s[col] == '{' || s[col] == ')' || s[col] == ']' || s[col] == '}')
        },
    decreases s.len(),
{
    if s.len() > 0 {
        let p = s.drop_last();
        lemma_brackets_cover_line(d, p);
        lemma_bracket_step(d, p, s.last());
        assert(p.push(s.last()) =~= s);
        reveal_with_fuel(Seq::filter, 1);
        assert(s.filter(|c: char| c == '(' || c == '[' || c == '{' || c == ')' || c == ']' || c == '}') == p.filter(
            |c: char| c == '(' || c == '[' || c == '{' || c == ')' || c == ']' || c == '}',
        ) + if (s.last() == '(' || s.last() == '[' || s.last() == '{' || s.last() == ')' || s.last() == ']'
            || s.last() == '}') {
            seq![s.last()]
        } else {
            Seq::<char>::empty()
        });
        assert forall|k: int| 0 <= k < brackets_of(d, s).len() implies {
            let col = (#[trigger] brackets_of(d, s)[k]).0;
            &&& 0 <= col < s.len()
            &&& (s[col] == '(' || s[col] == '[' || s[col] == '{' || s[col] == ')' || s[col] == ']' || s[col] == '}')
        } by {
            if k < brackets_of(d, p).len() {
                assert(brackets_of(d, s)[k] == brackets_of(d, p)[k]);
                assert(s[brackets_of(d, p)[k].0] == p[brackets_of(d, p)[k].0]);
            }
        }
    }
}

/// A colored bracket as its (column, depth) pair, when its color is that of
/// its depth.
pub open spec fn bracket_view(b: ColoredBracket) -> (int, nat) {
    (b.col as int, b.depth as nat)
}

/// The colored brackets' (column, depth) pairs.
pub open spec fn brackets_view(v: Seq<ColoredBracket>) -> Seq<(int, nat)> {
    v.map_values(|b: ColoredBracket| bracket_view(b))
}

/// Every bracket has the palette color of its depth.
pub open spec fn colored_by_depth(v: Seq<ColoredBracket>) -> bool {
    forall|k: int| 0 <= k < v.len() ==> (#[trigger] v[k]).color == palette((v[k].depth % 6) as int)
}

proof fn lemma_depth_bound(d: nat, s: Seq<char>)
    ensures
        depth_after(d, s) <= d + s.len(),
    decreases s.len(),
{
    if s.len() > 0 {
        lemma_depth_bound(d, s.drop_last());
    }
}

/// Scanning a text in two pieces, the second starting at the depth the first
/// ends at, gives the depth of scanning it whole.
pub proof fn lemma_depth_after_concat(d: nat, a: Seq<char>, b: Seq<char>)
    ensures
        depth_after(d, a + b) == depth_after(depth_after(d, a), b),
    decreases b.len(),
{
    if b.len() == 0 {
        assert(a + b =~= a);
    } else {
        assert((a + b).drop_last() =~= a + b.drop_last());
        lemma_depth_after_concat(d, a, b.drop_last());
    }
}

/// Compute bracket colors for a single line given the starting depth.
/// Returns the list of colored brackets and the depth at end of line.
pub fn colorize_brackets_line(line: &str, start_depth: usize) -> (r: (Vec<ColoredBracket>, usize))
    requires
        start_depth + line@.len() <= usize::MAX,
    ensures
        brackets_view(r.0@) == brackets_of(start_depth as nat, line@),
        colored_by_depth(r.0@),
        r.1 == depth_after(start_depth as nat, line@),
{
    let cs = chars_of(line);
    let n = cs.len();
    let mut depth = start_depth;
    let mut brackets: Vec<ColoredBracket> = Vec::new();
    assert(cs@.take(0) =~= Seq::<char>::empty());
    for col in 0..n
        invariant
            n == cs@.len(),
            cs@ == line@,
            start_depth + n <= usize::MAX,
            depth == depth_after(start_depth as nat, cs@.take(col as int)),
            brackets_view(brackets@) == brackets_of(start_depth as nat, cs@.take(col as int)),
            colored_by_depth(brackets@),
    {
        let ghost tk = cs@.take(col + 1);
        proof {
            assert(tk.drop_last() =~= cs@.take(col as int));
            assert(tk.last() == cs@[col as int]);
            lemma_depth_bound(start_depth as nat, cs@.take(col as int));
        }
        let ch = cs[col];
        let ghost before = brackets@;
        if ch == '(' || ch == '[' || ch == '{' {
            let b = ColoredBracket { col, depth, color: bracket_color(depth % 6) };
            brackets.push(b);
            depth = depth + 1;
            assert(brackets_view(brackets@) =~= brackets_view(before).push(bracket_view(b)));
        } else if ch == ')' || ch == ']' || ch == '}' {
            depth = depth.saturating_sub(1);
            let b = ColoredBracket { col, depth, color: bracket_color(depth % 6) };
            brackets.push(b);
            assert(brackets_view(brackets@) =~= brackets_view(before).push(bracket_view(b)));
        }
    }
    assert(cs@.take(n as int) =~= cs@);
    (brackets, depth)
}

/// The depth after the lines `lines`, starting at depth `d`.
pub open spec fn depth_after_lines(d: nat, lines: Seq<Seq<char>>) -> nat
    decreases lines.len(),
{
    if lines.len() == 0 {
        d
    } else {
        depth_after(depth_after_lines(d, lines.drop_last()), lines.last())
    }
}

/// The total number of characters of the lines.
pub open spec fn total_chars(lines: Seq<Seq<char>>) -> nat
    decreases lines.len(),
{
    if lines.len() == 0 {
        0
    } else {
        total_chars(lines.drop_last()) + lines.last().len()
    }
}

/// The lines' characters.
pub open spec fn lines_view(lines: Seq<&str>) -> Seq<Seq<char>> {
    lines.map_values(|l: &str| l@)
}

/// The colorized lines from `start` (inclusive) to `end` (exclusive) of
/// `lines`, each as (index, brackets) and only when it has brackets.
pub open spec fn colorized(lines: Seq<Seq<char>>, start: int, end: int) -> Seq<(int, Seq<(int, nat)>)>
    decreases end - start,
{
    if end <= start {
        Seq::empty()
    } else {
        let rest = colorized(lines, start, end - 1);
        let b = brackets_of(depth_after_lines(0, lines.take(end - 1)), lines[end - 1]);
        if b.len() > 0 {
            rest.push((end - 1, b))
        } else {
            rest
        }
    }
}

proof fn lemma_depth_lines_bound(d: nat, lines: Seq<Seq<char>>)
    ensures
        depth_after_lines(d, lines) <= d + total_chars(lines),
    decreases lines.len(),
{
    if lines.len() > 0 {
        lemma_depth_lines_bound(d, lines.drop_last());
        lemma_depth_bound(depth_after_lines(d, lines.drop_last()), lines.last());
    }
}

proof fn lemma_total_chars_prefix(lines: Seq<Seq<char>>, k: int)
    requires
        0 <= k <= lines.len(),
    ensures
        total_chars(lines.take(k)) <= total_chars(lines),
    decreases lines.len() - k,
{
    if k < lines.len() {
        lemma_total_chars_prefix(lines, k + 1);
        assert(lines.take(k + 1).drop_last() =~= lines.take(k));
    } else {
        assert(lines.take(k) =~= lines);
    }
}

/// Compute bracket colors for the visible lines `visible_start..visible_end`
/// of `all_lines`, carrying in the depth that the lines before them end at.
pub fn colorize_brackets(all_lines: &[&str], visible_start: usize, visible_end: usize) -> (r: Vec<
    (usize, Vec<ColoredBracket>),
>)
    requires
        total_chars(lines_view(all_lines@)) <= usize::MAX,
    ensures
        ({
            let lv = lines_view(all_lines@);
            let end = if visible_end < lv.len() {
                visible_end as int
            } else {
                lv.len() as int
            };
            &&& r@.len() == colorized(lv, visible_start as int, end).len()
            &&& forall|k: int|
                0 <= k < r@.len() ==> (#[trigger] r@[k]).0 == colorized(lv, visible_start as int, end)[k].0
                    && brackets_view(r@[k].1@) == colorized(lv, visible_start as int, end)[k].1
                    && colored_by_depth(r@[k].1@)
        }),
{
    let ghost lv = lines_view(all_lines@);
    let n = all_lines.len();
    let end = if visible_end < n {
        visible_end
    } else {
        n
    };
    let mut depth: usize = 0;
    let mut i: usize = 0;
    assert(lv.take(0) =~= Seq::<Seq<char>>::empty());
    while i < visible_start && i < end
        invariant
            i <= end,
            i <= visible_start,
            end <= n,
            n == lv.len(),
            lv == lines_view(all_lines@),
            total_chars(lv) <= usize::MAX,
            depth == depth_after_lines(0, lv.take(i as int)),
        decreases end - i,
    {
        proof {
            assert(lv.take(i + 1).drop_last() =~= lv.take(i as int));
            lemma_total_chars_prefix(lv, i + 1);
            lemma_depth_lines_bound(0, lv.take(i as int));
            assert(total_chars(lv.take(i + 1)) == total_chars(lv.take(i as int)) + lv[i as int].len());
        }
        let (_, d) = colorize_brackets_line(all_lines[i], depth);
        depth = d;
        i = i + 1;
    }
    let mut result: Vec<(usize, Vec<ColoredBracket>)> = Vec::new();
    let ghost first = i;
    while i < end
        invariant
            first <= i <= end,
            end <= n,
            n == lv.len(),
            lv == lines_view(all_lines@),
            total_chars(lv) <= usize::MAX,
            first == (if visible_start < end { visible_start as int } else { end as int }),
            depth == depth_after_lines(0, lv.take(i as int)),
            result@.len() == colorized(lv, visible_start as int, i as int).len(),
            forall|k: int|
                0 <= k < result@.len() ==> (#[trigger] result@[k]).0 == colorized(lv, visible_start as int, i as int)[k].0
                    && brackets_view(result@[k].1@) == colorized(lv, visible_start as int, i as int)[k].1
                    && colored_by_depth(result@[k].1@),
        decreases end - i,
    {
        proof {
            assert(lv.take(i + 1).drop_last() =~= lv.take(i as int));
            lemma_total_chars_prefix(lv, i + 1);
            lemma_depth_lines_bound(0, lv.take(i as int));
            assert(total_chars(lv.take(i + 1)) == total_chars(lv.take(i as int)) + lv[i as int].len());
        }
        let (brackets, d) = colorize_brackets_line(all_lines[i], depth);
        let ghost before = result@;
        if brackets.len() > 0 {
            result.push((i, brackets));
        }
        depth = d;
        i = i + 1;
        proof {
            assert forall|k: int|
                0 <= k < result@.len() implies (#[trigger] result@[k]).0 == colorized(lv, visible_start as int, i as int)[k].0
                    && brackets_view(result@[k].1@) == colorized(lv, visible_start as int, i as int)[k].1
                    && colored_by_depth(result@[k].1@) by {
                if k < before.len() {
                    assert(result@[k] == before[k]);
                }
            }
        }
    }
    result
}

} // verus!
