//! The breadcrumb bar: the chain of containers (modules, types) that enclose
//! the cursor line.

use vstd::prelude::*;
use crate::syntax::{Symbol, SymbolKind};
use crate::color::Rgba;

verus! {

/// Whether the breadcrumb bar shows.
pub struct BreadcrumbState {
    pub visible: bool,
}

impl Default for BreadcrumbState {
    fn default() -> (r: BreadcrumbState)
        ensures
            r.visible,
    {
        BreadcrumbState { visible: true }
    }
}

/// Kinds that can enclose other symbols.
pub open spec fn is_container(k: SymbolKind) -> bool {
    k == SymbolKind::Class || k == SymbolKind::Struct || k == SymbolKind::Enum || k
        == SymbolKind::Module || k == SymbolKind::Interface
}

/// Kinds that always appear in the trail.
pub open spec fn is_major(k: SymbolKind) -> bool {
    k == SymbolKind::Class || k == SymbolKind::Struct || k == SymbolKind::Enum || k
        == SymbolKind::Module
}

/// A container that starts at or before `cur`.
pub open spec fn eligible(s: Symbol, cur: usize) -> bool {
    s.line <= cur && is_container(s.kind)
}

/// Symbol `i` is eligible and no eligible symbol after it among the first `n`
/// starts on the same line.
pub open spec fn last_at_line(s: Seq<Symbol>, cur: usize, i: int, n: int) -> bool {
    &&& 0 <= i < n
    &&& eligible(s[i], cur)
    &&& forall|k: int|
        i < k < n ==> !(eligible(#[trigger] s[k], cur) && s[k].line == s[i].line)
}

/// `c` lists (by index into `s`) the last eligible symbol of each line, each
/// once, by ascending line.
pub open spec fn candidates(s: Seq<Symbol>, cur: usize, c: Seq<usize>) -> bool {
    &&& forall|k: int| 0 <= k < c.len() ==> last_at_line(s, cur, #[trigger] c[k] as int, s.len() as int)
    &&& forall|j: int| #[trigger] last_at_line(s, cur, j, s.len() as int) ==> listed_in(c, j)
    &&& forall|a: int, b: int| 0 <= a < b < c.len() ==> s[#[trigger] c[a] as int].line < s[#[trigger] c[b] as int].line
}

/// Whether index `j` occurs in `c`.
pub open spec fn listed_in(c: Seq<usize>, j: int) -> bool {
    exists|k: int| 0 <= k < c.len() && #[trigger] c[k] == j
}

/// Whether `v` occurs among the first `t` entries of `c`.
pub open spec fn occurs_before(c: Seq<usize>, t: int, v: int) -> bool {
    exists|q: int| 0 <= q < t && #[trigger] c[q] == v
}

/// The candidates of `c` whose kind is major, in order.
pub open spec fn majors(s: Seq<Symbol>, c: Seq<usize>) -> Seq<usize>
    decreases c.len(),
{
    if c.len() == 0 {
        Seq::empty()
    } else {
        let r = majors(s, c.drop_last());
        if is_major(s[c.last() as int].kind) {
            r.push(c.last())
        } else {
            r
        }
    }
}

/// The trail shown for candidates `c`: the first one, then every later one of
/// a major kind.
pub open spec fn trail(s: Seq<Symbol>, c: Seq<usize>) -> Seq<usize> {
    if c.len() == 0 {
        Seq::empty()
    } else {
        seq![c[0]] + majors(s, c.skip(1))
    }
}

/// Two eligible symbols last at their lines and on one line are the same.
proof fn lemma_last_unique(s: Seq<Symbol>, cur: usize, a: int, b: int, n: int)
    requires
        last_at_line(s, cur, a, n),
        last_at_line(s, cur, b, n),
        s[a].line == s[b].line,
    ensures
        a == b,
{
    if a < b {
        assert(!(eligible(s[b], cur) && s[b].line == s[a].line));
    } else if b < a {
        assert(!(eligible(s[a], cur) && s[a].line == s[b].line));
    }
}

/// The candidates for the trail at `current_line`: by index into `symbols`,
/// ascending by line.
pub fn breadcrumb_candidates(symbols: &[Symbol], current_line: usize) -> (r: Vec<usize>)
    ensures
        candidates(symbols@, current_line, r@),
{
    let ghost s = symbols@;
    let n = symbols.len();
    let mut found: Vec<usize> = Vec::new();
    let mut i: usize = 0;
    while i < n
        invariant
            i <= n,
            n == s.len(),
            s == symbols@,
            forall|k: int| 0 <= k < found@.len() ==> last_at_line(s, current_line, #[trigger] found@[k] as int, i as int),
            forall|j: int| #[trigger] last_at_line(s, current_line, j, i as int) ==> listed_in(found@, j),
            forall|a: int, b: int| 0 <= a < b < found@.len() ==> found@[a] != found@[b],
        decreases n - i,
    {
        let sym = &symbols[i];
        let container = match sym.kind {
            SymbolKind::Class | SymbolKind::Struct | SymbolKind::Enum | SymbolKind::Module
            | SymbolKind::Interface => true,
            _ => false,
        };
        if sym.line <= current_line && container {
            let ghost before = found@;
            let mut pos: usize = 0;
            while pos < found.len() && symbols[found[pos]].line != sym.line
                invariant
                    found@ == before,
                    *sym == s[i as int],
                    pos <= found@.len(),
                    forall|k: int| 0 <= k < found@.len() ==> last_at_line(s, current_line, #[trigger] found@[k] as int, i as int),
                    forall|k: int| 0 <= k < pos ==> s[#[trigger] found@[k] as int].line != s[i as int].line,
                    n == s.len(),
                    s == symbols@,
                    i < n,
                decreases found@.len() - pos,
            {
                pos = pos + 1;
            }
            if pos < found.len() {
                found.set(pos, i);
                proof {
                    assert forall|k: int| 0 <= k < found@.len() implies last_at_line(s, current_line, #[trigger] found@[k] as int, i + 1) by {
                        if k != pos {
                            let j = before[k] as int;
                            assert(last_at_line(s, current_line, j, i as int));
                            if s[j].line == s[i as int].line {
                                lemma_last_unique(s, current_line, j, before[pos as int] as int, i as int);
                                if k < pos {
                                    assert(before[k] != before[pos as int]);
                                } else {
                                    assert(before[pos as int] != before[k]);
                                }
                            }
                        }
                    }
                    assert forall|j: int| #[trigger] last_at_line(s, current_line, j, i + 1) implies listed_in(found@, j) by {
                        if j == i {
                            assert(found@[pos as int] == j);
                        } else {
                            assert(last_at_line(s, current_line, j, i as int));
                            let k = choose|k: int| 0 <= k < before.len() && #[trigger] before[k] == j;
                            if k == pos {
                                assert(s[j].line == s[i as int].line);
                                assert(false);
                            }
                            assert(found@[k] == j);
                        }
                    }
                }
            } else {
                found.push(i);
                proof {
                    assert forall|k: int| 0 <= k < found@.len() implies last_at_line(s, current_line, #[trigger] found@[k] as int, i + 1) by {
                        if k < before.len() {
                            assert(last_at_line(s, current_line, before[k] as int, i as int));
                        }
                    }
                    assert forall|j: int| #[trigger] last_at_line(s, current_line, j, i + 1) implies listed_in(found@, j) by {
                        if j == i {
                            assert(found@[before.len() as int] == j);
                        } else {
                            assert(last_at_line(s, current_line, j, i as int));
                            let k = choose|k: int| 0 <= k < before.len() && #[trigger] before[k] == j;
                            assert(found@[k] == j);
                        }
                    }
                }
            }
        } else {
            proof {
                assert forall|k: int| 0 <= k < found@.len() implies last_at_line(s, current_line, #[trigger] found@[k] as int, i + 1) by {
                    assert(last_at_line(s, current_line, found@[k] as int, i as int));
                }
                assert forall|j: int| #[trigger] last_at_line(s, current_line, j, i + 1) implies listed_in(found@, j) by {
                    assert(j != i);
                    assert(last_at_line(s, current_line, j, i as int));
                    let k = choose|k: int| 0 <= k < found@.len() && #[trigger] found@[k] == j;
                    assert(found@[k] == j);
                }
            }
        }
        i = i + 1;
    }
    // Order the candidates by line (their lines are distinct).
    let mut sorted: Vec<usize> = Vec::new();
    let m = found.len();
    let mut t: usize = 0;
    while t < m
        invariant
            t <= m,
            m == found@.len(),
            n == s.len(),
            s == symbols@,
            forall|k: int| 0 <= k < found@.len() ==> last_at_line(s, current_line, #[trigger] found@[k] as int, n as int),
            forall|a: int, b: int| 0 <= a < b < found@.len() ==> found@[a] != found@[b],
            forall|k: int| 0 <= k < sorted@.len() ==> occurs_before(found@, t as int, #[trigger] sorted@[k] as int),
            forall|q: int| 0 <= q < t ==> listed_in(sorted@, #[trigger] found@[q] as int),
            forall|a: int, b: int| 0 <= a < b < sorted@.len() ==> s[#[trigger] sorted@[a] as int].line < s[#[trigger] sorted@[b] as int].line,
        decreases m - t,
    {
        let x = found[t];
        let ghost sv = sorted@;
        proof {
            assert(last_at_line(s, current_line, x as int, n as int));
            assert forall|k: int| 0 <= k < sv.len() implies s[#[trigger] sv[k] as int].line != s[x as int].line by {
                let q = choose|q: int| 0 <= q < t && #[trigger] found@[q] == sv[k];
                assert(last_at_line(s, current_line, found@[q] as int, n as int));
                if s[sv[k] as int].line == s[x as int].line {
                    lemma_last_unique(s, current_line, sv[k] as int, x as int, n as int);
                    assert(found@[q] != found@[t as int]);
                }
            }
        }
        let mut p: usize = sorted.len();
        while p > 0 && symbols[x].line < symbols[sorted[p - 1]].line
            invariant
                p <= sorted@.len(),
                sorted@ == sv,
                s == symbols@,
                x < s.len(),
                forall|k: int| 0 <= k < sv.len() ==> sv[k] < s.len(),
                forall|k: int| p <= k < sv.len() ==> s[x as int].line < s[#[trigger] sv[k] as int].line,
            decreases p,
        {
            p = p - 1;
        }
        sorted.insert(p, x);
        proof {
            let nv = sorted@;
            assert(nv =~= sv.insert(p as int, x));
            if p > 0 {
                assert(s[sv[p - 1] as int].line < s[x as int].line);
            }
            assert forall|a: int, b: int| 0 <= a < b < nv.len() implies s[#[trigger] nv[a] as int].line < s[#[trigger] nv[b] as int].line by {
                if b < p {
                    assert(nv[a] == sv[a] && nv[b] == sv[b]);
                } else if b == p {
                    assert(nv[a] == sv[a]);
                    if a < p - 1 {
                        assert(s[sv[a] as int].line < s[sv[p - 1] as int].line);
                    }
                } else if a == p {
                    assert(nv[b] == sv[b - 1]);
                } else if a < p {
                    assert(nv[a] == sv[a] && nv[b] == sv[b - 1]);
                    assert(s[sv[a] as int].line < s[sv[b - 1] as int].line);
                } else {
                    assert(nv[a] == sv[a - 1] && nv[b] == sv[b - 1]);
                }
            }
            assert forall|k: int| 0 <= k < nv.len() implies occurs_before(found@, t + 1, #[trigger] nv[k] as int) by {
                if k < p {
                    assert(nv[k] == sv[k]);
                    let q = choose|q: int| 0 <= q < t && #[trigger] found@[q] == sv[k];
                    assert(found@[q] == nv[k]);
                } else if k == p {
                    assert(found@[t as int] == nv[k]);
                } else {
                    assert(nv[k] == sv[k - 1]);
                    let q = choose|q: int| 0 <= q < t && #[trigger] found@[q] == sv[k - 1];
                    assert(found@[q] == nv[k]);
                }
            }
            assert forall|q: int| 0 <= q < t + 1 implies listed_in(nv, #[trigger] found@[q] as int) by {
                if q < t {
                    assert(listed_in(sv, found@[q] as int));
                    let k = choose|k: int| 0 <= k < sv.len() && #[trigger] sv[k] == found@[q] as int;
                    if k < p {
                        assert(nv[k] == sv[k]);
                    } else {
                        assert(nv[k + 1] == sv[k]);
                    }
                } else {
                    assert(nv[p as int] == found@[q]);
                }
            }
        }
        t = t + 1;
    }
    proof {
        assert forall|k: int| 0 <= k < sorted@.len() implies last_at_line(s, current_line, #[trigger] sorted@[k] as int, s.len() as int) by {
            let q = choose|q: int| 0 <= q < m && #[trigger] found@[q] == sorted@[k];
            assert(last_at_line(s, current_line, found@[q] as int, n as int));
        }
        assert forall|j: int| #[trigger] last_at_line(s, current_line, j, s.len() as int) implies listed_in(sorted@, j) by {
            assert(listed_in(found@, j));
            let q = choose|q: int| 0 <= q < found@.len() && #[trigger] found@[q] == j;
            assert(listed_in(sorted@, found@[q] as int));
        }
    }
    sorted
}

/// The breadcrumb trail for the cursor at `current_line`: of the containers
/// starting at or before the line (the last one listed for each line), by
/// line, the first and then those that are classes, structs, enums or
/// modules.
pub fn build_breadcrumbs<'a>(symbols: &'a [Symbol], current_line: usize) -> (r: Vec<&'a Symbol>)
    ensures
        exists|c: Seq<usize>|
            #![trigger trail(symbols@, c)]
            candidates(symbols@, current_line, c) && r@.len() == trail(symbols@, c).len() && forall|
                k: int,
            |
                0 <= k < r@.len() ==> *#[trigger] r@[k] == symbols@[trail(symbols@, c)[k] as int],
{
    let c = breadcrumb_candidates(symbols, current_line);
    let ghost s = symbols@;
    let mut out: Vec<&'a Symbol> = Vec::new();
    if c.len() == 0 {
        assert(trail(s, c@).len() == 0);
        return out;
    }
    proof {
        assert(forall|k: int| 0 <= k < c@.len() ==> last_at_line(s, current_line, #[trigger] c@[k] as int, s.len() as int));
    }
    out.push(&symbols[c[0]]);
    let n = c.len();
    let mut k: usize = 1;
    assert(c@.subrange(1, 1) =~= Seq::<usize>::empty());
    while k < n
        invariant
            1 <= k <= n,
            n == c@.len(),
            s == symbols@,
            forall|q: int| 0 <= q < n ==> #[trigger] c@[q] < s.len(),
            out@.len() == 1 + majors(s, c@.subrange(1, k as int)).len(),
            *out@[0] == s[c@[0] as int],
            forall|q: int|
                0 <= q < majors(s, c@.subrange(1, k as int)).len() ==> *#[trigger] out@[q + 1]
                    == s[majors(s, c@.subrange(1, k as int))[q] as int],
        decreases n - k,
    {
        let ghost sub = c@.subrange(1, k + 1);
        assert(sub.drop_last() =~= c@.subrange(1, k as int));
        assert(sub.last() == c@[k as int]);
        let j = c[k];
        let major = match symbols[j].kind {
            SymbolKind::Class | SymbolKind::Struct | SymbolKind::Enum | SymbolKind::Module => true,
            _ => false,
        };
        if major {
            out.push(&symbols[j]);
        }
        k = k + 1;
    }
    proof {
        assert(c@.subrange(1, n as int) =~= c@.skip(1));
        assert forall|q: int| 0 <= q < out@.len() implies *#[trigger] out@[q] == s[trail(s, c@)[q] as int] by {
            if q > 0 {
                assert(*out@[(q - 1) + 1] == s[majors(s, c@.skip(1))[q - 1] as int]);
            }
        }
    }
    out
}

/// The color a breadcrumb's name is drawn in, by its symbol kind; none for
/// kinds drawn in the gutter color.
pub fn crumb_color(kind: SymbolKind) -> (r: Option<Rgba>)
    ensures
        r == match kind {
            SymbolKind::Class => Some(Rgba { r: 255, g: 200, b: 100, a: 255 }),
            SymbolKind::Struct => Some(Rgba { r: 100, g: 200, b: 255, a: 255 }),
            SymbolKind::Function | SymbolKind::Method => Some(Rgba { r: 100, g: 255, b: 150, a: 255 }),
            SymbolKind::Enum => Some(Rgba { r: 255, g: 150, b: 255, a: 255 }),
            SymbolKind::Module => Some(Rgba { r: 200, g: 200, b: 255, a: 255 }),
            _ => None,
        },
{
    match kind {
        SymbolKind::Class => Some(Rgba::from_rgb(255, 200, 100)),
        SymbolKind::Struct => Some(Rgba::from_rgb(100, 200, 255)),
        SymbolKind::Function | SymbolKind::Method => Some(Rgba::from_rgb(100, 255, 150)),
        SymbolKind::Enum => Some(Rgba::from_rgb(255, 150, 255)),
        SymbolKind::Module => Some(Rgba::from_rgb(200, 200, 255)),
        _ => None,
    }
}

} // verus!
