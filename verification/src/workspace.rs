//! Bookkeeping of the open tabs and the recent files.

use vstd::prelude::*;
use crate::git::{paths_equal, same_path};

verus! {

/// The most recent files remembered.
pub const MAX_RECENT: usize = 20;

/// The recent files without those that are the same path as `path`.
pub open spec fn without_path(recent: Seq<Seq<char>>, path: Seq<char>) -> Seq<Seq<char>> {
    recent.filter(|p: Seq<char>| !same_path(p, path))
}

/// The recent files after opening `path`: it comes first, earlier entries
/// of the same path leave, and at most `MAX_RECENT` stay.
pub open spec fn recent_after(recent: Seq<Seq<char>>, path: Seq<char>) -> Seq<Seq<char>> {
    let all = seq![path] + without_path(recent, path);
    if all.len() <= MAX_RECENT {
        all
    } else {
        all.take(MAX_RECENT as int)
    }
}

/// The files' paths.
pub open spec fn paths_view(v: Seq<String>) -> Seq<Seq<char>> {
    v.map_values(|s: String| s@)
}

/// The recent files after opening `path` (see `recent_after`).
pub fn remember_recent(recent: Vec<String>, path: String) -> (r: Vec<String>)
    ensures
        paths_view(r@) == recent_after(paths_view(recent@), path@),
{
    let ghost rv = paths_view(recent@);
    let mut out: Vec<String> = Vec::new();
    out.push(path.clone());
    let n = recent.len();
    assert(rv.take(0) =~= Seq::<Seq<char>>::empty());
    assert(paths_view(out@) =~= seq![path@] + without_path(rv.take(0), path@));
    for i in 0..n
        invariant
            n == recent@.len(),
            rv == paths_view(recent@),
            paths_view(out@) == seq![path@] + without_path(rv.take(i as int), path@),
    {
        let ghost before = paths_view(out@);
        proof {
            assert(rv.take(i + 1) =~= rv.take(i as int).push(rv[i as int]));
            rv.take(i as int).lemma_filter_push(rv[i as int], |p: Seq<char>| !same_path(p, path@));
        }
        if !paths_equal(recent[i].as_str(), path.as_str()) {
            out.push(recent[i].clone());
            assert(paths_view(out@) =~= before.push(rv[i as int]));
        }
    }
    assert(rv.take(n as int) =~= rv);
    if out.len() > MAX_RECENT {
        out.truncate(MAX_RECENT);
    }
    proof {
        let all = seq![path@] + without_path(rv, path@);
        if all.len() > MAX_RECENT {
            assert(paths_view(out@) =~= all.take(MAX_RECENT as int));
        }
    }
    out
}

/// The active tab after closing one, with `remaining` tabs left (a closed
/// last tab is replaced by a new empty one, which becomes active).
pub open spec fn active_after_close(active: int, remaining: int) -> int {
    if remaining == 0 {
        0
    } else if active >= remaining {
        remaining - 1
    } else {
        active
    }
}

/// The active tab after a tab closed, leaving `remaining` tabs.
pub fn active_tab_after_close(active: usize, remaining: usize) -> (r: usize)
    ensures
        r == active_after_close(active as int, remaining as int),
{
    if remaining == 0 {
        0
    } else if active >= remaining {
        remaining - 1
    } else {
        active
    }
}

} // verus!
