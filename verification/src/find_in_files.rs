//! Find in Files: the search state, the hand-over of results from the
//! background search, and the bookkeeping of the results view.

use vstd::prelude::*;
use std::collections::HashSet;
use crate::text::{decimal, push_all, push_decimal};
use crate::git::{join_path, joined_path};

verus! {

/// A single match within a line.
#[derive(Clone, Debug)]
pub struct LineMatch {
    /// 1-based line number.
    pub line_num: usize,
    pub line_text: String,
    /// Byte offsets of the match within the line.
    pub match_start: usize,
    pub match_end: usize,
}

/// All matches within a single file.
#[derive(Clone, Debug)]
pub struct FileMatch {
    /// The file's path relative to the searched directory.
    pub path: String,
    pub matches: Vec<LineMatch>,
}

/// What polling the background search gave.
pub enum SearchPoll {
    /// The search finished with these results.
    Ready(Vec<FileMatch>),
    /// The search went away without results.
    Disconnected,
    /// The search is still running.
    Pending,
}

/// The number of line matches of the files.
pub open spec fn match_total(results: Seq<FileMatch>) -> int
    decreases results.len(),
{
    if results.len() == 0 {
        0
    } else {
        match_total(results.drop_last()) + results.last().matches@.len()
    }
}

/// State for the Find in Files panel.
pub struct FindInFilesState {
    pub visible: bool,
    pub query: String,
    pub search_path: String,
    pub include_pattern: String,
    pub results: Vec<FileMatch>,
    pub case_sensitive: bool,
    pub use_regex: bool,
    pub searching: bool,
    /// Replace text for find-and-replace.
    pub replace_text: String,
    /// Whether to show the replace input.
    pub show_replace: bool,
    /// Whether a background search was started whose results are awaited.
    pub awaiting: bool,
    /// Which file indices are collapsed in the results view.
    pub collapsed_files: HashSet<usize>,
    /// Total match count across all files (cached).
    pub total_matches: usize,
}

impl FindInFilesState {
    /// A closed panel with nothing searched yet, searching under `search_path`.
    pub fn new(search_path: String) -> (r: FindInFilesState)
        ensures
            !r.visible,
            r.query@.len() == 0,
            r.search_path == search_path,
            r.include_pattern@.len() == 0,
            r.results@.len() == 0,
            !r.case_sensitive,
            !r.use_regex,
            !r.searching,
            r.replace_text@.len() == 0,
            !r.show_replace,
            !r.awaiting,
            r.collapsed_files@.len() == 0,
            r.total_matches == 0,
    {
        FindInFilesState {
            visible: false,
            query: String::new(),
            search_path,
            include_pattern: String::new(),
            results: Vec::new(),
            case_sensitive: false,
            use_regex: false,
            searching: false,
            replace_text: String::new(),
            show_replace: false,
            awaiting: false,
            collapsed_files: HashSet::new(),
            total_matches: 0,
        }
    }

    /// Takes in what polling the background search gave, when one is
    /// awaited: finished results replace the old ones (with their match total,
    /// and every file expanded); a vanished search just ends the wait.
    pub fn poll_results(&mut self, outcome: SearchPoll)
        requires
            outcome matches SearchPoll::Ready(res) ==> match_total(res@) <= usize::MAX,
        ensures
            old(self).awaiting ==> match outcome {
                SearchPoll::Ready(res) => {
                    &&& final(self).results == res
                    &&& final(self).total_matches == match_total(res@)
                    &&& !final(self).searching
                    &&& !final(self).awaiting
                    &&& final(self).collapsed_files@.len() == 0
                },
                SearchPoll::Disconnected => {
                    &&& !final(self).searching
                    &&& !final(self).awaiting
                    &&& final(self).results == old(self).results
                    &&& final(self).total_matches == old(self).total_matches
                    &&& final(self).collapsed_files == old(self).collapsed_files
                },
                SearchPoll::Pending => *final(self) == *old(self),
            },
            !old(self).awaiting ==> *final(self) == *old(self),
            final(self).visible == old(self).visible,
            final(self).query == old(self).query,
            final(self).search_path == old(self).search_path,
            final(self).include_pattern == old(self).include_pattern,
            final(self).case_sensitive == old(self).case_sensitive,
            final(self).use_regex == old(self).use_regex,
            final(self).replace_text == old(self).replace_text,
            final(self).show_replace == old(self).show_replace,
    {
        if self.awaiting {
            match outcome {
                SearchPoll::Ready(results) => {
                    let mut total: usize = 0;
                    let n = results.len();
                    for i in 0..n
                        invariant
                            n == results@.len(),
                            match_total(results@) <= usize::MAX,
                            total == match_total(results@.take(i as int)),
                    {
                        proof {
                            assert(results@.take(i + 1).drop_last() =~= results@.take(i as int));
                            lemma_match_total_prefix(results@, i + 1);
                        }
                        total = total + results[i].matches.len();
                    }
                    assert(results@.take(n as int) =~= results@);
                    self.total_matches = total;
                    self.results = results;
                    self.searching = false;
                    self.awaiting = false;
                    self.collapsed_files.clear();
                },
                SearchPoll::Disconnected => {
                    self.searching = false;
                    self.awaiting = false;
                },
                SearchPoll::Pending => {},
            }
        }
    }
}

impl FindInFilesState {
    /// Starts a search for the current query: unless the query is empty (then
    /// nothing changes and no search is to run), clears the old results and
    /// awaits new ones; returns whether the background search is to be run.
    pub fn begin_search(&mut self) -> (r: bool)
        ensures
            r == (old(self).query@.len() > 0),
            r ==> {
                &&& final(self).searching
                &&& final(self).awaiting
                &&& final(self).results@.len() == 0
                &&& final(self).total_matches == 0
                &&& final(self).collapsed_files@.len() == 0
                &&& final(self).visible == old(self).visible
                &&& final(self).query == old(self).query
                &&& final(self).search_path == old(self).search_path
                &&& final(self).include_pattern == old(self).include_pattern
                &&& final(self).case_sensitive == old(self).case_sensitive
                &&& final(self).use_regex == old(self).use_regex
                &&& final(self).replace_text == old(self).replace_text
                &&& final(self).show_replace == old(self).show_replace
            },
            !r ==> *final(self) == *old(self),
    {
        if self.query.as_str().unicode_len() == 0 {
            return false;
        }
        self.searching = true;
        self.results.clear();
        self.total_matches = 0;
        self.collapsed_files.clear();
        self.awaiting = true;
        true
    }

    /// Collapses the results of file `file_idx`, or expands them when they
    /// are collapsed.
    pub fn toggle_collapsed(&mut self, file_idx: usize)
        ensures
            old(self).collapsed_files@.contains(file_idx) ==> final(self).collapsed_files@
                == old(self).collapsed_files@.remove(file_idx),
            !old(self).collapsed_files@.contains(file_idx) ==> final(self).collapsed_files@
                == old(self).collapsed_files@.insert(file_idx),
            final(self).results == old(self).results,
            final(self).total_matches == old(self).total_matches,
            final(self).searching == old(self).searching,
            final(self).awaiting == old(self).awaiting,
    {
        broadcast use vstd::std_specs::hash::group_hash_axioms;

        if self.collapsed_files.contains(&file_idx) {
            self.collapsed_files.remove(&file_idx);
        } else {
            self.collapsed_files.insert(file_idx);
        }
    }

    /// Whether the results of file `file_idx` are collapsed.
    pub fn is_collapsed(&self, file_idx: usize) -> (r: bool)
        ensures
            r == self.collapsed_files@.contains(file_idx),
    {
        broadcast use vstd::std_specs::hash::group_hash_axioms;

        self.collapsed_files.contains(&file_idx)
    }

    /// Where clicking match `match_idx` of result `file_idx` leads: the
    /// file's path joined to the search folder, and the 0-based line; none
    /// when there is no such match.
    pub fn navigation_target(&self, file_idx: usize, match_idx: usize) -> (r: Option<(String, usize)>)
        requires
            file_idx < self.results@.len() && match_idx < self.results@[file_idx as int].matches@.len()
                ==> self.results@[file_idx as int].matches@[match_idx as int].line_num >= 1,
        ensures
            r is Some <==> file_idx < self.results@.len() && match_idx
                < self.results@[file_idx as int].matches@.len(),
            r matches Some((p, line)) ==> p@ == joined_path(
                self.search_path@,
                self.results@[file_idx as int].path@,
            ) && line == self.results@[file_idx as int].matches@[match_idx as int].line_num - 1,
    {
        if file_idx >= self.results.len() || match_idx >= self.results[file_idx].matches.len() {
            return None;
        }
        let f = &self.results[file_idx];
        let p = join_path(self.search_path.as_str(), f.path.as_str());
        Some((p, f.matches[match_idx].line_num - 1))
    }

    /// After a replace across the files, the old results no longer hold.
    pub fn clear_results(&mut self)
        ensures
            final(self).results@.len() == 0,
            final(self).total_matches == 0,
            final(self).searching == old(self).searching,
            final(self).awaiting == old(self).awaiting,
            final(self).collapsed_files == old(self).collapsed_files,
            final(self).query == old(self).query,
    {
        self.results.clear();
        self.total_matches = 0;
    }

    /// The summary line of the results view: the match and file counts when
    /// there are results, "No results found." after a finished search that
    /// found nothing, else none.
    pub fn summary(&self) -> (r: Option<String>)
        ensures
            self.results@.len() > 0 ==> (r matches Some(t) && t@ == decimal(
                self.total_matches as nat,
            ) + " matches in "@ + decimal(self.results@.len()) + " files"@),
            self.results@.len() == 0 && !self.searching && self.query@.len() > 0 && !self.awaiting
                ==> (r matches Some(t) && t@ == "No results found."@),
            self.results@.len() == 0 && (self.searching || self.query@.len() == 0 || self.awaiting)
                ==> r is None,
    {
        if self.results.len() > 0 {
            let mut t = String::new();
            push_decimal(&mut t, self.total_matches as u64, 0);
            push_all(&mut t, " matches in ");
            push_decimal(&mut t, self.results.len() as u64, 0);
            push_all(&mut t, " files");
            Some(t)
        } else if !self.searching && self.query.as_str().unicode_len() > 0 && !self.awaiting {
            Some("No results found.".to_string())
        } else {
            None
        }
    }
}

/// The match total of a prefix is at most that of the whole list.
proof fn lemma_match_total_prefix(results: Seq<FileMatch>, k: int)
    requires
        0 <= k <= results.len(),
    ensures
        match_total(results.take(k)) <= match_total(results),
    decreases results.len() - k,
{
    if k < results.len() {
        lemma_match_total_prefix(results, k + 1);
        assert(results.take(k + 1).drop_last() =~= results.take(k));
    } else {
        assert(results.take(k) =~= results);
    }
}

} // verus!
