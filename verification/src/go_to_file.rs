//! "Go to File" (Ctrl+P) fuzzy file finder: matching, filtering and ordering
//! of the scanned file list.

use vstd::prelude::*;
use crate::text::{
    chars_of, decimal, is_subsequence, lemma_lex_total, lemma_lex_transitive, lex_less, lex_lt, lowercase,
    push_all, push_decimal, subsequence_of, to_lowercase, zero_padded,
};

verus! {

/// Directories to skip during scanning.
pub open spec fn skipped_dir_names() -> Seq<Seq<char>> {
    seq![
        ".git"@,
        ".hg"@,
        ".svn"@,
        "target"@,
        "node_modules"@,
        "build"@,
        "dist"@,
        "__pycache__"@,
        ".idea"@,
        ".vscode"@,
    ]
}

/// Maximum depth for directory traversal.
pub const MAX_DEPTH: usize = 10;

/// Maximum number of files to collect.
pub const MAX_FILES: usize = 10000;

/// What `Path::new(p).file_name().unwrap_or_default().to_string_lossy()`
/// gives for the path `p`: its last normal component, or the empty string.
pub uninterp spec fn file_name_of(p: Seq<char>) -> Seq<char>;

/// The last component of `path` (empty when it has none), as
/// `Path::file_name` parses the path syntax of the target platform.
#[verifier::external_body]
pub(crate) fn path_file_name(path: &str) -> (r: String)
    ensures
        r@ == file_name_of(path@),
{
    std::path::Path::new(path).file_name().unwrap_or_default().to_string_lossy().into_owned()
}

/// Whether a directory entry named `name` is left out of a scan: hidden
/// directories (other than `.`) and the well-known build and tool directories.
pub open spec fn is_skipped_dir(name: Seq<char>) -> bool {
    (name.len() > 0 && name[0] == '.' && name != seq!['.']) || skipped_dir_names().contains(name)
}

/// Whether a directory named `name` is left out of a scan.
pub fn skip_dir(name: &str) -> (r: bool)
    ensures
        r == is_skipped_dir(name@),
{
    let cs = chars_of(name);
    if cs.len() > 0 && cs[0] == '.' && !(cs.len() == 1) {
        return true;
    }
    let skip: Vec<&str> = vec![
        ".git",
        ".hg",
        ".svn",
        "target",
        "node_modules",
        "build",
        "dist",
        "__pycache__",
        ".idea",
        ".vscode",
    ];
    let ghost sv = skip@.map_values(|s: &str| s@);
    assert(sv =~= skipped_dir_names());
    proof {
        if cs@.len() == 1 && cs@[0] == '.' {
            assert(name@ =~= seq!['.']);
        }
        if name@ == seq!['.'] {
            assert(cs@.len() == 1);
        }
    }
    let n = skip.len();
    for i in 0..n
        invariant
            n == skip@.len(),
            sv == skip@.map_values(|s: &str| s@),
            sv == skipped_dir_names(),
            cs@ == name@,
            !(name@.len() > 0 && name@[0] == '.' && name@ != seq!['.']),
            forall|j: int| 0 <= j < i ==> sv[j] != name@,
    {
        if crate::text::str_eq(skip[i], name) {
            assert(sv[i as int] == name@);
            return true;
        }
    }
    proof {
        if skipped_dir_names().contains(name@) {
            let j = choose|j: int| 0 <= j < sv.len() && sv[j] == name@;
            assert(sv[j] != name@);
        }
    }
    false
}

/// Whether `query` fuzzily matches the file name of `path`: all query
/// characters appear in the file name in order, ignoring case.
pub open spec fn path_matches(query: Seq<char>, path: Seq<char>) -> bool {
    is_subsequence(lowercase(query), lowercase(file_name_of(path)))
}

/// Fuzzy match: all query characters must appear in the file name in order
/// (case insensitive). Matches against the file name portion only, not the
/// full path.
pub fn fuzzy_match_path(query: &str, path: &str) -> (r: bool)
    ensures
        r == path_matches(query@, path@),
{
    let name = path_file_name(path);
    let name_lower = to_lowercase(name.as_str());
    let query_lower = to_lowercase(query);
    let nc = chars_of(name_lower.as_str());
    let qc = chars_of(query_lower.as_str());
    subsequence_of(qc.as_slice(), nc.as_slice())
}

/// The indices (ascending) of the paths that the query matches; all indices
/// when the query is empty.
pub open spec fn filter_indices(query: Seq<char>, files: Seq<Seq<char>>) -> Seq<usize>
    decreases files.len(),
{
    if files.len() == 0 {
        Seq::empty()
    } else {
        let rest = filter_indices(query, files.drop_last());
        if query.len() == 0 || path_matches(query, files.last()) {
            rest.push((files.len() - 1) as usize)
        } else {
            rest
        }
    }
}

/// The selection after filtering: clamped to the last match, or 0 when
/// nothing matches.
pub open spec fn clamp_selection(selected: usize, count: nat) -> usize {
    if count == 0 {
        0
    } else if selected >= count {
        (count - 1) as usize
    } else {
        selected
    }
}

/// The file names of the paths.
pub open spec fn names_view(files: Seq<String>) -> Seq<Seq<char>> {
    files.map_values(|f: String| f@)
}

/// State for the "Go to File" (Ctrl+P) fuzzy file finder dialog.
pub struct GoToFileState {
    pub open: bool,
    pub query: String,
    pub selected: usize,
    /// All files found during scan (relative to root).
    pub files: Vec<String>,
    /// Indices into `files` that match the current query.
    pub filtered: Vec<usize>,
}

impl Default for GoToFileState {
    fn default() -> (r: GoToFileState)
        ensures
            !r.open,
            r.query@.len() == 0,
            r.selected == 0,
            r.files@.len() == 0,
            r.filtered@.len() == 0,
    {
        GoToFileState {
            open: false,
            query: String::new(),
            selected: 0,
            files: Vec::new(),
            filtered: Vec::new(),
        }
    }
}

/// Whether the paths are in non-decreasing order of file name.
pub open spec fn sorted_by_file_name(files: Seq<Seq<char>>) -> bool {
    forall|i: int, j: int|
        0 <= i < j < files.len() ==> !lex_lt(
            file_name_of(#[trigger] files[j]),
            file_name_of(#[trigger] files[i]),
        )
}

/// An entry met by the directory walk: its path relative to the root, the
/// names of the directories between the root and it, and whether it is a
/// regular file.
pub struct WalkedEntry {
    pub rel_path: String,
    pub dirs: Vec<String>,
    pub is_file: bool,
}

/// Whether a walked entry is listed: a regular file at depth at most
/// `MAX_DEPTH` below the root, under no hidden or skipped directory.
pub open spec fn entry_listed(e: WalkedEntry) -> bool {
    &&& e.is_file
    &&& e.dirs@.len() < MAX_DEPTH
    &&& forall|i: int| 0 <= i < e.dirs@.len() ==> !is_skipped_dir(#[trigger] e.dirs@[i]@)
}

/// The paths the scan lists from the walked entries, in walk order, stopping
/// at `MAX_FILES`.
pub open spec fn listed_paths(es: Seq<WalkedEntry>) -> Seq<Seq<char>>
    decreases es.len(),
{
    if es.len() == 0 {
        Seq::empty()
    } else {
        let p = listed_paths(es.drop_last());
        if entry_listed(es.last()) && p.len() < MAX_FILES {
            p.push(es.last().rel_path@)
        } else {
            p
        }
    }
}

/// The files the scan lists from the walked entries: the first `MAX_FILES`
/// regular files at depth at most `MAX_DEPTH` under no hidden or skipped
/// directory, in walk order.
pub fn listed_files(entries: &Vec<WalkedEntry>) -> (r: Vec<String>)
    ensures
        names_view(r@) == listed_paths(entries@),
        r@.len() <= MAX_FILES,
{
    let mut out: Vec<String> = Vec::new();
    let n = entries.len();
    assert(entries@.take(0) =~= Seq::<WalkedEntry>::empty());
    for i in 0..n
        invariant
            n == entries@.len(),
            names_view(out@) == listed_paths(entries@.take(i as int)),
            out@.len() <= MAX_FILES,
    {
        assert(entries@.take(i + 1).drop_last() =~= entries@.take(i as int));
        let e = &entries[i];
        let mut ok = e.is_file && e.dirs.len() < MAX_DEPTH;
        let m = e.dirs.len();
        for j in 0..m
            invariant
                m == e.dirs@.len(),
                ok ==> e.is_file && e.dirs@.len() < MAX_DEPTH,
                ok <==> (e.is_file && e.dirs@.len() < MAX_DEPTH && forall|k: int| 0 <= k < j ==> !is_skipped_dir(#[trigger] e.dirs@[k]@)),
        {
            if skip_dir(e.dirs[j].as_str()) {
                ok = false;
            }
        }
        if ok && out.len() < MAX_FILES {
            let ghost before = names_view(out@);
            out.push(e.rel_path.clone());
            assert(names_view(out@) =~= before.push(e.rel_path@));
        }
    }
    assert(entries@.take(n as int) =~= entries@);
    out
}

impl GoToFileState {
    /// Replace the file list with the files a scan found (relative paths, in
    /// walk order): the first `MAX_FILES` of them, ordered by file name, then
    /// recompute the filtered list.
    pub fn scan(&mut self, found: Vec<String>)
        ensures
            names_view(final(self).files@).to_multiset() == names_view(
                found@.take(min_len(found@.len(), MAX_FILES as nat) as int),
            ).to_multiset(),
            sorted_by_file_name(names_view(final(self).files@)),
            exists|perm: Seq<int>|
                stable_order(
                    names_view(found@.take(min_len(found@.len(), MAX_FILES as nat) as int)),
                    names_view(final(self).files@),
                    perm,
                ),
            final(self).filtered@ == filter_indices(
                final(self).query@,
                names_view(final(self).files@),
            ),
            final(self).selected == clamp_selection(
                old(self).selected,
                final(self).filtered@.len(),
            ),
            final(self).query@ == old(self).query@,
            final(self).open == old(self).open,
    {
        let mut found = found;
        let ghost orig = found@;
        if found.len() > MAX_FILES {
            found.truncate(MAX_FILES);
        }
        assert(found@ =~= orig.take(min_len(orig.len(), MAX_FILES as nat) as int));
        self.files = sort_by_file_name(found);
        self.update_filtered();
    }

    /// Recompute the filtered list based on the current query.
    pub fn update_filtered(&mut self)
        ensures
            final(self).filtered@ == filter_indices(
                old(self).query@,
                names_view(old(self).files@),
            ),
            final(self).selected == clamp_selection(
                old(self).selected,
                final(self).filtered@.len(),
            ),
            final(self).files@ == old(self).files@,
            final(self).query@ == old(self).query@,
            final(self).open == old(self).open,
    {
        let ghost fv = names_view(self.files@);
        let empty_query = self.query.as_str().is_empty();
        let mut filtered: Vec<usize> = Vec::new();
        let n = self.files.len();
        assert(fv.take(0) =~= Seq::<Seq<char>>::empty());
        for i in 0..n
            invariant
                n == self.files@.len(),
                fv == names_view(self.files@),
                empty_query == (self.query@.len() == 0),
                filtered@ == filter_indices(self.query@, fv.take(i as int)),
        {
            let ghost tk = fv.take(i + 1);
            assert(tk.drop_last() =~= fv.take(i as int));
            assert(tk.last() == self.files@[i as int]@);
            if empty_query || fuzzy_match_path(self.query.as_str(), self.files[i].as_str()) {
                filtered.push(i);
            }
        }
        assert(fv.take(n as int) =~= fv);
        self.filtered = filtered;
        // Clamp selection
        if self.filtered.len() == 0 {
            self.selected = 0;
        } else if self.selected >= self.filtered.len() {
            self.selected = self.filtered.len() - 1;
        }
    }
}

/// The most files the dialog lists at once.
pub const MAX_VISIBLE: usize = 20;

/// The rows of a list of `len` entries shown in a window of `max` rows so
/// that entry `selected` is in it: from the first row (or, when the
/// selection is past the window, the row that puts it last) to at most
/// `max` rows further.
pub open spec fn list_window(selected: int, len: int, max: int) -> (int, int) {
    let visible = if len <= max { len } else { max };
    let start = if selected >= visible { selected - visible + 1 } else { 0 };
    let end = if start + max <= len { start + max } else { len };
    (start, end)
}

/// The first and one-past-last rows of the list window (see `list_window`).
pub fn visible_window(selected: usize, len: usize, max: usize) -> (r: (usize, usize))
    requires
        selected < usize::MAX,
    ensures
        (r.0 as int, r.1 as int) == list_window(selected as int, len as int, max as int),
{
    let visible = if len <= max { len } else { max };
    let start = if selected >= visible { selected - visible + 1 } else { 0 };
    let end = if start <= len && max <= len - start { start + max } else { len };
    (start, end)
}

impl GoToFileState {
    /// Arrow keys move the selection within the list; Enter picks the
    /// selected file (closing the dialog). Returns the picked file.
    pub fn handle_keys(&mut self, up: bool, down: bool, enter: bool) -> (r: Option<String>)
        requires
            forall|k: int| 0 <= k < old(self).filtered@.len() ==> #[trigger] old(self).filtered@[k] < old(self).files@.len(),
            old(self).filtered@.len() > 0 ==> old(self).selected < old(self).filtered@.len(),
        ensures
            ({
                let s1 = if up && old(self).selected > 0 { old(self).selected - 1 } else { old(self).selected as int };
                let s2 = if down && s1 + 1 < old(self).filtered@.len() { s1 + 1 } else { s1 };
                &&& final(self).selected == s2
                &&& if enter && old(self).filtered@.len() > 0 {
                    &&& r matches Some(f) && f@ == old(self).files@[old(self).filtered@[s2] as int]@
                    &&& !final(self).open
                } else {
                    &&& r is None
                    &&& final(self).open == old(self).open
                }
            }),
            final(self).files == old(self).files,
            final(self).filtered == old(self).filtered,
            final(self).query == old(self).query,
    {
        if up && self.selected > 0 {
            self.selected = self.selected - 1;
        }
        if down && self.selected < self.filtered.len() && 1 < self.filtered.len() - self.selected {
            self.selected = self.selected + 1;
        }
        if enter && self.filtered.len() > 0 {
            let file_idx = self.filtered[self.selected];
            let picked = self.files[file_idx].clone();
            self.open = false;
            return Some(picked);
        }
        None
    }

    /// The count line under the input: the number of files listed, and of
    /// all files while a query filters them.
    pub fn count_text(&self) -> (r: String)
        ensures
            r@ == if self.query@.len() == 0 {
                decimal(self.filtered@.len()) + " files"@
            } else {
                decimal(self.filtered@.len()) + " / "@ + decimal(self.files@.len()) + " files"@
            },
    {
        let mut t = String::new();
        push_decimal(&mut t, self.filtered.len() as u64, 0);
        assert(zero_padded(decimal(self.filtered@.len()), 0) =~= decimal(self.filtered@.len()));
        if self.query.as_str().is_empty() {
            push_all(&mut t, " files");
        } else {
            push_all(&mut t, " / ");
            push_decimal(&mut t, self.files.len() as u64, 0);
            assert(zero_padded(decimal(self.files@.len()), 0) =~= decimal(self.files@.len()));
            push_all(&mut t, " files");
        }
        t
    }
}

/// `out` is `input` reordered by `perm` (entry `k` of `out` is entry
/// `perm[k]` of `input`, each taken once), with paths of equal file names
/// kept in their input order.
pub open spec fn stable_order(input: Seq<Seq<char>>, out: Seq<Seq<char>>, perm: Seq<int>) -> bool {
    &&& out.len() == input.len()
    &&& perm.len() == input.len()
    &&& forall|k: int| 0 <= k < perm.len() ==> 0 <= #[trigger] perm[k] < input.len() && out[k] == input[perm[k]]
    &&& forall|a: int, b: int| 0 <= a < b < perm.len() ==> #[trigger] perm[a] != #[trigger] perm[b]
    &&& forall|a: int, b: int|
        0 <= a < b < out.len() && file_name_of(#[trigger] out[a]) == file_name_of(#[trigger] out[b]) ==> perm[a] < perm[b]
}

/// Inserting a new last entry before every entry of a greater file name
/// keeps the order stable.
proof fn lemma_stable_insert(input: Seq<Seq<char>>, x: Seq<char>, out: Seq<Seq<char>>, perm: Seq<int>, p: int)
    requires
        stable_order(input, out, perm),
        0 <= p <= out.len(),
        forall|k: int| p <= k < out.len() ==> lex_lt(file_name_of(x), file_name_of(#[trigger] out[k])),
    ensures
        stable_order(input.push(x), out.insert(p, x), perm.insert(p, input.len() as int)),
{
    let ti = input.push(x);
    let nv = out.insert(p, x);
    let np = perm.insert(p, input.len() as int);
    assert forall|k: int| 0 <= k < np.len() implies 0 <= #[trigger] np[k] < ti.len() && nv[k] == ti[np[k]] by {
        if k < p {
            assert(np[k] == perm[k] && nv[k] == out[k]);
        } else if k > p {
            assert(np[k] == perm[k - 1] && nv[k] == out[k - 1]);
        }
    }
    assert forall|a: int, b: int| 0 <= a < b < np.len() implies #[trigger] np[a] != #[trigger] np[b] by {
        if a < p && b < p {
            assert(np[a] == perm[a] && np[b] == perm[b]);
        } else if a < p && b == p {
            assert(np[a] == perm[a]);
        } else if a < p && b > p {
            assert(np[a] == perm[a] && np[b] == perm[b - 1]);
        } else if a == p {
            assert(np[b] == perm[b - 1]);
        } else {
            assert(np[a] == perm[a - 1] && np[b] == perm[b - 1]);
        }
    }
    assert forall|a: int, b: int|
        0 <= a < b < nv.len() && file_name_of(#[trigger] nv[a]) == file_name_of(#[trigger] nv[b]) implies np[a] < np[b] by {
        if a < p && b < p {
            assert(np[a] == perm[a] && np[b] == perm[b]);
            assert(nv[a] == out[a] && nv[b] == out[b]);
        } else if a < p && b == p {
            assert(np[a] == perm[a]);
        } else if a < p && b > p {
            assert(np[a] == perm[a] && np[b] == perm[b - 1]);
            assert(nv[a] == out[a] && nv[b] == out[b - 1]);
        } else if a == p {
            assert(nv[b] == out[b - 1]);
            assert(lex_lt(file_name_of(x), file_name_of(nv[b])));
            crate::text::lemma_lex_irreflexive(file_name_of(x));
        } else {
            assert(np[a] == perm[a - 1] && np[b] == perm[b - 1]);
            assert(nv[a] == out[a - 1] && nv[b] == out[b - 1]);
        }
    }
}

/// The smaller of two lengths.
pub open spec fn min_len(a: nat, b: nat) -> nat {
    if a <= b {
        a
    } else {
        b
    }
}

/// The paths ordered by file name (stable insertion sort).
pub fn sort_by_file_name(files: Vec<String>) -> (r: Vec<String>)
    ensures
        names_view(r@).to_multiset() == names_view(files@).to_multiset(),
        sorted_by_file_name(names_view(r@)),
        exists|perm: Seq<int>| stable_order(names_view(files@), names_view(r@), perm),
{
    let mut sorted: Vec<String> = Vec::new();
    let mut keys: Vec<Vec<char>> = Vec::new();
    let n = files.len();
    let ghost fv = names_view(files@);
    assert(fv.take(0) =~= Seq::<Seq<char>>::empty());
    assert(names_view(sorted@) =~= fv.take(0));
    let ghost mut perm: Seq<int> = Seq::empty();
    for i in 0..n
        invariant
            n == files@.len(),
            fv == names_view(files@),
            keys@.len() == sorted@.len(),
            forall|k: int| 0 <= k < keys@.len() ==> (#[trigger] keys@[k])@ == file_name_of(sorted@[k]@),
            names_view(sorted@).to_multiset() == fv.take(i as int).to_multiset(),
            sorted_by_file_name(names_view(sorted@)),
            stable_order(fv.take(i as int), names_view(sorted@), perm),
    {
        let f = files[i].clone();
        let name = path_file_name(f.as_str());
        let key = chars_of(name.as_str());
        // Find the insertion point: after every entry whose name is not greater.
        let mut p: usize = sorted.len();
        let ghost sv = names_view(sorted@);
        while p > 0 && lex_less(key.as_slice(), keys[p - 1].as_slice())
            invariant
                p <= sorted@.len(),
                keys@.len() == sorted@.len(),
                sv == names_view(sorted@),
                key@ == file_name_of(f@),
                forall|k: int| 0 <= k < keys@.len() ==> (#[trigger] keys@[k])@ == file_name_of(sorted@[k]@),
                forall|k: int| p <= k < sorted@.len() ==> lex_lt(key@, file_name_of(#[trigger] sv[k])),
            decreases p,
        {
            p = p - 1;
        }
        proof {
            // Every entry before p is not greater than the new key.
            if p > 0 {
                let q = (p - 1) as int;
                assert(!lex_lt(key@, keys@[q]@));
                assert forall|k: int| 0 <= k < p implies !lex_lt(key@, file_name_of(#[trigger] sv[k])) by {
                    if k < q {
                        assert(!lex_lt(file_name_of(sv[q]), file_name_of(sv[k])));
                        if lex_lt(key@, file_name_of(sv[k])) {
                            if file_name_of(sv[q]) != file_name_of(sv[k]) {
                                lemma_lex_total(file_name_of(sv[q]), file_name_of(sv[k]));
                                lemma_lex_transitive(key@, file_name_of(sv[k]), file_name_of(sv[q]));
                            }
                        }
                    }
                }
            }
        }
        let ghost old_sorted = sorted@;
        let ghost old_keys = keys@;
        sorted.insert(p, f);
        keys.insert(p, key);
        proof {
            let nv = names_view(sorted@);
            assert(nv =~= sv.insert(p as int, files@[i as int]@));
            assert(nv.remove(p as int) =~= sv);
            assert(nv[p as int] == fv[i as int]);
            assert(fv.take(i + 1) =~= fv.take(i as int).push(fv[i as int]));
            nv.to_multiset_ensures();
            sv.to_multiset_ensures();
            fv.take(i as int).to_multiset_ensures();
            assert(nv.to_multiset().remove(nv[p as int]) =~= sv.to_multiset());
            assert(nv.contains(nv[p as int]));
            assert(nv.to_multiset().count(nv[p as int]) > 0);
            assert(nv.to_multiset() =~= sv.to_multiset().insert(fv[i as int]));
            assert forall|k: int| 0 <= k < keys@.len() implies (#[trigger] keys@[k])@ == file_name_of(
                sorted@[k]@,
            ) by {
                if k < p {
                    assert(keys@[k] == old_keys[k] && sorted@[k] == old_sorted[k]);
                } else if k > p {
                    assert(keys@[k] == old_keys[k - 1] && sorted@[k] == old_sorted[k - 1]);
                }
            }
            assert(sorted_by_file_name(nv)) by {
                assert forall|a: int, b: int| 0 <= a < b < nv.len() implies !lex_lt(
                    file_name_of(#[trigger] nv[b]),
                    file_name_of(#[trigger] nv[a]),
                ) by {
                    let ka = file_name_of(nv[a]);
                    let kb = file_name_of(nv[b]);
                    if a < p && b < p {
                        assert(nv[a] == sv[a] && nv[b] == sv[b]);
                    } else if a < p && b == p {
                        assert(nv[a] == sv[a]);
                    } else if a < p && b > p {
                        assert(nv[a] == sv[a] && nv[b] == sv[b - 1]);
                        assert(!lex_lt(key@, ka));
                        assert(lex_lt(key@, kb));
                        if lex_lt(kb, ka) {
                            lemma_lex_transitive(key@, kb, ka);
                        }
                    } else if a == p {
                        assert(nv[b] == sv[b - 1]);
                        assert(lex_lt(key@, kb));
                        crate::text::lemma_lex_asymmetric(key@, kb);
                    } else {
                        assert(nv[a] == sv[a - 1] && nv[b] == sv[b - 1]);
                    }
                }
            }
            lemma_stable_insert(fv.take(i as int), fv[i as int], sv, perm, p as int);
            assert(fv.take(i as int).push(fv[i as int]) =~= fv.take(i + 1));
            let new_perm = perm.insert(p as int, i as int);
            perm = new_perm;
        }
    }
    assert(fv.take(n as int) =~= fv);
    assert(stable_order(fv, names_view(sorted@), perm));
    sorted
}

} // verus!
