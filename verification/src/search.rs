//! The search of Find in Files: the pattern a query searches for, which
//! files are searched, the matches in a file's text, and the order of the
//! results.

use vstd::prelude::*;
use crate::autocomplete::utf8_len;
use crate::find_in_files::{FileMatch, LineMatch};
use crate::go_to_file::{file_name_of, path_file_name};
use crate::text::{
    chars_of, lines_chars, lines_of, parts_view,
    push_all, split_on, str_eq, string_of, trim, trimmed,
};

verus! {

#[verifier::external_type_specification]
#[verifier::external_body]
pub struct ExRegex(regex::Regex);

#[verifier::external_type_specification]
#[verifier::external_body]
pub struct ExGlobPattern(glob::Pattern);

/// The characters that have a meaning in a regular expression.
pub open spec fn is_regex_meta(c: char) -> bool {
    c == '\\' || c == '.' || c == '+' || c == '*' || c == '?' || c == '(' || c == ')' || c == '|'
        || c == '[' || c == ']' || c == '{' || c == '}' || c == '^' || c == '$' || c == '#' || c == '&'
        || c == '-' || c == '~'
}

/// What `regex::escape` returns: the text with a backslash in front of each
/// character that has a meaning in a regular expression.
pub open spec fn regex_escaped(s: Seq<char>) -> Seq<char>
    decreases s.len(),
{
    if s.len() == 0 {
        Seq::empty()
    } else {
        regex_escaped(s.drop_last()) + if is_regex_meta(s.last()) {
            seq!['\\', s.last()]
        } else {
            seq![s.last()]
        }
    }
}

/// `regex::escape`: the text as a pattern that matches it literally (each
/// meta character preceded by a backslash, as `regex_syntax::escape_into`
/// writes it).
#[verifier::external_body]
fn regex_escape(s: &str) -> (r: String)
    ensures
        r@ == regex_escaped(s@),
{
    regex::escape(s)
}

/// Whether `regex::Regex::new` accepts the pattern.
pub uninterp spec fn regex_valid(p: Seq<char>) -> bool;

/// The byte ranges of the successive non-overlapping matches that
/// `Regex::find_iter` yields for the pattern in the text.
pub uninterp spec fn regex_matches(p: Seq<char>, text: Seq<char>) -> Seq<(usize, usize)>;

/// What `Regex::replace_all` gives for the pattern, text and replacement.
pub uninterp spec fn regex_replaced(p: Seq<char>, text: Seq<char>, rep: Seq<char>) -> Seq<char>;

/// A compiled regular expression, with the pattern it was compiled from.
pub struct SearchRegex {
    source: String,
    re: regex::Regex,
}

impl SearchRegex {
    /// The pattern the expression was compiled from.
    pub closed spec fn pattern(&self) -> Seq<char> {
        self.source@
    }
}

/// `regex::Regex::new`: the compiled pattern, none when it is not a valid
/// regular expression.
#[verifier::external_body]
fn compile_regex(p: String) -> (r: Option<SearchRegex>)
    ensures
        r is Some <==> regex_valid(p@),
        r matches Some(x) ==> x.pattern() == p@,
{
    match regex::Regex::new(&p) {
        Ok(re) => Some(SearchRegex { source: p, re }),
        Err(_) => None,
    }
}

/// `Regex::find_iter`: the byte ranges of the matches in `text`. Each
/// `Match` starts at or before its end, and its offsets slice the haystack,
/// so both lie within the text's UTF-8 length.
#[verifier::external_body]
fn find_matches(re: &SearchRegex, text: &str) -> (r: Vec<(usize, usize)>)
    ensures
        r@ == regex_matches(re.pattern(), text@),
        forall|k: int| 0 <= k < r@.len() ==> (#[trigger] r@[k]).0 <= r@[k].1 <= utf8_len(text@),
{
    re.re.find_iter(text).map(|m| (m.start(), m.end())).collect()
}

/// `Regex::replace_all`: the text with every match replaced (`$` groups
/// expanded in the replacement).
#[verifier::external_body]
fn replace_matches(re: &SearchRegex, text: &str, rep: &str) -> (r: String)
    ensures
        r@ == regex_replaced(re.pattern(), text@, rep@),
{
    re.re.replace_all(text, rep).into_owned()
}

/// The pattern a query searches for: the query itself as a regular
/// expression or escaped to match literally, prefixed with `(?i)` to ignore
/// case.
pub open spec fn search_pattern(query: Seq<char>, use_regex: bool, case_sensitive: bool) -> Seq<char> {
    let body = if use_regex {
        query
    } else {
        regex_escaped(query)
    };
    if case_sensitive {
        body
    } else {
        "(?i)"@ + body
    }
}

/// The compiled pattern of a query, none when it is not a valid expression.
pub fn build_search_regex(query: &str, use_regex: bool, case_sensitive: bool) -> (r: Option<SearchRegex>)
    ensures
        r is Some <==> regex_valid(search_pattern(query@, use_regex, case_sensitive)),
        r matches Some(x) ==> x.pattern() == search_pattern(query@, use_regex, case_sensitive),
{
    let body = if use_regex {
        query.to_string()
    } else {
        regex_escape(query)
    };
    let p = if case_sensitive {
        body
    } else {
        let mut p = "(?i)".to_string();
        push_all(&mut p, body.as_str());
        p
    };
    compile_regex(p)
}

/// Whether `glob::Pattern::new` accepts the pattern.
pub uninterp spec fn glob_valid(p: Seq<char>) -> bool;

/// What `Pattern::matches` gives for the pattern and a file name.
pub uninterp spec fn glob_matches(p: Seq<char>, name: Seq<char>) -> bool;

/// A compiled shell pattern, with its text.
pub struct GlobPattern {
    source: String,
    pat: glob::Pattern,
}

impl GlobPattern {
    /// The pattern's text.
    pub closed spec fn pattern(&self) -> Seq<char> {
        self.source@
    }
}

/// `glob::Pattern::new`: the compiled pattern, none when it is invalid.
#[verifier::external_body]
fn compile_glob(p: String) -> (r: Option<GlobPattern>)
    ensures
        r is Some <==> glob_valid(p@),
        r matches Some(x) ==> x.pattern() == p@,
{
    match glob::Pattern::new(&p) {
        Ok(pat) => Some(GlobPattern { source: p, pat }),
        Err(_) => None,
    }
}

/// `Pattern::matches`.
#[verifier::external_body]
fn glob_match(g: &GlobPattern, name: &str) -> (r: bool)
    ensures
        r == glob_matches(g.pattern(), name@),
{
    g.pat.matches(name)
}

/// The valid patterns among the trimmed parts, in order.
pub open spec fn valid_globs(parts: Seq<Seq<char>>) -> Seq<Seq<char>>
    decreases parts.len(),
{
    if parts.len() == 0 {
        Seq::empty()
    } else {
        let rest = valid_globs(parts.drop_last());
        if glob_valid(trim(parts.last())) {
            rest.push(trim(parts.last()))
        } else {
            rest
        }
    }
}

/// The patterns of a file filter: the valid ones among its comma-separated
/// parts (trimmed), none for an empty filter or when no part is valid.
pub open spec fn filter_patterns(filter: Seq<char>) -> Option<Seq<Seq<char>>> {
    if filter.len() == 0 || valid_globs(split_on(filter, ',')).len() == 0 {
        None
    } else {
        Some(valid_globs(split_on(filter, ',')))
    }
}

/// The patterns' texts.
pub open spec fn globs_view(v: Seq<GlobPattern>) -> Seq<Seq<char>> {
    v.map_values(|g: GlobPattern| g.pattern())
}

/// The characters of `s` split at every `sep`.
fn split_chars(s: &[char], sep: char) -> (r: Vec<Vec<char>>)
    ensures
        parts_view(r@) == split_on(s@, sep),
{
    let mut done: Vec<Vec<char>> = Vec::new();
    let mut current: Vec<char> = Vec::new();
    let n = s.len();
    assert(s@.take(0) =~= Seq::<char>::empty());
    for i in 0..n
        invariant
            n == s@.len(),
            parts_view(done@).push(current@) == split_on(s@.take(i as int), sep),
    {
        let ghost tk = s@.take(i + 1);
        assert(tk.drop_last() =~= s@.take(i as int));
        proof {
            crate::text::lemma_split_on_len(s@.take(i as int), sep);
        }
        let ghost before = parts_view(done@).push(current@);
        if s[i] == sep {
            let finished = current;
            current = Vec::new();
            done.push(finished);
            assert(parts_view(done@).push(current@) =~= before.push(Seq::empty()));
        } else {
            current.push(s[i]);
            assert(parts_view(done@).push(current@) =~= before.update(
                before.len() - 1,
                before.last().push(s@[i as int]),
            ));
        }
    }
    assert(s@.take(n as int) =~= s@);
    done.push(current);
    done
}

/// The compiled patterns of a comma-separated file filter such as
/// "*.rs,*.toml".
pub fn build_filter_globs(filter: &str) -> (r: Option<Vec<GlobPattern>>)
    ensures
        match r {
            Some(v) => filter_patterns(filter@) == Some(globs_view(v@)),
            None => filter_patterns(filter@) is None,
        },
{
    let cs = chars_of(filter);
    if cs.len() == 0 {
        return None;
    }
    let parts = split_chars(cs.as_slice(), ',');
    let ghost pv = parts_view(parts@);
    let mut out: Vec<GlobPattern> = Vec::new();
    let n = parts.len();
    assert(pv.take(0) =~= Seq::<Seq<char>>::empty());
    for i in 0..n
        invariant
            n == parts@.len(),
            pv == parts_view(parts@),
            globs_view(out@) == valid_globs(pv.take(i as int)),
    {
        assert(pv.take(i + 1).drop_last() =~= pv.take(i as int));
        assert(pv[i as int] == parts@[i as int]@);
        let t = trimmed(parts[i].as_slice());
        let ghost before = globs_view(out@);
        match compile_glob(string_of(t.as_slice())) {
            Some(g) => {
                out.push(g);
                assert(globs_view(out@) =~= before.push(g.pattern()));
            },
            None => {},
        }
    }
    assert(pv.take(n as int) =~= pv);
    if out.len() == 0 {
        None
    } else {
        Some(out)
    }
}

/// Whether some pattern matches the file name.
pub open spec fn any_glob_matches(globs: Seq<Seq<char>>, name: Seq<char>) -> bool {
    exists|k: int| 0 <= k < globs.len() && glob_matches(#[trigger] globs[k], name)
}

/// Whether a file with this name passes the filter patterns (all files
/// pass when there are none).
pub fn name_included(globs: &Option<Vec<GlobPattern>>, file_name: &str) -> (r: bool)
    ensures
        r == match globs {
            Some(v) => any_glob_matches(globs_view(v@), file_name@),
            None => true,
        },
{
    match globs {
        None => true,
        Some(v) => {
            let ghost gv = globs_view(v@);
            assert(gv.len() == v@.len());
            let n = v.len();
            for k in 0..n
                invariant
                    n == v@.len(),
                    *globs == Some(*v),
                    gv == globs_view(v@),
                    gv.len() == n,
                    forall|q: int| 0 <= q < k ==> !glob_matches(#[trigger] gv[q], file_name@),
            {
                if glob_match(&v[k], file_name) {
                    assert(gv[k as int] == v@[k as int].pattern());
                    assert(glob_matches(gv[k as int], file_name@));
                    assert(any_glob_matches(gv, file_name@));
                    return true;
                }
                assert(gv[k as int] == v@[k as int].pattern());
            }
            false
        },
    }
}

/// Whether a walked file is searched: it lies under no skipped directory and
/// its name passes the filter patterns.
pub fn wants_file(globs: &Option<Vec<GlobPattern>>, path_text: &str, file_name: &str) -> (r: bool)
    ensures
        r == (!skipped(path_text@) && match globs {
            Some(v) => any_glob_matches(globs_view(v@), file_name@),
            None => true,
        }),
{
    !is_skipped_path(path_text) && name_included(globs, file_name)
}

/// The new text of a file for a replace-all: the text with every match
/// replaced, none when that leaves it unchanged (the file is not written).
pub fn replacement_for(re: &SearchRegex, content: &str, rep: &str) -> (r: Option<String>)
    ensures
        match r {
            Some(t) => t@ == regex_replaced(re.pattern(), content@, rep@) && t@ != content@,
            None => regex_replaced(re.pattern(), content@, rep@) == content@,
        },
{
    let t = replace_matches(re, content, rep);
    if str_eq(t.as_str(), content) {
        None
    } else {
        Some(t)
    }
}

/// Whether `p` occurs in `s`.
pub open spec fn contains_text(s: Seq<char>, p: Seq<char>) -> bool {
    exists|i: int| 0 <= i && i + p.len() <= s.len() && #[trigger] s.subrange(i, i + p.len()) == p
}

/// Whether `p` occurs in `s`.
pub fn contains_chars(s: &[char], p: &[char]) -> (r: bool)
    ensures
        r == contains_text(s@, p@),
{
    if p.len() > s.len() {
        return false;
    }
    let last = s.len() - p.len();
    let mut i: usize = 0;
    loop
        invariant
            last == s@.len() - p@.len(),
            i <= last,
            forall|j: int| 0 <= j < i ==> #[trigger] s@.subrange(j, j + p@.len()) != p@,
        decreases last - i,
    {
        let mut k: usize = 0;
        let mut same = true;
        while k < p.len()
            invariant
                k <= p@.len(),
                i + p.len() <= s.len(),
                same == (forall|t: int| 0 <= t < k ==> s@[i + t] == #[trigger] p@[t]),
            decreases p@.len() - k,
        {
            if s[i + k] != p[k] {
                same = false;
            }
            k = k + 1;
        }
        let ghost sub = s@.subrange(i as int, i + p@.len());
        if same {
            assert(sub =~= p@);
            return true;
        }
        assert(sub != p@) by {
            if sub == p@ {
                assert forall|t: int| 0 <= t < p@.len() implies s@[i + t] == #[trigger] p@[t] by {
                    assert(sub[t] == s@[i + t]);
                }
            }
        }
        if i == last {
            assert forall|j: int| 0 <= j && j + p@.len() <= s@.len() implies #[trigger] s@.subrange(j, j + p@.len()) != p@ by {
                assert(j <= i);
            }
            return false;
        }
        i = i + 1;
    }
}

/// Paths under these directories are not searched.
pub open spec fn skipped(path: Seq<char>) -> bool {
    contains_text(path, "/.git/"@) || contains_text(path, "/target/"@) || contains_text(
        path,
        "/node_modules/"@,
    ) || contains_text(path, "/.git\\"@) || contains_text(path, "\\target\\"@)
        || contains_text(path, "\\node_modules\\"@)
}

/// Skip hidden directories and common non-text directories.
pub fn is_skipped_path(path: &str) -> (r: bool)
    ensures
        r == skipped(path@),
{
    let cs = chars_of(path);
    let s = cs.as_slice();
    contains_chars(s, chars_of("/.git/").as_slice()) || contains_chars(
        s,
        chars_of("/target/").as_slice(),
    ) || contains_chars(s, chars_of("/node_modules/").as_slice()) || contains_chars(
        s,
        chars_of("/.git\\").as_slice(),
    ) || contains_chars(s, chars_of("\\target\\").as_slice()) || contains_chars(
        s,
        chars_of("\\node_modules\\").as_slice(),
    )
}

/// The matches of the pattern in line `idx` (0-based) of a file.
pub open spec fn line_matches(p: Seq<char>, idx: int, line: Seq<char>) -> Seq<(usize, Seq<char>, usize, usize)> {
    regex_matches(p, line).map_values(|m: (usize, usize)| ((idx + 1) as usize, line, m.0, m.1))
}

/// The matches of the pattern in the lines, in order.
pub open spec fn text_matches(p: Seq<char>, lines: Seq<Seq<char>>) -> Seq<(usize, Seq<char>, usize, usize)>
    decreases lines.len(),
{
    if lines.len() == 0 {
        Seq::empty()
    } else {
        text_matches(p, lines.drop_last()) + line_matches(p, lines.len() - 1, lines.last())
    }
}

/// A line match as (line number, line text, start, end).
pub open spec fn match_view(m: LineMatch) -> (usize, Seq<char>, usize, usize) {
    (m.line_num, m.line_text@, m.match_start, m.match_end)
}

/// The line matches' views.
pub open spec fn matches_view(v: Seq<LineMatch>) -> Seq<(usize, Seq<char>, usize, usize)> {
    v.map_values(|m: LineMatch| match_view(m))
}

/// The match records of one line: its number, its text and each byte range
/// found in it, in order.
pub fn line_match_records(line_num: usize, line: &String, found: &Vec<(usize, usize)>) -> (r: Vec<LineMatch>)
    ensures
        matches_view(r@) == found@.map_values(|m: (usize, usize)| (line_num, line@, m.0, m.1)),
{
    let ghost want = found@.map_values(|m: (usize, usize)| (line_num, line@, m.0, m.1));
    let mut out: Vec<LineMatch> = Vec::new();
    let m = found.len();
    for k in 0..m
        invariant
            m == found@.len(),
            want == found@.map_values(|m: (usize, usize)| (line_num, line@, m.0, m.1)),
            matches_view(out@) == want.take(k as int),
    {
        let (s, e) = found[k];
        let lm = LineMatch { line_num, line_text: line.clone(), match_start: s, match_end: e };
        let ghost before = matches_view(out@);
        out.push(lm);
        assert(matches_view(out@) =~= before.push(match_view(lm)));
        assert(want.take(k + 1) =~= want.take(k as int).push(want[k as int]));
    }
    assert(want.take(m as int) =~= want);
    out
}

/// Every match's byte range lies within its line.
pub open spec fn ranges_in_lines(ms: Seq<LineMatch>) -> bool {
    forall|k: int| 0 <= k < ms.len() ==> (#[trigger] ms[k]).match_start <= ms[k].match_end <= utf8_len(
        ms[k].line_text@,
    )
}

/// The matches of the pattern in a file's text, line by line (lines as
/// `str::lines` gives them; line numbers from 1).
pub fn matches_in_text(re: &SearchRegex, content: &str) -> (r: Vec<LineMatch>)
    ensures
        matches_view(r@) == text_matches(re.pattern(), lines_of(content@)),
        ranges_in_lines(r@),
{
    let cs = chars_of(content);
    let lines = lines_chars(cs.as_slice());
    let ghost lv = parts_view(lines@);
    let mut out: Vec<LineMatch> = Vec::new();
    let n = lines.len();
    assert(lv.take(0) =~= Seq::<Seq<char>>::empty());
    for idx in 0..n
        invariant
            n == lines@.len(),
            lv == parts_view(lines@),
            lv == lines_of(content@),
            matches_view(out@) == text_matches(re.pattern(), lv.take(idx as int)),
            ranges_in_lines(out@),
    {
        assert(lv.take(idx + 1).drop_last() =~= lv.take(idx as int));
        assert(lv[idx as int] == lines@[idx as int]@);
        let line = string_of(lines[idx].as_slice());
        let found = find_matches(re, line.as_str());
        let ghost base = matches_view(out@);
        let mut recs = line_match_records(idx + 1, &line, &found);
        let ghost rv = recs@;
        let ghost ob = out@;
        proof {
            assert forall|k: int| 0 <= k < rv.len() implies (#[trigger] rv[k]).match_start <= rv[k].match_end
                <= utf8_len(rv[k].line_text@) by {
                let fm = found@.map_values(|m: (usize, usize)| (idx + 1, line@, m.0, m.1));
                assert(matches_view(rv).len() == rv.len());
                assert(fm.len() == found@.len());
                assert(matches_view(rv)[k] == match_view(rv[k]));
                assert(fm[k] == (idx + 1, line@, found@[k].0, found@[k].1));
                assert(found@[k].0 <= found@[k].1 <= utf8_len(line@));
            }
        }
        out.append(&mut recs);
        proof {
            assert forall|k: int| 0 <= k < out@.len() implies (#[trigger] out@[k]).match_start <= out@[k].match_end
                <= utf8_len(out@[k].line_text@) by {
                if k < ob.len() {
                    assert(out@[k] == ob[k]);
                } else {
                    assert(out@[k] == rv[k - ob.len()]);
                }
            }
        }
        assert(matches_view(out@) =~= base + matches_view(rv));
        assert(matches_view(rv) =~= line_matches(re.pattern(), idx as int, line@));
        assert(lv[idx as int] == line@);
    }
    assert(lv.take(n as int) =~= lv);
    out
}

/// The result for one file: its matches under its display path, none when
/// it has no match.
pub fn file_result(re: &SearchRegex, display_path: String, content: &str) -> (r: Option<FileMatch>)
    ensures
        match r {
            Some(f) => f.path == display_path && matches_view(f.matches@) == text_matches(
                re.pattern(),
                lines_of(content@),
            ) && f.matches@.len() > 0 && ranges_in_lines(f.matches@),
            None => text_matches(re.pattern(), lines_of(content@)).len() == 0,
        },
{
    let matches = matches_in_text(re, content);
    if matches.len() == 0 {
        None
    } else {
        Some(FileMatch { path: display_path, matches })
    }
}

/// What `Path::strip_prefix` leaves of `path` under `root` (the path itself
/// when it does not lie under `root`), as text.
pub uninterp spec fn relative_to(path: Seq<char>, root: Seq<char>) -> Seq<char>;

/// `Path::strip_prefix` of `root`, falling back to the whole path: the path
/// as the results show it. The contract claims only that the result is
/// `relative_to` of the two texts.
#[verifier::external_body]
fn relative_path(path: &str, root: &str) -> (r: String)
    ensures
        r@ == relative_to(path@, root@),
{
    let p = std::path::Path::new(path);
    p.strip_prefix(root).unwrap_or(p).to_string_lossy().into_owned()
}

/// The filter patterns' texts, if any.
pub open spec fn globs_opt_view(globs: Option<Vec<GlobPattern>>) -> Option<Seq<Seq<char>>> {
    match globs {
        Some(v) => Some(globs_view(v@)),
        None => None,
    }
}

/// Whether the walked file at `path` is searched.
pub open spec fn file_wanted(globs: Option<Seq<Seq<char>>>, path: Seq<char>) -> bool {
    !skipped(path) && match globs {
        Some(v) => any_glob_matches(v, file_name_of(path)),
        None => true,
    }
}

/// A result as (path, matches).
pub open spec fn result_view(f: FileMatch) -> (Seq<char>, Seq<(usize, Seq<char>, usize, usize)>) {
    (f.path@, matches_view(f.matches@))
}

/// The results of the walked files (full path, text), in walk order: each
/// searched file with at least one match, under its path relative to `root`.
pub open spec fn walked_results(
    p: Seq<char>,
    globs: Option<Seq<Seq<char>>>,
    root: Seq<char>,
    files: Seq<(String, String)>,
) -> Seq<(Seq<char>, Seq<(usize, Seq<char>, usize, usize)>)>
    decreases files.len(),
{
    if files.len() == 0 {
        Seq::empty()
    } else {
        let prev = walked_results(p, globs, root, files.drop_last());
        let path = files.last().0@;
        let ms = text_matches(p, lines_of(files.last().1@));
        if file_wanted(globs, path) && ms.len() > 0 {
            prev.push((relative_to(path, root), ms))
        } else {
            prev
        }
    }
}

/// The results of a search over the walked files (full path and text of
/// each, under `root`): the searched files with a match, under their paths
/// relative to `root`, ordered by path; every match's range lies in its line.
pub fn search_walked(re: &SearchRegex, globs: &Option<Vec<GlobPattern>>, root: &str, files: &Vec<(String, String)>) -> (r: Vec<FileMatch>)
    ensures
        sorted_by_path(r@),
        r@.len() == walked_results(re.pattern(), globs_opt_view(*globs), root@, files@).len(),
        forall|k: int| 0 <= k < r@.len() ==> {
            &&& walked_results(re.pattern(), globs_opt_view(*globs), root@, files@).contains(
                result_view(#[trigger] r@[k]),
            )
            &&& r@[k].matches@.len() > 0
            &&& ranges_in_lines(r@[k].matches@)
        },
        forall|x: (Seq<char>, Seq<(usize, Seq<char>, usize, usize)>)|
            walked_results(re.pattern(), globs_opt_view(*globs), root@, files@).contains(x) ==> exists|k: int|
                0 <= k < r@.len() && result_view(#[trigger] r@[k]) == x,
{
    let ghost g = globs_opt_view(*globs);
    let ghost want = walked_results(re.pattern(), g, root@, files@);
    let mut found: Vec<FileMatch> = Vec::new();
    let n = files.len();
    assert(files@.take(0) =~= Seq::<(String, String)>::empty());
    for i in 0..n
        invariant
            n == files@.len(),
            g == globs_opt_view(*globs),
            found@.map_values(|f: FileMatch| result_view(f)) == walked_results(re.pattern(), g, root@, files@.take(i as int)),
            forall|k: int| 0 <= k < found@.len() ==> (#[trigger] found@[k]).matches@.len() > 0 && ranges_in_lines(found@[k].matches@),
    {
        assert(files@.take(i + 1).drop_last() =~= files@.take(i as int));
        assert(files@.take(i + 1).last() == files@[i as int]);
        let path = &files[i].0;
        let name = path_file_name(path.as_str());
        if wants_file(globs, path.as_str(), name.as_str()) {
            let display = relative_path(path.as_str(), root);
            match file_result(re, display, files[i].1.as_str()) {
                Some(f) => {
                    let ghost before = found@;
                    found.push(f);
                    assert(found@.map_values(|f: FileMatch| result_view(f)) =~= before.map_values(|f: FileMatch| result_view(f)).push(result_view(f)));
                },
                None => {},
            }
        }
    }
    assert(files@.take(n as int) =~= files@);
    let ghost fv = found@;
    let r = sort_results(found);
    proof {
        r@.to_multiset_ensures();
        fv.to_multiset_ensures();
        assert(fv.map_values(|f: FileMatch| result_view(f)) == want);
        assert forall|k: int| 0 <= k < r@.len() implies {
            &&& want.contains(result_view(#[trigger] r@[k]))
            &&& r@[k].matches@.len() > 0
            &&& ranges_in_lines(r@[k].matches@)
        } by {
            assert(r@.contains(r@[k]));
            assert(r@.to_multiset().count(r@[k]) > 0);
            assert(fv.to_multiset().count(r@[k]) > 0);
            assert(fv.contains(r@[k]));
            let j = choose|j: int| 0 <= j < fv.len() && fv[j] == r@[k];
            assert(want[j] == result_view(fv[j]));
        }
        assert forall|x: (Seq<char>, Seq<(usize, Seq<char>, usize, usize)>)| want.contains(x) implies exists|k: int|
            0 <= k < r@.len() && result_view(#[trigger] r@[k]) == x by {
            let j = choose|j: int| 0 <= j < want.len() && want[j] == x;
            assert(result_view(fv[j]) == x);
            assert(fv.contains(fv[j]));
            assert(fv.to_multiset().count(fv[j]) > 0);
            assert(r@.to_multiset().count(fv[j]) > 0);
            assert(r@.contains(fv[j]));
            let k = choose|k: int| 0 <= k < r@.len() && r@[k] == fv[j];
            assert(result_view(r@[k]) == x);
        }
        assert(r@.len() == fv.len());
    }
    r
}

/// Whether `Path::new(a) < Path::new(b)`: the order of `Path`, compared
/// component by component as the target platform parses paths.
pub uninterp spec fn path_precedes(a: Seq<char>, b: Seq<char>) -> bool;

/// `<` on `Path`. `Path` is `Ord`, a total order, so a path that comes
/// before another does not also come after it.
#[verifier::external_body]
fn path_less(a: &str, b: &str) -> (r: bool)
    ensures
        r == path_precedes(a@, b@),
        r ==> !path_precedes(b@, a@),
{
    std::path::Path::new(a) < std::path::Path::new(b)
}

/// Whether the results are in path order: no result's path comes before
/// that of the result in front of it.
pub open spec fn sorted_by_path(v: Seq<FileMatch>) -> bool {
    forall|a: int, b: int|
        0 <= a && b == a + 1 && b < v.len() ==> !path_precedes(#[trigger] v[b].path@, #[trigger] v[a].path@)
}

/// The results ordered by path (a stable insertion sort by `Path`'s order).
pub fn sort_results(results: Vec<FileMatch>) -> (r: Vec<FileMatch>)
    ensures
        r@.to_multiset() == results@.to_multiset(),
        sorted_by_path(r@),
{
    let ghost orig = results@;
    let mut rest = results;
    let mut sorted: Vec<FileMatch> = Vec::new();
    proof {
        rest@.to_multiset_ensures();
        sorted@.to_multiset_ensures();
        assert(orig.to_multiset() =~= sorted@.to_multiset().add(rest@.to_multiset()));
    }
    while rest.len() > 0
        invariant
            orig.to_multiset() == sorted@.to_multiset().add(rest@.to_multiset()),
            sorted_by_path(sorted@),
        decreases rest@.len(),
    {
        let ghost before_rest = rest@;
        let f = rest.remove(0);
        let ghost sv = sorted@;
        let mut p: usize = sorted.len();
        while p > 0 && path_less(f.path.as_str(), sorted[p - 1].path.as_str())
            invariant
                p <= sorted@.len(),
                sv == sorted@,
                p < sv.len() ==> !path_precedes(sv[p as int].path@, f.path@),
            decreases p,
        {
            p = p - 1;
        }
        let ghost fv = f;
        sorted.insert(p, f);
        proof {
            let nv = sorted@;
            assert(nv =~= sv.insert(p as int, fv));
            vstd::seq_lib::to_multiset_insert(sv, p as int, fv);
            vstd::seq_lib::to_multiset_remove(before_rest, 0);
            assert(before_rest.to_multiset().count(fv) > 0) by {
                before_rest.to_multiset_ensures();
                assert(before_rest.contains(fv));
            }
            assert(orig.to_multiset() =~= nv.to_multiset().add(rest@.to_multiset()));
            assert forall|a: int, b: int| 0 <= a && b == a + 1 && b < nv.len() implies !path_precedes(
                #[trigger] nv[b].path@,
                #[trigger] nv[a].path@,
            ) by {
                if b < p {
                    assert(nv[a] == sv[a] && nv[b] == sv[b]);
                } else if b == p {
                    assert(nv[a] == sv[a]);
                } else if a == p {
                    assert(nv[b] == sv[p as int]);
                } else {
                    assert(nv[a] == sv[a - 1] && nv[b] == sv[b - 1]);
                }
            }
        }
    }
    proof {
        rest@.to_multiset_ensures();
        assert(rest@.to_multiset() =~= vstd::multiset::Multiset::empty());
        assert(sorted@.to_multiset().add(rest@.to_multiset()) =~= sorted@.to_multiset());
    }
    sorted
}

} // verus!
