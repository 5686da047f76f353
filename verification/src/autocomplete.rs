//! Word completion: the words of the document that complete the word
//! fragment before the cursor.

use vstd::prelude::*;
use crate::text::{chars_eq, chars_of, has_prefix, lex_less, lex_lt, lowercase, slice_range, string_of, to_lowercase, lemma_lex_total, lemma_lex_transitive};

verus! {

/// State for the auto-completion popup.
pub struct AutocompleteState {
    /// Whether the popup is visible.
    pub visible: bool,
    /// Current suggestions.
    pub suggestions: Vec<String>,
    /// Selected index.
    pub selected: usize,
    /// The prefix being completed (word fragment before cursor).
    pub prefix: String,
}

impl AutocompleteState {
    pub fn new() -> (r: AutocompleteState)
        ensures
            !r.visible,
            r.suggestions@.len() == 0,
            r.selected == 0,
            r.prefix@.len() == 0,
    {
        AutocompleteState { visible: false, suggestions: Vec::new(), selected: 0, prefix: String::new() }
    }

    /// Dismiss the autocomplete popup.
    pub fn dismiss(&mut self)
        ensures
            !final(self).visible,
            final(self).suggestions@.len() == 0,
            final(self).prefix@.len() == 0,
            final(self).selected == old(self).selected,
    {
        self.visible = false;
        self.suggestions.clear();
        self.prefix = String::new();
    }
}

impl Default for AutocompleteState {
    fn default() -> (r: AutocompleteState)
        ensures
            !r.visible,
            r.suggestions@.len() == 0,
            r.selected == 0,
            r.prefix@.len() == 0,
    {
        AutocompleteState::new()
    }
}

/// What `char::is_alphanumeric` returns: whether `c` is alphabetic or numeric
/// in Unicode.
pub uninterp spec fn alphanumeric(c: char) -> bool;

/// `char::is_alphanumeric`: Unicode `Alphabetic` or numeric (`Nd`, `Nl`, `No`).
#[verifier::external_body]
pub(crate) fn is_alphanumeric(c: char) -> (r: bool)
    ensures
        r == alphanumeric(c),
{
    c.is_alphanumeric()
}

/// Characters that words are made of.
pub open spec fn is_word_char(c: char) -> bool {
    alphanumeric(c) || c == '_'
}

/// Whether `c` belongs to a word.
pub fn word_char(c: char) -> (r: bool)
    ensures
        r == is_word_char(c),
{
    c == '_' || is_alphanumeric(c)
}

/// The number of bytes of `c` in UTF-8.
pub open spec fn utf8_width(c: char) -> nat {
    let v = c as u32;
    if v < 0x80 {
        1
    } else if v < 0x800 {
        2
    } else if v < 0x10000 {
        3
    } else {
        4
    }
}

/// The number of bytes of `s` in UTF-8 (what `str::len` returns).
pub open spec fn utf8_len(s: Seq<char>) -> nat
    decreases s.len(),
{
    if s.len() == 0 {
        0
    } else {
        utf8_len(s.drop_last()) + utf8_width(s.last())
    }
}

proof fn lemma_utf8_len_at_least(s: Seq<char>)
    ensures
        utf8_len(s) >= s.len(),
    decreases s.len(),
{
    if s.len() > 0 {
        lemma_utf8_len_at_least(s.drop_last());
    }
}

/// Whether `s` takes at least two bytes in UTF-8.
pub fn at_least_two_bytes(s: &[char]) -> (r: bool)
    ensures
        r == (utf8_len(s@) >= 2),
{
    proof {
        lemma_utf8_len_at_least(s@);
    }
    if s.len() >= 2 {
        true
    } else if s.len() == 0 {
        false
    } else {
        proof {
            assert(s@.drop_last() =~= Seq::<char>::empty());
            assert(s@.last() == s@[0]);
            assert(utf8_len(s@.drop_last()) == 0);
            assert(utf8_len(s@) == utf8_width(s@[0]));
        }
        (s[0] as u32) >= 0x80
    }
}

/// The word characters at the end of `s` (the word fragment before a cursor).
pub open spec fn word_suffix(s: Seq<char>) -> Seq<char>
    decreases s.len(),
{
    if s.len() > 0 && is_word_char(s.last()) {
        word_suffix(s.drop_last()).push(s.last())
    } else {
        Seq::empty()
    }
}

/// The maximal runs of word characters of `s`, in order.
pub open spec fn word_runs(s: Seq<char>) -> Seq<Seq<char>>
    decreases s.len(),
{
    if s.len() == 0 {
        Seq::empty()
    } else {
        let r = word_runs(s.drop_last());
        if !is_word_char(s.last()) {
            r
        } else if s.len() >= 2 && is_word_char(s[s.len() - 2]) {
            r.update(r.len() - 1, r.last().push(s.last()))
        } else {
            r.push(seq![s.last()])
        }
    }
}

/// The words of `text` that completion offers: runs of word characters of
/// at least two bytes.
pub open spec fn is_text_word(text: Seq<char>, w: Seq<char>) -> bool {
    word_runs(text).contains(w) && utf8_len(w) >= 2
}

/// A nonempty word suffix continues the last run.
proof fn lemma_runs_suffix(s: Seq<char>)
    ensures
        word_suffix(s).len() > 0 ==> word_runs(s).len() > 0 && word_runs(s).last() == word_suffix(s),
        word_suffix(s).len() > 0 <==> (s.len() > 0 && is_word_char(s.last())),
    decreases s.len(),
{
    if s.len() > 0 {
        lemma_runs_suffix(s.drop_last());
    }
}

/// The distinct words of `text` that completion offers, in no particular
/// order.
#[verifier::spinoff_prover]
pub fn collect_words(text: &[char]) -> (r: Vec<Vec<char>>)
    ensures
        forall|w: Seq<char>| is_text_word(text@, w) <==> exists|k: int| 0 <= k < r@.len() && (#[trigger] r@[k])@ == w,
        forall|a: int, b: int| 0 <= a < b < r@.len() ==> (#[trigger] r@[a])@ != (#[trigger] r@[b])@,
{
    let mut words: Vec<Vec<char>> = Vec::new();
    let mut current: Vec<char> = Vec::new();
    let ghost mut done: Seq<Seq<char>> = Seq::empty();
    let n = text.len();
    assert(text@.take(0) =~= Seq::<char>::empty());
    for i in 0..n
        invariant
            n == text@.len(),
            current@ == word_suffix(text@.take(i as int)),
            word_runs(text@.take(i as int)) == if current@.len() > 0 {
                done.push(current@)
            } else {
                done
            },
            forall|w: Seq<char>| (done.contains(w) && utf8_len(w) >= 2) <==> exists|k: int|
                0 <= k < words@.len() && (#[trigger] words@[k])@ == w,
            forall|a: int, b: int| 0 <= a < b < words@.len() ==> (#[trigger] words@[a])@ != (#[trigger] words@[b])@,
    {
        let ghost tk = text@.take(i + 1);
        proof {
            assert(tk.drop_last() =~= text@.take(i as int));
            assert(tk.last() == text@[i as int]);
            lemma_runs_suffix(text@.take(i as int));
            if i > 0 {
                assert(tk[tk.len() - 2] == text@.take(i as int).last());
            }
        }
        let c = text[i];
        if word_char(c) {
            current.push(c);
            assert(forall|w: Seq<char>| (done.contains(w) && utf8_len(w) >= 2) <==> exists|k: int|
                0 <= k < words@.len() && (#[trigger] words@[k])@ == w);
        } else {
            if current.len() > 0 {
                finish_word(&mut words, &current, Ghost(done));
                proof {
                    done = done.push(current@);
                }
                assert(forall|w: Seq<char>| (done.contains(w) && utf8_len(w) >= 2) <==> exists|k: int|
                    0 <= k < words@.len() && (#[trigger] words@[k])@ == w);
            }
            current = Vec::new();
            assert(forall|w: Seq<char>| (done.contains(w) && utf8_len(w) >= 2) <==> exists|k: int|
                0 <= k < words@.len() && (#[trigger] words@[k])@ == w);
        }
    }
    assert(text@.take(n as int) =~= text@);
    if current.len() > 0 {
        finish_word(&mut words, &current, Ghost(done));
        proof {
            done = done.push(current@);
        }
    }
    assert(word_runs(text@) == done);
    assert forall|w: Seq<char>| is_text_word(text@, w) <==> exists|k: int|
        0 <= k < words@.len() && (#[trigger] words@[k])@ == w by {
        assert(is_text_word(text@, w) == (done.contains(w) && utf8_len(w) >= 2));
    }
    words
}

/// Records a finished run `w` of the runs `done`: adds it to `words` when it
/// is long enough and not there yet.
fn finish_word(words: &mut Vec<Vec<char>>, w: &Vec<char>, done: Ghost<Seq<Seq<char>>>)
    requires
        forall|x: Seq<char>| (done@.contains(x) && utf8_len(x) >= 2) <==> exists|k: int|
            0 <= k < old(words)@.len() && (#[trigger] old(words)@[k])@ == x,
        forall|a: int, b: int| 0 <= a < b < old(words)@.len() ==> (#[trigger] old(words)@[a])@ != (#[trigger] old(words)@[b])@,
    ensures
        forall|x: Seq<char>| (done@.push(w@).contains(x) && utf8_len(x) >= 2) <==> exists|k: int|
            0 <= k < final(words)@.len() && (#[trigger] final(words)@[k])@ == x,
        forall|a: int, b: int| 0 <= a < b < final(words)@.len() ==> (#[trigger] final(words)@[a])@ != (#[trigger] final(words)@[b])@,
{
    if !at_least_two_bytes(w.as_slice()) {
        proof {
            assert forall|x: Seq<char>| (done@.push(w@).contains(x) && utf8_len(x) >= 2) <==> exists|k: int|
                0 <= k < words@.len() && (#[trigger] words@[k])@ == x by {
                if done@.push(w@).contains(x) && x != w@ {
                    let j = choose|j: int| 0 <= j < done@.push(w@).len() && done@.push(w@)[j] == x;
                    assert(done@[j] == x);
                }
                if done@.contains(x) {
                    let j = choose|j: int| 0 <= j < done@.len() && done@[j] == x;
                    assert(done@.push(w@)[j] == x);
                }
            }
        }
        return;
    }
    let mut k: usize = 0;
    let mut present = false;
    while k < words.len()
        invariant
            k <= words@.len(),
            words@ == old(words)@,
            present ==> exists|q: int| 0 <= q < words@.len() && (#[trigger] words@[q])@ == w@,
            !present ==> forall|q: int| 0 <= q < k ==> (#[trigger] words@[q])@ != w@,
        decreases words@.len() - k,
    {
        if chars_eq(words[k].as_slice(), w.as_slice()) {
            present = true;
        }
        k = k + 1;
    }
    let ghost before = words@;
    if !present {
        words.push(w.clone());
    }
    proof {
        assert forall|x: Seq<char>| (done@.push(w@).contains(x) && utf8_len(x) >= 2) <==> exists|q: int|
            0 <= q < words@.len() && (#[trigger] words@[q])@ == x by {
            if done@.push(w@).contains(x) && utf8_len(x) >= 2 {
                if x == w@ {
                    if !present {
                        assert(words@[before.len() as int]@ == x);
                    }
                } else {
                    let j = choose|j: int| 0 <= j < done@.push(w@).len() && done@.push(w@)[j] == x;
                    assert(done@[j] == x);
                    assert(done@.contains(x));
                    let q = choose|q: int| 0 <= q < before.len() && (#[trigger] before[q])@ == x;
                    assert(words@[q] == before[q]);
                }
            }
            if exists|q: int| 0 <= q < words@.len() && (#[trigger] words@[q])@ == x {
                let q = choose|q: int| 0 <= q < words@.len() && (#[trigger] words@[q])@ == x;
                if q < before.len() {
                    assert(before[q]@ == x);
                    assert(done@.contains(x));
                    let j = choose|j: int| 0 <= j < done@.len() && done@[j] == x;
                    assert(done@.push(w@)[j] == x);
                } else {
                    assert(x == w@);
                    assert(done@.push(w@)[done@.len() as int] == x);
                }
            }
        }
    }
}

/// The character sequences of the vectors.
pub open spec fn words_view(v: Seq<Vec<char>>) -> Seq<Seq<char>> {
    v.map_values(|w: Vec<char>| w@)
}

/// Distinct words, strictly increasing in code-point order.
pub open spec fn strictly_sorted(s: Seq<Seq<char>>) -> bool {
    forall|a: int, b: int| 0 <= a < b < s.len() ==> lex_lt(#[trigger] s[a], #[trigger] s[b])
}

/// The words sorted in code-point order (the order of `String`).
pub fn sort_words(v: Vec<Vec<char>>) -> (r: Vec<Vec<char>>)
    requires
        forall|a: int, b: int| 0 <= a < b < v@.len() ==> (#[trigger] v@[a])@ != (#[trigger] v@[b])@,
    ensures
        strictly_sorted(words_view(r@)),
        forall|w: Seq<char>| words_view(v@).contains(w) <==> words_view(r@).contains(w),
{
    let mut sorted: Vec<Vec<char>> = Vec::new();
    let n = v.len();
    for t in 0..n
        invariant
            n == v@.len(),
            forall|a: int, b: int| 0 <= a < b < v@.len() ==> (#[trigger] v@[a])@ != (#[trigger] v@[b])@,
            strictly_sorted(words_view(sorted@)),
            forall|w: Seq<char>| words_view(v@).take(t as int).contains(w) <==> words_view(sorted@).contains(w),
    {
        let x = v[t].clone();
        let ghost sv = words_view(sorted@);
        let ghost vv = words_view(v@);
        proof {
            assert(vv.take(t + 1) =~= vv.take(t as int).push(vv[t as int]));
            assert forall|k: int| 0 <= k < sv.len() implies #[trigger] sv[k] != x@ by {
                assert(sv.contains(sv[k]));
                assert(vv.take(t as int).contains(sv[k]));
                let q = choose|q: int| 0 <= q < t && #[trigger] vv.take(t as int)[q] == sv[k];
                assert(v@[q]@ != v@[t as int]@);
            }
        }
        let mut p: usize = sorted.len();
        while p > 0 && lex_less(x.as_slice(), sorted[p - 1].as_slice())
            invariant
                p <= sorted@.len(),
                sv == words_view(sorted@),
                forall|k: int| p <= k < sv.len() ==> lex_lt(x@, #[trigger] sv[k]),
            decreases p,
        {
            p = p - 1;
        }
        proof {
            if p > 0 {
                let q = (p - 1) as int;
                assert(!lex_lt(x@, sv[q]));
                lemma_lex_total(x@, sv[q]);
                assert(lex_lt(sv[q], x@));
            }
        }
        sorted.insert(p, x);
        proof {
            let nv = words_view(sorted@);
            assert(nv =~= sv.insert(p as int, x@));
            assert forall|a: int, b: int| 0 <= a < b < nv.len() implies lex_lt(#[trigger] nv[a], #[trigger] nv[b]) by {
                if b < p {
                    assert(nv[a] == sv[a] && nv[b] == sv[b]);
                } else if b == p {
                    assert(nv[a] == sv[a]);
                    if a < p - 1 {
                        lemma_lex_transitive(sv[a], sv[p - 1], x@);
                    }
                } else if a == p {
                    assert(nv[b] == sv[b - 1]);
                } else if a < p {
                    assert(nv[a] == sv[a] && nv[b] == sv[b - 1]);
                    if a < p - 1 {
                        lemma_lex_transitive(sv[a], sv[p - 1], x@);
                    }
                    lemma_lex_transitive(sv[a], x@, sv[b - 1]);
                } else {
                    assert(nv[a] == sv[a - 1] && nv[b] == sv[b - 1]);
                }
            }
            assert forall|w: Seq<char>| vv.take(t + 1).contains(w) <==> nv.contains(w) by {
                if vv.take(t + 1).contains(w) {
                    if w == x@ {
                        assert(nv[p as int] == w);
                    } else {
                        let q = choose|q: int| 0 <= q < t + 1 && #[trigger] vv.take(t + 1)[q] == w;
                        assert(vv.take(t as int)[q] == w);
                        assert(sv.contains(w));
                        let k = choose|k: int| 0 <= k < sv.len() && #[trigger] sv[k] == w;
                        if k < p {
                            assert(nv[k] == w);
                        } else {
                            assert(nv[k + 1] == w);
                        }
                    }
                }
                if nv.contains(w) {
                    let k = choose|k: int| 0 <= k < nv.len() && #[trigger] nv[k] == w;
                    if k == p {
                        assert(vv.take(t + 1)[t as int] == w);
                    } else {
                        let k2 = if k < p { k } else { k - 1 };
                        assert(sv[k2] == w);
                        assert(sv.contains(w));
                        assert(vv.take(t as int).contains(w));
                        let q = choose|q: int| 0 <= q < t && #[trigger] vv.take(t as int)[q] == w;
                        assert(vv.take(t + 1)[q] == w);
                    }
                }
            }
        }
    }
    assert(words_view(v@).take(n as int) =~= words_view(v@));
    sorted
}

/// The most suggestions the popup lists.
pub const MAX_SUGGESTIONS: usize = 10;

/// `w` completes `p`: in lower case, `p` starts `w` and `w` is longer.
pub open spec fn completes(p: Seq<char>, w: Seq<char>) -> bool {
    lowercase(p).is_prefix_of(lowercase(w)) && lowercase(w) != lowercase(p)
}

/// `w` is a word of `text` that completes `p`.
pub open spec fn is_suggestion(text: Seq<char>, p: Seq<char>, w: Seq<char>) -> bool {
    is_text_word(text, w) && completes(p, w)
}

/// `s` lists the suggestions for `p` in `text`: the first ten of them in
/// code-point order (all of them when there are fewer).
pub open spec fn suggestions_for(text: Seq<char>, p: Seq<char>, s: Seq<Seq<char>>) -> bool {
    &&& s.len() <= MAX_SUGGESTIONS
    &&& strictly_sorted(s)
    &&& forall|k: int| 0 <= k < s.len() ==> is_suggestion(text, p, #[trigger] s[k])
    &&& forall|w: Seq<char>|
        is_suggestion(text, p, w) && !s.contains(w) ==> s.len() == MAX_SUGGESTIONS && forall|k: int|
            0 <= k < s.len() ==> lex_lt(#[trigger] s[k], w)
}

/// The characters of the strings.
pub open spec fn strings_view(v: Seq<String>) -> Seq<Seq<char>> {
    v.map_values(|s: String| s@)
}

/// The lower-case form of some characters.
fn lower_chars(cs: &[char]) -> (r: Vec<char>)
    ensures
        r@ == lowercase(cs@),
{
    let s = string_of(cs);
    let l = to_lowercase(s.as_str());
    chars_of(l.as_str())
}

/// The completion suggestions for `prefix` among the words of `text`.
pub fn suggestions(text: &[char], prefix: &[char]) -> (r: Vec<String>)
    ensures
        suggestions_for(text@, prefix@, strings_view(r@)),
{
    let words = collect_words(text);
    let lp = lower_chars(prefix);
    let mut matching: Vec<Vec<char>> = Vec::new();
    let n = words.len();
    for k in 0..n
        invariant
            n == words@.len(),
            lp@ == lowercase(prefix@),
            forall|w: Seq<char>| is_text_word(text@, w) <==> exists|q: int| 0 <= q < words@.len() && (#[trigger] words@[q])@ == w,
            forall|a: int, b: int| 0 <= a < b < words@.len() ==> (#[trigger] words@[a])@ != (#[trigger] words@[b])@,
            forall|a: int, b: int| 0 <= a < b < matching@.len() ==> (#[trigger] matching@[a])@ != (#[trigger] matching@[b])@,
            forall|w: Seq<char>| words_view(matching@).contains(w) <==> exists|q: int|
                0 <= q < k && (#[trigger] words@[q])@ == w && completes(prefix@, w),
    {
        let lw = lower_chars(words[k].as_slice());
        let ghost before = matching@;
        if has_prefix(lw.as_slice(), lp.as_slice()) && !chars_eq(lw.as_slice(), lp.as_slice()) {
            matching.push(words[k].clone());
        }
        proof {
            assert forall|a: int, b: int| 0 <= a < b < matching@.len() implies (#[trigger] matching@[a])@ != (#[trigger] matching@[b])@ by {
                if b == before.len() {
                    assert(words_view(before)[a] == before[a]@);
                    assert(words_view(before).contains(before[a]@));
                    let q = choose|q: int| 0 <= q < k && (#[trigger] words@[q])@ == before[a]@ && completes(prefix@, before[a]@);
                    assert(words@[q]@ != words@[k as int]@);
                }
            }
            assert forall|w: Seq<char>| words_view(matching@).contains(w) <==> exists|q: int|
                0 <= q < k + 1 && (#[trigger] words@[q])@ == w && completes(prefix@, w) by {
                if words_view(matching@).contains(w) {
                    let j = choose|j: int| 0 <= j < matching@.len() && words_view(matching@)[j] == w;
                    if j < before.len() {
                        assert(words_view(before)[j] == w);
                        assert(words_view(before).contains(w));
                    } else {
                        assert(words@[k as int]@ == w);
                    }
                }
                if exists|q: int| 0 <= q < k + 1 && (#[trigger] words@[q])@ == w && completes(prefix@, w) {
                    let q = choose|q: int| 0 <= q < k + 1 && (#[trigger] words@[q])@ == w && completes(prefix@, w);
                    if q < k {
                        assert(words_view(before).contains(w));
                        let j = choose|j: int| 0 <= j < before.len() && words_view(before)[j] == w;
                        assert(words_view(matching@)[j] == w);
                    } else {
                        assert(words_view(matching@)[before.len() as int] == w);
                    }
                }
            }
        }
    }
    let sorted = sort_words(matching);
    let ghost sv = words_view(sorted@);
    let m = if sorted.len() < MAX_SUGGESTIONS {
        sorted.len()
    } else {
        MAX_SUGGESTIONS
    };
    let mut out: Vec<String> = Vec::new();
    for k in 0..m
        invariant
            m <= sorted@.len(),
            sv == words_view(sorted@),
            strings_view(out@) == sv.take(k as int),
    {
        let w = string_of(sorted[k].as_slice());
        let ghost before = out@;
        assert(w@ == sv[k as int]);
        out.push(w);
        assert(strings_view(out@) =~= strings_view(before).push(w@));
        assert(strings_view(out@) =~= sv.take(k + 1));
    }
    proof {
        let o = strings_view(out@);
        assert(o =~= sv.take(m as int));
        assert forall|k: int| 0 <= k < o.len() implies is_suggestion(text@, prefix@, #[trigger] o[k]) by {
            assert(sv.contains(sv[k]));
            let q = choose|q: int| 0 <= q < n && (#[trigger] words@[q])@ == sv[k] && completes(prefix@, sv[k]);
        }
        assert forall|w: Seq<char>| is_suggestion(text@, prefix@, w) && !o.contains(w) implies o.len() == MAX_SUGGESTIONS && forall|k: int|
            0 <= k < o.len() ==> lex_lt(#[trigger] o[k], w) by {
            let q = choose|q: int| 0 <= q < words@.len() && (#[trigger] words@[q])@ == w;
            assert(sv.contains(w));
            let j = choose|j: int| 0 <= j < sv.len() && sv[j] == w;
            if j < m {
                assert(o[j] == w);
            }
            assert forall|k: int| 0 <= k < o.len() implies lex_lt(#[trigger] o[k], w) by {
                assert(o[k] == sv[k]);
            }
        }
    }
    out
}

/// The word suffix of `t` is the part after the last non-word character.
proof fn lemma_word_suffix_range(t: Seq<char>, s: int)
    requires
        0 <= s <= t.len(),
        forall|j: int| s <= j < t.len() ==> is_word_char(#[trigger] t[j]),
        s == 0 || !is_word_char(t[s - 1]),
    ensures
        word_suffix(t) == t.subrange(s, t.len() as int),
    decreases t.len(),
{
    if t.len() > s {
        assert(t.drop_last().len() == t.len() - 1);
        lemma_word_suffix_range(t.drop_last(), s);
        assert(t.subrange(s, t.len() as int) =~= t.drop_last().subrange(s, t.len() - 1).push(t.last()));
    } else {
        assert(t.subrange(s, t.len() as int) =~= Seq::<char>::empty());
        if t.len() > 0 {
            assert(t.last() == t[s - 1]);
        }
    }
}

/// The characters of `line` before column `col`.
pub open spec fn before_column(line: Seq<char>, col: int) -> Seq<char> {
    if col < line.len() {
        line.take(col)
    } else {
        line
    }
}

/// The word fragment right before column `col` of `line` (the line's end
/// when `col` is past it): its longest run of word characters ending there.
pub fn word_before_cursor(line: &str, col: usize) -> (r: Vec<char>)
    ensures
        r@ == word_suffix(before_column(line@, col as int)),
        r@.len() <= before_column(line@, col as int).len(),
        r@ == before_column(line@, col as int).skip(before_column(line@, col as int).len() - r@.len()),
{
    let lc = chars_of(line);
    let k = if col < lc.len() {
        col
    } else {
        lc.len()
    };
    let ghost before = before_column(line@, col as int);
    assert(before =~= lc@.take(k as int));
    let mut start = k;
    while start > 0 && word_char(lc[start - 1])
        invariant
            start <= k,
            k <= lc@.len(),
            forall|j: int| start <= j < k ==> is_word_char(#[trigger] lc@[j]),
        decreases start,
    {
        start = start - 1;
    }
    proof {
        let t = lc@.take(k as int);
        assert forall|j: int| start <= j < t.len() implies is_word_char(#[trigger] t[j]) by {
            assert(t[j] == lc@[j]);
        }
        if start > 0 {
            assert(t[start - 1] == lc@[start - 1]);
        }
        lemma_word_suffix_range(t, start as int);
        assert(t.subrange(start as int, k as int) =~= lc@.subrange(start as int, k as int));
        assert(t.skip(start as int) =~= t.subrange(start as int, k as int));
    }
    let prefix = slice_range(lc.as_slice(), start, k);
    prefix
}

impl AutocompleteState {
    /// Updates the suggestions for the cursor at column `col` of `line`, in a
    /// document whose text is `text` (call after each edit): when the word
    /// fragment before the cursor has fewer than two bytes the popup is
    /// dismissed; else the fragment is the prefix, the suggestions are the
    /// first ten words of the text (in order) that complete it, the first is
    /// selected, and the popup shows when there is any.
    pub fn update(&mut self, line: &str, col: usize, text: &str)
        ensures
            ({
                let p = word_suffix(before_column(line@, col as int));
                if utf8_len(p) < 2 {
                    &&& !final(self).visible
                    &&& final(self).suggestions@.len() == 0
                    &&& final(self).prefix@.len() == 0
                    &&& final(self).selected == old(self).selected
                } else {
                    &&& final(self).prefix@ == p
                    &&& suggestions_for(text@, p, strings_view(final(self).suggestions@))
                    &&& final(self).selected == 0
                    &&& final(self).visible == (final(self).suggestions@.len() > 0)
                }
            }),
    {
        let prefix = word_before_cursor(line, col);
        if !at_least_two_bytes(prefix.as_slice()) {
            self.dismiss();
            return;
        }
        self.prefix = string_of(prefix.as_slice());
        let tc = chars_of(text);
        self.suggestions = suggestions(tc.as_slice(), prefix.as_slice());
        self.selected = 0;
        self.visible = self.suggestions.len() > 0;
    }
}

} // verus!
