//! Finding files by a fuzzy query: the list of candidate files, sorted, and
//! those that match the query, best first.

use vstd::prelude::*;
use fuzzy_matcher::FuzzyMatcher;
use fuzzy_matcher::skim::SkimMatcherV2;
use crate::text::{chars_of, same_text, split_string, split_text, text_of};
use super::wrap::{wrap_next, wrap_prev};

verus! {

/// Whether a piece of a path between slashes is left out of the file list:
/// `target`, or a hidden name (starting with a dot, as `.git` does).
pub open spec fn hidden_piece(p: Seq<char>) -> bool {
    p == "target"@ || (p.len() > 0 && p[0] == '.')
}

/// Whether the file list takes `path`: none of its pieces between slashes
/// is hidden (see [`hidden_piece`]).
pub open spec fn listed_path(path: Seq<char>) -> bool {
    forall|i: int| 0 <= i < split_text(path, "/"@).len() ==> !hidden_piece(#[trigger] split_text(path, "/"@)[i])
}

/// Whether the file list takes `path` (see [`listed_path`]).
pub fn is_listed(path: &str) -> (b: bool)
    ensures
        b == listed_path(path@),
{
    proof {
        reveal_strlit("/");
    }
    let pieces = split_string(path, "/");
    let mut i: usize = 0;
    while i < pieces.len()
        invariant
            i <= pieces@.len(),
            text_of(pieces@) == split_text(path@, "/"@),
            forall|j: int| 0 <= j < i ==> !hidden_piece(#[trigger] split_text(path@, "/"@)[j]),
        decreases pieces.len() - i,
    {
        let piece = pieces[i].as_str();
        let c = chars_of(piece);
        let hidden = same_text(piece, "target") || (c.len() > 0 && c[0] == '.');
        assert(split_text(path@, "/"@)[i as int] == piece@);
        if hidden {
            return false;
        }
        i += 1;
    }
    true
}

broadcast use vstd::seq_lib::group_to_multiset_ensures;

/// What `SkimMatcherV2::default().fuzzy_match(choice, pattern)` returns: the
/// score of `pattern` as a fuzzy match within `choice`, or none when it does not match.
pub uninterp spec fn skim_score(choice: Seq<char>, pattern: Seq<char>) -> Option<i64>;

/// `SkimMatcherV2::default().fuzzy_match`: the score of `pattern` as a fuzzy
/// match within `choice`, or none. The contract names the result and does not
/// restate the scoring; it adds what the source shows for an empty pattern, a
/// score of 0.
#[verifier::external_body]
fn fuzzy_score(choice: &str, pattern: &str) -> (r: Option<i64>)
    ensures
        r == skim_score(choice@, pattern@),
        pattern@.len() == 0 ==> r == Some(0i64),
{
    SkimMatcherV2::default().fuzzy_match(choice, pattern)
}

/// Whether `a` comes no later than `b` in lexicographic order of characters
/// (the order of `String`, whose UTF-8 bytes sort as their characters do).
pub open spec fn seq_le(a: Seq<char>, b: Seq<char>) -> bool
    decreases a.len(),
{
    if a.len() == 0 {
        true
    } else if b.len() == 0 {
        false
    } else if a[0] != b[0] {
        a[0] < b[0]
    } else {
        seq_le(a.drop_first(), b.drop_first())
    }
}

/// Whether `s` is in increasing lexicographic order.
pub open spec fn sorted_text(s: Seq<Seq<char>>) -> bool {
    forall|i: int, j: int| 0 <= i < j < s.len() ==> seq_le(#[trigger] s[i], #[trigger] s[j])
}

/// The files that match `query`, each with its score, in the order of `files`.
pub open spec fn scored(files: Seq<Seq<char>>, query: Seq<char>) -> Seq<(Seq<char>, i64)>
    decreases files.len(),
{
    if files.len() == 0 {
        Seq::empty()
    } else {
        let r = scored(files.drop_last(), query);
        match skim_score(files.last(), query) {
            Some(s) => r.push((files.last(), s)),
            None => r,
        }
    }
}

/// Each file with the score 0.
pub open spec fn unscored(files: Seq<Seq<char>>) -> Seq<(Seq<char>, i64)> {
    files.map_values(|f: Seq<char>| (f, 0i64))
}

/// Whether the scores of `m` never increase.
pub open spec fn by_score_desc(m: Seq<(Seq<char>, i64)>) -> bool {
    forall|i: int, j: int| 0 <= i < j < m.len() ==> (#[trigger] m[i]).1 >= (#[trigger] m[j]).1
}

/// The names in `m` with score `k`, in their order in `m`.
pub open spec fn names_with_score(m: Seq<(Seq<char>, i64)>, k: i64) -> Seq<Seq<char>>
    decreases m.len(),
{
    if m.len() == 0 {
        Seq::empty()
    } else if m.last().1 == k {
        names_with_score(m.drop_last(), k).push(m.last().0)
    } else {
        names_with_score(m.drop_last(), k)
    }
}

/// Whether `r` is `m` sorted by decreasing score, entries of equal score
/// keeping their order in `m` (a stable sort).
pub open spec fn ranked(r: Seq<(Seq<char>, i64)>, m: Seq<(Seq<char>, i64)>) -> bool {
    &&& by_score_desc(r)
    &&& r.len() == m.len()
    &&& forall|k: i64| #[trigger] names_with_score(r, k) == names_with_score(m, k)
}

/// The abstract state of a [`FileFinder`].
pub struct FileFinderModel {
    pub query: Seq<char>,
    pub files: Seq<Seq<char>>,
    pub matches: Seq<(Seq<char>, i64)>,
    pub selected_index: usize,
}

/// The candidate files of a directory, and those that match a fuzzy query.
pub struct FileFinder {
    query: String,
    files: Vec<String>,
    matches: Vec<(String, i64)>,
    selected_index: usize,
}

/// The characters of each name of a list of matches, with its score.
pub open spec fn matches_of(v: Seq<(String, i64)>) -> Seq<(Seq<char>, i64)> {
    v.map_values(|e: (String, i64)| (e.0@, e.1))
}

impl View for FileFinder {
    type V = FileFinderModel;

    closed spec fn view(&self) -> FileFinderModel {
        FileFinderModel {
            query: self.query@,
            files: text_of(self.files@),
            matches: matches_of(self.matches@),
            selected_index: self.selected_index,
        }
    }
}

proof fn lemma_seq_le_total(a: Seq<char>, b: Seq<char>)
    ensures
        seq_le(a, b) || seq_le(b, a),
    decreases a.len(),
{
    if a.len() > 0 && b.len() > 0 && a[0] == b[0] {
        lemma_seq_le_total(a.drop_first(), b.drop_first());
    }
}

proof fn lemma_seq_le_trans(a: Seq<char>, b: Seq<char>, c: Seq<char>)
    requires
        seq_le(a, b),
        seq_le(b, c),
    ensures
        seq_le(a, c),
    decreases a.len(),
{
    if a.len() > 0 && b.len() > 0 && c.len() > 0 && a[0] == b[0] && b[0] == c[0] {
        lemma_seq_le_trans(a.drop_first(), b.drop_first(), c.drop_first());
    }
}

/// Comparing past a common prefix of length `i` decides the order.
proof fn lemma_seq_le_skip(a: Seq<char>, b: Seq<char>, i: int)
    requires
        0 <= i <= a.len(),
        i <= b.len(),
        a.take(i) == b.take(i),
    ensures
        seq_le(a, b) == seq_le(a.skip(i), b.skip(i)),
    decreases i,
{
    if i > 0 {
        assert(a[0] == a.take(i)[0]);
        assert(b[0] == b.take(i)[0]);
        assert(a.drop_first().take(i - 1) =~= a.take(i).drop_first());
        assert(b.drop_first().take(i - 1) =~= b.take(i).drop_first());
        lemma_seq_le_skip(a.drop_first(), b.drop_first(), i - 1);
        assert(a.drop_first().skip(i - 1) =~= a.skip(i));
        assert(b.drop_first().skip(i - 1) =~= b.skip(i));
    } else {
        assert(a.skip(0) =~= a);
        assert(b.skip(0) =~= b);
    }
}

/// Whether `a` comes no later than `b` in lexicographic order.
fn str_le(a: &str, b: &str) -> (r: bool)
    ensures
        r == seq_le(a@, b@),
{
    let v = chars_of(a);
    let w = chars_of(b);
    let mut i: usize = 0;
    while i < v.len() && i < w.len() && v[i] == w[i]
        invariant
            i <= v@.len(),
            i <= w@.len(),
            v@ == a@,
            w@ == b@,
            v@.take(i as int) == w@.take(i as int),
        decreases v.len() - i,
    {
        assert(v@.take(i + 1) =~= v@.take(i as int).push(v@[i as int]));
        assert(w@.take(i + 1) =~= w@.take(i as int).push(w@[i as int]));
        i += 1;
    }
    proof {
        lemma_seq_le_skip(a@, b@, i as int);
    }
    if i == v.len() {
        assert(a@.skip(i as int).len() == 0);
        true
    } else if i == w.len() {
        assert(b@.skip(i as int).len() == 0);
        false
    } else {
        assert(a@.skip(i as int)[0] == v@[i as int]);
        assert(b@.skip(i as int)[0] == w@[i as int]);
        v[i] < w[i]
    }
}

/// The strings of `v` in lexicographic order (a stable sort).
fn sorted_strings(v: &Vec<String>) -> (r: Vec<String>)
    ensures
        sorted_text(text_of(r@)),
        text_of(r@).to_multiset() == text_of(v@).to_multiset(),
{
    let mut r: Vec<String> = Vec::new();
    let mut i: usize = 0;
    while i < v.len()
        invariant
            i <= v@.len(),
            sorted_text(text_of(r@)),
            text_of(r@).to_multiset() == text_of(v@.take(i as int)).to_multiset(),
        decreases v.len() - i,
    {
        let s = &v[i];
        let mut p: usize = 0;
        while p < r.len() && str_le(r[p].as_str(), s.as_str())
            invariant
                p <= r@.len(),
                forall|q: int| 0 <= q < p ==> seq_le(#[trigger] text_of(r@)[q], s@),
            decreases r.len() - p,
        {
            p += 1;
        }
        let ghost before = text_of(r@);
        proof {
            if p < r@.len() {
                lemma_seq_le_total(before[p as int], s@);
                assert forall|q: int| p <= q < before.len() implies seq_le(s@, #[trigger] before[q]) by {
                    if q > p {
                        assert(seq_le(before[p as int], before[q]));
                        lemma_seq_le_trans(s@, before[p as int], before[q]);
                    }
                }
            }
        }
        r.insert(p, s.clone());
        proof {
            assert(text_of(r@) =~= before.insert(p as int, s@));
            assert(text_of(v@.take(i + 1)) =~= text_of(v@.take(i as int)).push(s@));
            vstd::seq_lib::to_multiset_insert(before, p as int, s@);
            assert forall|a: int, b: int| 0 <= a < b < text_of(r@).len() implies seq_le(
                #[trigger] text_of(r@)[a],
                #[trigger] text_of(r@)[b],
            ) by {
                let t = text_of(r@);
                if b < p {
                    assert(t[a] == before[a] && t[b] == before[b]);
                } else if b == p {
                    assert(t[a] == before[a]);
                } else if a < p {
                    assert(t[a] == before[a] && t[b] == before[b - 1]);
                    assert(seq_le(s@, before[b - 1]));
                    lemma_seq_le_trans(before[a], s@, before[b - 1]);
                } else if a == p {
                    assert(t[b] == before[b - 1]);
                } else {
                    assert(t[a] == before[a - 1] && t[b] == before[b - 1]);
                }
            }
        }
        i += 1;
    }
    assert(v@.take(i as int) =~= v@);
    r
}

/// Inserting `x` after every entry of score at least its own, and before the
/// rest, adds its name to the names of its score only.
proof fn lemma_names_insert(r: Seq<(Seq<char>, i64)>, p: int, x: (Seq<char>, i64), k: i64)
    requires
        0 <= p <= r.len(),
        forall|q: int| p <= q < r.len() ==> (#[trigger] r[q]).1 < x.1,
    ensures
        names_with_score(r.insert(p, x), k) == if k == x.1 {
            names_with_score(r, k).push(x.0)
        } else {
            names_with_score(r, k)
        },
    decreases r.len(),
{
    if p == r.len() {
        assert(r.insert(p, x) =~= r.push(x));
        assert(r.push(x).drop_last() =~= r);
    } else {
        let s = r.insert(p, x);
        assert(s.drop_last() =~= r.drop_last().insert(p, x));
        assert(s.last() == r.last());
        assert(r.last().1 < x.1);
        lemma_names_insert(r.drop_last(), p, x, k);
    }
}

impl FileFinder {
    pub fn new() -> (f: Self)
        ensures
            f@.query.len() == 0,
            f@.files.len() == 0,
            f@.matches.len() == 0,
            f@.selected_index == 0,
    {
        let f = FileFinder {
            query: String::new(),
            files: Vec::new(),
            matches: Vec::new(),
            selected_index: 0,
        };
        assert(text_of(f.files@) =~= Seq::<Seq<char>>::empty());
        assert(matches_of(f.matches@) =~= Seq::<(Seq<char>, i64)>::empty());
        f
    }

    /// Every file with the score 0, in the order of the file list.
    fn all_files(&self) -> (r: Vec<(String, i64)>)
        ensures
            matches_of(r@) == unscored(text_of(self.files@)),
    {
        let mut r: Vec<(String, i64)> = Vec::new();
        let mut i: usize = 0;
        while i < self.files.len()
            invariant
                i <= self.files@.len(),
                matches_of(r@) == unscored(text_of(self.files@).take(i as int)),
            decreases self.files.len() - i,
        {
            let ghost before = matches_of(r@);
            r.push((self.files[i].clone(), 0));
            assert(matches_of(r@) =~= before.push((self.files@[i as int]@, 0i64)));
            assert(unscored(text_of(self.files@).take(i + 1)) =~= unscored(
                text_of(self.files@).take(i as int),
            ).push((self.files@[i as int]@, 0i64)));
            i += 1;
        }
        assert(text_of(self.files@).take(i as int) =~= text_of(self.files@));
        r
    }

    /// Starts over with the candidate files `files` (as found in the
    /// directory): the query is cleared, the files are sorted, every file
    /// matches with the score 0 and the first is selected.
    pub fn refresh_with(&mut self, files: Vec<String>)
        ensures
            final(self)@.query.len() == 0,
            sorted_text(final(self)@.files),
            final(self)@.files.to_multiset() == text_of(files@).to_multiset(),
            final(self)@.matches == unscored(final(self)@.files),
            final(self)@.selected_index == 0,
    {
        self.query = String::new();
        self.selected_index = 0;
        self.files = sorted_strings(&files);
        self.matches = self.all_files();
    }

    /// The files that match the query, best first, files of equal score in
    /// file order; all files with the score 0 when the query is empty. The
    /// first is selected.
    pub fn update_matches(&mut self)
        ensures
            final(self)@.query == old(self)@.query,
            final(self)@.files == old(self)@.files,
            final(self)@.selected_index == 0,
            old(self)@.query.len() == 0 ==> final(self)@.matches == unscored(old(self)@.files),
            old(self)@.query.len() > 0 ==> ranked(
                final(self)@.matches,
                scored(old(self)@.files, old(self)@.query),
            ),
    {
        self.selected_index = 0;
        if chars_of(self.query.as_str()).len() == 0 {
            self.matches = self.all_files();
            return;
        }
        let ghost files = text_of(self.files@);
        let ghost query = self.query@;
        let mut r: Vec<(String, i64)> = Vec::new();
        let mut i: usize = 0;
        while i < self.files.len()
            invariant
                i <= self.files@.len(),
                files == text_of(self.files@),
                query == self.query@,
                by_score_desc(matches_of(r@)),
                matches_of(r@).len() == scored(files.take(i as int), query).len(),
                forall|k: i64| #[trigger] names_with_score(matches_of(r@), k)
                    == names_with_score(scored(files.take(i as int), query), k),
            decreases self.files.len() - i,
        {
            let score = fuzzy_score(self.files[i].as_str(), self.query.as_str());
            assert(files.take(i + 1).drop_last() =~= files.take(i as int));
            assert(files.take(i + 1).last() == files[i as int]);
            match score {
                Some(s) => {
                    let mut p: usize = 0;
                    while p < r.len() && r[p].1 >= s
                        invariant
                            p <= r@.len(),
                            forall|q: int| 0 <= q < p ==> (#[trigger] matches_of(r@)[q]).1 >= s,
                        decreases r.len() - p,
                    {
                        p += 1;
                    }
                    let ghost before = matches_of(r@);
                    let ghost x = (self.files@[i as int]@, s);
                    proof {
                        assert forall|q: int| p <= q < before.len() implies (#[trigger] before[q]).1 < s by {
                            if q > p {
                                assert(before[p as int].1 >= before[q].1);
                            }
                        }
                    }
                    r.insert(p, (self.files[i].clone(), s));
                    proof {
                        assert(matches_of(r@) =~= before.insert(p as int, x));
                        let prev = scored(files.take(i as int), query);
                        assert(scored(files.take(i + 1), query) == prev.push(x));
                        assert(prev.push(x).drop_last() =~= prev);
                        assert forall|k: i64| #[trigger] names_with_score(matches_of(r@), k)
                            == names_with_score(scored(files.take(i + 1), query), k) by {
                            lemma_names_insert(before, p as int, x, k);
                        }
                        assert forall|a: int, b: int| 0 <= a < b < matches_of(r@).len() implies (
                        #[trigger] matches_of(r@)[a]).1 >= (#[trigger] matches_of(r@)[b]).1 by {
                            let t = matches_of(r@);
                            if b < p {
                                assert(t[a] == before[a] && t[b] == before[b]);
                            } else if b == p {
                                assert(t[a] == before[a]);
                            } else if a < p {
                                assert(t[a] == before[a] && t[b] == before[b - 1]);
                            } else if a == p {
                                assert(t[b] == before[b - 1]);
                            } else {
                                assert(t[a] == before[a - 1] && t[b] == before[b - 1]);
                            }
                        }
                    }
                },
                None => {
                    assert(scored(files.take(i + 1), query) == scored(files.take(i as int), query));
                },
            }
            i += 1;
        }
        assert(files.take(i as int) =~= files);
        self.matches = r;
    }

    /// The selected file, if any matches.
    pub fn get_selected(&self) -> (r: Option<String>)
        ensures
            self@.selected_index < self@.matches.len() ==> (r matches Some(s) && s@
                == self@.matches[self@.selected_index as int].0),
            self@.selected_index >= self@.matches.len() ==> r is None,
    {
        if self.selected_index < self.matches.len() {
            Some(self.matches[self.selected_index].0.clone())
        } else {
            None
        }
    }

    pub fn add_char(&mut self, c: char)
        ensures
            final(self)@.query == old(self)@.query.push(c),
            final(self)@.files == old(self)@.files,
            final(self)@.matches == old(self)@.matches,
            final(self)@.selected_index == old(self)@.selected_index,
    {
        self.query = crate::text::push_char_to(&self.query, c);
    }

    /// Removes the last character of the query, if any.
    pub fn remove_char(&mut self)
        ensures
            final(self)@.query == (if old(self)@.query.len() > 0 {
                old(self)@.query.drop_last()
            } else {
                old(self)@.query
            }),
            final(self)@.files == old(self)@.files,
            final(self)@.matches == old(self)@.matches,
            final(self)@.selected_index == old(self)@.selected_index,
    {
        let v = chars_of(self.query.as_str());
        if v.len() > 0 {
            self.query = crate::text::substring(self.query.as_str(), 0, v.len() - 1);
            assert(self.query@ =~= old(self)@.query.drop_last());
        }
    }

    /// The next match, wrapping to the first.
    pub fn next(&mut self)
        ensures
            final(self)@.query == old(self)@.query,
            final(self)@.files == old(self)@.files,
            final(self)@.matches == old(self)@.matches,
            final(self)@.selected_index == (if old(self)@.matches.len() > 0 {
                wrap_next(old(self)@.selected_index as int, old(self)@.matches.len() as int) as usize
            } else {
                old(self)@.selected_index
            }),
    {
        let n = self.matches.len();
        if n > 0 {
            self.selected_index = if self.selected_index < n - 1 {
                self.selected_index + 1
            } else {
                (self.selected_index - (n - 1)) % n
            };
            proof {
                let s = old(self)@.selected_index as int;
                if s >= n - 1 {
                    assert(((s + 1) % (n as int)) == ((s - (n - 1)) % (n as int))) by (nonlinear_arith)
                        requires
                            n > 0,
                            s >= n - 1,
                    {
                        assert(s + 1 == (s - (n - 1)) + n);
                        vstd::arithmetic::div_mod::lemma_mod_add_multiples_vanish(s - (n - 1), n as int);
                    }
                } else {
                    vstd::arithmetic::div_mod::lemma_small_mod((s + 1) as nat, n as nat);
                }
            }
        }
    }

    /// The previous match, wrapping to the last.
    pub fn previous(&mut self)
        ensures
            final(self)@.query == old(self)@.query,
            final(self)@.files == old(self)@.files,
            final(self)@.matches == old(self)@.matches,
            final(self)@.selected_index == (if old(self)@.matches.len() == 0 {
                old(self)@.selected_index as int
            } else {
                wrap_prev(old(self)@.selected_index as int, old(self)@.matches.len() as int)
            }),
    {
        if self.matches.len() > 0 {
            self.selected_index = if self.selected_index == 0 {
                self.matches.len() - 1
            } else {
                self.selected_index - 1
            };
        }
    }

    pub fn query(&self) -> (r: &str)
        ensures
            r@ == self@.query,
    {
        self.query.as_str()
    }

    pub fn matches(&self) -> (r: &[(String, i64)])
        ensures
            matches_of(r@) == self@.matches,
    {
        self.matches.as_slice()
    }

    pub fn selected_index(&self) -> (r: usize)
        ensures
            r == self@.selected_index,
    {
        self.selected_index
    }
}

} // verus!
