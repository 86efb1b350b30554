//! Searching for a token across the files of the project: the query, the
//! results and the selected result.

use vstd::prelude::*;
use grep::matcher::Matcher;
use grep::regex::RegexMatcher;
use crate::text::{char_len, chars_of, concat, push_char_to, substring, trim_end, trim_end_string};
use super::modes::utf8_len;
use super::wrap::{wrap_next, wrap_prev};

verus! {

/// Whether `c` has a meaning in a regular expression (`regex_syntax::is_meta_character`).
pub open spec fn is_meta_character(c: char) -> bool {
    c == '\\' || c == '.' || c == '+' || c == '*' || c == '?' || c == '(' || c == ')' || c == '|'
        || c == '[' || c == ']' || c == '{' || c == '}' || c == '^' || c == '$' || c == '#'
        || c == '&' || c == '-' || c == '~'
}

/// `s` with a backslash before each meta character.
pub open spec fn escaped(s: Seq<char>) -> Seq<char>
    decreases s.len(),
{
    if s.len() == 0 {
        Seq::empty()
    } else {
        let prefix = escaped(s.drop_last());
        if is_meta_character(s.last()) {
            prefix.push('\\').push(s.last())
        } else {
            prefix.push(s.last())
        }
    }
}

/// `regex::escape`: `text` with a backslash before each meta character, so
/// that it matches itself literally.
#[verifier::external_body]
fn regex_escape(text: &str) -> (r: String)
    ensures
        r@ == escaped(text@),
{
    regex::escape(text)
}

/// Where the first match of the regular expression `pattern` in `line`
/// starts, as a byte offset, as grep-regex's `RegexMatcher` finds it; none
/// when it does not match or `pattern` is not a valid expression.
pub uninterp spec fn regex_match_start(pattern: Seq<char>, line: Seq<char>) -> Option<usize>;

/// `RegexMatcher::new(pattern)` and then `Matcher::find` on the bytes of
/// `line`: the byte offset where the first match starts. The contract
/// names the result.
#[verifier::external_body]
fn regex_find(pattern: &str, line: &str) -> (r: Option<usize>)
    ensures
        r == regex_match_start(pattern@, line@),
{
    match RegexMatcher::new(pattern) {
        Ok(m) => match m.find(line.as_bytes()) {
            Ok(Some(found)) => Some(found.start()),
            _ => None,
        },
        Err(_) => None,
    }
}

/// The number of bytes of `c` in UTF-8.
pub open spec fn utf8_width(c: char) -> nat {
    let n = c as u32;
    if n < 0x80 {
        1
    } else if n < 0x800 {
        2
    } else if n < 0x10000 {
        3
    } else {
        4
    }
}

/// The index of the character of `l` that starts at byte `b`, searching from
/// character `k` on (the length of `l` when `b` is its byte length); none
/// when no character starts there.
pub open spec fn char_at_byte_from(l: Seq<char>, b: int, k: int) -> Option<int>
    decreases l.len() - k,
{
    if k < 0 || k > l.len() {
        None
    } else if utf8_len(l.take(k)) == b {
        Some(k)
    } else if utf8_len(l.take(k)) > b || k == l.len() {
        None
    } else {
        char_at_byte_from(l, b, k + 1)
    }
}

/// One more character adds its width to the byte length.
proof fn lemma_utf8_take(l: Seq<char>, k: int)
    requires
        0 <= k < l.len(),
    ensures
        utf8_len(l.take(k + 1)) == utf8_len(l.take(k)) + utf8_width(l[k]),
{
    assert(l.take(k + 1).drop_last() =~= l.take(k));
    assert(l.take(k + 1).last() == l[k]);
}

/// Past the byte `b`, no later character starts there.
proof fn lemma_char_at_byte_past(l: Seq<char>, b: int, k: int)
    requires
        0 <= k <= l.len(),
        utf8_len(l.take(k)) > b,
    ensures
        char_at_byte_from(l, b, k) is None,
    decreases l.len() - k,
{
    if k < l.len() {
        lemma_utf8_take(l, k);
        lemma_char_at_byte_past(l, b, k + 1);
    }
}

/// The index of the character of `line` that starts at byte `b` (see [`char_at_byte_from`]).
fn char_at_byte(line: &str, b: usize) -> (r: Option<usize>)
    ensures
        r matches Some(k) ==> k <= line@.len() && char_at_byte_from(line@, b as int, 0) == Some(k as int),
        r is None ==> char_at_byte_from(line@, b as int, 0) is None,
{
    let v = chars_of(line);
    let mut k: usize = 0;
    let mut acc: usize = 0;
    assert(v@.take(0) =~= Seq::<char>::empty());
    while k <= v.len()
        invariant
            v@ == line@,
            k <= v@.len(),
            acc == utf8_len(v@.take(k as int)),
            acc <= b,
            char_at_byte_from(line@, b as int, 0) == char_at_byte_from(line@, b as int, k as int),
        decreases v@.len() - k,
    {
        if acc == b {
            return Some(k);
        }
        if k == v.len() {
            return None;
        }
        let n = v[k] as u32;
        let w: usize = if n < 0x80 {
            1
        } else if n < 0x800 {
            2
        } else if n < 0x10000 {
            3
        } else {
            4
        };
        proof {
            lemma_utf8_take(v@, k as int);
        }
        if w > b - acc {
            proof {
                lemma_char_at_byte_past(line@, b as int, k + 1);
            }
            return None;
        }
        acc = acc + w;
        k = k + 1;
    }
    None
}

/// Whether `r` is the result for line `line_number` of `file_path`, whose
/// text is `line`, where the match of a search for `query` starts at byte
/// `start`: the column is the character the match starts at, the line is
/// kept without its trailing whitespace, and the matched text is the
/// query's number of characters from there, as far as the line goes. None
/// without a match, or when no character starts at that byte.
pub open spec fn is_line_result(
    r: Option<TokenSearchResult>,
    file_path: Seq<char>,
    line_number: usize,
    line: Seq<char>,
    start: Option<usize>,
    query: Seq<char>,
) -> bool {
    match start {
        None => r is None,
        Some(b) => match char_at_byte_from(line, b as int, 0) {
            None => r is None,
            Some(k) => r matches Some(x) && {
                let end = if k + query.len() < line.len() { k + query.len() } else { line.len() as int };
                &&& x.file_path@ == file_path
                &&& x.line_number == line_number
                &&& x.column == k
                &&& x.line_content@ == trim_end(line)
                &&& x.matched_text@ == line.subrange(k, end)
            },
        },
    }
}

/// The result for line `line_number` of `file_path`, whose text is `line`,
/// where a search for `query` matched from byte `match_start` (see [`is_line_result`]).
pub fn result_for_line(
    file_path: String,
    line_number: usize,
    line: &str,
    match_start: Option<usize>,
    query: &str,
) -> (r: Option<TokenSearchResult>)
    ensures
        is_line_result(r, file_path@, line_number, line@, match_start, query@),
{
    let b = match match_start {
        Some(b) => b,
        None => return None,
    };
    let k = match char_at_byte(line, b) {
        Some(k) => k,
        None => return None,
    };
    let n = char_len(line);
    let q = char_len(query);
    let end = if q < n - k { k + q } else { n };
    let r = TokenSearchResult {
        file_path,
        line_number,
        column: k,
        line_content: trim_end_string(line),
        matched_text: substring(line, k, end),
    };
    assert(char_at_byte_from(line@, b as int, 0) == Some(k as int));
    Some(r)
}

/// The result of a search for `query`, with the regular expression
/// `pattern`, in line `line_number` of `file_path`, whose text is `line`:
/// the result for the line where the expression matches (see
/// [`is_line_result`] and [`regex_match_start`]), else none.
pub fn find_in_line(
    file_path: String,
    line_number: usize,
    line: &str,
    pattern: &str,
    query: &str,
) -> (r: Option<TokenSearchResult>)
    ensures
        is_line_result(r, file_path@, line_number, line@, regex_match_start(pattern@, line@), query@),
{
    let start = regex_find(pattern, line);
    result_for_line(file_path, line_number, line, start, query)
}

/// Whether a search with `n_results` results so far has found enough and
/// stops: more than a thousand.
pub fn search_done(n_results: usize) -> (b: bool)
    ensures
        b == (n_results > 1000),
{
    n_results > 1000
}

/// One place where the query was found.
#[derive(Debug, Clone)]
pub struct TokenSearchResult {
    pub file_path: String,
    pub line_number: usize,
    pub column: usize,
    pub line_content: String,
    pub matched_text: String,
}

/// A token search: the query, its results and the selected result.
pub struct TokenSearch {
    pub query: String,
    pub results: Vec<TokenSearchResult>,
    pub selected_index: usize,
}

impl TokenSearch {
    pub fn new() -> (t: Self)
        ensures
            t.query@.len() == 0,
            t.results@.len() == 0,
            t.selected_index == 0,
    {
        TokenSearch { query: String::new(), results: Vec::new(), selected_index: 0 }
    }

    /// Appends `c` to the query.
    pub fn add_char(&mut self, c: char)
        ensures
            final(self).query@ == old(self).query@.push(c),
            final(self).results == old(self).results,
            final(self).selected_index == old(self).selected_index,
    {
        self.query = push_char_to(&self.query, c);
    }

    /// Removes the last character of the query, if any.
    pub fn remove_char(&mut self)
        ensures
            final(self).query@ == (if old(self).query@.len() > 0 {
                old(self).query@.drop_last()
            } else {
                old(self).query@
            }),
            final(self).results == old(self).results,
            final(self).selected_index == old(self).selected_index,
    {
        let n = chars_of(self.query.as_str()).len();
        if n > 0 {
            self.query = substring(self.query.as_str(), 0, n - 1);
            assert(self.query@ =~= old(self).query@.drop_last());
        }
    }

    /// The next result, wrapping to the first.
    pub fn next(&mut self)
        ensures
            final(self).query == old(self).query,
            final(self).results == old(self).results,
            final(self).selected_index == (if old(self).results@.len() > 0 {
                wrap_next(old(self).selected_index as int, old(self).results@.len() as int) as usize
            } else {
                old(self).selected_index
            }),
    {
        let n = self.results.len();
        if n > 0 {
            self.selected_index = if self.selected_index < n - 1 {
                self.selected_index + 1
            } else {
                (self.selected_index - (n - 1)) % n
            };
            proof {
                let s = old(self).selected_index as int;
                if s >= n - 1 {
                    assert(((s + 1) % (n as int)) == ((s - (n - 1)) % (n as int))) by {
                        assert(s + 1 == (s - (n - 1)) + n);
                        vstd::arithmetic::div_mod::lemma_mod_add_multiples_vanish(s - (n - 1), n as int);
                    }
                } else {
                    vstd::arithmetic::div_mod::lemma_small_mod((s + 1) as nat, n as nat);
                }
            }
        }
    }

    /// The previous result, wrapping to the last.
    pub fn previous(&mut self)
        ensures
            final(self).query == old(self).query,
            final(self).results == old(self).results,
            final(self).selected_index == (if old(self).results@.len() == 0 {
                old(self).selected_index as int
            } else {
                wrap_prev(old(self).selected_index as int, old(self).results@.len() as int)
            }),
    {
        if self.results.len() > 0 {
            self.selected_index = if self.selected_index == 0 {
                self.results.len() - 1
            } else {
                self.selected_index - 1
            };
        }
    }

    /// The selected result, if there is one.
    pub fn get_selected(&self) -> (r: Option<&TokenSearchResult>)
        ensures
            self.selected_index < self.results@.len() ==> r == Some(
                &self.results@[self.selected_index as int],
            ),
            self.selected_index >= self.results@.len() ==> r is None,
    {
        if self.selected_index < self.results.len() {
            Some(&self.results[self.selected_index])
        } else {
            None
        }
    }

    /// A copy of the selected result, if there is one.
    pub fn get_selected_cloned(&self) -> (r: Option<TokenSearchResult>)
        ensures
            self.selected_index < self.results@.len() ==> (r matches Some(x) && {
                let y = self.results@[self.selected_index as int];
                &&& x.file_path@ == y.file_path@
                &&& x.line_number == y.line_number
                &&& x.column == y.column
                &&& x.line_content@ == y.line_content@
                &&& x.matched_text@ == y.matched_text@
            }),
            self.selected_index >= self.results@.len() ==> r is None,
    {
        if self.selected_index < self.results.len() {
            let y = &self.results[self.selected_index];
            Some(
                TokenSearchResult {
                    file_path: y.file_path.clone(),
                    line_number: y.line_number,
                    column: y.column,
                    line_content: y.line_content.clone(),
                    matched_text: y.matched_text.clone(),
                },
            )
        } else {
            None
        }
    }

    /// Starts a search: the results are cleared and the first is selected.
    /// Returns whether there is a query to search for.
    pub fn begin_search(&mut self) -> (run: bool)
        ensures
            final(self).query == old(self).query,
            final(self).results@.len() == 0,
            final(self).selected_index == 0,
            run == (old(self).query@.len() > 0),
    {
        self.results = Vec::new();
        self.selected_index = 0;
        chars_of(self.query.as_str()).len() > 0
    }

    /// The pattern searched for: the query matched literally, ignoring case
    /// (`(?i)` followed by the escaped query).
    pub fn search_pattern(&self) -> (r: String)
        ensures
            r@ == seq!['(', '?', 'i', ')'] + escaped(self.query@),
    {
        let prefix = "(?i)";
        proof {
            reveal_strlit("(?i)");
        }
        let esc = regex_escape(self.query.as_str());
        concat(prefix, esc.as_str())
    }

    /// Stores the results of a search.
    pub fn set_results(&mut self, results: Vec<TokenSearchResult>)
        ensures
            final(self).results == results,
            final(self).query == old(self).query,
            final(self).selected_index == old(self).selected_index,
    {
        self.results = results;
    }
}

} // verus!
