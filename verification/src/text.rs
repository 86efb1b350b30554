//! Text as sequences of characters: the conversions between `String` and
//! `Vec<char>`, and the character-level operations the editor builds on.
//! Positions within a line count characters.

use vstd::prelude::*;

verus! {

/// The characters of `s`, in order.
pub fn chars_of(s: &str) -> (res: Vec<char>)
    ensures
        res@ == s@,
{
    let mut res: Vec<char> = Vec::new();
    for c in it: s.chars()
        invariant
            res@ == it.seq().take(it.index() as int),
    {
        res.push(c);
    }
    res
}

/// Appends `c` to `s` (`String::push`).
#[verifier::external_body]
fn push_char(s: &mut String, c: char)
    ensures
        final(s)@ == old(s)@.push(c),
{
    s.push(c)
}

/// The string made of the characters of `v`, in order.
pub fn string_of(v: &[char]) -> (res: String)
    ensures
        res@ == v@,
{
    let mut res = String::new();
    let mut i: usize = 0;
    while i < v.len()
        invariant
            i <= v@.len(),
            res@ == v@.subrange(0, i as int),
        decreases v.len() - i,
    {
        push_char(&mut res, v[i]);
        i += 1;
    }
    res
}

/// Number of characters in `s`.
pub fn char_len(s: &str) -> (n: usize)
    ensures
        n == s@.len(),
{
    let v = chars_of(s);
    v.len()
}

/// `s` with `c` inserted at character position `i`.
pub fn insert_char(s: &String, i: usize, c: char) -> (res: String)
    requires
        i <= s@.len(),
    ensures
        res@ == s@.insert(i as int, c),
{
    let mut v = chars_of(s.as_str());
    v.insert(i, c);
    string_of(v.as_slice())
}

/// The characters of `s` in `[from, to)`.
pub fn substring(s: &str, from: usize, to: usize) -> (res: String)
    requires
        from <= to <= s@.len(),
    ensures
        res@ == s@.subrange(from as int, to as int),
{
    let v = chars_of(s);
    let mut out: Vec<char> = Vec::new();
    let mut i = from;
    while i < to
        invariant
            from <= i <= to,
            to <= v@.len(),
            v@ == s@,
            out@ == s@.subrange(from as int, i as int),
        decreases to - i,
    {
        out.push(v[i]);
        i += 1;
    }
    string_of(out.as_slice())
}

/// Concatenation of two strings.
pub fn concat(a: &str, b: &str) -> (res: String)
    ensures
        res@ == a@ + b@,
{
    let mut v = chars_of(a);
    let w = chars_of(b);
    let mut i: usize = 0;
    while i < w.len()
        invariant
            i <= w@.len(),
            w@ == b@,
            v@ == a@ + b@.subrange(0, i as int),
        decreases w.len() - i,
    {
        v.push(w[i]);
        i += 1;
    }
    string_of(v.as_slice())
}

} // verus!

verus! {

/// An equal copy of a list of strings.
pub fn copy_strings(v: &Vec<String>) -> (r: Vec<String>)
    ensures
        r@ == v@,
{
    let mut r: Vec<String> = Vec::new();
    let mut i: usize = 0;
    while i < v.len()
        invariant
            i <= v@.len(),
            r@ == v@.subrange(0, i as int),
        decreases v.len() - i,
    {
        r.push(v[i].clone());
        i += 1;
    }
    r
}

} // verus!

verus! {

/// The character sequences of a list of strings.
pub open spec fn text_of(v: Seq<String>) -> Seq<Seq<char>> {
    v.map_values(|s: String| s@)
}

} // verus!

verus! {

/// `n` space characters.
pub open spec fn spaces(n: nat) -> Seq<char> {
    Seq::new(n, |i: int| ' ')
}

/// `s` without the character at position `i`.
pub fn remove_char(s: &String, i: usize) -> (res: String)
    requires
        i < s@.len(),
    ensures
        res@ == s@.remove(i as int),
{
    let mut v = chars_of(s.as_str());
    v.remove(i);
    string_of(v.as_slice())
}

/// The character at position `i` of `s`.
pub fn char_at(s: &str, i: usize) -> (c: char)
    requires
        i < s@.len(),
    ensures
        c == s@[i as int],
{
    let v = chars_of(s);
    v[i]
}

/// `s` with `c` appended.
pub fn push_char_to(s: &String, c: char) -> (res: String)
    ensures
        res@ == s@.push(c),
{
    let mut v = chars_of(s.as_str());
    v.push(c);
    string_of(v.as_slice())
}

/// `s` followed by `n` spaces and then `c`.
pub fn pad_and_push(s: &String, n: usize, c: char) -> (res: String)
    ensures
        res@ == s@ + spaces(n as nat) + seq![c],
{
    let mut v = chars_of(s.as_str());
    let ghost base = v@;
    let mut k: usize = 0;
    while k < n
        invariant
            k <= n,
            v@ == base + spaces(k as nat),
        decreases n - k,
    {
        v.push(' ');
        k += 1;
        assert(v@ =~= base + spaces(k as nat));
    }
    v.push(c);
    assert(v@ =~= base + spaces(n as nat) + seq![c]);
    string_of(v.as_slice())
}

/// Whether two strings hold the same characters.
pub fn same_text(a: &str, b: &str) -> (r: bool)
    ensures
        r == (a@ == b@),
{
    let v = chars_of(a);
    let w = chars_of(b);
    if v.len() != w.len() {
        assert(a@.len() != b@.len());
        return false;
    }
    let mut i: usize = 0;
    while i < v.len()
        invariant
            i <= v@.len(),
            v@.len() == w@.len(),
            v@ == a@,
            w@ == b@,
            forall|k: int| 0 <= k < i ==> v@[k] == w@[k],
        decreases v.len() - i,
    {
        if v[i] != w[i] {
            return false;
        }
        i += 1;
    }
    assert(a@ =~= b@);
    true
}

} // verus!

verus! {

/// Whether `c` has the Unicode White_Space property, as `char::is_whitespace`
/// decides: tab, line feed, vertical tab, form feed, carriage return, space,
/// next line, no-break space, ogham space mark, the spaces from en quad to
/// hair space, line and paragraph separators, narrow no-break space, medium
/// mathematical space and ideographic space.
pub open spec fn spec_is_whitespace(c: char) -> bool {
    let n = c as int;
    ||| 9 <= n <= 13
    ||| n == 32
    ||| n == 0x85
    ||| n == 0xA0
    ||| n == 0x1680
    ||| 0x2000 <= n <= 0x200A
    ||| n == 0x2028
    ||| n == 0x2029
    ||| n == 0x202F
    ||| n == 0x205F
    ||| n == 0x3000
}

/// Whether `c` is alphabetic or numeric, as `char::is_alphanumeric` decides.
pub uninterp spec fn spec_is_alphanumeric(c: char) -> bool;

/// Whether `c` has the Unicode White_Space property (see [`spec_is_whitespace`]).
pub(crate) fn is_whitespace(c: char) -> (r: bool)
    ensures
        r == spec_is_whitespace(c),
{
    let n = c as u32;
    (9 <= n && n <= 13) || n == 32 || n == 0x85 || n == 0xA0 || n == 0x1680 || (0x2000 <= n && n <= 0x200A)
        || n == 0x2028 || n == 0x2029 || n == 0x202F || n == 0x205F || n == 0x3000
}

/// `char::is_alphanumeric`: whether `c` is alphabetic or numeric in Unicode.
/// The contract names the result; the property tables are not restated.
#[verifier::external_body]
pub(crate) fn is_alphanumeric(c: char) -> (r: bool)
    ensures
        r == spec_is_alphanumeric(c),
{
    c.is_alphanumeric()
}

} // verus!

verus! {

/// The decimal digits of `n`, most significant first (`"0"` for zero).
pub open spec fn decimal(n: nat) -> Seq<char>
    decreases n,
{
    if n < 10 {
        seq![digit_char(n)]
    } else {
        decimal(n / 10).push(digit_char(n % 10))
    }
}

/// The character of digit `d` (0 to 9).
pub open spec fn digit_char(d: nat) -> char {
    if d == 0 { '0' } else if d == 1 { '1' } else if d == 2 { '2' } else if d == 3 { '3' }
    else if d == 4 { '4' } else if d == 5 { '5' } else if d == 6 { '6' } else if d == 7 { '7' }
    else if d == 8 { '8' } else { '9' }
}

fn digit_of(d: usize) -> (c: char)
    requires
        d < 10,
    ensures
        c == digit_char(d as nat),
{
    if d == 0 { '0' } else if d == 1 { '1' } else if d == 2 { '2' } else if d == 3 { '3' }
    else if d == 4 { '4' } else if d == 5 { '5' } else if d == 6 { '6' } else if d == 7 { '7' }
    else if d == 8 { '8' } else { '9' }
}

fn wide_digit_of(d: u128) -> (c: char)
    requires
        d < 10,
    ensures
        c == digit_char(d as nat),
{
    if d == 0 { '0' } else if d == 1 { '1' } else if d == 2 { '2' } else if d == 3 { '3' }
    else if d == 4 { '4' } else if d == 5 { '5' } else if d == 6 { '6' } else if d == 7 { '7' }
    else if d == 8 { '8' } else { '9' }
}

/// `n` written in decimal, for numbers wider than `usize`.
pub fn decimal_string_wide(n: u128) -> (s: String)
    ensures
        s@ == decimal(n as nat),
    decreases n,
{
    if n < 10 {
        let v: Vec<char> = vec![wide_digit_of(n)];
        let s = string_of(v.as_slice());
        assert(s@ =~= decimal(n as nat));
        s
    } else {
        let head = decimal_string_wide(n / 10);
        push_char_to(&head, wide_digit_of(n % 10))
    }
}

/// `n` written in decimal.
pub fn decimal_string(n: usize) -> (s: String)
    ensures
        s@ == decimal(n as nat),
    decreases n,
{
    if n < 10 {
        let v: Vec<char> = vec![digit_of(n)];
        let s = string_of(v.as_slice());
        assert(s@ =~= decimal(n as nat));
        s
    } else {
        let head = decimal_string(n / 10);
        push_char_to(&head, digit_of(n % 10))
    }
}

} // verus!

verus! {

/// The first position at or after `k` where `needle` occurs in `hay`.
pub open spec fn find_from(hay: Seq<char>, needle: Seq<char>, k: int) -> Option<int>
    decreases hay.len() - k,
{
    if k < 0 || k + needle.len() > hay.len() {
        None
    } else if hay.subrange(k, k + needle.len()) == needle {
        Some(k)
    } else if needle.len() == 0 {
        None
    } else {
        find_from(hay, needle, k + 1)
    }
}

/// The first position where `needle` occurs in `hay` (`str::find`).
pub open spec fn find(hay: Seq<char>, needle: Seq<char>) -> Option<int> {
    find_from(hay, needle, 0)
}

/// Whether `needle` occurs in `hay` (`str::contains`).
pub open spec fn contains_text(hay: Seq<char>, needle: Seq<char>) -> bool {
    find(hay, needle) is Some
}

/// A position found lies within `hay`, with no earlier occurrence from `k` on.
pub proof fn lemma_find_from(hay: Seq<char>, needle: Seq<char>, k: int)
    ensures
        find_from(hay, needle, k) matches Some(p) ==> {
            &&& k <= p
            &&& 0 <= p
            &&& p + needle.len() <= hay.len()
            &&& hay.subrange(p, p + needle.len()) == needle
            &&& forall|q: int| k <= q < p ==> #[trigger] hay.subrange(q, q + needle.len()) != needle
        },
    decreases hay.len() - k,
{
    if !(k < 0 || k + needle.len() > hay.len()) && hay.subrange(k, k + needle.len()) != needle
        && needle.len() != 0 {
        lemma_find_from(hay, needle, k + 1);
    }
}

/// `s` without the whitespace at its start (`str::trim_start`).
pub open spec fn trim_start(s: Seq<char>) -> Seq<char>
    decreases s.len(),
{
    if s.len() > 0 && spec_is_whitespace(s[0]) {
        trim_start(s.drop_first())
    } else {
        s
    }
}

/// `s` without the whitespace at its end (`str::trim_end`).
pub open spec fn trim_end(s: Seq<char>) -> Seq<char>
    decreases s.len(),
{
    if s.len() > 0 && spec_is_whitespace(s.last()) {
        trim_end(s.drop_last())
    } else {
        s
    }
}

/// `s` without the whitespace at either end (`str::trim`).
pub open spec fn trim(s: Seq<char>) -> Seq<char> {
    trim_end(trim_start(s))
}

/// The pieces of `s` between the occurrences of `sep` (`str::split`).
pub open spec fn split_text(s: Seq<char>, sep: Seq<char>) -> Seq<Seq<char>>
    decreases s.len(),
{
    if sep.len() == 0 {
        seq![s]
    } else {
        match find(s, sep) {
            Some(k) => {
                proof {
                    lemma_find_from(s, sep, 0);
                }
                seq![s.subrange(0, k)] + split_text(s.subrange(k + sep.len(), s.len() as int), sep)
            },
            None => seq![s],
        }
    }
}

/// The first position of `needle` in `hay` (see [`find`]).
pub fn find_text(hay: &str, needle: &str) -> (r: Option<usize>)
    ensures
        match r {
            Some(p) => find(hay@, needle@) == Some(p as int),
            None => find(hay@, needle@) is None,
        },
{
    let v = chars_of(hay);
    let w = chars_of(needle);
    if w.len() > v.len() {
        return None;
    }
    let mut k: usize = 0;
    let last = v.len() - w.len();
    while k <= last
        invariant
            last + w@.len() == v@.len(),
            v@ == hay@,
            w@ == needle@,
            w@.len() <= v@.len(),
            v@.len() == v.len(),
            k <= v@.len(),
            find(hay@, needle@) == find_from(hay@, needle@, k as int),
        decreases v.len() - k,
    {
        let mut m: usize = 0;
        while m < w.len() && v[k + m] == w[m]
            invariant
                k + w@.len() <= v@.len(),
                v@.len() == v.len(),
                m <= w@.len(),
                forall|q: int| 0 <= q < m ==> v@[k + q] == w@[q],
            decreases w.len() - m,
        {
            m += 1;
        }
        if m == w.len() {
            assert(hay@.subrange(k as int, k + needle@.len()) =~= needle@);
            return Some(k);
        }
        assert(hay@.subrange(k as int, k + needle@.len())[m as int] != needle@[m as int]);
        if w.len() == 0 {
            return None;
        }
        k += 1;
    }
    None
}

/// Whether `needle` occurs in `hay`.
pub fn contains_str(hay: &str, needle: &str) -> (r: bool)
    ensures
        r == contains_text(hay@, needle@),
{
    find_text(hay, needle).is_some()
}

/// `s` without leading whitespace.
pub fn trim_start_string(s: &str) -> (r: String)
    ensures
        r@ == trim_start(s@),
{
    let v = chars_of(s);
    let mut i: usize = 0;
    assert(s@.skip(0) =~= s@);
    while i < v.len() && is_whitespace(v[i])
        invariant
            i <= v@.len(),
            v@ == s@,
            trim_start(s@) == trim_start(s@.skip(i as int)),
        decreases v.len() - i,
    {
        assert(s@.skip(i as int).drop_first() =~= s@.skip(i + 1));
        i += 1;
    }
    assert(s@.skip(i as int) =~= s@.subrange(i as int, s@.len() as int));
    substring(s, i, v.len())
}

/// `s` without trailing whitespace.
pub fn trim_end_string(s: &str) -> (r: String)
    ensures
        r@ == trim_end(s@),
{
    let v = chars_of(s);
    let mut n: usize = v.len();
    assert(s@.take(n as int) =~= s@);
    while n > 0 && is_whitespace(v[n - 1])
        invariant
            n <= v@.len(),
            v@ == s@,
            trim_end(s@) == trim_end(s@.take(n as int)),
        decreases n,
    {
        assert(s@.take(n as int).drop_last() =~= s@.take(n - 1));
        n -= 1;
    }
    assert(s@.take(n as int) =~= s@.subrange(0, n as int));
    substring(s, 0, n)
}

/// `s` without whitespace at either end.
pub fn trim_string(s: &str) -> (r: String)
    ensures
        r@ == trim(s@),
{
    let a = trim_start_string(s);
    trim_end_string(a.as_str())
}

/// The pieces of `s` between the occurrences of `sep`.
pub fn split_string(s: &str, sep: &str) -> (r: Vec<String>)
    requires
        sep@.len() > 0,
    ensures
        text_of(r@) == split_text(s@, sep@),
    decreases s@.len(),
{
    match find_text(s, sep) {
        Some(k) => {
            proof {
                lemma_find_from(s@, sep@, 0);
            }
            let n = char_len(s);
            let m = char_len(sep);
            let head = substring(s, 0, k);
            let tail = substring(s, k + m, n);
            let rest = split_string(tail.as_str(), sep);
            let mut r: Vec<String> = Vec::new();
            r.push(head);
            let mut i: usize = 0;
            let ghost first = r@;
            while i < rest.len()
                invariant
                    i <= rest@.len(),
                    r@ == first + rest@.take(i as int),
                decreases rest.len() - i,
            {
                r.push(rest[i].clone());
                assert(r@ =~= first + rest@.take(i + 1));
                i += 1;
            }
            assert(rest@.take(i as int) =~= rest@);
            assert(text_of(r@) =~= seq![head@] + text_of(rest@));
            r
        },
        None => {
            let r: Vec<String> = vec![s.to_owned()];
            assert(text_of(r@) =~= seq![s@]);
            r
        },
    }
}

} // verus!
