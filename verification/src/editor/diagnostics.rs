use vstd::prelude::*;
use std::collections::HashMap;
use vstd::std_specs::iter::IteratorSpec;
use crate::text::{text_of, concat, decimal, decimal_string, string_of, chars_of};

verus! {

/// Severity level of a diagnostic.
#[derive(Debug, Clone, Copy, PartialEq, Eq, Structural)]
pub enum DiagnosticSeverity {
    Error,
    Warning,
    Information,
    Hint,
}

/// Filter for the diagnostics panel.
#[derive(Debug, Clone, Copy, PartialEq, Eq, Structural)]
pub enum DiagnosticFilter {
    All,
    Errors,
    Warnings,
    Info,
}

impl Default for DiagnosticFilter {
    fn default() -> (r: Self)
        ensures
            r == DiagnosticFilter::All,
    {
        DiagnosticFilter::All
    }
}

/// A span of text on one line: columns `[start_column, end_column)`.
#[derive(Debug, Clone, Copy, PartialEq, Eq, Structural)]
pub struct TextSpan {
    pub line: usize,
    pub start_column: usize,
    pub end_column: usize,
}

impl TextSpan {
    pub fn new(line: usize, start_column: usize, end_column: usize) -> (s: Self)
        ensures
            s == (TextSpan { line, start_column, end_column }),
    {
        TextSpan { line, start_column, end_column }
    }

    /// Whether (`line`, `column`) lies in this span.
    pub fn contains(&self, line: usize, column: usize) -> (r: bool)
        ensures
            r == (line == self.line && self.start_column <= column < self.end_column),
    {
        line == self.line && column >= self.start_column && column < self.end_column
    }
}

/// A diagnostic message for the editor.
#[derive(Debug, Clone)]
pub struct Diagnostic {
    pub message: String,
    pub severity: DiagnosticSeverity,
    pub span: TextSpan,
    pub related_info: Option<String>,
    /// Additional context such as an error code, help text or suggested fixes.
    pub additional_info: Vec<String>,
    /// Source location (file path).
    pub file_path: String,
    /// Line number as the diagnostic reported it (counted from 1).
    pub original_line_number: usize,
}

/// The content of a [`Diagnostic`], its texts as character sequences.
pub struct DiagnosticModel {
    pub message: Seq<char>,
    pub severity: DiagnosticSeverity,
    pub span: TextSpan,
    pub related_info: Option<Seq<char>>,
    pub additional_info: Seq<Seq<char>>,
    pub file_path: Seq<char>,
    pub original_line_number: usize,
}

impl View for Diagnostic {
    type V = DiagnosticModel;

    open spec fn view(&self) -> DiagnosticModel {
        DiagnosticModel {
            message: self.message@,
            severity: self.severity,
            span: self.span,
            related_info: match self.related_info {
                Some(r) => Some(r@),
                None => None,
            },
            additional_info: text_of(self.additional_info@),
            file_path: self.file_path@,
            original_line_number: self.original_line_number,
        }
    }
}

/// The contents of the diagnostics of each line.
pub open spec fn models_by_line(m: Map<usize, Seq<Diagnostic>>) -> Map<usize, Seq<DiagnosticModel>> {
    m.map_values(|v: Seq<Diagnostic>| v.map_values(|d: Diagnostic| d@))
}

/// The name of a severity in a full message.
pub open spec fn severity_name(s: DiagnosticSeverity) -> Seq<char> {
    match s {
        DiagnosticSeverity::Error => seq!['e', 'r', 'r', 'o', 'r'],
        DiagnosticSeverity::Warning => seq!['w', 'a', 'r', 'n', 'i', 'n', 'g'],
        DiagnosticSeverity::Information => seq!['i', 'n', 'f', 'o'],
        DiagnosticSeverity::Hint => seq!['h', 'i', 'n', 't'],
    }
}

/// Each piece of `infos` as a line `"  = {info}\n"`, concatenated.
pub open spec fn info_lines(infos: Seq<Seq<char>>) -> Seq<char>
    decreases infos.len(),
{
    if infos.len() == 0 {
        Seq::empty()
    } else {
        info_lines(infos.drop_last()) + seq![' ', ' ', '=', ' '] + infos.last() + seq!['\n']
    }
}

/// `"{severity}: {message}\n"`.
pub open spec fn header_part(d: Diagnostic) -> Seq<char> {
    severity_name(d.severity) + seq![':', ' '] + d.message@ + seq!['\n']
}

/// `"  --> {path}:{line}:{column}\n"` when the file path is known (the
/// column counted from 1); nothing otherwise.
pub open spec fn location_part(d: Diagnostic) -> Seq<char> {
    if d.file_path@.len() > 0 {
        seq![' ', ' ', '-', '-', '>', ' '] + d.file_path@ + seq![':'] + decimal(
            d.original_line_number as nat,
        ) + seq![':'] + decimal((d.span.start_column + 1) as nat) + seq!['\n']
    } else {
        Seq::empty()
    }
}

/// `"  | {related}\n"` when there is related information; nothing otherwise.
pub open spec fn related_part(d: Diagnostic) -> Seq<char> {
    match d.related_info {
        Some(r) => seq![' ', ' ', '|', ' '] + r@ + seq!['\n'],
        None => Seq::empty(),
    }
}

/// The full text of a diagnostic: its header, location, related
/// information and a line `"  = {info}\n"` for each additional piece.
pub open spec fn full_message(d: Diagnostic) -> Seq<char> {
    header_part(d) + location_part(d) + related_part(d) + info_lines(text_of(d.additional_info@))
}

/// Appends the characters of `s` to `v`.
fn append_chars(v: &mut Vec<char>, s: &str)
    ensures
        final(v)@ == old(v)@ + s@,
{
    let w = chars_of(s);
    let mut i: usize = 0;
    while i < w.len()
        invariant
            i <= w@.len(),
            w@ == s@,
            v@ == old(v)@ + w@.take(i as int),
        decreases w.len() - i,
    {
        v.push(w[i]);
        i += 1;
        assert(v@ =~= old(v)@ + w@.take(i as int));
    }
    assert(w@.take(i as int) =~= s@);
}

impl Diagnostic {
    /// A diagnostic with no file path, related or additional information; its
    /// reported line number is the span's line counted from 1.
    pub fn new(message: &str, severity: DiagnosticSeverity, span: TextSpan) -> (d: Self)
        requires
            span.line < usize::MAX,
        ensures
            d.message@ == message@,
            d.severity == severity,
            d.span == span,
            d.related_info is None,
            d.additional_info@.len() == 0,
            d.file_path@.len() == 0,
            d.original_line_number == span.line + 1,
    {
        Diagnostic {
            message: message.to_owned(),
            severity,
            span,
            related_info: None,
            additional_info: Vec::new(),
            file_path: String::new(),
            original_line_number: span.line + 1,
        }
    }

    pub fn with_related_info(self, info: &str) -> (d: Self)
        ensures
            d.related_info matches Some(r) && r@ == info@,
            d.message == self.message,
            d.severity == self.severity,
            d.span == self.span,
            d.additional_info == self.additional_info,
            d.file_path == self.file_path,
            d.original_line_number == self.original_line_number,
    {
        let mut d = self;
        d.related_info = Some(info.to_owned());
        d
    }

    pub fn with_additional_info(self, info: &str) -> (d: Self)
        ensures
            text_of(d.additional_info@) == text_of(self.additional_info@).push(info@),
            d.message == self.message,
            d.severity == self.severity,
            d.span == self.span,
            d.related_info == self.related_info,
            d.file_path == self.file_path,
            d.original_line_number == self.original_line_number,
    {
        let mut d = self;
        let ghost before = d.additional_info@;
        d.additional_info.push(info.to_owned());
        assert(text_of(d.additional_info@) =~= text_of(before).push(info@));
        d
    }

    pub fn with_file_path(self, path: &str) -> (d: Self)
        ensures
            d.file_path@ == path@,
            d.message == self.message,
            d.severity == self.severity,
            d.span == self.span,
            d.related_info == self.related_info,
            d.additional_info == self.additional_info,
            d.original_line_number == self.original_line_number,
    {
        let mut d = self;
        d.file_path = path.to_owned();
        d
    }

    pub fn with_original_line(self, line: usize) -> (d: Self)
        ensures
            d.original_line_number == line,
            d.message == self.message,
            d.severity == self.severity,
            d.span == self.span,
            d.related_info == self.related_info,
            d.additional_info == self.additional_info,
            d.file_path == self.file_path,
    {
        let mut d = self;
        d.original_line_number = line;
        d
    }

    fn header_chars(&self) -> (r: Vec<char>)
        ensures
            r@ == header_part(*self),
    {
        let mut out = match self.severity {
            DiagnosticSeverity::Error => vec!['e', 'r', 'r', 'o', 'r'],
            DiagnosticSeverity::Warning => vec!['w', 'a', 'r', 'n', 'i', 'n', 'g'],
            DiagnosticSeverity::Information => vec!['i', 'n', 'f', 'o'],
            DiagnosticSeverity::Hint => vec!['h', 'i', 'n', 't'],
        };
        assert(out@ =~= severity_name(self.severity));
        out.push(':');
        out.push(' ');
        append_chars(&mut out, self.message.as_str());
        out.push('\n');
        assert(out@ =~= header_part(*self));
        out
    }

    fn location_chars(&self) -> (r: Vec<char>)
        requires
            self.file_path@.len() > 0 ==> self.span.start_column < usize::MAX,
        ensures
            r@ == location_part(*self),
    {
        let mut out: Vec<char> = Vec::new();
        if chars_of(self.file_path.as_str()).len() > 0 {
            out.push(' ');
            out.push(' ');
            out.push('-');
            out.push('-');
            out.push('>');
            out.push(' ');
            append_chars(&mut out, self.file_path.as_str());
            out.push(':');
            let line = decimal_string(self.original_line_number);
            append_chars(&mut out, line.as_str());
            out.push(':');
            let col = decimal_string(self.span.start_column + 1);
            append_chars(&mut out, col.as_str());
            out.push('\n');
        }
        assert(out@ =~= location_part(*self));
        out
    }

    fn related_chars(&self) -> (r: Vec<char>)
        ensures
            r@ == related_part(*self),
    {
        let mut out: Vec<char> = Vec::new();
        match &self.related_info {
            Some(related) => {
                out.push(' ');
                out.push(' ');
                out.push('|');
                out.push(' ');
                append_chars(&mut out, related.as_str());
                out.push('\n');
            },
            None => {},
        }
        assert(out@ =~= related_part(*self));
        out
    }

    fn info_chars(&self) -> (r: Vec<char>)
        ensures
            r@ == info_lines(text_of(self.additional_info@)),
    {
        let mut out: Vec<char> = Vec::new();
        let mut i: usize = 0;
        while i < self.additional_info.len()
            invariant
                i <= self.additional_info@.len(),
                out@ == info_lines(text_of(self.additional_info@).take(i as int)),
            decreases self.additional_info.len() - i,
        {
            out.push(' ');
            out.push(' ');
            out.push('=');
            out.push(' ');
            append_chars(&mut out, self.additional_info[i].as_str());
            out.push('\n');
            assert(text_of(self.additional_info@).take(i + 1).drop_last() =~= text_of(
                self.additional_info@,
            ).take(i as int));
            i += 1;
        }
        assert(text_of(self.additional_info@).take(i as int) =~= text_of(self.additional_info@));
        out
    }

    /// All the diagnostic's information as text (see [`full_message`]).
    pub fn format_full_message(&self) -> (r: String)
        requires
            self.file_path@.len() > 0 ==> self.span.start_column < usize::MAX,
        ensures
            r@ == full_message(*self),
    {
        let h = string_of(self.header_chars().as_slice());
        let l = string_of(self.location_chars().as_slice());
        let rel = string_of(self.related_chars().as_slice());
        let inf = string_of(self.info_chars().as_slice());
        let a = concat(h.as_str(), l.as_str());
        let b = concat(a.as_str(), rel.as_str());
        concat(b.as_str(), inf.as_str())
    }
}

/// The diagnostics of the lines `ks`, line after line, each line's in the
/// order they were added.
pub open spec fn diagnostics_in_order(m: Map<usize, Seq<Diagnostic>>, ks: Seq<usize>) -> Seq<
    Diagnostic,
>
    decreases ks.len(),
{
    if ks.len() == 0 {
        Seq::empty()
    } else {
        diagnostics_in_order(m, ks.drop_last()) + m[ks.last()]
    }
}

/// Whether `ks` lists each line of `m` exactly once.
pub open spec fn enumerates(m: Map<usize, Seq<Diagnostic>>, ks: Seq<usize>) -> bool {
    ks.no_duplicates() && ks.to_set() == m.dom()
}

/// Whether `d` passes `filter`.
pub open spec fn passes(filter: DiagnosticFilter, d: Diagnostic) -> bool {
    match filter {
        DiagnosticFilter::All => true,
        DiagnosticFilter::Errors => d.severity == DiagnosticSeverity::Error,
        DiagnosticFilter::Warnings => d.severity == DiagnosticSeverity::Warning,
        DiagnosticFilter::Info => d.severity == DiagnosticSeverity::Information,
    }
}

/// Whether `l` is the first line of `m` after `current`, or the first line
/// of `m` where none comes after `current`.
pub open spec fn next_line_of(m: Map<usize, Seq<Diagnostic>>, current: usize, l: usize) -> bool {
    &&& m.contains_key(l)
    &&& if exists|k: usize| m.contains_key(k) && k > current {
        l > current && forall|k: usize| m.contains_key(k) && k > current ==> l <= k
    } else {
        forall|k: usize| m.contains_key(k) ==> l <= k
    }
}

/// Whether `l` is the last line of `m` before `current`, or the last line
/// of `m` where none comes before `current`.
pub open spec fn prev_line_of(m: Map<usize, Seq<Diagnostic>>, current: usize, l: usize) -> bool {
    &&& m.contains_key(l)
    &&& if exists|k: usize| m.contains_key(k) && k < current {
        l < current && forall|k: usize| m.contains_key(k) && k < current ==> k <= l
    } else {
        forall|k: usize| m.contains_key(k) ==> k <= l
    }
}

/// Whether `d` is an error or a warning.
pub open spec fn is_problem(d: Diagnostic) -> bool {
    d.severity == DiagnosticSeverity::Error || d.severity == DiagnosticSeverity::Warning
}

/// Whether `m` holds an error or a warning.
pub open spec fn has_problems(m: Map<usize, Seq<Diagnostic>>) -> bool {
    exists|l: usize, i: int| m.contains_key(l) && 0 <= i < m[l].len() && is_problem(#[trigger] m[l][i])
}

/// Whether `s` is strictly increasing.
pub open spec fn strictly_increasing(s: Seq<usize>) -> bool {
    forall|i: int, j: int| 0 <= i < j < s.len() ==> s[i] < s[j]
}

/// The collection after `d` is added to the diagnostics of its line.
pub open spec fn with_added(m: Map<usize, Seq<Diagnostic>>, d: Diagnostic) -> Map<usize, Seq<Diagnostic>> {
    let line = d.span.line;
    m.insert(
        line,
        (if m.contains_key(line) {
            m[line]
        } else {
            Seq::empty()
        }).push(d),
    )
}

/// Swapping two entries keeps the set of elements and their distinctness.
proof fn lemma_swap(s: Seq<usize>, i: int, j: int)
    requires
        0 <= i < s.len(),
        0 <= j < s.len(),
        s.no_duplicates(),
    ensures
        s.update(i, s[j]).update(j, s[i]).to_set() == s.to_set(),
        s.update(i, s[j]).update(j, s[i]).no_duplicates(),
        s.update(i, s[j]).update(j, s[i]).len() == s.len(),
{
    let t = s.update(i, s[j]).update(j, s[i]);
    assert forall|e: usize| t.contains(e) <==> s.contains(e) by {
        if t.contains(e) {
            let k = choose|k: int| 0 <= k < t.len() && t[k] == e;
            if k == i { assert(s[j] == e); } else if k == j { assert(s[i] == e); } else { assert(s[k] == e); }
        }
        if s.contains(e) {
            let k = choose|k: int| 0 <= k < s.len() && s[k] == e;
            if k == i { assert(t[j] == e); } else if k == j { assert(t[i] == e); } else { assert(t[k] == e); }
        }
    }
    assert(t.to_set() =~= s.to_set());
}

/// Sorts `v` into increasing order (its elements being distinct).
fn sort_distinct(v: &mut Vec<usize>)
    requires
        old(v)@.no_duplicates(),
    ensures
        final(v)@.to_set() == old(v)@.to_set(),
        final(v)@.len() == old(v)@.len(),
        strictly_increasing(final(v)@),
{
    let n = v.len();
    if n == 0 {
        return;
    }
    let mut i: usize = 1;
    while i < n
        invariant
            1 <= i <= n,
            n == v@.len(),
            v@.to_set() == old(v)@.to_set(),
            v@.no_duplicates(),
            forall|a: int, b: int| 0 <= a < b < i ==> v@[a] < v@[b],
        decreases n - i,
    {
        let mut j = i;
        while j > 0 && v[j - 1] > v[j]
            invariant
                0 <= j <= i < n,
                n == v@.len(),
                v@.to_set() == old(v)@.to_set(),
                v@.no_duplicates(),
                forall|a: int, b: int| 0 <= a < b <= i && b != j ==> v@[a] < v@[b],
                forall|a: int, b: int| 0 <= a < j && j < b <= i ==> v@[a] < v@[b],
            decreases j,
        {
            let x = v[j - 1];
            let y = v[j];
            proof {
                lemma_swap(v@, j - 1, j as int);
            }
            v.set(j - 1, y);
            v.set(j, x);
            j -= 1;
        }
        proof {
            assert forall|a: int, b: int| 0 <= a < b <= i implies v@[a] < v@[b] by {
                if b == j && j > 0 {
                    assert(v@[j - 1] != v@[j as int]);
                    if a < j - 1 { }
                }
            }
        }
        i += 1;
    }
}

/// The diagnostics of a file, grouped by line.
#[derive(Debug)]
pub struct DiagnosticCollection {
    diagnostics_by_line: HashMap<usize, Vec<Diagnostic>>,
}

impl Default for DiagnosticCollection {
    fn default() -> (r: Self)
        ensures
            r.by_line() == Map::<usize, Seq<Diagnostic>>::empty(),
    {
        DiagnosticCollection::new()
    }
}

impl DiagnosticCollection {
    /// Each line listed holds at least one diagnostic.
    #[verifier::type_invariant]
    spec fn lines_hold_diagnostics(self) -> bool {
        forall|l: usize| #[trigger] self.diagnostics_by_line@.contains_key(l) ==> self.diagnostics_by_line@[l]@.len() > 0
    }

    /// The diagnostics of each line that has any, in the order they were added.
    pub closed spec fn by_line(&self) -> Map<usize, Seq<Diagnostic>> {
        self.diagnostics_by_line@.map_values(|v: Vec<Diagnostic>| v@)
    }

    pub fn new() -> (r: Self)
        ensures
            r.by_line() == Map::<usize, Seq<Diagnostic>>::empty(),
    {
        let r = DiagnosticCollection { diagnostics_by_line: HashMap::new() };
        assert(r.by_line() =~= Map::<usize, Seq<Diagnostic>>::empty());
        r
    }

    /// Adds `diagnostic` after the others of its line.
    pub fn add_diagnostic(&mut self, diagnostic: Diagnostic)
        ensures
            final(self).by_line() == with_added(old(self).by_line(), diagnostic),
    {
        let line = diagnostic.span.line;
        let ghost m = self.by_line();
        proof {
            use_type_invariant(&*self);
        }
        let mut map: HashMap<usize, Vec<Diagnostic>> = HashMap::new();
        std::mem::swap(&mut map, &mut self.diagnostics_by_line);
        match map.remove(&line) {
            Some(mut v) => {
                v.push(diagnostic);
                map.insert(line, v);
            },
            None => {
                let mut v: Vec<Diagnostic> = Vec::new();
                v.push(diagnostic);
                map.insert(line, v);
            },
        }
        self.diagnostics_by_line = map;
        assert(self.by_line() =~= with_added(m, diagnostic));
    }

    /// Removes every diagnostic.
    pub fn clear(&mut self)
        ensures
            final(self).by_line() == Map::<usize, Seq<Diagnostic>>::empty(),
    {
        self.diagnostics_by_line = HashMap::new();
        assert(self.by_line() =~= Map::<usize, Seq<Diagnostic>>::empty());
    }

    /// The diagnostics of `line`, if it has any.
    pub fn get_diagnostics_for_line(&self, line: usize) -> (r: Option<&Vec<Diagnostic>>)
        ensures
            match r {
                Some(v) => self.by_line().contains_key(line) && v@ == self.by_line()[line] && v@.len() > 0,
                None => !self.by_line().contains_key(line),
            },
    {
        proof {
            use_type_invariant(self);
        }
        self.diagnostics_by_line.get(&line)
    }

    /// The lines that have diagnostics, in the order the map yields them.
    fn line_keys(&self) -> (r: Vec<usize>)
        ensures
            enumerates(self.by_line(), r@),
    {
        let mut r: Vec<usize> = Vec::new();
        let ghost keys = vstd::std_specs::hash::spec_keys_iter(&self.diagnostics_by_line).remaining();
        proof {
            vstd::std_specs::hash::axiom_spec_keys_iter(&self.diagnostics_by_line);
        }
        for k in it: self.diagnostics_by_line.keys()
            invariant
                it.seq() == keys,
                keys.unref().to_set() == self.diagnostics_by_line@.dom(),
                keys.no_duplicates(),
                r@ == keys.unref().take(it.index() as int),
        {
            r.push(*k);
            assert(r@ =~= keys.unref().take(it.index() + 1));
        }
        assert(r@ =~= keys.unref());
        proof {
            assert(r@.no_duplicates()) by {
                assert forall|i: int, j: int| 0 <= i < j < r@.len() implies r@[i] != r@[j] by {
                    assert(keys[i] != keys[j]);
                }
            }
            assert(self.by_line().dom() =~= self.diagnostics_by_line@.dom());
        }
        r
    }

    /// All diagnostics, line after line in an order that the map decides,
    /// each line's in the order they were added.
    pub fn get_all_diagnostics(&self) -> (r: Vec<&Diagnostic>)
        ensures
            exists|ks: Seq<usize>|
                enumerates(self.by_line(), ks) && r@.map_values(|d: &Diagnostic| *d)
                    == diagnostics_in_order(self.by_line(), ks),
    {
        let keys = self.line_keys();
        let mut r: Vec<&Diagnostic> = Vec::new();
        let mut i: usize = 0;
        while i < keys.len()
            invariant
                i <= keys@.len(),
                enumerates(self.by_line(), keys@),
                r@.map_values(|d: &Diagnostic| *d) == diagnostics_in_order(
                    self.by_line(),
                    keys@.take(i as int),
                ),
            decreases keys.len() - i,
        {
            let line = keys[i];
            assert(keys@.to_set().contains(line));
            let v = self.diagnostics_by_line.get(&line).unwrap();
            let ghost base = r@.map_values(|d: &Diagnostic| *d);
            let mut j: usize = 0;
            while j < v.len()
                invariant
                    j <= v@.len(),
                    r@.map_values(|d: &Diagnostic| *d) == base + v@.take(j as int),
                decreases v.len() - j,
            {
                let ghost prev = r@;
                r.push(&v[j]);
                assert(r@.map_values(|d: &Diagnostic| *d) =~= prev.map_values(|d: &Diagnostic| *d).push(
                    v@[j as int],
                ));
                j += 1;
                assert(r@.map_values(|d: &Diagnostic| *d) =~= base + v@.take(j as int));
            }
            assert(keys@.take(i + 1).drop_last() =~= keys@.take(i as int));
            assert(v@.take(j as int) =~= v@);
            assert(v@ == self.by_line()[line]);
            i += 1;
        }
        assert(keys@.take(i as int) =~= keys@);
        r
    }

    /// The diagnostics that pass `filter`, in the order of [`Self::get_all_diagnostics`].
    pub fn get_filtered_diagnostics(&self, filter: &DiagnosticFilter) -> (r: Vec<&Diagnostic>)
        ensures
            exists|ks: Seq<usize>|
                enumerates(self.by_line(), ks) && r@.map_values(|d: &Diagnostic| *d)
                    == diagnostics_in_order(self.by_line(), ks).filter(|d: Diagnostic| passes(*filter, d)),
    {
        let all = self.get_all_diagnostics();
        let ghost ks = choose|ks: Seq<usize>|
            enumerates(self.by_line(), ks) && all@.map_values(|d: &Diagnostic| *d)
                == diagnostics_in_order(self.by_line(), ks);
        let ghost src = all@.map_values(|d: &Diagnostic| *d);
        let mut r: Vec<&Diagnostic> = Vec::new();
        let mut i: usize = 0;
        while i < all.len()
            invariant
                i <= all@.len(),
                src == all@.map_values(|d: &Diagnostic| *d),
                r@.map_values(|d: &Diagnostic| *d) == src.take(i as int).filter(
                    |d: Diagnostic| passes(*filter, d),
                ),
            decreases all.len() - i,
        {
            let d = all[i];
            let keep = match filter {
                DiagnosticFilter::All => true,
                DiagnosticFilter::Errors => d.severity == DiagnosticSeverity::Error,
                DiagnosticFilter::Warnings => d.severity == DiagnosticSeverity::Warning,
                DiagnosticFilter::Info => d.severity == DiagnosticSeverity::Information,
            };
            assert(src.take(i + 1).drop_last() =~= src.take(i as int));
            assert(src[i as int] == *d);
            let ghost prev = r@;
            if keep {
                r.push(d);
                assert(r@.map_values(|d: &Diagnostic| *d) =~= prev.map_values(|d: &Diagnostic| *d).push(*d));
            }
            proof {
                reveal_with_fuel(Seq::<Diagnostic>::filter, 1);
            }
            assert(r@.map_values(|d: &Diagnostic| *d) =~= src.take(i + 1).filter(
                |d: Diagnostic| passes(*filter, d),
            ));
            i += 1;
        }
        assert(src.take(i as int) =~= src);
        r
    }

    /// Number of errors.
    pub fn error_count(&self) -> (n: usize)
        ensures
            exists|ks: Seq<usize>|
                enumerates(self.by_line(), ks) && n == diagnostics_in_order(self.by_line(), ks).filter(
                    |d: Diagnostic| passes(DiagnosticFilter::Errors, d),
                ).len(),
    {
        let errors = self.get_filtered_diagnostics(&DiagnosticFilter::Errors);
        proof {
            let ks = choose|ks: Seq<usize>|
                enumerates(self.by_line(), ks) && errors@.map_values(|d: &Diagnostic| *d)
                    == diagnostics_in_order(self.by_line(), ks).filter(
                    |d: Diagnostic| passes(DiagnosticFilter::Errors, d),
                );
        }
        errors.len()
    }

    /// Number of warnings.
    pub fn warning_count(&self) -> (n: usize)
        ensures
            exists|ks: Seq<usize>|
                enumerates(self.by_line(), ks) && n == diagnostics_in_order(self.by_line(), ks).filter(
                    |d: Diagnostic| passes(DiagnosticFilter::Warnings, d),
                ).len(),
    {
        let warnings = self.get_filtered_diagnostics(&DiagnosticFilter::Warnings);
        proof {
            let ks = choose|ks: Seq<usize>|
                enumerates(self.by_line(), ks) && warnings@.map_values(|d: &Diagnostic| *d)
                    == diagnostics_in_order(self.by_line(), ks).filter(
                    |d: Diagnostic| passes(DiagnosticFilter::Warnings, d),
                );
        }
        warnings.len()
    }

    /// Whether the collection holds an error or a warning.
    pub fn has_problems(&self) -> (r: bool)
        ensures
            r == has_problems(self.by_line()),
    {
        let keys = self.line_keys();
        let mut i: usize = 0;
        while i < keys.len()
            invariant
                i <= keys@.len(),
                enumerates(self.by_line(), keys@),
                forall|k: int, j: int|
                    0 <= k < i && 0 <= j < self.by_line()[keys@[k]].len() ==> !is_problem(
                        #[trigger] self.by_line()[keys@[k]][j],
                    ),
            decreases keys.len() - i,
        {
            let line = keys[i];
            assert(keys@.to_set().contains(line));
            let v = self.diagnostics_by_line.get(&line).unwrap();
            assert(v@ == self.by_line()[line]);
            let mut j: usize = 0;
            while j < v.len()
                invariant
                    j <= v@.len(),
                    v@ == self.by_line()[line],
                    self.by_line().contains_key(line),
                    forall|q: int| 0 <= q < j ==> !is_problem(#[trigger] v@[q]),
                decreases v.len() - j,
            {
                if v[j].severity == DiagnosticSeverity::Error || v[j].severity == DiagnosticSeverity::Warning {
                    assert(is_problem(self.by_line()[line][j as int]));
                    return true;
                }
                j += 1;
            }
            i += 1;
        }
        proof {
            assert forall|l: usize, q: int| self.by_line().contains_key(l) && 0 <= q < self.by_line()[l].len()
                implies !is_problem(#[trigger] self.by_line()[l][q]) by {
                assert(keys@.to_set().contains(l));
                let k = choose|k: int| 0 <= k < keys@.len() && keys@[k] == l;
                assert(!is_problem(self.by_line()[keys@[k]][q]));
            }
        }
        false
    }

    /// The lines that have diagnostics, in increasing order.
    pub fn get_diagnostic_line_numbers(&self) -> (r: Vec<usize>)
        ensures
            r@.to_set() == self.by_line().dom(),
            strictly_increasing(r@),
            self.by_line().dom().finite(),
            forall|k: int| 0 <= k < r@.len() ==> self.by_line()[#[trigger] r@[k]].len() > 0,
    {
        proof {
            use_type_invariant(self);
            self.lemma_dom_finite();
        }
        let mut lines = self.line_keys();
        sort_distinct(&mut lines);
        lines
    }

    /// The first line with diagnostics after `current_line`, or else the
    /// first line with diagnostics; none when there are none.
    pub fn next_diagnostic_line(&self, current_line: usize) -> (r: Option<usize>)
        ensures
            self.by_line().dom().finite(),
            r is None <==> self.by_line().dom() == Set::<usize>::empty(),
            self.by_line().dom().len() == 0 ==> r is None,
            self.by_line().dom().len() > 0 ==> (r matches Some(l) && next_line_of(self.by_line(), current_line, l)),
    {
        let lines = self.get_diagnostic_line_numbers();
        proof {
            self.lemma_dom_finite();
            if lines@.len() == 0 {
                assert(self.by_line().dom() =~= Set::<usize>::empty());
            } else {
                assert(self.by_line().dom().contains(lines@[0]));
            }
        }
        if lines.len() == 0 {
            return None;
        }
        let mut i: usize = 0;
        while i < lines.len()
            invariant
                i <= lines@.len(),
                lines@.to_set() == self.by_line().dom(),
                strictly_increasing(lines@),
                forall|k: int| 0 <= k < i ==> lines@[k] <= current_line,
            decreases lines.len() - i,
        {
            if lines[i] > current_line {
                let l = lines[i];
                proof {
                    assert(lines@.to_set().contains(l));
                    assert forall|k: usize| self.by_line().contains_key(k) && k > current_line implies l <= k by {
                        assert(lines@.to_set().contains(k));
                        let p = choose|p: int| 0 <= p < lines@.len() && lines@[p] == k;
                        if p < i { } else if p > i { }
                    }
                }
                return Some(l);
            }
            i += 1;
        }
        proof {
            assert(lines@.to_set().contains(lines@[0]));
            assert forall|k: usize| self.by_line().contains_key(k) implies lines@[0] <= k by {
                assert(lines@.to_set().contains(k));
                let p = choose|p: int| 0 <= p < lines@.len() && lines@[p] == k;
                if p > 0 { }
            }
            assert forall|k: usize| !(self.by_line().contains_key(k) && k > current_line) by {
                if self.by_line().contains_key(k) {
                    assert(lines@.to_set().contains(k));
                }
            }
        }
        Some(lines[0])
    }

    /// The last line with diagnostics before `current_line`, or else the
    /// last line with diagnostics; none when there are none.
    pub fn prev_diagnostic_line(&self, current_line: usize) -> (r: Option<usize>)
        ensures
            self.by_line().dom().finite(),
            r is None <==> self.by_line().dom() == Set::<usize>::empty(),
            self.by_line().dom().len() == 0 ==> r is None,
            self.by_line().dom().len() > 0 ==> (r matches Some(l) && prev_line_of(self.by_line(), current_line, l)),
    {
        let lines = self.get_diagnostic_line_numbers();
        proof {
            self.lemma_dom_finite();
            if lines@.len() == 0 {
                assert(self.by_line().dom() =~= Set::<usize>::empty());
            } else {
                assert(self.by_line().dom().contains(lines@[0]));
            }
        }
        if lines.len() == 0 {
            return None;
        }
        let n = lines.len();
        let mut i: usize = n;
        while i > 0
            invariant
                i <= n,
                n == lines@.len(),
                lines@.to_set() == self.by_line().dom(),
                strictly_increasing(lines@),
                forall|k: int| i <= k < n ==> lines@[k] >= current_line,
            decreases i,
        {
            if lines[i - 1] < current_line {
                let l = lines[i - 1];
                proof {
                    assert(lines@.to_set().contains(l));
                    assert forall|k: usize| self.by_line().contains_key(k) && k < current_line implies k <= l by {
                        assert(lines@.to_set().contains(k));
                        let p = choose|p: int| 0 <= p < lines@.len() && lines@[p] == k;
                        if p < i - 1 { } else if p > i - 1 { }
                    }
                }
                return Some(l);
            }
            i -= 1;
        }
        proof {
            assert(lines@.to_set().contains(lines@[n - 1]));
            assert forall|k: usize| self.by_line().contains_key(k) implies k <= lines@[n - 1] by {
                assert(lines@.to_set().contains(k));
                let p = choose|p: int| 0 <= p < lines@.len() && lines@[p] == k;
                if p < n - 1 { }
            }
            assert forall|k: usize| !(self.by_line().contains_key(k) && k < current_line) by {
                if self.by_line().contains_key(k) {
                    assert(lines@.to_set().contains(k));
                }
            }
        }
        Some(lines[n - 1])
    }

    proof fn lemma_dom_finite(&self)
        ensures
            self.by_line().dom().finite(),
    {
        assert(self.by_line().dom() =~= self.diagnostics_by_line@.dom());
    }
}

} // verus!
