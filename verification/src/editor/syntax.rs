//! Syntax highlighting with syntect's default syntax definitions and colour
//! themes: choosing the syntax of a file, choosing the theme, and splitting
//! lines into styled pieces. Syntaxes and themes are referred to by name.

use vstd::prelude::*;
use syntect::easy::HighlightLines;
use syntect::highlighting::{FontStyle, Style, ThemeSet};
use syntect::highlighting::Theme as ColourTheme;
use syntect::parsing::{SyntaxReference, SyntaxSet};
use crate::text::{chars_of, same_text};

verus! {

#[verifier::external_type_specification]
#[verifier::external_body]
pub struct ExSyntaxSet(SyntaxSet);

/// What `Path::new(p).extension()` gives, as text.
pub uninterp spec fn path_extension(p: Seq<char>) -> Option<Seq<char>>;

/// What `Path::new(p).file_name()` gives, as text.
pub uninterp spec fn path_file_name(p: Seq<char>) -> Option<Seq<char>>;

/// Each syntax of the syntax set `set`, in the set's order (`SyntaxSet::syntaxes`):
/// its name with its file extensions.
pub uninterp spec fn syntax_entries(set: SyntaxSet) -> Seq<(Seq<char>, Seq<Seq<char>>)>;

/// Whether `set` has a syntax named `name`.
pub open spec fn has_syntax_named(set: SyntaxSet, name: Seq<char>) -> bool {
    exists|k: int| 0 <= k < syntax_entries(set).len() && (#[trigger] syntax_entries(set)[k]).0 == name
}

/// `SyntaxSet::load_defaults_newlines`: syntect's default syntax definitions.
#[verifier::external_body]
fn default_syntaxes() -> SyntaxSet {
    SyntaxSet::load_defaults_newlines()
}

/// `Path::extension` of the path `p`, as text (a path made from text has
/// text components). The contract names the result.
#[verifier::external_body]
fn extension_of(p: &str) -> (r: Option<String>)
    ensures
        match r {
            Some(e) => path_extension(p@) == Some(e@),
            None => path_extension(p@) is None,
        },
{
    std::path::Path::new(p).extension().map(|e| e.to_string_lossy().to_string())
}

/// `Path::file_name` of the path `p`, as text. The contract names the result.
#[verifier::external_body]
pub(crate) fn file_name_of(p: &str) -> (r: Option<String>)
    ensures
        match r {
            Some(n) => path_file_name(p@) == Some(n@),
            None => path_file_name(p@) is None,
        },
{
    std::path::Path::new(p).file_name().map(|n| n.to_string_lossy().to_string())
}

/// The code of `c` with an ASCII capital made small (`char::to_ascii_lowercase`).
pub open spec fn lower_code(c: char) -> int {
    if 65 <= c as int <= 90 {
        c as int + 32
    } else {
        c as int
    }
}

/// Whether `a` and `b` are equal when ASCII case is ignored (`str::eq_ignore_ascii_case`).
pub open spec fn same_ignoring_ascii_case(a: Seq<char>, b: Seq<char>) -> bool {
    &&& a.len() == b.len()
    &&& forall|i: int| 0 <= i < a.len() ==> lower_code(#[trigger] a[i]) == lower_code(b[i])
}

/// Whether one of `exts` is `ext`, ignoring ASCII case.
pub open spec fn has_extension(exts: Seq<Seq<char>>, ext: Seq<char>) -> bool {
    exists|k: int| 0 <= k < exts.len() && same_ignoring_ascii_case(#[trigger] exts[k], ext)
}

/// The name of the last syntax of `table` that lists the extension `ext`
/// (ignoring ASCII case), if any.
pub open spec fn last_by_extension(table: Seq<(Seq<char>, Seq<Seq<char>>)>, ext: Seq<char>) -> Option<Seq<char>>
    decreases table.len(),
{
    if table.len() == 0 {
        None
    } else if has_extension(table.last().1, ext) {
        Some(table.last().0)
    } else {
        last_by_extension(table.drop_last(), ext)
    }
}

/// `SyntaxSet::find_syntax_by_extension`: the name of the last syntax of
/// `set` whose extensions include `ext`, ignoring ASCII case.
#[verifier::external_body]
fn lookup_extension(set: &SyntaxSet, ext: &str) -> (r: Option<String>)
    ensures
        opt_text(r) == last_by_extension(syntax_entries(*set), ext@),
{
    set.find_syntax_by_extension(ext).map(|s| s.name.clone())
}

/// The first-line pattern of each syntax of `set`, in the set's order
/// (`SyntaxReference::first_line_match`), if it has one.
pub uninterp spec fn first_line_patterns(set: SyntaxSet) -> Seq<Option<Seq<char>>>;

/// Whether syntect's regular expression made from `pattern` finds a match
/// in `line` (`Regex::search` over the whole line).
pub uninterp spec fn first_line_matches(pattern: Seq<char>, line: Seq<char>) -> bool;

/// `line` without a leading byte-order mark.
pub open spec fn without_bom(line: Seq<char>) -> Seq<char> {
    if line.len() > 0 && line[0] == '\u{feff}' {
        line.drop_first()
    } else {
        line
    }
}

/// The name of the last syntax of `table` whose first-line pattern (in
/// `patterns`, in the same order) matches `line`, if any.
pub open spec fn last_by_first_line(
    table: Seq<(Seq<char>, Seq<Seq<char>>)>,
    patterns: Seq<Option<Seq<char>>>,
    line: Seq<char>,
) -> Option<Seq<char>>
    decreases patterns.len(),
{
    if patterns.len() == 0 {
        None
    } else if patterns.len() <= table.len() && (patterns.last() matches Some(p) && first_line_matches(p, line)) {
        Some(table[patterns.len() - 1].0)
    } else {
        last_by_first_line(table, patterns.drop_last(), line)
    }
}

/// `SyntaxSet::find_syntax_by_first_line`: after a leading byte-order mark
/// is taken off `line`, the name of the last syntax of `set` whose
/// first-line pattern matches it.
#[verifier::external_body]
fn lookup_first_line(set: &SyntaxSet, line: &str) -> (r: Option<String>)
    ensures
        opt_text(r) == last_by_first_line(syntax_entries(*set), first_line_patterns(*set), without_bom(line@)),
        r is Some ==> exists|k: int|
            0 <= k < first_line_patterns(*set).len() && (#[trigger] first_line_patterns(*set)[k] matches Some(p)
                && first_line_matches(p, without_bom(line@))),
{
    set.find_syntax_by_first_line(line).map(|s| s.name.clone())
}

/// `SyntaxSet::syntaxes`: each syntax's name with its file extensions, in the
/// set's order (see [`syntax_entries`]).
#[verifier::external_body]
fn syntax_table(set: &SyntaxSet) -> (r: Vec<(String, Vec<String>)>)
    ensures
        table_of(r@) == syntax_entries(*set),
{
    set.syntaxes().iter().map(|s| (s.name.clone(), s.file_extensions.clone())).collect()
}

/// The first syntax of `table` with an extension that ends `file_name`.
pub open spec fn first_suffix_match(table: Seq<(Seq<char>, Seq<Seq<char>>)>, file_name: Seq<char>) -> Option<
    Seq<char>,
>
    decreases table.len(),
{
    if table.len() == 0 {
        None
    } else if exists|k: int| 0 <= k < table[0].1.len() && (#[trigger] table[0].1[k]).is_suffix_of(file_name) {
        Some(table[0].0)
    } else {
        first_suffix_match(table.drop_first(), file_name)
    }
}

/// The syntax to use: the one found by extension, else the first of `table`
/// with an extension that ends the file name, else the one found by the first
/// line. With no file path, only the first line counts.
pub open spec fn chosen_syntax(
    has_path: bool,
    by_extension: Option<Seq<char>>,
    table: Seq<(Seq<char>, Seq<Seq<char>>)>,
    file_name: Seq<char>,
    by_first_line: Option<Seq<char>>,
) -> Option<Seq<char>> {
    if has_path && by_extension is Some {
        by_extension
    } else if has_path && first_suffix_match(table, file_name) is Some {
        first_suffix_match(table, file_name)
    } else {
        by_first_line
    }
}

/// What the extension of `file_path` finds in `table` (see [`last_by_extension`]).
pub open spec fn extension_found(table: Seq<(Seq<char>, Seq<Seq<char>>)>, file_path: Option<&str>) -> Option<
    Seq<char>,
> {
    match file_path {
        Some(p) => match path_extension(p@) {
            Some(e) => last_by_extension(table, e),
            None => None,
        },
        None => None,
    }
}

/// The names and extensions of a syntax table, as text.
pub open spec fn table_of(table: Seq<(String, Vec<String>)>) -> Seq<(Seq<char>, Seq<Seq<char>>)> {
    table.map_values(|e: (String, Vec<String>)| (e.0@, crate::text::text_of(e.1@)))
}

/// An optional string as text.
pub open spec fn opt_text(o: Option<String>) -> Option<Seq<char>> {
    match o {
        Some(s) => Some(s@),
        None => None,
    }
}

/// Whether `s` ends with `suffix`.
pub fn ends_with(s: &str, suffix: &str) -> (r: bool)
    ensures
        r == suffix@.is_suffix_of(s@),
{
    let v = chars_of(s);
    let w = chars_of(suffix);
    if w.len() > v.len() {
        return false;
    }
    let off = v.len() - w.len();
    let mut i: usize = 0;
    while i < w.len()
        invariant
            i <= w@.len(),
            off + w@.len() == v@.len(),
            v@.len() == v.len(),
            v@ == s@,
            w@ == suffix@,
            forall|k: int| 0 <= k < i ==> v@[off + k] == w@[k],
        decreases w.len() - i,
    {
        assert(off + i < v@.len());
        if v[off + i] != w[i] {
            assert(s@.subrange(off as int, s@.len() as int)[i as int] != suffix@[i as int]);
            return false;
        }
        i += 1;
    }
    assert(suffix@ =~= s@.subrange(off as int, s@.len() as int));
    true
}

/// The syntax chosen from the lookups' results (see [`chosen_syntax`]):
/// `by_extension` is what the file's extension found, `table` the syntaxes
/// with their extensions, `file_name` the file's name and `by_first_line` what
/// the first line found.
pub fn choose_syntax(
    has_path: bool,
    by_extension: Option<String>,
    table: &Vec<(String, Vec<String>)>,
    file_name: &str,
    by_first_line: Option<String>,
) -> (r: Option<String>)
    ensures
        opt_text(r) == chosen_syntax(
            has_path,
            opt_text(by_extension),
            table_of(table@),
            file_name@,
            opt_text(by_first_line),
        ),
{
    if has_path {
        if by_extension.is_some() {
            return by_extension;
        }
        let ghost t = table_of(table@);
        let mut i: usize = 0;
        assert(t.skip(0) =~= t);
        while i < table.len()
            invariant
                i <= table@.len(),
                has_path,
                by_extension is None,
                t == table_of(table@),
                first_suffix_match(t, file_name@) == first_suffix_match(t.skip(i as int), file_name@),
            decreases table.len() - i,
        {
            let exts = &table[i].1;
            assert(t.skip(i as int)[0] == t[i as int]);
            assert(t.skip(i as int).drop_first() =~= t.skip(i + 1));
            let mut j: usize = 0;
            while j < exts.len()
                invariant
                    j <= exts@.len(),
                    has_path,
                    by_extension is None,
                    t.skip(i as int)[0] == t[i as int],
                    first_suffix_match(t, file_name@) == first_suffix_match(t.skip(i as int), file_name@),
                    t == table_of(table@),
                    exts@ == table@[i as int].1@,
                    i < table@.len(),
                    forall|k: int| 0 <= k < j ==> !(#[trigger] t[i as int].1[k]).is_suffix_of(file_name@),
                decreases exts.len() - j,
            {
                if ends_with(file_name, exts[j].as_str()) {
                    assert(t[i as int].1[j as int] == exts@[j as int]@);
                    assert(t.skip(i as int)[0].1[j as int].is_suffix_of(file_name@));
                    return Some(table[i].0.clone());
                }
                j += 1;
            }
            i += 1;
        }
    }
    by_first_line
}

/// The style of a piece of highlighted text: its foreground colour and
/// font style (syntect's `Style`, without the background, which nothing reads).
#[derive(Clone, Copy, Debug, PartialEq, Eq, Structural)]
pub struct TextStyle {
    pub red: u8,
    pub green: u8,
    pub blue: u8,
    pub bold: bool,
    pub italic: bool,
    pub underline: bool,
}

impl TextStyle {
    /// syntect's `Style::default()`: a black foreground and no font style.
    pub fn plain() -> (s: Self)
        ensures
            s == (TextStyle { red: 0, green: 0, blue: 0, bold: false, italic: false, underline: false }),
    {
        TextStyle { red: 0, green: 0, blue: 0, bold: false, italic: false, underline: false }
    }
}

/// One highlighted line: its pieces of text, each with its style, in order.
#[derive(Clone, Debug)]
pub struct HighlightedLine {
    pub ranges: Vec<(TextStyle, String)>,
}

/// The texts of `ranges`, in order.
pub open spec fn range_texts<T>(ranges: Seq<(T, String)>) -> Seq<Seq<char>> {
    ranges.map_values(|r: (T, String)| r.1@)
}

/// The text of a highlighted line: its pieces put together.
pub open spec fn line_text(h: HighlightedLine) -> Seq<char> {
    range_texts(h.ranges@).flatten()
}

/// Whether `ls` splits `s` into lines that keep their line endings: put
/// together they give `s`, none is empty, each but the last ends with a
/// newline, and no line has a newline before its end.
pub open spec fn is_line_split(s: Seq<char>, ls: Seq<Seq<char>>) -> bool {
    &&& ls.flatten() == s
    &&& forall|i: int| 0 <= i < ls.len() ==> (#[trigger] ls[i]).len() > 0
    &&& forall|i: int| 0 <= i < ls.len() - 1 ==> (#[trigger] ls[i]).last() == '\n'
    &&& forall|i: int, j: int| 0 <= i < ls.len() && 0 <= j < ls[i].len() - 1 ==> #[trigger] ls[i][j] != '\n'
}

/// The lines of `text` with their line endings (syntect's `LinesWithEndings`).
pub fn lines_with_endings(text: &str) -> (r: Vec<String>)
    ensures
        is_line_split(text@, crate::text::text_of(r@)),
{
    broadcast use Seq::lemma_flatten_push;

    let v = chars_of(text);
    let mut done: Vec<String> = Vec::new();
    let mut cur: Vec<char> = Vec::new();
    let mut i: usize = 0;
    while i < v.len()
        invariant
            i <= v@.len(),
            v@ == text@,
            crate::text::text_of(done@).flatten() + cur@ == v@.subrange(0, i as int),
            forall|k: int| 0 <= k < done@.len() ==> (#[trigger] done@[k])@.len() > 0,
            forall|k: int| 0 <= k < done@.len() ==> (#[trigger] done@[k])@.last() == '\n',
            forall|k: int, j: int|
                0 <= k < done@.len() && 0 <= j < done@[k]@.len() - 1 ==> #[trigger] done@[k]@[j] != '\n',
            forall|j: int| 0 <= j < cur@.len() ==> #[trigger] cur@[j] != '\n',
        decreases v.len() - i,
    {
        let c = v[i];
        let ghost before = crate::text::text_of(done@).flatten();
        cur.push(c);
        assert(v@.subrange(0, i + 1) =~= v@.subrange(0, i as int).push(c));
        assert(before + cur@ =~= v@.subrange(0, i + 1));
        if c == '\n' {
            let line = crate::text::string_of(cur.as_slice());
            proof {
                assert(crate::text::text_of(done@.push(line)) =~= crate::text::text_of(done@).push(line@));
                crate::text::text_of(done@).lemma_flatten_push(line@);
            }
            done.push(line);
            cur = Vec::new();
            assert(crate::text::text_of(done@).flatten() + cur@ =~= v@.subrange(0, i + 1));
        }
        i += 1;
    }
    if cur.len() > 0 {
        let line = crate::text::string_of(cur.as_slice());
        proof {
            assert(crate::text::text_of(done@.push(line)) =~= crate::text::text_of(done@).push(line@));
            crate::text::text_of(done@).lemma_flatten_push(line@);
        }
        done.push(line);
    }
    assert(v@.subrange(0, v@.len() as int) =~= v@);
    done
}

#[verifier::external_type_specification]
#[verifier::external_body]
pub struct ExThemeSet(ThemeSet);

#[verifier::external_type_specification]
#[verifier::external_body]
pub struct ExTheme(ColourTheme);

#[verifier::external_type_specification]
#[verifier::external_body]
pub struct ExSyntaxReference(SyntaxReference);

#[verifier::external_type_specification]
#[verifier::external_body]
pub struct ExStyle(Style);

#[verifier::external_type_specification]
#[verifier::external_body]
pub struct ExHighlightLines<'a>(HighlightLines<'a>);

/// The names of the themes of `set`: the keys of its map `ThemeSet::themes`.
pub uninterp spec fn theme_keys(set: ThemeSet) -> Set<Seq<char>>;

/// `ThemeSet::load_defaults`: syntect's default colour themes. Its
/// documentation lists the keys that the map includes.
#[verifier::external_body]
fn default_themes() -> (r: ThemeSet)
    ensures
        theme_keys(r).contains("base16-ocean.dark"@),
        theme_keys(r).contains("base16-eighties.dark"@),
        theme_keys(r).contains("base16-mocha.dark"@),
        theme_keys(r).contains("base16-ocean.light"@),
        theme_keys(r).contains("InspiredGitHub"@),
        theme_keys(r).contains("Solarized (dark)"@),
        theme_keys(r).contains("Solarized (light)"@),
{
    ThemeSet::load_defaults()
}

/// The names of the themes of `set`: the keys of `ThemeSet::themes`.
#[verifier::external_body]
fn theme_names(set: &ThemeSet) -> (r: Vec<String>)
    ensures
        crate::text::text_of(r@).to_set() == theme_keys(*set),
{
    set.themes.keys().cloned().collect()
}

/// `ThemeSet::themes.get`: the theme of `set` named `name`, if there is one.
#[verifier::external_body]
fn theme_named<'a>(set: &'a ThemeSet, name: &str) -> (r: Option<&'a ColourTheme>)
    ensures
        r is Some <==> theme_keys(*set).contains(name@),
{
    set.themes.get(name)
}

/// `SyntaxSet::find_syntax_by_name`: the syntax of `set` named `name`, if
/// there is one. (Which one, where several share the name, is not stated.)
#[verifier::external_body]
fn syntax_named<'a>(set: &'a SyntaxSet, name: &str) -> (r: Option<&'a SyntaxReference>)
    ensures
        r is Some <==> has_syntax_named(*set, name@),
{
    set.find_syntax_by_name(name)
}

/// `HighlightLines::new`: a highlighter for `syntax` in `theme`, at the start
/// of a file.
#[verifier::external_body]
fn start_highlighting<'a>(syntax: &SyntaxReference, theme: &'a ColourTheme) -> HighlightLines<'a> {
    HighlightLines::new(syntax, theme)
}

/// The styled pieces, with their styles as plain values, that syntect's
/// `HighlightLines` gives `line` when it was made for the syntax named
/// `syntax` and the theme named `theme` of syntect's default definitions
/// and was fed the lines `before` first; none where it reports an error.
pub uninterp spec fn line_styles(
    syntax: Seq<char>,
    theme: Seq<char>,
    before: Seq<Seq<char>>,
    line: Seq<char>,
) -> Option<Seq<(TextStyle, Seq<char>)>>;

/// The pieces of `ranges` as plain values.
pub open spec fn pieces_of(ranges: Seq<(TextStyle, String)>) -> Seq<(TextStyle, Seq<char>)> {
    ranges.map_values(|r: (TextStyle, String)| (r.0, r.1@))
}

/// syntect's `Style::default()` as plain values (see [`TextStyle::plain`]).
pub open spec fn plain_style() -> TextStyle {
    TextStyle { red: 0, green: 0, blue: 0, bold: false, italic: false, underline: false }
}

/// The pieces of `line` after the lines `before`, as [`line_styles`] names
/// them, or the whole line as one plain piece where syntect reports an error.
pub open spec fn styled_or_plain(
    syntax: Seq<char>,
    theme: Seq<char>,
    before: Seq<Seq<char>>,
    line: Seq<char>,
) -> Seq<(TextStyle, Seq<char>)> {
    match line_styles(syntax, theme, before, line) {
        Some(p) => p,
        None => seq![(plain_style(), line)],
    }
}

/// A highlighter part-way through a text: syntect's `HighlightLines`, made
/// (only by [`SyntaxHighlighter::highlight_text`]) for the syntax and the
/// theme named here among the default definitions, and the lines it has
/// been fed so far.
struct LineHighlighter<'a> {
    lines: HighlightLines<'a>,
    syntax: Ghost<Seq<char>>,
    theme: Ghost<Seq<char>>,
    fed: Ghost<Seq<Seq<char>>>,
}

/// `HighlightLines::highlight_line`: the styled pieces of `line`, read after
/// the lines that `h` was fed, with their styles as plain values; `None`
/// where syntect reports an error. They are named by [`line_styles`];
/// syntect documents that the pieces put together give the line back. `h`
/// has then been fed `line` too.
#[verifier::external_body]
fn highlight_line(h: &mut LineHighlighter, line: &str, set: &SyntaxSet) -> (r: Option<Vec<(TextStyle, String)>>)
    ensures
        final(h).syntax == old(h).syntax,
        final(h).theme == old(h).theme,
        final(h).fed@ == old(h).fed@.push(line@),
        match r {
            Some(v) => line_styles(old(h).syntax@, old(h).theme@, old(h).fed@, line@) == Some(pieces_of(v@)),
            None => line_styles(old(h).syntax@, old(h).theme@, old(h).fed@, line@) is None,
        },
        r matches Some(v) ==> range_texts(v@).flatten() == line@,
{
    let r = match h.lines.highlight_line(line, set) {
        Ok(ranges) => Some(ranges.into_iter().map(|(st, t)| (style_parts(&st), t.to_string())).collect()),
        Err(_) => None,
    };
    h.fed = Ghost(h.fed@.push(line@));
    r
}

/// The foreground colour and font style of a syntect `Style`, as plain values.
#[verifier::external_body]
fn style_parts(st: &Style) -> TextStyle {
    TextStyle {
        red: st.foreground.r,
        green: st.foreground.g,
        blue: st.foreground.b,
        bold: st.font_style.contains(FontStyle::BOLD),
        italic: st.font_style.contains(FontStyle::ITALIC),
        underline: st.font_style.contains(FontStyle::UNDERLINE),
    }
}


/// The syntax definitions and colour themes used to highlight buffers, the
/// names of the syntaxes with their file extensions and of the themes, and
/// the name of the theme in use.
pub struct SyntaxHighlighter {
    syntax_set: SyntaxSet,
    theme_set: ThemeSet,
    syntaxes: Vec<(String, Vec<String>)>,
    themes: Vec<String>,
    current_theme: String,
}

impl SyntaxHighlighter {
    /// The lists of names are those of the definitions, and the theme in use
    /// is one of the themes.
    #[verifier::type_invariant]
    spec fn lists_match(self) -> bool {
        &&& crate::text::text_of(self.themes@).to_set() == theme_keys(self.theme_set)
        &&& theme_keys(self.theme_set).contains(self.current_theme@)
        &&& table_of(self.syntaxes@) == syntax_entries(self.syntax_set)
    }

    /// syntect's default syntaxes and themes, with the theme `Solarized (dark)`.
    pub fn new() -> (h: Self)
        ensures
            h.theme() == "Solarized (dark)"@,
    {
        let syntax_set = default_syntaxes();
        let theme_set = default_themes();
        let syntaxes = syntax_table(&syntax_set);
        let themes = theme_names(&theme_set);
        SyntaxHighlighter { syntax_set, theme_set, syntaxes, themes, current_theme: "Solarized (dark)".to_owned() }
    }

    /// The name of the theme in use.
    pub closed spec fn theme(&self) -> Seq<char> {
        self.current_theme@
    }

    /// The names of the themes.
    pub closed spec fn themes(&self) -> Seq<Seq<char>> {
        crate::text::text_of(self.themes@)
    }

    /// The names of the syntaxes with their file extensions, in the order of
    /// the definitions.
    pub closed spec fn syntaxes(&self) -> Seq<(Seq<char>, Seq<Seq<char>>)> {
        table_of(self.syntaxes@)
    }

    /// Uses the theme named `theme_name` if there is one; otherwise nothing
    /// changes and the error names the theme.
    pub fn set_theme(&mut self, theme_name: &str) -> (r: Result<(), String>)
        ensures
            final(self).themes() == old(self).themes(),
            final(self).syntaxes() == old(self).syntaxes(),
            r is Ok <==> old(self).themes().contains(theme_name@),
            r is Ok ==> final(self).theme() == theme_name@,
            r matches Err(e) ==> e@ == "Theme not found: "@ + theme_name@ && final(self).theme()
                == old(self).theme(),
    {
        let mut i: usize = 0;
        while i < self.themes.len()
            invariant
                i <= self.themes@.len(),
                *self == *old(self),
                forall|k: int| 0 <= k < i ==> (#[trigger] self.themes()[k]) != theme_name@,
            decreases self.themes.len() - i,
        {
            if same_text(self.themes[i].as_str(), theme_name) {
                proof {
                    use_type_invariant(&*self);
                    assert(self.themes()[i as int] == theme_name@);
                    assert(crate::text::text_of(self.themes@).contains(theme_name@));
                }
                self.current_theme = theme_name.to_owned();
                return Ok(());
            }
            i += 1;
        }
        Err(crate::text::concat("Theme not found: ", theme_name))
    }

    /// The names of the themes.
    pub fn list_themes(&self) -> (r: Vec<String>)
        ensures
            crate::text::text_of(r@) == self.themes(),
    {
        crate::text::copy_strings(&self.themes)
    }

    /// The name of the theme in use.
    pub fn current_theme(&self) -> (r: &str)
        ensures
            r@ == self.theme(),
    {
        self.current_theme.as_str()
    }

    /// The syntax definitions: those whose names and extensions
    /// [`SyntaxHighlighter::syntaxes`] lists.
    pub fn syntax_set(&self) -> (r: &SyntaxSet)
        ensures
            syntax_entries(*r) == self.syntaxes(),
    {
        proof {
            use_type_invariant(self);
        }
        &self.syntax_set
    }

    /// The names of the syntaxes, in the order of the definitions.
    pub fn supported_languages(&self) -> (r: Vec<String>)
        ensures
            crate::text::text_of(r@) == self.syntaxes().map_values(|e: (Seq<char>, Seq<Seq<char>>)| e.0),
    {
        let mut r: Vec<String> = Vec::new();
        let mut i: usize = 0;
        while i < self.syntaxes.len()
            invariant
                i <= self.syntaxes@.len(),
                crate::text::text_of(r@) == self.syntaxes().subrange(0, i as int).map_values(
                    |e: (Seq<char>, Seq<Seq<char>>)| e.0,
                ),
            decreases self.syntaxes.len() - i,
        {
            let name = self.syntaxes[i].0.clone();
            let ghost old_r = r@;
            r.push(name);
            proof {
                let t = self.syntaxes();
                assert(t[i as int].0 == name@);
                assert(crate::text::text_of(r@) =~= crate::text::text_of(old_r).push(name@));
                assert(t.subrange(0, i + 1) =~= t.subrange(0, i as int).push(t[i as int]));
                assert(t.subrange(0, i + 1).map_values(|e: (Seq<char>, Seq<Seq<char>>)| e.0) =~= t.subrange(
                    0,
                    i as int,
                ).map_values(|e: (Seq<char>, Seq<Seq<char>>)| e.0).push(name@));
            }
            i += 1;
        }
        assert(self.syntaxes().subrange(0, self.syntaxes@.len() as int) =~= self.syntaxes());
        r
    }

    /// The first-line pattern of each syntax, in the order of [`Self::syntaxes`].
    pub closed spec fn first_lines(&self) -> Seq<Option<Seq<char>>> {
        first_line_patterns(self.syntax_set)
    }

    /// The syntax for a file at `file_path` (if it has one) whose first line
    /// is `first_line`: the last syntax that lists the path's extension, else
    /// the first with an extension that ends the file name, else the last
    /// whose first-line pattern matches the line (see [`chosen_syntax`]).
    pub fn determine_syntax(&self, file_path: Option<&str>, first_line: &str) -> (r: Option<String>)
        ensures
            opt_text(r) == chosen_syntax(
                file_path is Some,
                extension_found(self.syntaxes(), file_path),
                self.syntaxes(),
                name_part(file_path),
                last_by_first_line(self.syntaxes(), self.first_lines(), without_bom(first_line@)),
            ),
    {
        proof {
            use_type_invariant(self);
        }
        let by_first_line = lookup_first_line(&self.syntax_set, first_line);
        match file_path {
            Some(path) => {
                let by_extension = match extension_of(path) {
                    Some(ext) => lookup_extension(&self.syntax_set, ext.as_str()),
                    None => None,
                };
                let file_name = match file_name_of(path) {
                    Some(n) => n,
                    None => String::new(),
                };
                let r = choose_syntax(true, by_extension, &self.syntaxes, file_name.as_str(), by_first_line);
                assert(file_name@ == name_part(file_path));
                assert(opt_text(r) == chosen_syntax(
                    true,
                    opt_text(by_extension),
                    self.syntaxes(),
                    name_part(file_path),
                    opt_text(by_first_line),
                ));
                r
            },
            None => {
                let r = by_first_line;
                assert(opt_text(r) == chosen_syntax(
                    false,
                    None,
                    self.syntaxes(),
                    name_part(file_path),
                    opt_text(r),
                ));
                r
            },
        }
    }

    /// Highlights `text` line by line with the syntax named `syntax` in the
    /// theme in use, one highlighter reading the lines in order (so that what
    /// a line opens, such as a comment, carries on to the next): the
    /// highlighted lines are the lines of `text`, each with its line ending,
    /// and each gets the pieces that [`line_styles`] names for it after the
    /// lines before it; a line that syntect cannot highlight is one plain
    /// piece. `None` exactly when no syntax has that name.
    pub fn highlight_text(&self, text: &str, syntax: &str) -> (r: Option<Vec<HighlightedLine>>)
        ensures
            r is Some <==> exists|k: int| 0 <= k < self.syntaxes().len() && (#[trigger] self.syntaxes()[k]).0 == syntax@,
            r matches Some(hl) ==> {
                let ls = hl@.map_values(|h: HighlightedLine| line_text(h));
                &&& is_line_split(text@, ls)
                &&& forall|i: int|
                    0 <= i < hl@.len() ==> #[trigger] pieces_of(hl@[i].ranges@) == styled_or_plain(
                        syntax@,
                        self.theme(),
                        ls.take(i),
                        ls[i],
                    )
            },
    {
        proof {
            use_type_invariant(self);
        }
        let theme = match theme_named(&self.theme_set, self.current_theme.as_str()) {
            Some(t) => t,
            None => return None,
        };
        let syntax_ref = match syntax_named(&self.syntax_set, syntax) {
            Some(sr) => sr,
            None => {
                proof {
                    assert forall|k: int| 0 <= k < self.syntaxes().len() implies (
                    #[trigger] self.syntaxes()[k]).0 != syntax@ by {
                        assert(self.syntaxes()[k] == syntax_entries(self.syntax_set)[k]);
                    }
                }
                return None;
            },
        };
        proof {
            let k = choose|k: int|
                0 <= k < syntax_entries(self.syntax_set).len() && (#[trigger] syntax_entries(
                    self.syntax_set,
                )[k]).0 == syntax@;
            assert(self.syntaxes()[k].0 == syntax@);
        }
        let mut highlighter = LineHighlighter {
            lines: start_highlighting(syntax_ref, theme),
            syntax: Ghost(syntax@),
            theme: Ghost(self.current_theme@),
            fed: Ghost(Seq::empty()),
        };
        let lines = lines_with_endings(text);
        let ghost ls = crate::text::text_of(lines@);
        let mut result: Vec<HighlightedLine> = Vec::new();
        let mut i: usize = 0;
        assert(ls.take(0) =~= Seq::<Seq<char>>::empty());
        while i < lines.len()
            invariant
                i <= lines@.len(),
                ls == crate::text::text_of(lines@),
                is_line_split(text@, ls),
                result@.map_values(|h: HighlightedLine| line_text(h)) == ls.take(i as int),
                highlighter.syntax@ == syntax@,
                highlighter.theme@ == self.theme(),
                highlighter.fed@ == ls.take(i as int),
                forall|k: int|
                    0 <= k < i ==> #[trigger] pieces_of(result@[k].ranges@) == styled_or_plain(
                        syntax@,
                        self.theme(),
                        ls.take(k),
                        ls[k],
                    ),
            decreases lines.len() - i,
        {
            let line = lines[i].as_str();
            let ghost before = highlighter.fed@;
            let ranges = match highlight_line(&mut highlighter, line, &self.syntax_set) {
                Some(found) => found,
                None => {
                    let mut plain: Vec<(TextStyle, String)> = Vec::new();
                    plain.push((TextStyle::plain(), lines[i].clone()));
                    proof {
                        assert(range_texts(plain@) =~= seq![lines@[i as int]@]);
                        seq![lines@[i as int]@].lemma_flatten_singleton();
                    }
                    plain
                },
            };
            let h = HighlightedLine { ranges };
            assert(line_text(h) == lines@[i as int]@);
            assert(ls[i as int] == lines@[i as int]@);
            proof {
                if line_styles(syntax@, self.theme(), before, ls[i as int]) is None {
                    assert(pieces_of(h.ranges@) =~= seq![(plain_style(), ls[i as int])]);
                }
            }
            assert(pieces_of(h.ranges@) == styled_or_plain(syntax@, self.theme(), ls.take(i as int), ls[i as int]));
            let ghost old_result = result@;
            result.push(h);
            proof {
                assert(result@.map_values(|h: HighlightedLine| line_text(h)) =~= old_result.map_values(
                    |h: HighlightedLine| line_text(h),
                ).push(line_text(h)));
                assert(ls.take(i + 1) =~= ls.take(i as int).push(ls[i as int]));
                assert forall|k: int| 0 <= k < i + 1 implies #[trigger] pieces_of(result@[k].ranges@)
                    == styled_or_plain(syntax@, self.theme(), ls.take(k), ls[k]) by {
                    if k < i {
                        assert(result@[k] == old_result[k]);
                    }
                }
            }
            i += 1;
        }
        assert(ls.take(ls.len() as int) =~= ls);
        Some(result)
    }
}

impl Default for SyntaxHighlighter {
    /// A highlighter as [`SyntaxHighlighter::new`] makes it.
    fn default() -> (h: Self)
        ensures
            h.theme() == "Solarized (dark)"@,
    {
        Self::new()
    }
}

/// The file name of `file_path` (empty when it has none).
pub open spec fn name_part(file_path: Option<&str>) -> Seq<char> {
    match file_path {
        Some(p) => match path_file_name(p@) {
            Some(n) => n,
            None => Seq::empty(),
        },
        None => Seq::empty(),
    }
}

} // verus!
