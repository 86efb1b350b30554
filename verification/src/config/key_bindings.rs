use vstd::prelude::*;
use crate::keys::{KeyCode, KeyEvent, KeyModifiers};
use crate::text::{text_of, same_text, string_of, concat, decimal, decimal_string};

verus! {

/// A key with the modifier keys (`"ctrl"`, `"alt"`, `"shift"`) that must be held.
#[derive(Debug)]
pub struct KeyBinding {
    pub key: String,
    pub modifiers: Vec<String>,
}

/// The content of a [`KeyBinding`]: its key and its modifiers.
pub struct BindingModel {
    pub key: Seq<char>,
    pub modifiers: Seq<Seq<char>>,
}

impl View for KeyBinding {
    type V = BindingModel;

    open spec fn view(&self) -> BindingModel {
        BindingModel { key: self.key@, modifiers: text_of(self.modifiers@) }
    }
}

/// The binding of `key` with `modifiers`.
pub open spec fn binding(key: Seq<char>, modifiers: Seq<Seq<char>>) -> BindingModel {
    BindingModel { key, modifiers }
}

/// The name that a binding uses for the key `code`, if it has one.
pub open spec fn key_name(code: KeyCode) -> Option<Seq<char>> {
    match code {
        KeyCode::Char(c) => Some(seq![c]),
        KeyCode::Enter => Some("enter"@),
        KeyCode::Tab => Some("tab"@),
        KeyCode::Backspace => Some("backspace"@),
        KeyCode::Esc => Some("esc"@),
        KeyCode::Left => Some("left"@),
        KeyCode::Right => Some("right"@),
        KeyCode::Up => Some("up"@),
        KeyCode::Down => Some("down"@),
        KeyCode::Home => Some("home"@),
        KeyCode::End => Some("end"@),
        KeyCode::PageUp => Some("pageup"@),
        KeyCode::PageDown => Some("pagedown"@),
        KeyCode::Delete => Some("delete"@),
        KeyCode::Insert => Some("insert"@),
        KeyCode::F(n) => Some("f"@ + decimal(n as nat)),
        KeyCode::Other => None,
    }
}

/// Whether the modifier named `name` is held in `m` (unknown names never are).
pub open spec fn modifier_held(name: Seq<char>, m: KeyModifiers) -> bool {
    if name == "ctrl"@ {
        m.control
    } else if name == "alt"@ {
        m.alt
    } else if name == "shift"@ {
        m.shift
    } else {
        false
    }
}

/// Whether the held modifiers `m` satisfy `names`: with no names, none may be
/// held; otherwise each named modifier must be held.
pub open spec fn modifiers_match(names: Seq<Seq<char>>, m: KeyModifiers) -> bool {
    if names.len() == 0 {
        !m.control && !m.alt && !m.shift
    } else {
        forall|i: int| 0 <= i < names.len() ==> modifier_held(#[trigger] names[i], m)
    }
}

/// Whether binding `b` matches the key press `e`.
pub open spec fn binding_matches(b: BindingModel, e: KeyEvent) -> bool {
    &&& key_name(e.code) matches Some(n)
    &&& b.key == n
    &&& modifiers_match(b.modifiers, e.modifiers)
}

/// Whether the modifier named `name` is held in `m`.
fn held(name: &str, m: &KeyModifiers) -> (r: bool)
    ensures
        r == modifier_held(name@, *m),
{
    if same_text(name, "ctrl") {
        m.control
    } else if same_text(name, "alt") {
        m.alt
    } else if same_text(name, "shift") {
        m.shift
    } else {
        false
    }
}

impl KeyBinding {
    pub fn new(key: &str) -> (b: Self)
        ensures
            b@ == binding(key@, Seq::empty()),
    {
        let b = KeyBinding { key: key.to_owned(), modifiers: Vec::new() };
        assert(b@.modifiers =~= Seq::<Seq<char>>::empty());
        b
    }

    pub fn with_modifier(self, modifier: &str) -> (b: Self)
        ensures
            b@ == binding(self@.key, self@.modifiers.push(modifier@)),
    {
        let mut b = self;
        let ghost before = b.modifiers@;
        b.modifiers.push(modifier.to_owned());
        assert(text_of(b.modifiers@) =~= text_of(before).push(modifier@));
        b
    }

    /// A copy of this binding.
    pub fn duplicate(&self) -> (b: Self)
        ensures
            b@ == self@,
    {
        KeyBinding { key: self.key.clone(), modifiers: crate::text::copy_strings(&self.modifiers) }
    }

    /// Whether this binding matches the key press `event` (see [`binding_matches`]).
    pub fn matches(&self, event: &KeyEvent) -> (r: bool)
        ensures
            r == binding_matches(self@, *event),
    {
        let name: Option<String> = match event.code {
            KeyCode::Char(c) => {
                let v: Vec<char> = vec![c];
                let s = string_of(v.as_slice());
                assert(s@ =~= seq![c]);
                Some(s)
            },
            KeyCode::Enter => Some("enter".to_owned()),
            KeyCode::Tab => Some("tab".to_owned()),
            KeyCode::Backspace => Some("backspace".to_owned()),
            KeyCode::Esc => Some("esc".to_owned()),
            KeyCode::Left => Some("left".to_owned()),
            KeyCode::Right => Some("right".to_owned()),
            KeyCode::Up => Some("up".to_owned()),
            KeyCode::Down => Some("down".to_owned()),
            KeyCode::Home => Some("home".to_owned()),
            KeyCode::End => Some("end".to_owned()),
            KeyCode::PageUp => Some("pageup".to_owned()),
            KeyCode::PageDown => Some("pagedown".to_owned()),
            KeyCode::Delete => Some("delete".to_owned()),
            KeyCode::Insert => Some("insert".to_owned()),
            KeyCode::F(n) => {
                let digits = decimal_string(n as usize);
                Some(concat("f", digits.as_str()))
            },
            KeyCode::Other => None,
        };
        let key_matches = match &name {
            Some(n) => same_text(self.key.as_str(), n.as_str()),
            None => false,
        };
        let mods = &event.modifiers;
        let modifiers_match = if self.modifiers.len() == 0 {
            !mods.control && !mods.alt && !mods.shift
        } else {
            let mut all = true;
            let mut i: usize = 0;
            while i < self.modifiers.len()
                invariant
                    i <= self.modifiers@.len(),
                    all == forall|k: int|
                        0 <= k < i ==> modifier_held(#[trigger] text_of(self.modifiers@)[k], *mods),
                decreases self.modifiers.len() - i,
            {
                let h = held(self.modifiers[i].as_str(), mods);
                assert(text_of(self.modifiers@)[i as int] == self.modifiers@[i as int]@);
                all = all && h;
                i += 1;
            }
            all
        };
        key_matches && modifiers_match
    }
}

/// The command of the first of `entries` whose binding matches `e`.
pub open spec fn first_bound(entries: Seq<(Seq<char>, BindingModel)>, e: KeyEvent) -> Option<Seq<char>>
    decreases entries.len(),
{
    if entries.len() == 0 {
        None
    } else if binding_matches(entries[0].1, e) {
        Some(entries[0].0)
    } else {
        first_bound(entries.drop_first(), e)
    }
}

/// What `first_bound` finds is the name of an entry whose binding matches `e`.
pub proof fn lemma_first_bound_entry(entries: Seq<(Seq<char>, BindingModel)>, e: KeyEvent)
    ensures
        first_bound(entries, e) matches Some(n) ==> exists|i: int|
            0 <= i < entries.len() && #[trigger] entries[i].0 == n && binding_matches(entries[i].1, e),
    decreases entries.len(),
{
    if entries.len() > 0 && !binding_matches(entries[0].1, e) {
        lemma_first_bound_entry(entries.drop_first(), e);
        if first_bound(entries, e) is Some {
            let n = first_bound(entries, e)->0;
            let i = choose|i: int|
                0 <= i < entries.drop_first().len() && #[trigger] entries.drop_first()[i].0 == n && binding_matches(
                    entries.drop_first()[i].1,
                    e,
                );
            assert(entries[i + 1] == entries.drop_first()[i]);
        }
    } else if entries.len() > 0 {
        assert(entries[0].0 == entries[0].0);
    }
}

/// Key bindings by command name. Names are unique; inserting a name again
/// replaces its binding in place.
pub struct CommandMap {
    entries: Vec<(String, KeyBinding)>,
}

impl CommandMap {
    /// The commands and their bindings, in the order they were first inserted.
    pub closed spec fn entries(&self) -> Seq<(Seq<char>, BindingModel)> {
        self.entries@.map_values(|e: (String, KeyBinding)| (e.0@, e.1@))
    }

    /// The binding of each command.
    pub open spec fn as_map(&self) -> Map<Seq<char>, BindingModel> {
        Map::new(
            |n: Seq<char>| exists|i: int| 0 <= i < self.entries().len() && self.entries()[i].0 == n,
            |n: Seq<char>|
                self.entries()[choose|i: int| 0 <= i < self.entries().len() && self.entries()[i].0 == n].1,
        )
    }

    /// Command names are unique.
    pub open spec fn wf(&self) -> bool {
        forall|i: int, j: int|
            0 <= i < j < self.entries().len() ==> self.entries()[i].0 != self.entries()[j].0
    }

    pub fn new() -> (m: Self)
        ensures
            m.wf(),
            m.entries().len() == 0,
            m.as_map() == Map::<Seq<char>, BindingModel>::empty(),
    {
        let m = CommandMap { entries: Vec::new() };
        assert(m.as_map() =~= Map::<Seq<char>, BindingModel>::empty());
        m
    }

    /// What `first_bound` finds in the table is a command of it whose binding
    /// matches `e`.
    pub proof fn lemma_first_bound_in_map(&self, e: KeyEvent)
        requires
            self.wf(),
        ensures
            first_bound(self.entries(), e) matches Some(n) ==> self.as_map().contains_key(n) && binding_matches(
                self.as_map()[n],
                e,
            ),
    {
        lemma_first_bound_entry(self.entries(), e);
        if first_bound(self.entries(), e) is Some {
            let n = first_bound(self.entries(), e)->0;
            let i = choose|i: int|
                0 <= i < self.entries().len() && #[trigger] self.entries()[i].0 == n && binding_matches(
                    self.entries()[i].1,
                    e,
                );
            assert(self.as_map().contains_key(n));
            let j = choose|j: int| 0 <= j < self.entries().len() && self.entries()[j].0 == n;
            assert(i == j);
        }
    }

    /// Number of commands.
    pub fn len(&self) -> (n: usize)
        ensures
            n == self.entries().len(),
    {
        self.entries.len()
    }

    /// Index of command `name`, if present.
    fn find(&self, name: &str) -> (r: Option<usize>)
        requires
            self.wf(),
        ensures
            match r {
                Some(i) => i < self.entries().len() && self.entries()[i as int].0 == name@,
                None => forall|i: int| 0 <= i < self.entries().len() ==> self.entries()[i].0 != name@,
            },
    {
        let mut i: usize = 0;
        while i < self.entries.len()
            invariant
                i <= self.entries@.len(),
                forall|k: int| 0 <= k < i ==> self.entries()[k].0 != name@,
            decreases self.entries.len() - i,
        {
            if same_text(self.entries[i].0.as_str(), name) {
                return Some(i);
            }
            i += 1;
        }
        None
    }

    /// Binds command `name` to `binding`, replacing an earlier binding of it.
    pub fn insert(&mut self, name: String, binding: KeyBinding)
        requires
            old(self).wf(),
        ensures
            final(self).wf(),
            final(self).as_map() == old(self).as_map().insert(name@, binding@),
    {
        let ghost n = name@;
        let ghost b = binding@;
        let ghost old_entries = self.entries();
        let ghost mut pos: int = 0;
        match self.find(name.as_str()) {
            Some(i) => {
                self.entries.set(i, (name, binding));
                assert(self.entries() =~= old_entries.update(i as int, (n, b)));
                proof {
                    pos = i as int;
                }
            },
            None => {
                self.entries.push((name, binding));
                assert(self.entries() =~= old_entries.push((n, b)));
                proof {
                    pos = old_entries.len() as int;
                }
            },
        }
        proof {
            let e = self.entries();
            assert forall|k: Seq<char>| #[trigger] self.as_map().contains_key(k) implies self.as_map()[k]
                == old(self).as_map().insert(n, b)[k] by {
                let i = choose|i: int| 0 <= i < e.len() && e[i].0 == k;
                if k != n {
                    assert(old_entries[i].0 == k);
                    let j = choose|j: int| 0 <= j < old_entries.len() && old_entries[j].0 == k;
                    if i != j {
                        assert(e[j].0 == k);
                    }
                }
            }
            assert forall|k: Seq<char>| old(self).as_map().insert(n, b).contains_key(k) implies #[trigger] self.as_map().contains_key(k) by {
                if k != n {
                    let j = choose|j: int| 0 <= j < old_entries.len() && old_entries[j].0 == k;
                    assert(e[j].0 == k);
                } else {
                    assert(e[pos].0 == n);
                }
            }
            assert(self.as_map() =~= old(self).as_map().insert(n, b));
        }
    }

    /// The binding of command `name`, if it has one.
    pub fn get(&self, name: &str) -> (r: Option<&KeyBinding>)
        requires
            self.wf(),
        ensures
            match r {
                Some(b) => self.as_map().contains_key(name@) && b@ == self.as_map()[name@],
                None => !self.as_map().contains_key(name@),
            },
    {
        match self.find(name) {
            Some(i) => {
                proof {
                    let j = choose|j: int| 0 <= j < self.entries().len() && self.entries()[j].0 == name@;
                    assert(j == i as int);
                }
                Some(&self.entries[i].1)
            },
            None => None,
        }
    }

    /// The first command, in insertion order, whose binding matches `event`.
    pub fn matching(&self, event: &KeyEvent) -> (r: Option<&String>)
        ensures
            match r {
                Some(n) => first_bound(self.entries(), *event) == Some(n@),
                None => first_bound(self.entries(), *event) is None,
            },
    {
        let mut i: usize = 0;
        assert(self.entries().skip(0) =~= self.entries());
        while i < self.entries.len()
            invariant
                i <= self.entries@.len(),
                first_bound(self.entries(), *event) == first_bound(self.entries().skip(i as int), *event),
            decreases self.entries.len() - i,
        {
            assert(self.entries().skip(i as int)[0] == self.entries()[i as int]);
            assert(self.entries().skip(i as int).drop_first() =~= self.entries().skip(i + 1));
            if self.entries[i].1.matches(event) {
                return Some(&self.entries[i].0);
            }
            i += 1;
        }
        None
    }

    /// The command name and binding at position `i` (in insertion order).
    pub fn entry(&self, i: usize) -> (r: (&String, &KeyBinding))
        requires
            i < self.entries().len(),
        ensures
            r.0@ == self.entries()[i as int].0,
            r.1@ == self.entries()[i as int].1,
    {
        (&self.entries[i].0, &self.entries[i].1)
    }
}

} // verus!

verus! {

/// A binding of `key` with no modifier.
pub open spec fn plain(key: Seq<char>) -> BindingModel {
    binding(key, Seq::empty())
}

/// A binding of `key` with control held.
pub open spec fn with_ctrl(key: Seq<char>) -> BindingModel {
    binding(key, seq!["ctrl"@])
}

/// The default bindings of normal mode.
pub open spec fn default_normal_mode() -> Map<Seq<char>, BindingModel> {
    Map::empty()
        .insert("quit"@, plain("q"@))
        .insert("insert_mode"@, plain("i"@))
        .insert("save_file"@, plain("w"@))
        .insert("reload_file"@, plain("e"@))
        .insert("save_and_quit"@, plain("X"@))
        .insert("delete_char"@, plain("x"@))
        .insert("snake_game"@, plain("s"@))
        .insert("open_line_below"@, plain("o"@))
        .insert("open_line_above"@, plain("O"@))
        .insert("move_left"@, plain("h"@))
        .insert("move_down"@, plain("j"@))
        .insert("move_up"@, plain("k"@))
        .insert("move_right"@, plain("l"@))
        .insert("undo"@, plain("u"@))
        .insert("redo"@, with_ctrl("r"@))
        .insert("find_file"@, with_ctrl("o"@))
        .insert("token_search"@, with_ctrl("t"@))
        .insert("move_to_line_start"@, plain("^"@))
        .insert("move_to_line_end"@, plain("$"@))
        .insert("move_to_file_start"@, plain("g"@))
        .insert("move_to_file_end"@, plain("G"@))
        .insert("page_up"@, with_ctrl("b"@))
        .insert("page_down"@, with_ctrl("f"@))
        .insert("run_cargo_check"@, with_ctrl("d"@))
        .insert("run_cargo_clippy"@, with_ctrl("y"@))
        .insert("new_tab"@, with_ctrl("n"@))
        .insert("close_tab"@, with_ctrl("w"@))
        .insert("next_tab"@, with_ctrl("right"@))
        .insert("prev_tab"@, with_ctrl("left"@))
        .insert("goto_tab_1"@, plain("f1"@))
        .insert("goto_tab_2"@, plain("f2"@))
        .insert("goto_tab_3"@, plain("f3"@))
        .insert("goto_tab_4"@, plain("f4"@))
        .insert("goto_tab_5"@, plain("f5"@))
        .insert("goto_tab_6"@, plain("f6"@))
        .insert("goto_tab_7"@, plain("f7"@))
        .insert("goto_tab_8"@, plain("f8"@))
        .insert("goto_tab_9"@, plain("f9"@))
        .insert("goto_tab_10"@, plain("f10"@))
        .insert("goto_tab_11"@, plain("f11"@))
        .insert("goto_tab_12"@, plain("f12"@))
        .insert("show_help"@, with_ctrl("h"@))
}

/// The default bindings of insert mode.
pub open spec fn default_insert_mode() -> Map<Seq<char>, BindingModel> {
    Map::empty()
        .insert("normal_mode"@, plain("esc"@))
}

/// The default bindings of command mode.
pub open spec fn default_command_mode() -> Map<Seq<char>, BindingModel> {
    Map::empty()
        .insert("normal_mode"@, plain("esc"@))
}

/// The default bindings of file finder mode.
pub open spec fn default_file_finder_mode() -> Map<Seq<char>, BindingModel> {
    Map::empty()
        .insert("cancel"@, plain("esc"@))
        .insert("select"@, plain("enter"@))
        .insert("next"@, plain("down"@))
        .insert("previous"@, plain("up"@))
}

/// The default bindings of token search mode.
pub open spec fn default_token_search_mode() -> Map<Seq<char>, BindingModel> {
    Map::empty()
        .insert("cancel"@, plain("esc"@))
        .insert("select"@, plain("enter"@))
        .insert("next"@, plain("down"@))
        .insert("previous"@, plain("up"@))
}

/// The default bindings of help mode.
pub open spec fn default_help_mode() -> Map<Seq<char>, BindingModel> {
    Map::empty()
        .insert("normal_mode"@, plain("esc"@))
}

/// The key bindings of each mode, by command name.
pub struct KeyBindings {
    pub normal_mode: CommandMap,
    pub insert_mode: CommandMap,
    pub command_mode: CommandMap,
    pub file_finder_mode: CommandMap,
    pub token_search_mode: CommandMap,
    pub help_mode: CommandMap,
}

impl KeyBindings {
    /// Every mode's table has unique command names.
    pub open spec fn wf(&self) -> bool {
        &&& self.normal_mode.wf()
        &&& self.insert_mode.wf()
        &&& self.command_mode.wf()
        &&& self.file_finder_mode.wf()
        &&& self.token_search_mode.wf()
        &&& self.help_mode.wf()
    }
}

/// The default bindings of normal mode, as a table.
#[verifier::rlimit(60)]
fn default_normal_mode_table() -> (m: CommandMap)
    ensures
        m.wf(),
        m.as_map() == default_normal_mode(),
{
    let mut normal_mode = CommandMap::new();
    normal_mode.insert("quit".to_owned(), KeyBinding::new("q"));
    normal_mode.insert("insert_mode".to_owned(), KeyBinding::new("i"));
    normal_mode.insert("save_file".to_owned(), KeyBinding::new("w"));
    normal_mode.insert("reload_file".to_owned(), KeyBinding::new("e"));
    normal_mode.insert("save_and_quit".to_owned(), KeyBinding::new("X"));
    normal_mode.insert("delete_char".to_owned(), KeyBinding::new("x"));
    normal_mode.insert("snake_game".to_owned(), KeyBinding::new("s"));
    normal_mode.insert("open_line_below".to_owned(), KeyBinding::new("o"));
    normal_mode.insert("open_line_above".to_owned(), KeyBinding::new("O"));
    normal_mode.insert("move_left".to_owned(), KeyBinding::new("h"));
    normal_mode.insert("move_down".to_owned(), KeyBinding::new("j"));
    normal_mode.insert("move_up".to_owned(), KeyBinding::new("k"));
    normal_mode.insert("move_right".to_owned(), KeyBinding::new("l"));
    normal_mode.insert("undo".to_owned(), KeyBinding::new("u"));
    normal_mode.insert("redo".to_owned(), KeyBinding::new("r").with_modifier("ctrl"));
    normal_mode.insert("find_file".to_owned(), KeyBinding::new("o").with_modifier("ctrl"));
    normal_mode.insert("token_search".to_owned(), KeyBinding::new("t").with_modifier("ctrl"));
    normal_mode.insert("move_to_line_start".to_owned(), KeyBinding::new("^"));
    normal_mode.insert("move_to_line_end".to_owned(), KeyBinding::new("$"));
    normal_mode.insert("move_to_file_start".to_owned(), KeyBinding::new("g"));
    normal_mode.insert("move_to_file_end".to_owned(), KeyBinding::new("G"));
    normal_mode.insert("page_up".to_owned(), KeyBinding::new("b").with_modifier("ctrl"));
    normal_mode.insert("page_down".to_owned(), KeyBinding::new("f").with_modifier("ctrl"));
    normal_mode.insert("run_cargo_check".to_owned(), KeyBinding::new("d").with_modifier("ctrl"));
    normal_mode.insert("run_cargo_clippy".to_owned(), KeyBinding::new("y").with_modifier("ctrl"));
    normal_mode.insert("new_tab".to_owned(), KeyBinding::new("n").with_modifier("ctrl"));
    normal_mode.insert("close_tab".to_owned(), KeyBinding::new("w").with_modifier("ctrl"));
    normal_mode.insert("next_tab".to_owned(), KeyBinding::new("right").with_modifier("ctrl"));
    normal_mode.insert("prev_tab".to_owned(), KeyBinding::new("left").with_modifier("ctrl"));
    normal_mode.insert("goto_tab_1".to_owned(), KeyBinding::new("f1"));
    normal_mode.insert("goto_tab_2".to_owned(), KeyBinding::new("f2"));
    normal_mode.insert("goto_tab_3".to_owned(), KeyBinding::new("f3"));
    normal_mode.insert("goto_tab_4".to_owned(), KeyBinding::new("f4"));
    normal_mode.insert("goto_tab_5".to_owned(), KeyBinding::new("f5"));
    normal_mode.insert("goto_tab_6".to_owned(), KeyBinding::new("f6"));
    normal_mode.insert("goto_tab_7".to_owned(), KeyBinding::new("f7"));
    normal_mode.insert("goto_tab_8".to_owned(), KeyBinding::new("f8"));
    normal_mode.insert("goto_tab_9".to_owned(), KeyBinding::new("f9"));
    normal_mode.insert("goto_tab_10".to_owned(), KeyBinding::new("f10"));
    normal_mode.insert("goto_tab_11".to_owned(), KeyBinding::new("f11"));
    normal_mode.insert("goto_tab_12".to_owned(), KeyBinding::new("f12"));
    normal_mode.insert("show_help".to_owned(), KeyBinding::new("h").with_modifier("ctrl"));
    assert(normal_mode.as_map() =~= default_normal_mode());
    normal_mode
}

/// The default bindings of insert mode, as a table.
#[verifier::rlimit(60)]
fn default_insert_mode_table() -> (m: CommandMap)
    ensures
        m.wf(),
        m.as_map() == default_insert_mode(),
{
    let mut insert_mode = CommandMap::new();
    insert_mode.insert("normal_mode".to_owned(), KeyBinding::new("esc"));
    assert(insert_mode.as_map() =~= default_insert_mode());
    insert_mode
}

/// The default bindings of command mode, as a table.
#[verifier::rlimit(60)]
fn default_command_mode_table() -> (m: CommandMap)
    ensures
        m.wf(),
        m.as_map() == default_command_mode(),
{
    let mut command_mode = CommandMap::new();
    command_mode.insert("normal_mode".to_owned(), KeyBinding::new("esc"));
    assert(command_mode.as_map() =~= default_command_mode());
    command_mode
}

/// The default bindings of file finder mode, as a table.
#[verifier::rlimit(60)]
fn default_file_finder_mode_table() -> (m: CommandMap)
    ensures
        m.wf(),
        m.as_map() == default_file_finder_mode(),
{
    let mut file_finder_mode = CommandMap::new();
    file_finder_mode.insert("cancel".to_owned(), KeyBinding::new("esc"));
    file_finder_mode.insert("select".to_owned(), KeyBinding::new("enter"));
    file_finder_mode.insert("next".to_owned(), KeyBinding::new("down"));
    file_finder_mode.insert("previous".to_owned(), KeyBinding::new("up"));
    assert(file_finder_mode.as_map() =~= default_file_finder_mode());
    file_finder_mode
}

/// The default bindings of token search mode, as a table.
#[verifier::rlimit(60)]
fn default_token_search_mode_table() -> (m: CommandMap)
    ensures
        m.wf(),
        m.as_map() == default_token_search_mode(),
{
    let mut token_search_mode = CommandMap::new();
    token_search_mode.insert("cancel".to_owned(), KeyBinding::new("esc"));
    token_search_mode.insert("select".to_owned(), KeyBinding::new("enter"));
    token_search_mode.insert("next".to_owned(), KeyBinding::new("down"));
    token_search_mode.insert("previous".to_owned(), KeyBinding::new("up"));
    assert(token_search_mode.as_map() =~= default_token_search_mode());
    token_search_mode
}

/// The default bindings of help mode, as a table.
#[verifier::rlimit(60)]
fn default_help_mode_table() -> (m: CommandMap)
    ensures
        m.wf(),
        m.as_map() == default_help_mode(),
{
    let mut help_mode = CommandMap::new();
    help_mode.insert("normal_mode".to_owned(), KeyBinding::new("esc"));
    assert(help_mode.as_map() =~= default_help_mode());
    help_mode
}

impl Default for KeyBindings {
    /// The bindings listed in the README.
    fn default() -> (r: Self)
        ensures
            r.wf(),
            r.normal_mode.as_map() == default_normal_mode(),
            r.insert_mode.as_map() == default_insert_mode(),
            r.command_mode.as_map() == default_command_mode(),
            r.file_finder_mode.as_map() == default_file_finder_mode(),
            r.token_search_mode.as_map() == default_token_search_mode(),
            r.help_mode.as_map() == default_help_mode(),
    {
        KeyBindings {
            normal_mode: default_normal_mode_table(),
            insert_mode: default_insert_mode_table(),
            command_mode: default_command_mode_table(),
            file_finder_mode: default_file_finder_mode_table(),
            token_search_mode: default_token_search_mode_table(),
            help_mode: default_help_mode_table(),
        }
    }
}

} // verus!
