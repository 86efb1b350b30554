//! Laws of the default key bindings of normal mode: each binding name runs a
//! command of its own, and each default binding runs what its key means to the
//! editor built in.

use vstd::prelude::*;
use super::commands::{NormalCommand, named_command, builtin_command};
use crate::config::key_bindings::{BindingModel, binding_matches, default_normal_mode, key_name, plain, with_ctrl};
use crate::keys::{KeyCode, KeyEvent, KeyModifiers};
use crate::text::{decimal, digit_char};

verus! {

/// Two different binding names never run the same command (unknown names run nothing).
pub proof fn different_names_run_different_commands(a: Seq<char>, b: Seq<char>)
    requires
        named_command(a) == named_command(b),
        named_command(a) != NormalCommand::Nothing,
    ensures
        a == b,
{
}

/// The lengths of the command names, and the characters that tell apart
/// the names of one length.
proof fn lemma_command_names()
    ensures
        "quit"@.len() == 4,
        "quit"@[0] == 'q',
        "insert_mode"@.len() == 11,
        "insert_mode"@[0] == 'i',
        "save_file"@.len() == 9,
        "save_file"@[0] == 's',
        "save_file"@[1] == 'a',
        "snake_game"@.len() == 10,
        "snake_game"@[0] == 's',
        "reload_file"@.len() == 11,
        "reload_file"@[0] == 'r',
        "move_left"@.len() == 9,
        "move_left"@[0] == 'm',
        "move_left"@[5] == 'l',
        "move_down"@.len() == 9,
        "move_down"@[0] == 'm',
        "move_down"@[5] == 'd',
        "move_up"@.len() == 7,
        "move_up"@[0] == 'm',
        "move_right"@.len() == 10,
        "move_right"@[0] == 'm',
        "move_to_line_start"@.len() == 18,
        "move_to_line_start"@[8] == 'l',
        "move_to_line_end"@.len() == 16,
        "move_to_line_end"@[0] == 'm',
        "move_to_line_end"@[8] == 'l',
        "move_to_file_start"@.len() == 18,
        "move_to_file_start"@[8] == 'f',
        "move_to_file_end"@.len() == 16,
        "move_to_file_end"@[0] == 'm',
        "move_to_file_end"@[8] == 'f',
        "page_up"@.len() == 7,
        "page_up"@[0] == 'p',
        "page_down"@.len() == 9,
        "page_down"@[0] == 'p',
        "run_cargo_check"@.len() == 15,
        "run_cargo_check"@[0] == 'r',
        "run_cargo_clippy"@.len() == 16,
        "run_cargo_clippy"@[0] == 'r',
        "new_tab"@.len() == 7,
        "new_tab"@[0] == 'n',
        "close_tab"@.len() == 9,
        "close_tab"@[0] == 'c',
        "save_and_quit"@.len() == 13,
        "next_tab"@.len() == 8,
        "next_tab"@[0] == 'n',
        "prev_tab"@.len() == 8,
        "prev_tab"@[0] == 'p',
        "goto_tab_1"@.len() == 10,
        "goto_tab_1"@[0] == 'g',
        "goto_tab_1"@[9] == '1',
        "goto_tab_2"@.len() == 10,
        "goto_tab_2"@[0] == 'g',
        "goto_tab_2"@[9] == '2',
        "goto_tab_3"@.len() == 10,
        "goto_tab_3"@[0] == 'g',
        "goto_tab_3"@[9] == '3',
        "goto_tab_4"@.len() == 10,
        "goto_tab_4"@[0] == 'g',
        "goto_tab_4"@[9] == '4',
        "goto_tab_5"@.len() == 10,
        "goto_tab_5"@[0] == 'g',
        "goto_tab_5"@[9] == '5',
        "goto_tab_6"@.len() == 10,
        "goto_tab_6"@[0] == 'g',
        "goto_tab_6"@[9] == '6',
        "goto_tab_7"@.len() == 10,
        "goto_tab_7"@[0] == 'g',
        "goto_tab_7"@[9] == '7',
        "goto_tab_8"@.len() == 10,
        "goto_tab_8"@[0] == 'g',
        "goto_tab_8"@[9] == '8',
        "goto_tab_9"@.len() == 10,
        "goto_tab_9"@[0] == 'g',
        "goto_tab_9"@[9] == '9',
        "goto_tab_10"@.len() == 11,
        "goto_tab_10"@[0] == 'g',
        "goto_tab_10"@[10] == '0',
        "goto_tab_11"@.len() == 11,
        "goto_tab_11"@[0] == 'g',
        "goto_tab_11"@[10] == '1',
        "goto_tab_12"@.len() == 11,
        "goto_tab_12"@[0] == 'g',
        "goto_tab_12"@[10] == '2',
        "show_help"@.len() == 9,
        "show_help"@[0] == 's',
        "show_help"@[1] == 'h',
        "find_file"@.len() == 9,
        "find_file"@[0] == 'f',
        "token_search"@.len() == 12,
        "delete_line"@.len() == 11,
        "delete_line"@[0] == 'd',
        "delete_line"@[7] == 'l',
        "delete_char"@.len() == 11,
        "delete_char"@[0] == 'd',
        "delete_char"@[7] == 'c',
        "undo"@.len() == 4,
        "undo"@[0] == 'u',
        "redo"@.len() == 4,
        "redo"@[0] == 'r',
        "open_line_below"@.len() == 15,
        "open_line_below"@[0] == 'o',
        "open_line_below"@[10] == 'b',
        "open_line_above"@.len() == 15,
        "open_line_above"@[0] == 'o',
        "open_line_above"@[10] == 'a',
{
    reveal_strlit("quit");
    reveal_strlit("insert_mode");
    reveal_strlit("save_file");
    reveal_strlit("snake_game");
    reveal_strlit("reload_file");
    reveal_strlit("move_left");
    reveal_strlit("move_down");
    reveal_strlit("move_up");
    reveal_strlit("move_right");
    reveal_strlit("move_to_line_start");
    reveal_strlit("move_to_line_end");
    reveal_strlit("move_to_file_start");
    reveal_strlit("move_to_file_end");
    reveal_strlit("page_up");
    reveal_strlit("page_down");
    reveal_strlit("run_cargo_check");
    reveal_strlit("run_cargo_clippy");
    reveal_strlit("new_tab");
    reveal_strlit("close_tab");
    reveal_strlit("save_and_quit");
    reveal_strlit("next_tab");
    reveal_strlit("prev_tab");
    reveal_strlit("goto_tab_1");
    reveal_strlit("goto_tab_2");
    reveal_strlit("goto_tab_3");
    reveal_strlit("goto_tab_4");
    reveal_strlit("goto_tab_5");
    reveal_strlit("goto_tab_6");
    reveal_strlit("goto_tab_7");
    reveal_strlit("goto_tab_8");
    reveal_strlit("goto_tab_9");
    reveal_strlit("goto_tab_10");
    reveal_strlit("goto_tab_11");
    reveal_strlit("goto_tab_12");
    reveal_strlit("show_help");
    reveal_strlit("find_file");
    reveal_strlit("token_search");
    reveal_strlit("delete_line");
    reveal_strlit("delete_char");
    reveal_strlit("undo");
    reveal_strlit("redo");
    reveal_strlit("open_line_below");
    reveal_strlit("open_line_above");
}

/// The lengths and first characters of the names of keys that are not characters.
proof fn lemma_key_names()
    ensures
        "enter"@.len() == 5,
        "enter"@[0] == 'e',
        "tab"@.len() == 3,
        "tab"@[0] == 't',
        "backspace"@.len() == 9,
        "backspace"@[0] == 'b',
        "esc"@.len() == 3,
        "esc"@[0] == 'e',
        "left"@.len() == 4,
        "left"@[0] == 'l',
        "right"@.len() == 5,
        "right"@[0] == 'r',
        "up"@.len() == 2,
        "up"@[0] == 'u',
        "down"@.len() == 4,
        "down"@[0] == 'd',
        "home"@.len() == 4,
        "home"@[0] == 'h',
        "end"@.len() == 3,
        "end"@[0] == 'e',
        "pageup"@.len() == 6,
        "pageup"@[0] == 'p',
        "pagedown"@.len() == 8,
        "pagedown"@[0] == 'p',
        "delete"@.len() == 6,
        "delete"@[0] == 'd',
        "insert"@.len() == 6,
        "insert"@[0] == 'i',
        "f"@.len() == 1,
        "f"@[0] == 'f',
        "ctrl"@.len() == 4,
        "alt"@.len() == 3,
        "shift"@.len() == 5,
{
    reveal_strlit("enter");
    reveal_strlit("tab");
    reveal_strlit("backspace");
    reveal_strlit("esc");
    reveal_strlit("left");
    reveal_strlit("right");
    reveal_strlit("up");
    reveal_strlit("down");
    reveal_strlit("home");
    reveal_strlit("end");
    reveal_strlit("pageup");
    reveal_strlit("pagedown");
    reveal_strlit("delete");
    reveal_strlit("insert");
    reveal_strlit("f");
    reveal_strlit("ctrl");
    reveal_strlit("alt");
    reveal_strlit("shift");
}

/// A number has at least one digit, and one of ten or more has at least two.
proof fn lemma_decimal_len(n: nat)
    ensures
        decimal(n).len() >= 1,
        n >= 10 ==> decimal(n).len() >= 2,
{
    if n >= 10 {
        assert(decimal(n / 10).len() >= 1);
    }
}

/// Different numbers are written with different digits.
proof fn lemma_decimal_injective(a: nat, b: nat)
    requires
        decimal(a) == decimal(b),
    ensures
        a == b,
    decreases a,
{
    lemma_decimal_len(a);
    lemma_decimal_len(b);
    if a < 10 && b < 10 {
        assert(decimal(a)[0] == digit_char(a));
        assert(decimal(b)[0] == digit_char(b));
    } else if a >= 10 && b >= 10 {
        let da = decimal(a / 10);
        let db = decimal(b / 10);
        assert(da =~= decimal(a).drop_last());
        assert(db =~= decimal(b).drop_last());
        lemma_decimal_injective(a / 10, b / 10);
        assert(decimal(a).last() == digit_char(a % 10));
        assert(decimal(b).last() == digit_char(b % 10));
    }
}

/// A key whose name is one character long is that character.
proof fn lemma_char_key(code: KeyCode, s: Seq<char>)
    requires
        key_name(code) == Some(s),
        s.len() == 1,
    ensures
        code == KeyCode::Char(s[0]),
{
    lemma_key_names();
    match code {
        KeyCode::Char(c) => {
            assert(seq![c][0] == c);
        },
        KeyCode::F(n) => {
            lemma_decimal_len(n as nat);
            assert(("f"@ + decimal(n as nat)).len() >= 2);
        },
        _ => {},
    }
}

/// The keys named `right` and `left` are the arrow keys.
proof fn lemma_arrow_key(code: KeyCode, s: Seq<char>)
    requires
        key_name(code) == Some(s),
    ensures
        s == "right"@ ==> code == KeyCode::Right,
        s == "left"@ ==> code == KeyCode::Left,
{
    lemma_key_names();
    reveal_strlit("right");
    reveal_strlit("left");
    match code {
        KeyCode::F(n) => {
            assert(("f"@ + decimal(n as nat))[0] == 'f');
        },
        _ => {},
    }
}

/// The key named `f` and the digits of `k` is the function key `k`.
proof fn lemma_function_key(code: KeyCode, k: nat)
    requires
        k < 256,
        key_name(code) == Some("f"@ + decimal(k)),
    ensures
        code == KeyCode::F(k as u8),
{
    lemma_key_names();
    lemma_decimal_len(k);
    let s = "f"@ + decimal(k);
    assert(s[0] == 'f');
    match code {
        KeyCode::Char(c) => {
            assert(seq![c].len() == 1);
        },
        KeyCode::F(n) => {
            assert(("f"@ + decimal(n as nat)).skip(1) =~= decimal(n as nat));
            assert(s.skip(1) =~= decimal(k));
            lemma_decimal_injective(n as nat, k);
        },
        _ => {},
    }
}

/// Whether the held modifiers `m` are exactly those that `names` lists.
pub open spec fn held_exactly(names: Seq<Seq<char>>, m: KeyModifiers) -> bool {
    &&& m.control == names.contains("ctrl"@)
    &&& m.alt == names.contains("alt"@)
    &&& m.shift == names.contains("shift"@)
}

/// Whether each key press that `b` matches, with no modifier held but those
/// that `b` lists, means through the name `name` what it means built in.
spec fn runs_built_in(name: Seq<char>, b: BindingModel) -> bool {
    forall|e: KeyEvent|
        binding_matches(b, e) && held_exactly(b.modifiers, e.modifiers) ==> #[trigger] builtin_command(e)
            == named_command(name)
}

/// Whether every binding of `m` but that of `reload_file` runs what its key means built in.
spec fn all_run_built_in(m: Map<Seq<char>, BindingModel>) -> bool {
    forall|n: Seq<char>| #[trigger] m.contains_key(n) && n != "reload_file"@ ==> runs_built_in(n, m[n])
}

proof fn lemma_runs_built_in_insert(m: Map<Seq<char>, BindingModel>, k: Seq<char>, v: BindingModel)
    requires
        all_run_built_in(m),
        k != "reload_file"@ ==> runs_built_in(k, v),
    ensures
        all_run_built_in(m.insert(k, v)),
{
    assert forall|n: Seq<char>| #[trigger] m.insert(k, v).contains_key(n) && n != "reload_file"@ implies runs_built_in(
        n,
        m.insert(k, v)[n],
    ) by {
        if n != k {
            assert(m.contains_key(n));
        }
    }
}

/// No modifier is listed in a binding without modifiers, and only control in
/// one with control.
proof fn lemma_modifier_lists()
    ensures
        !Seq::<Seq<char>>::empty().contains("ctrl"@),
        !Seq::<Seq<char>>::empty().contains("alt"@),
        !Seq::<Seq<char>>::empty().contains("shift"@),
        seq!["ctrl"@].contains("ctrl"@),
        !seq!["ctrl"@].contains("alt"@),
        !seq!["ctrl"@].contains("shift"@),
{
    lemma_key_names();
    assert(seq!["ctrl"@][0] == "ctrl"@);
}

/// The binding of the character key `c` alone runs through `name` what `c` means built in.
proof fn lemma_plain_char(name: Seq<char>, key: Seq<char>, c: char)
    requires
        key.len() == 1,
        key[0] == c,
        builtin_command(KeyEvent { code: KeyCode::Char(c), modifiers: KeyModifiers { control: false, alt: false, shift: false } })
            == named_command(name),
    ensures
        runs_built_in(name, plain(key)),
{
    lemma_modifier_lists();
    assert forall|e: KeyEvent| binding_matches(plain(key), e) && held_exactly(plain(key).modifiers, e.modifiers) implies #[trigger] builtin_command(e)
        == named_command(name) by {
        lemma_char_key(e.code, key);
    }
}

/// The binding of control and the character key `c` runs through `name` what it means built in.
proof fn lemma_ctrl_char(name: Seq<char>, key: Seq<char>, c: char)
    requires
        key.len() == 1,
        key[0] == c,
        builtin_command(KeyEvent { code: KeyCode::Char(c), modifiers: KeyModifiers { control: true, alt: false, shift: false } })
            == named_command(name),
    ensures
        runs_built_in(name, with_ctrl(key)),
{
    lemma_modifier_lists();
    assert forall|e: KeyEvent| binding_matches(with_ctrl(key), e) && held_exactly(with_ctrl(key).modifiers, e.modifiers) implies #[trigger] builtin_command(e)
        == named_command(name) by {
        lemma_char_key(e.code, key);
    }
}

/// The binding of control and an arrow key runs through `name` what it means built in.
proof fn lemma_ctrl_arrow(name: Seq<char>, key: Seq<char>)
    requires
        key == "right"@ || key == "left"@,
        key == "right"@ ==> builtin_command(KeyEvent { code: KeyCode::Right, modifiers: KeyModifiers { control: true, alt: false, shift: false } })
            == named_command(name),
        key == "left"@ ==> builtin_command(KeyEvent { code: KeyCode::Left, modifiers: KeyModifiers { control: true, alt: false, shift: false } })
            == named_command(name),
    ensures
        runs_built_in(name, with_ctrl(key)),
{
    lemma_modifier_lists();
    assert forall|e: KeyEvent| binding_matches(with_ctrl(key), e) && held_exactly(with_ctrl(key).modifiers, e.modifiers) implies #[trigger] builtin_command(e)
        == named_command(name) by {
        lemma_arrow_key(e.code, key);
    }
}

/// The binding of the function key `k` alone runs through `name` what it means built in.
proof fn lemma_function_entry(name: Seq<char>, key: Seq<char>, k: nat)
    requires
        k < 256,
        key == "f"@ + decimal(k),
        builtin_command(KeyEvent { code: KeyCode::F(k as u8), modifiers: KeyModifiers { control: false, alt: false, shift: false } })
            == named_command(name),
    ensures
        runs_built_in(name, plain(key)),
{
    lemma_modifier_lists();
    assert forall|e: KeyEvent| binding_matches(plain(key), e) && held_exactly(plain(key).modifiers, e.modifiers) implies #[trigger] builtin_command(e)
        == named_command(name) by {
        lemma_function_key(e.code, k);
    }
}

/// Every default binding of normal mode but that of `reload_file` runs what its key means built in.
proof fn lemma_default_normal_mode_runs_built_in()
    ensures
        all_run_built_in(default_normal_mode()),
{
    lemma_command_names();
    lemma_key_names();
    let m0 = Map::<Seq<char>, BindingModel>::empty();
    reveal_strlit("q");
    lemma_plain_char("quit"@, "q"@, 'q');
    lemma_runs_built_in_insert(m0, "quit"@, plain("q"@));
    let m1 = m0.insert("quit"@, plain("q"@));
    reveal_strlit("i");
    lemma_plain_char("insert_mode"@, "i"@, 'i');
    lemma_runs_built_in_insert(m1, "insert_mode"@, plain("i"@));
    let m2 = m1.insert("insert_mode"@, plain("i"@));
    reveal_strlit("w");
    lemma_plain_char("save_file"@, "w"@, 'w');
    lemma_runs_built_in_insert(m2, "save_file"@, plain("w"@));
    let m3 = m2.insert("save_file"@, plain("w"@));
    lemma_runs_built_in_insert(m3, "reload_file"@, plain("e"@));
    let m4 = m3.insert("reload_file"@, plain("e"@));
    reveal_strlit("X");
    lemma_plain_char("save_and_quit"@, "X"@, 'X');
    lemma_runs_built_in_insert(m4, "save_and_quit"@, plain("X"@));
    let m5 = m4.insert("save_and_quit"@, plain("X"@));
    reveal_strlit("x");
    lemma_plain_char("delete_char"@, "x"@, 'x');
    lemma_runs_built_in_insert(m5, "delete_char"@, plain("x"@));
    let m6 = m5.insert("delete_char"@, plain("x"@));
    reveal_strlit("s");
    lemma_plain_char("snake_game"@, "s"@, 's');
    lemma_runs_built_in_insert(m6, "snake_game"@, plain("s"@));
    let m7 = m6.insert("snake_game"@, plain("s"@));
    reveal_strlit("o");
    lemma_plain_char("open_line_below"@, "o"@, 'o');
    lemma_runs_built_in_insert(m7, "open_line_below"@, plain("o"@));
    let m8 = m7.insert("open_line_below"@, plain("o"@));
    reveal_strlit("O");
    lemma_plain_char("open_line_above"@, "O"@, 'O');
    lemma_runs_built_in_insert(m8, "open_line_above"@, plain("O"@));
    let m9 = m8.insert("open_line_above"@, plain("O"@));
    reveal_strlit("h");
    lemma_plain_char("move_left"@, "h"@, 'h');
    lemma_runs_built_in_insert(m9, "move_left"@, plain("h"@));
    let m10 = m9.insert("move_left"@, plain("h"@));
    reveal_strlit("j");
    lemma_plain_char("move_down"@, "j"@, 'j');
    lemma_runs_built_in_insert(m10, "move_down"@, plain("j"@));
    let m11 = m10.insert("move_down"@, plain("j"@));
    reveal_strlit("k");
    lemma_plain_char("move_up"@, "k"@, 'k');
    lemma_runs_built_in_insert(m11, "move_up"@, plain("k"@));
    let m12 = m11.insert("move_up"@, plain("k"@));
    reveal_strlit("l");
    lemma_plain_char("move_right"@, "l"@, 'l');
    lemma_runs_built_in_insert(m12, "move_right"@, plain("l"@));
    let m13 = m12.insert("move_right"@, plain("l"@));
    reveal_strlit("u");
    lemma_plain_char("undo"@, "u"@, 'u');
    lemma_runs_built_in_insert(m13, "undo"@, plain("u"@));
    let m14 = m13.insert("undo"@, plain("u"@));
    reveal_strlit("r");
    lemma_ctrl_char("redo"@, "r"@, 'r');
    lemma_runs_built_in_insert(m14, "redo"@, with_ctrl("r"@));
    let m15 = m14.insert("redo"@, with_ctrl("r"@));
    reveal_strlit("o");
    lemma_ctrl_char("find_file"@, "o"@, 'o');
    lemma_runs_built_in_insert(m15, "find_file"@, with_ctrl("o"@));
    let m16 = m15.insert("find_file"@, with_ctrl("o"@));
    reveal_strlit("t");
    lemma_ctrl_char("token_search"@, "t"@, 't');
    lemma_runs_built_in_insert(m16, "token_search"@, with_ctrl("t"@));
    let m17 = m16.insert("token_search"@, with_ctrl("t"@));
    reveal_strlit("^");
    lemma_plain_char("move_to_line_start"@, "^"@, '^');
    lemma_runs_built_in_insert(m17, "move_to_line_start"@, plain("^"@));
    let m18 = m17.insert("move_to_line_start"@, plain("^"@));
    reveal_strlit("$");
    lemma_plain_char("move_to_line_end"@, "$"@, '$');
    lemma_runs_built_in_insert(m18, "move_to_line_end"@, plain("$"@));
    let m19 = m18.insert("move_to_line_end"@, plain("$"@));
    reveal_strlit("g");
    lemma_plain_char("move_to_file_start"@, "g"@, 'g');
    lemma_runs_built_in_insert(m19, "move_to_file_start"@, plain("g"@));
    let m20 = m19.insert("move_to_file_start"@, plain("g"@));
    reveal_strlit("G");
    lemma_plain_char("move_to_file_end"@, "G"@, 'G');
    lemma_runs_built_in_insert(m20, "move_to_file_end"@, plain("G"@));
    let m21 = m20.insert("move_to_file_end"@, plain("G"@));
    reveal_strlit("b");
    lemma_ctrl_char("page_up"@, "b"@, 'b');
    lemma_runs_built_in_insert(m21, "page_up"@, with_ctrl("b"@));
    let m22 = m21.insert("page_up"@, with_ctrl("b"@));
    reveal_strlit("f");
    lemma_ctrl_char("page_down"@, "f"@, 'f');
    lemma_runs_built_in_insert(m22, "page_down"@, with_ctrl("f"@));
    let m23 = m22.insert("page_down"@, with_ctrl("f"@));
    reveal_strlit("d");
    lemma_ctrl_char("run_cargo_check"@, "d"@, 'd');
    lemma_runs_built_in_insert(m23, "run_cargo_check"@, with_ctrl("d"@));
    let m24 = m23.insert("run_cargo_check"@, with_ctrl("d"@));
    reveal_strlit("y");
    lemma_ctrl_char("run_cargo_clippy"@, "y"@, 'y');
    lemma_runs_built_in_insert(m24, "run_cargo_clippy"@, with_ctrl("y"@));
    let m25 = m24.insert("run_cargo_clippy"@, with_ctrl("y"@));
    reveal_strlit("n");
    lemma_ctrl_char("new_tab"@, "n"@, 'n');
    lemma_runs_built_in_insert(m25, "new_tab"@, with_ctrl("n"@));
    let m26 = m25.insert("new_tab"@, with_ctrl("n"@));
    reveal_strlit("w");
    lemma_ctrl_char("close_tab"@, "w"@, 'w');
    lemma_runs_built_in_insert(m26, "close_tab"@, with_ctrl("w"@));
    let m27 = m26.insert("close_tab"@, with_ctrl("w"@));
    lemma_ctrl_arrow("next_tab"@, "right"@);
    lemma_runs_built_in_insert(m27, "next_tab"@, with_ctrl("right"@));
    let m28 = m27.insert("next_tab"@, with_ctrl("right"@));
    lemma_ctrl_arrow("prev_tab"@, "left"@);
    lemma_runs_built_in_insert(m28, "prev_tab"@, with_ctrl("left"@));
    let m29 = m28.insert("prev_tab"@, with_ctrl("left"@));
    reveal_strlit("f1");
    assert("f1"@ =~= "f"@ + decimal(1));
    lemma_function_entry("goto_tab_1"@, "f1"@, 1);
    lemma_runs_built_in_insert(m29, "goto_tab_1"@, plain("f1"@));
    let m30 = m29.insert("goto_tab_1"@, plain("f1"@));
    reveal_strlit("f2");
    assert("f2"@ =~= "f"@ + decimal(2));
    lemma_function_entry("goto_tab_2"@, "f2"@, 2);
    lemma_runs_built_in_insert(m30, "goto_tab_2"@, plain("f2"@));
    let m31 = m30.insert("goto_tab_2"@, plain("f2"@));
    reveal_strlit("f3");
    assert("f3"@ =~= "f"@ + decimal(3));
    lemma_function_entry("goto_tab_3"@, "f3"@, 3);
    lemma_runs_built_in_insert(m31, "goto_tab_3"@, plain("f3"@));
    let m32 = m31.insert("goto_tab_3"@, plain("f3"@));
    reveal_strlit("f4");
    assert("f4"@ =~= "f"@ + decimal(4));
    lemma_function_entry("goto_tab_4"@, "f4"@, 4);
    lemma_runs_built_in_insert(m32, "goto_tab_4"@, plain("f4"@));
    let m33 = m32.insert("goto_tab_4"@, plain("f4"@));
    reveal_strlit("f5");
    assert("f5"@ =~= "f"@ + decimal(5));
    lemma_function_entry("goto_tab_5"@, "f5"@, 5);
    lemma_runs_built_in_insert(m33, "goto_tab_5"@, plain("f5"@));
    let m34 = m33.insert("goto_tab_5"@, plain("f5"@));
    reveal_strlit("f6");
    assert("f6"@ =~= "f"@ + decimal(6));
    lemma_function_entry("goto_tab_6"@, "f6"@, 6);
    lemma_runs_built_in_insert(m34, "goto_tab_6"@, plain("f6"@));
    let m35 = m34.insert("goto_tab_6"@, plain("f6"@));
    reveal_strlit("f7");
    assert("f7"@ =~= "f"@ + decimal(7));
    lemma_function_entry("goto_tab_7"@, "f7"@, 7);
    lemma_runs_built_in_insert(m35, "goto_tab_7"@, plain("f7"@));
    let m36 = m35.insert("goto_tab_7"@, plain("f7"@));
    reveal_strlit("f8");
    assert("f8"@ =~= "f"@ + decimal(8));
    lemma_function_entry("goto_tab_8"@, "f8"@, 8);
    lemma_runs_built_in_insert(m36, "goto_tab_8"@, plain("f8"@));
    let m37 = m36.insert("goto_tab_8"@, plain("f8"@));
    reveal_strlit("f9");
    assert("f9"@ =~= "f"@ + decimal(9));
    lemma_function_entry("goto_tab_9"@, "f9"@, 9);
    lemma_runs_built_in_insert(m37, "goto_tab_9"@, plain("f9"@));
    let m38 = m37.insert("goto_tab_9"@, plain("f9"@));
    reveal_strlit("f10");
    assert("f10"@ =~= "f"@ + decimal(10));
    lemma_function_entry("goto_tab_10"@, "f10"@, 10);
    lemma_runs_built_in_insert(m38, "goto_tab_10"@, plain("f10"@));
    let m39 = m38.insert("goto_tab_10"@, plain("f10"@));
    reveal_strlit("f11");
    assert("f11"@ =~= "f"@ + decimal(11));
    lemma_function_entry("goto_tab_11"@, "f11"@, 11);
    lemma_runs_built_in_insert(m39, "goto_tab_11"@, plain("f11"@));
    let m40 = m39.insert("goto_tab_11"@, plain("f11"@));
    reveal_strlit("f12");
    assert("f12"@ =~= "f"@ + decimal(12));
    lemma_function_entry("goto_tab_12"@, "f12"@, 12);
    lemma_runs_built_in_insert(m40, "goto_tab_12"@, plain("f12"@));
    let m41 = m40.insert("goto_tab_12"@, plain("f12"@));
    reveal_strlit("h");
    lemma_ctrl_char("show_help"@, "h"@, 'h');
    lemma_runs_built_in_insert(m41, "show_help"@, with_ctrl("h"@));
    let m42 = m41.insert("show_help"@, with_ctrl("h"@));
    assert(m42 == default_normal_mode());
}


/// Each default binding of normal mode runs what its key means to the editor
/// built in: a key press that matches the binding of `name`, with no modifier
/// held but those the binding lists, gives through the binding's name the
/// command that the editor's own meaning of that key gives (so Ctrl+y, bound
/// to `run_cargo_clippy`, runs clippy). The one exception is `reload_file`,
/// bound to `e`, which reloads the file at once where the built-in `e` first
/// compares the buffer with the file on disk.
pub proof fn default_bindings_run_the_built_in_commands(name: Seq<char>, e: KeyEvent)
    requires
        default_normal_mode().contains_key(name),
        name != "reload_file"@,
        binding_matches(default_normal_mode()[name], e),
        held_exactly(default_normal_mode()[name].modifiers, e.modifiers),
    ensures
        named_command(name) == builtin_command(e),
{
    lemma_default_normal_mode_runs_built_in();
    assert(runs_built_in(name, default_normal_mode()[name]));
}

} // verus!
