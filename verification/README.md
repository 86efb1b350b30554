# zim

The editing core of Zim, a modal terminal text editor with Vim-like keys,
written in Verus: each operation carries a `requires`/`ensures` contract that
Verus proves.

## Layout

- `src/` — the verified library.
  - `text.rs` — character-level helpers on strings (splitting, joining,
    trimming, numbers) with their models over `Seq<char>`.
  - `keys.rs` — key events as plain values.
  - `config/` — the configuration and the key bindings, with their defaults
    and the lookup from a key to a command.
  - `editor/` — the buffer (text, selection, undo and redo), cursor,
    viewport, tabs, diagnostics and the parsing of `cargo` output, the file
    finder, token search, the snake game, syntax highlighting through
    `syntect`, and the editor's state machine: `handle_key` takes a key and
    returns the next step (`Step`), which names the I/O to perform, if any.
    `laws.rs` states and proves the properties that span several operations.
  - `ui/` — the view model of the screen: the text area (with line numbers,
    selection and highlighting), the tab bar, status line, finder, prompt and
    help page, as lines of styled pieces.
- `app/` — the program around the library: command-line arguments, the
  terminal (`crossterm`, `tui`), files and directories, `cargo` runs, project
  search (`ignore`, `grep`), and the configuration files (`serde`, `toml`).
- `tests/` — tests of the library.
