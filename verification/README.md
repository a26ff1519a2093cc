# dumbcoder

A command-line coding assistant for a local model server: it searches a
codebase, builds a symbol index, explains code, writes tests, reviews diffs,
proposes patches and offers an interactive chat in the terminal.

The project is written in Verus. Its logic is a verified library:

- `src/` — the library. Its functions carry contracts proved by Verus, except
  a few small trusted wrappers (marked `#[verifier::external_body]`) around
  std and outside-crate calls, whose contracts are taken on trust and whose
  doc comments say what they claim:
  - `security` — which files may be read and which commands run;
  - `config` — configuration documents, their merge, defaults, validation;
  - `context` — search results and index symbols turned into prompt context;
  - `index` — languages, symbol kinds, symbols read from syntax trees;
  - `keywords`, `cmd::*` — what each command searches for and asks;
  - `cmd::patch` — the patch flow: a diff is applied only after a clean
    check and the user's agreement;
  - `tool` — tool calls found in model replies and their reports;
  - `session`, `audit`, `plugin`, `model` — saved chats, audit records,
    plugins and model client settings;
  - `tui::{app, action, ui, markdown}` — the chat's state, its reaction to
    keys, slash commands and replies, and the screen's lines;
  - `text`, `util`, `git` — text handling shared by all of them.
- `app/` — the program around it: argument parsing, files and processes,
  the SQLite index, HTTP requests and the terminal.
- `tests/` — tests of the library on concrete values.
