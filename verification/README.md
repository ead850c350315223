# srdwm

The core of a window manager, written in Rust and verified with Verus: window
geometry, stacking, focus, workspaces, monitors, placement, tiling, dragging and
resizing, window rules, the configuration that scripts work on, and the requests
of the control client. It draws nothing and talks to no display: backends ask it
what to do and take its requests.

## Layout

- `src/` is the library. Every function in it is verified, but for the few small
  ones that hand over to a crate or to the standard library, which the last
  section names.
  - `geometry`, `num`, `ieee`, `rounding`, `text`, `table`: the ground work.
    Floating-point numbers are held by their bit patterns.
  - `monitor`, `placement`, `layout`, `window`, `workspace`, `theme`, `event`,
    `keysyms`, `rules`, `lock_config`, `context_menu`: the parts of a desktop.
  - `manager`: the window manager. `manager::store` holds its data,
    `manager::model` says what each operation does as a function from state to
    state, and `manager::model::laws` what holds of them together.
  - `config`: values under dotted keys, key bindings, rules and actions.
  - `ctl`: the request line that a command line asks for.
  - `platform`, `macos`: the kinds of platforms, and the macOS backend.
- `tests/` runs the library.
- `app/` is what stands around it: the `srd` command, the Lua interpreter, the
  way to the system, and arithmetic in floating point.

## What is trusted

The contracts of a few functions of std and of the crates `regex` and `mlua` are
taken on trust. Each stands above a small function that makes the call, and says
what it claims: `text.rs` (`String::push`, `str::to_lowercase`, `{:?}` of a
string), `rules.rs` (`regex::Regex::new`, `regex::Regex::is_match`),
`context_menu.rs` (`String::leak`) and `config/value.rs` (values of
`mlua::Value`, of which nothing is claimed).
