# herdr-title-rename

A [Herdr](https://herdr.dev) plugin that names tabs and workspaces after the
directories their panes are in, and keeps the title of the terminal window at

```text
workspace | tab | ~/path
```

The logic is a library verified with [Verus](https://github.com/verus-lang/verus):
every function states in its contract what it returns, and what holds of the
plugin as a whole is stated and proved in laws.

## Layout

- `src/` is the verified library. It does no I/O.
  - `snapshot`, `config`, `state`, `labels`: the session, the settings, and which
    labels the plugin owns.
  - `naming`, `paths`: what a directory is called, and how the title shows it.
  - `plan`, `rename`, `title`: which labels to write, and the title that follows.
  - `requests`, `replies`, `json`: what is sent to the server and what is made of
    the answers. `json` holds what is taken on trust of `serde_json`.
  - `run`, `steps`, `lock`: one run of the plugin, the order of its work, and the
    lock on its state file.
  - `laws`: what holds of any number of runs. A rename by hand wins for good, a
    rename in flight is not mistaken for one, a second run changes nothing, and
    the title never lags a rename.
  - `text`, `search`: characters and sequences.
- `app/` is the binary around it: the socket, `git`, the files, and serde.
- `tests/` runs the library on concrete values.

## Configuration

`config.toml`, every key optional:

```toml
separator = " | "     # joins the title fields
path_style = "tilde"  # tilde | full | basename | none
rename_tabs = true
rename_workspaces = true
```
