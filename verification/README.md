# obsidian_launcher

A search launcher for an Obsidian vault: it indexes the vault's Markdown
notes, searches them as you type, opens the chosen note through an
`obsidian://` address, and comes with a daemon that listens for a global
shortcut on the keyboard devices.

## Layout

- `src/` is the library, verified with Verus. Every public function has a
  contract over a mathematical model, and the `law_*` proof functions state
  properties that hold across calls:
  - `text`, `paths`: strings and paths with the meaning of the `str` and
    `Path` operations they stand for;
  - `config`: where settings, cache and index live;
  - `vault`: reading a note (title, text, tags, wikilinks) from its Markdown
    events, and walking the vault as a state machine that asks for
    directory listings and file contents;
  - `index`: the document stored for a note, the query for a search text,
    and reading a hit back;
  - `links`: the `obsidian://open?file=` address of a note;
  - `watcher`: which file-system events count and the debounce that turns
    a burst of changes into one rebuild;
  - `hotkey_daemon`: parsing a shortcut and deciding, key event by key
    event, when it fires;
  - `layer_shell`: what the display server offers;
  - `ui`: the window's state, the effect of each message and the text it
    shows.
- `app/` is the program around the library: the window (iced), the full-text
  index (tantivy), the file watcher (notify), the keyboard devices (evdev),
  the Wayland probe and the settings file (toml). It performs the I/O the
  library asks for and hands the results back.
- `tests/` exercises the library on concrete values.
