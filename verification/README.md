# flick

Flick is a tray launcher for Keychron keyboards. The function keys F13–F24
(pressed on the keyboard, sent by a desktop shortcut, or relayed by a second
start of the program) launch the applications and URLs bound to them, and a
WebSocket bridge lets the Keychron launcher read and edit those binds.

## Layout

- `src/` — the library, verified with Verus:
  - `text` — character-level helpers (trimming, searching, decimal and hex
    notation, `u32` parsing);
  - `config` — the configuration, the quick-start bind map and its
    invariant, partial updates and the reading of stored (current or
    legacy) configurations;
  - `hid` — function-key usages, keyboard and assist reports, and the list
    of connected Keychron devices;
  - `trigger_ipc` — the `TRIGGER <key>` / `OK` line protocol;
  - `gnome_shortcuts` — GNOME custom keybindings: paths, values, list
    syntax and the plans that synchronise and clear them;
  - `apps` — desktop entries, application lists, icon selection and data
    URLs;
  - `search_paths` — the directories searched for desktop files and icon
    themes;
  - `bridge_ws` — the launcher bridge: routing of messages and the replies;
  - `domain` — the application core over its service traits (`ports`):
    debouncing, launching, updates and their effects;
  - `shell` — tray labels, menu actions and start-up arguments;
  - `patterns` — the regular-expression calls the parsers make.
- `tests/` — tests of the library.
- `app/` — the program around the library: the window and tray, files,
  processes, sockets and HID access.
