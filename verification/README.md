# Pasta Handler

Press a hotkey, get your text on the clipboard, Ctrl+V anywhere. A Windows
tray utility for people who paste the same things a lot.

## Layout

- `src/` — the verified library (Verus). It holds the rules the app lives by,
  each with a contract:
  - `config`: snippets, the config model, the first-run sample, the file header;
  - `hotkeys`: validation of a config's combos (unbound rows, parse errors,
    duplicates among active rows) and the OS registration set;
  - `resident`: the tray process's state — config and combo map always agree,
    reloads swap them as a pair or not at all;
  - `settings`: the save path (validate, roll back a conflicting activation,
    write), the snippet table's capture rules, theme drawer rules;
  - `theme`: themes, palettes and the preset gallery;
  - `logging`: timestamps (calendar arithmetic) and the log line format;
  - `clipboard`: the retry rule for clipboard writes;
  - `text`: white space and decimal rendering.
- `app/` — the executable: the tao event loop, tray icon, clipboard, TOML
  files, the egui settings window and the Win32 calls. It reads and writes
  plain values and lets the library decide.
- `tests/` — tests of the library on concrete values.

Icons, mascot art and the Nunito font are read from an `assets` folder next
to the executable.
