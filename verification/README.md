# ttyp

A minimal, monkeytype-style typing test for the terminal, with its core
logic verified by Verus.

## Layout

- `src/` — the verified library: the typing engine and its word generator,
  metrics counting, the command language and fuzzy palette, the settings
  (their `set key value` language and defaults; the TOML files are read in
  `app/`), theme and language registries, the session state
  machine (every key becomes an `Action`, `Session::dispatch` applies it and
  returns the outside work to do), key mapping, the bottom-line slider, the
  kitty graphics protocol encoder and its placement bookkeeping, glyph
  rasterising into block characters and pixel buffers, and layout helpers.
  Public functions state what they return or change; where chance, the
  clock or an outside library decides, the contract states what holds of
  every outcome or names the outside result. The laws the library keeps
  across calls are public proof functions named `law_*`.
- `app/` — the terminal program around the library: argument handling,
  files (settings, themes, languages, history), the event loop, drawing with
  ratatui, font rendering with fontdue, and the floating-point metrics.
- `tests/` — tests of the library on concrete values.

## Keys and commands

`esc` (or `:` when no test is running) opens the command line; `tab`
restarts; `ctrl+w` deletes a word; `ctrl+=` / `ctrl+-` step the font size;
`ctrl+c` quits. Commands: `time`, `words`, `language`, `theme`,
`punctuation`, `numbers`, `zoom`, `fontsize`, `wordsperline`, `zen`,
`restart`, `stats`, `results`, `set`, `help`, `quit`. `fontsize` and
`wordsperline` without a number open a slider on the bottom line:
`←`/`→` (or `h`/`l`) adjust with a live preview, `home`/`end` jump to the
ends, `enter` applies, `esc` reverts. Every change to the settings is
written to the config file immediately; `--theme` picks a theme for one
session without saving it.
