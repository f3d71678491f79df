# bambusa

Vietnamese input for IBus: a composer that turns keystrokes into Vietnamese
text for Telex, VNI, VIQR and their variants, and the engine logic that
drives it from an IBus input context.

## Layout

- `src/` — the library, written in Verus and verified.
  - `rules`, `mode`, `unicode_tables`, `text`: rule values, flag sets,
    the Vietnamese character tables and the character helpers.
  - `composition`, `flatten`, `cvc`, `spelling`, `target`, `generate`:
    transformations, how a composition reads as text, syllable splitting
    and spelling, tone placement and the generation of new transformations.
  - `parser`, `input_method`: the rule language of the layouts and the
    built-in layouts.
  - `engine`: `BambooEngine`, the composer.
  - `config`, `keysyms`, `engines`, `dict`, `macros`, `address`, `preedit`:
    settings values, key symbols, engine names, the dictionary, text
    macros, the IBus address file, and the preedit handler that decides
    what to show and commit for each key event.
- `app/` — the `ibus-bambusa` program: D-Bus plumbing (zbus), GSettings,
  locale setup, file reading, and the glue that hands key events to the
  verified handler.
- `tests/` — tests of the library.
