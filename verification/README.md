# asgore_core

Tools for shaping Arabic text for old game engines and translating game
files: presentation forms and ligatures, diacritic marks, right-to-left
order, ciphering tables, bitmap-font layout, and translation sheets.

The library in `src/` is verified with Verus; every public function states
what it returns in its contract.

- `text`, `offsets`, `numbers`, `utils`: character sequences, UTF-8 byte
  offsets, decimal numbers, and general text helpers.
- `tables`: the character tables (presentation forms, ligatures, marks,
  brackets, joining classes).
- `arabic`: freezing letters into their joining forms, ligatures, marks,
  reversing.
- `convert`: text to and from hexadecimal bytes and code units.
- `maps`: ordered tables with unique keys (`CharMap`, `FontMap`).
- `cipher`: reading, completing, writing and applying ciphering tables.
- `font`: reading `.fnt` font descriptions.
- `layout`: measuring, padding and wrapping lines in a font.
- `sheet`: text vectors, pulling strings out of binary files into
  translation sheets, and putting translations back.
- `laws`: properties across operations (round trips, what completing keeps).
- `roundtrip`: `.act` tables read back as the map they were written from.
- `outside`: the calls into `regex`, `hex`, `csv` and the standard library,
  each with the contract it is trusted to meet.

`app/` holds the file, folder and clipboard access, and the entry points
that take sizes in pixels.
