# inuktitut_tutor

A terminal typing tutor for Inuktitut syllabics on the Canadian `ca(ike)`
keyboard layout, written in Verus.

- `src/` is the verified library:
  - `layout`: the key table, glyph lookup and key-notation translation;
  - `lessons`: the fourteen graded lessons, built from key notation;
  - `app`: the practice state machine (typing, errors, the stage gate,
    statistics, navigation);
  - `controls`: the key bindings;
  - `text` and `save`: decimal text, and the progress file written and read
    back;
  - `ui`: what the screen shows, short of drawing it.
- `app/` is the terminal front end: the event loop and clock, drawing with
  ratatui, and the progress file on disk.
- `tests/` runs the library on concrete cases.

Time is passed to the library as nanoseconds since the session started;
speed and accuracy are given by the counts behind them (keystrokes and
elapsed time) and, where they are recorded, in hundredths rounded to the
nearest.
