# ezcurl

A keyboard-driven HTTP client for the terminal. The library under `src/` holds
the parts with rules worth proving, verified with Verus:

- `editor`: the text field editor (insert, erase, cursor moves by char, line
  and display column over UTF-8 text), specified by a model of chars and a
  cursor index; `editor_laws` proves what holds across edits.
- `input`: which action a key press stands for in each mode.
- `history`: where the history is stored and which stored versions are read.
- `utf8_text`, `width`: byte offsets in UTF-8 text, and the display widths
  that the `unicode-width` crate measures.

`app/` is the program around it: command line, terminal, HTTP requests and the
history file.
