# gpui_ghostty_terminal

An embedded terminal view: the part of a terminal that stands between a window and a terminal
session. It keeps the lines that the session shows, the selection, the text that an input method is
composing and the output that still has to reach the session. It decides what keys, mouse events,
pastes and input methods send to the program behind the terminal, which rows have to be read again
after output or a scroll, and what is drawn where.

- `src/` is the library. Its functions change a `TerminalView` and return the effects that the
  embedding program has to carry out, in order. Each of them has a contract over a mathematical
  model of the state (`ViewModel`), which Verus proves. The functions named `law_…` state what holds
  of several functions together, for instance that output is neither lost nor reordered, or that
  reading the rows that changed shows the same as reading the whole viewport.
- `app/` is the view for GPUI windows: drawing, event handlers and the loop that carries out the
  effects. It works with any session that implements its `TerminalSession` trait.
- `tests/` runs the library on concrete values.

The widths of characters come from the `unicode-width` crate. What the library relies on there is
stated at `width_of` in `src/cells.rs`.
