# quotify

The verified core of Quotify's tray panel: a usage monitor that sits in the
Windows notification area. The library holds the panel's logic with
contracts proved by Verus; drawing, window messages and the system calls
stay with the application.

## Layout

- `src/` — the library, every function of it verified:
  - `text_edit.rs` — single-line editing state (caret, selection, undo and
    redo with typing merged into one step, byte budget, word boundaries),
    with its laws.
  - `input.rs` — the panel's input buffers, focus, key and character
    dispatch, UTF-16 surrogate decoding, clipboard paste and click runs.
  - `peak.rs` — peak-hour rules, `HH:MM` parsing and formatting.
  - `layout.rs`, `views.rs`, `labels.rs` — view heights, key masking,
    error captions, badges and other texts the views derive.
  - `panel.rs` — view and hit vocabulary, caret blinking, the outside
    check, the minute tick and window placement.
  - `tick.rs` — timer and mouse-release decisions of the panel window.
  - `model.rs` — the per-frame view model and account selection.
  - `anim.rs`, `chars.rs` — animation timing and character helpers.
- `tests/` — tests on concrete values.
- `app/` — floating-point geometry and easing, the theme palette, clock
  and registry reads, and glue from window-message values to the library.
