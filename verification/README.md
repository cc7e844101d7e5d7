# libvisdesk

Measures how much of the desktop is visible on each monitor: what no window covers, what the
taskbar and other windows of the shell leave free at most, and the whole area. A watcher measures
again when a window without a parent is created, destroyed, shown, hidden, reordered or moved and
when the displays change. It measures at most once per period: what happens within a period is
measured together at its end.

## Layout

- `src/` is the library. Verus proves the contract of every function in it but one, which calls
  the UTF-16 decoder of the standard library.
  - `geometry`, `region`: rectangles and sets of pixels, and how many pixels they hold.
  - `monitors`, `ranking`: monitors, their numbers, and the order in which they are indexed.
  - `window`, `text`: which windows cover the desktop.
  - `calculator`: the visible area of monitors, from what was enumerated or is remembered.
  - `throttle`: when a request leads to a computation.
  - `events`, `instance`, `types`: the watcher and its state.
- `tests/` runs the library on concrete desktops.
- `app/` asks Windows for monitors, windows and events, runs the watcher thread, and offers the
  library to Rust and to C.

A rectangle covers the pixels from its left and top edge up to, and without, its right and bottom
edge. Areas are numbers of such pixels; the contracts speak of the sets of pixels themselves.

Times are nanoseconds on a clock that does not run backwards. The caller reads the clock.
