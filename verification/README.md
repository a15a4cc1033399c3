# strides

Progress bars and spinners for async command line programs, with the rendering
rules stated as Verus contracts and proved.

## Layout

- `src/` is the verified library: how a layout joins its segments, how bars,
  spinners, styles and colors turn into text and escape sequences, how byte
  counts, rates and remaining times are formatted, how a group repaints its
  lines and which of its outputs goes out when, and the bookkeeping of futures
  and streams wrapped with progress state, down to what each poll decides. Calls into owo-colors and crossterm stand
  behind small trusted functions whose contracts say what those crates write.
- `tests/` exercises the library on concrete values.
- `app/` is the async and terminal side: it polls futures and streams, hands
  what came back to the library's decisions, keeps
  timers and clocks, does the floating-point work (gradients, fractions, rate
  smoothing, elapsed seconds) and writes what the library assembles to the
  terminal.

## Main properties

- A layout renders exactly the non-empty outputs of its segments, in order,
  with the separator between every two of them.
- A bar shows `width` cells between its borders, filled from the left.
- Painting text changes nothing visible and never leaves the terminal inside
  an escape; a run of one color is written with a single escape.
- A group repaint clears every line of the previous frame and returns the
  cursor to the top of the frame.
- Spinner ticks cycle through the frames in order.
- Byte sizes and remaining times are formatted exactly as the two-decimal
  binary units and `h`/`m`/`s` notation describe.
