# spark_tui

The engine of a terminal UI toolkit, written in Verus: components live in
parallel arrays indexed by a registry, a flexbox layout places them, a frame
renderer paints each component's background, border and text into a cell
buffer (clipped to its parent, shifted by scroll offsets, in z-index order),
a diff renderer turns the buffer into changed cells, and focus,
keyboard, mouse, scroll, clipboard and input-editing state react to events.
Every function in `src/` is verified against its `requires`/`ensures`
contract; the few calls into std that Verus has no specification for sit
behind small trusted wrappers whose contracts say what std documents.

Layout of the crate:

- `src/engine` — the registry (index allocation and reuse, IDs, the parent
  stack) and the component arrays (core, visual, text, interaction, flex
  nodes).
- `src/layout` — flexbox layout (`titan.rs`), text measurement and the
  computed layout.
- `src/renderer` — the frame buffer and the diff renderer.
- `src/pipeline` — frame rendering (`render.rs`: background, border and
  text of each visible component, with hit regions), hit regions and
  mounting. Inputs, progress bars, selects and scrollbars are not painted,
  and colors are the component's own (no inheritance from parents).
- `src/primitives` — `box`, `text`, `input`, keyed lists (`each`) and input
  history.
- `src/state` — focus (with traps), keyboard, mouse, scroll, cursor,
  clipboard, global keys and animation frames.
- `src/theme` — themes and variant styles.
- `tests/` — tests run with the compiled library.
- `app/` — the terminal I/O around the library: events, screen output,
  the cursor, the blink timer and floating-point colors.
