# reratui

A React-style component and hooks core for terminal user interfaces,
written in Verus. The library's functions carry contracts that Verus
proves, except for a few small trusted wrappers around calls into std and
the `regex` crate (hashing, building a `String` from characters,
Unicode character classes, `HashMap::get_mut`, `Arc::clone`, compiling and matching
patterns); each of those is marked `#[verifier::external_body]` and says in
its doc comment what its contract assumes.

## Layout

- `src/` — the verified library.
  - `slot.rs`, `hook_list.rs`, `fiber.rs`, `fiber_tree.rs`: hook cells
    and the lists they can hold, fibers and the fiber tree (mounting,
    rendering order, unmounting).
  - `batch.rs`, `effect_queue.rs`: batched state updates and the effect
    and cleanup queues. A render context keeps two of them: effects run
    after commit, and asynchronous effects are then taken out and awaited
    by the runtime, each queue with its own cleanups.
  - `context_stack.rs`, `event.rs`, `component.rs`, `runtime.rs`,
    `render_context.rs`: contexts, the frame's event and its propagation,
    stable component IDs, the render loop's flags and its state.
  - `hooks/`: the hooks (state, ref, effect, memo, reducer, history, id,
    context, event, layout, mouse, scroll, timing, async work, forms and
    validators).
  - `input.rs`, `scroll_view.rs`, `element.rs`: key and mouse input as
    plain values, the geometry of scroll views, and element trees.
  - `string_map.rs`, `text.rs`: small string maps and text recognizers.
- `tests/` — tests of the library.
- `app/` — the terminal side: the render loop on crossterm and ratatui, the
  per-thread render state, tasks on tokio, and the helpers that need
  floating point.

Laws of the library are public proof functions named `lemma_*` next to the
functions they speak of.
