# lle_gui

The bookkeeping of an interactive Lugiato–Lefever simulator, written in
Verus and proved against its contracts.

`src/` is the verified library:

- `checkpoint` – the checkpoint list, its selection and the actions of its
  panel, as a step function with laws on the selection.
- `model` – the traits a simulator and its parameters implement, and the
  model (`Core`) that binds them, with saving and restoring.
- `file` – the bookkeeping of the save/load files: chosen files, cached
  bytes, and where a load reads from; polling of background tasks.
- `history` – the record of past states and its switch.
- `rf_cache` – the plan that keeps the sliding window of recorded states fed
  to the GPU in step with the history.
- `spectrum` – FFT shift, windows of the history, chunking and layout.
- `mode_layout` – the order in which the modes of two coupled rings are
  visited, in coupled and decoupled form, with laws that the walks agree.
- `delay_line` – the ring of delayed copies of the self-pumping loop.
- `play` – the play / step / reset buttons as a state machine.
- `plot_range` – the lazily adapting range of a plot axis.
- `gpu_plan`, `colormap`, `kinds` – dispatch sizes, buffer sizes, uniform
  values, the colour table and the small enumerations of the viewer.

`app/` is the unverified part: the user interface, file and background I/O,
floating-point drawing and the serialisable copies of the library types.

`tests/` runs the library on concrete values.
