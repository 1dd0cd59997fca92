# brush

The logic of the brush splat-training tools, written in Verus and proved
against its contracts, with a thin command-line program around it.

## Layout

- `src/` — the verified library.
  - `slot.rs` — the frame-indexed snapshot list shared through a
    `tokio::sync::watch` channel (`Slot`, `SlotSender`, `channel`).
  - `worker.rs` — the decisions of the latest-value request worker.
  - `stats.rs` — byte counts for display and the training statistics panel.
  - `bounding_box.rs` — the `totalOrder` median behind a box's median size.
  - `widget.rs` — the ground grid of the 3D overlay.
  - `json.rs`, `camera.rs`, `w2c.rs`, `mask.rs`, `dataset.rs` — reading and
    checking an underfolder dataset and planning its conversion to a NeRF
    dataset.
  - `text.rs` — decimal rendering, substring and suffix tests, whitespace
    splitting.
- `tests/` — tests of the library.
- `app/` — the command-line converter, the worker thread, the `f32`
  bounding box and the file, image and JSON I/O.
