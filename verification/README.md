# scene_append

Appends one settled scene of sparse-strip coverage onto another: in place, or moved by whole tiles.

- `src/` is the verified library. `Scene::append_scene` is in `src/append.rs`; recording into a
  scene is in `src/recording.rs`; the files under `src/laws/` state what holds of appending
  and recording together.
- `app/` holds scenes in the types of `vello_common`, moves their tables through the library, and
  carries out the moves of floating-point rectangles.
- `tests/` appends what the recorder and the strip generator of `vello_common` produce, and compares
  it with recordings made directly.
