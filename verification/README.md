# engine

The verified core of a small 2D pixel-art game engine, written in Verus.

- `src/aseprite` — the packed sprite-sheet format (decoder and encoder, with
  a proof that decoding an encoded sheet gives the packed frames back), the
  Aseprite file decoder (header, frames and chunks), atlas packing and
  blitting, zlib inflation of cel data.
- `src/ecs` — component storage indexed by entity id, and the entity registry.
- `src/graphics` — blend, stencil and sampler state and their OpenGL
  encodings, texture and render-target records, shader uniforms, materials
  and the draw batches of the sprite batcher.
- `src/game` — room geometry, tile grids, player timers, buttons and light
  switches, sprite playback and the scene record.
- `src/audio.rs`, `src/common.rs` — filling the audio buffer from a track;
  mouse and keyboard state.
- `app/` — what stays outside the verified library: file and OpenGL calls,
  the global input state, the imgui debug windows, the type-erased world,
  floating-point geometry and the game systems.
- `tests/` — tests of the library on concrete values.
