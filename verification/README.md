# pocket3d

The logic of a small forward renderer, written in Verus: how model files are
read, checked and laid out, how poses are sampled, what a frame draws and in
which order, and what a window does with its events. Every function states in
its contract what it returns, and Verus proves it.

Floating-point numbers stand in the library as their bits (`scalar`): they are
compared, classified and carried through, and what has to be computed with them
is handed in by the caller as a value or a closure.

## Layout

- `src/glb`, `src/import`, `src/source`, `src/accessors`: from the bytes of a
  file to plain values. The glTF, JSON, base64 and image crates do their own
  work behind trusted functions, whose contracts say what is taken on trust.
- `src/validation`, `src/authoring`, `src/overrides`, `src/clips`, `src/layout`,
  `src/model`, `src/loading`: from those values to a model that can be drawn, or
  to the first thing that is wrong with the file.
- `src/anim`, `src/skeleton`, `src/mesh`, `src/morph`: poses, skins and morph
  targets.
- `src/material`, `src/texture`, `src/resources`, `src/uniforms`: what surfaces
  look like and what is uploaded for them.
- `src/renderer`, `src/frame`, `src/submission`, `src/smaa`: the state of the
  renderer, the packing of a frame, the order of its draws, and the lookup
  tables of the antialiasing.
- `src/window`, `src/format`: windows and surfaces.
- `src/scalar`, `src/search`, `src/text`, `src/messages`: what the others share.
- `tests/`: the behaviour on concrete values.
- `app/`: the device, the window and the arithmetic around the library.
