# Rewind

Rewind keeps the last seconds of what is on the screen in memory and writes them to a
clip when a hotkey is pressed. This crate is its verified core: the rolling buffer, the
rules of the pipeline, and everything around them that is decided rather than done.

- `src/` is the library. Its functions have contracts that Verus proves; the laws that
  relate several functions are public proof functions named `law_*`. The contracts of the
  few wrappers around calls into `evdev`, `x11rb` and the standard library, marked
  `external_body` or `assume_specification`, are believed.
  - `buffer`: the ring of encoded packets.
  - `clock`: the stamps of captured frames.
  - `pipeline`: saves, the encode worker, starting and stopping.
  - `config`, `media`: settings and the types that everything shares.
  - `capture`: the choice of a backend; `wayland`, `x11` and `descriptor` below it.
  - `encode`: the choice of an encoder and the plan of a muxed clip.
  - `hotkey`: accelerators, key codes, and what the listeners do with their events.
  - `autostart`, `clipboard`, `crashlog`, `cli`, `gui`: what surrounds a recorder.
  - `text`, `path`: texts and paths with exact meanings.
- `tests/` runs the library.
- `app/` is the program: input and output around the library. It captures under X11 and
  listens for the hotkey as it stands. The backends for Wayland, GStreamer and GTK need
  their system libraries and are switched on with
  `--cfg 'feature="capture-wayland"'`, `--cfg 'feature="encode-gstreamer"'` and
  `--cfg 'feature="gui"'` in `RUSTFLAGS`.
