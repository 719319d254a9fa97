# musializer

A music visualizer whose pixel-exact and integer logic is a Verus-verified
library, with a thin command-line program around it.

## Layout

- `src/` — the verified library
  - `raster.rs`: RGBA frame buffer (clear, plot, fill rectangles, read back),
    with laws on read-after-write, repainting and clearing, and lemmas that
    expose the byte layout of a frame.
  - `cover.rs`: cover art decoded to RGBA8 (by the `image` crate) and cropped
    to its centred square.
  - `glyph.rs`: the 5x7 dot-matrix caption font.
  - `text.rs`: `MM:SS` clock text and title shortening.
  - `sync.rs`: the playhead shared with the audio thread, and which stereo
    frames fill each slot of an analysis window.
  - `bands.rs`: clamping of logarithmic band edges into FFT bin ranges and the
    bins each band reads.
  - `stepper.rs`: frame-by-frame stepping of an offline video export.
  - `audio.rs`: stereo interleaving of decoded packets and 16-bit PCM packing.
  - `updater.rs`: release metadata and the decision whether a release is newer
    (version parsing and ordering by the `semver` crate).
  - `visual.rs`: display modes, palettes and export settings.
- `tests/` — tests of the library.
- `app/` — the program: decoding (symphonia), playback (cpal), FFT (rustfft),
  the floating-point drawing and smoothing (including the cover's disc mask), FFmpeg export and the updater's
  network side.
