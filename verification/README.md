# audio_calculator

A desktop tool that totals the running time of audio files and bills it by the
hour or the minute, with a summary picture for the clipboard and an Explorer
context menu on Windows.

- `src/` is the verified library: the duration type, clock and decimal text,
  the counted extensions, the listing order (a stable sort by lower-cased
  name), the window state with its events, the layout of the summary picture,
  the registry plan of the context menu with what its removal covers, and the laws in `src/laws.rs`.
- `app/` is the window (eframe), file and registry access, the shell's
  duration property on Windows, the decoding of audio files (symphonia), the
  clock (chrono), the floating-point billing and the drawing of the picture.
- `tests/` runs the library on concrete values.
