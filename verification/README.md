# loopmachine

A verified library for a loop editor: short loop identifiers (a, b, …, zz),
the textual arranger notation ("(3a)b c(2d)e"), step colours, the loop library
(tracks, saved loops, identifier repair and migration of the older flat loop
list), the decisions of the playback engine (how arrangement playback moves
through its steps, how the reader stays within the A-B loop, when a stalled
stream is given up),
keyboard shortcut bindings and the customisable toolbar.

- `src/` — the library, verified with Verus. Floating-point values (seconds,
  pitch, tempo) are carried as their IEEE-754 bit patterns (`f32::to_bits`);
  nothing in the library computes with them.
- `tests/` — tests of the library.
- `app/` — a headless program around it: JSON data files (serde copies of the
  library's types with conversions), audio decoding (symphonia), chroma and key
  analysis (rustfft), waveform summaries and WAV export (hound).

The editor's window, audio playback and time stretching, and the file dialogs
(eframe/egui, rodio, SoundTouch, egui_file_dialog) are not part of this
repository: they compute with floating point or drive a GUI or sound device,
and nothing in them is in reach of the verifier. `app/` therefore has no
window and does not play sound; it loads, converts, analyses and saves.
