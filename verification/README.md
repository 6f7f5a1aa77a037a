# Zweiton core

The verified core of Zweiton, a dual-oscillator synthesizer: everything it decides with
integers and text, proved with Verus.

- `src/` — the library, checked by Verus: waveform and note-name parsing (`wave`, `note`,
  `text`), the ADSR stage machine (`env`), the eight-voice polyphony (`voices`), host note
  messages (`events`), the computer-keyboard piano (`keys`, `held`), and the noise settings
  with their xorshift generator (`engine`).
- `app/` — the program around it: command line, audio output (cpal), WAV export (hound),
  window (eframe), the plugin front end (nice-plug), and all sample computation in `f32`.
- `tests/` — tests of the library.
