# Audio Split

An editor that splits a recording into tracks: it reads and writes cue sheets, finds track starts
after silences, and exports FLAC files with tags or with an embedded cue sheet.

- `src/` is the library: everything that the editor decides, with contracts that Verus proves.
  - `cue`, `cue_laws`: cue sheets, and that reading gives back what was written.
  - `detect`: where tracks start.
  - `markers`, `app`, `app_laws`: the editor as a state machine from messages to effects.
  - `sample`, `audio`, `waveform`: samples, peaks, and what the mouse does on the waveform.
  - `flac`, `flac_export`, `comments`, `export_laws`: FLAC streams, their files and their tags.
  - `player`, `keys`: playback and the keyboard.
  - `text`, `number`, `sort`: the ground it stands on.
- `app/` is the program around it: the window, files, dialogs, sound, and floating-point
  arithmetic.
- `tests/` runs the library.

Samples are 32-bit floating-point numbers. The library holds each by its rank among them, an
integer that orders as the number does and gives its bits back, so that peaks and quantisation are
exact.
