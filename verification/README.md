# EXPGSTracker, verified core

A small terminal music tracker. `src/` is the verified library:

- `song`: notes, rows, patterns, songs, and when a song can be played.
- `playback`: the playback clock (ticks, rows, the order) and what each
  synthesizer channel plays.
- `ui`: the editor state and what every key does to it and to the song.
- `render`: the editor screen as text.
- `demo`: the demonstration song.
- `sequencer`: the menu program's sequencer screen, window and cursor.
- `console`: the line commands of the menu program and its sample editor.
- `text`: decimal numbers, string comparison, trimming, highlighting.

`app/` holds the programs: terminal input, audio output through cpal, and
the waveform synthesis, which computes in floating point.
