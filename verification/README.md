# cdg_player

A player for CD+G and CD+EG disc images. The graphics decoder and the rules of
the player are a library verified with Verus; the window, the audio output and
the work on files around it are ordinary Rust.

- `src/` is the library.
  - `cdg` reads packets out of a `.cdg` file, `renderer` draws them and
    `renderer_laws` states what holds of the picture.
  - `playback`, `player` and `session` play tracks and discs.
  - `export` and `ffmpeg` turn tracks into frames and call for an encoder.
  - `disc` and `disc_laws` deal with archives and cue sheets.
  - `fonts` and `icon` hold what the window needs, `text` and `marks` what is done
    with characters.
- `tests/` runs the library.
- `app/` is the program. Exporting needs ffmpeg.
