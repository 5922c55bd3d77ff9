# tvbs_engine

The decisions of a TV-style broadcast scheduler for OBS Studio, written in Rust and
verified with [Verus](https://github.com/verus-lang/verus).

A station has a playlist of files with start times, and bumpers that play in the middle
of a program. The engine drives one OBS media source through it by the clock. This crate
decides what to do and never does I/O: what has to be done comes back as a value, and
what came of it is handed in as a value.

- `src/` is the verified library.
  - `tick`: one tick of the timeline. `scheduler`: the state machine that it moves.
    `run_loop`: what the loop decides around the ticks.
  - `playlist`: what is on air, what is next, shifting and laying out rows, validation.
  - `transport`: pause, resume, skip, reload. `watch`: is OBS really playing.
    `interrupt`: bumpers. `cut`: handing a file to OBS and cutting to it.
  - `ntp`: the offset of the station clock. `clock`: the machine's clock and dates.
  - `obs_ws`: the OBS WebSocket protocol, requests and their responses, authentication.
  - `server`: what the HTTP endpoints check, change and answer.
  - `bridge`: the settings that the OBS script leaves. `presets`: saved playlists.
  - `config`, `app_status`, `json`, `text`, `order`, `seqs`, `millis`, `paths`: the data and the
    tools that the rest stands on.
- `tests/` runs the library.
- `app/` is the program around it: sockets, files, the HTTP server and the loop.

Every public function states what it returns in `ensures`. Public proof functions state
what holds of the library as a whole: that no request is answered with another's
response, that a pause only delays, that nothing airs before its slot, that writes need
the token, and more.

The functions marked `external_body` are trusted: they call `chrono`, `sha2`, `base64`
or the standard library, and their comments say what is taken for granted.
