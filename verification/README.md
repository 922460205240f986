# soundboard

A keyboard-driven soundboard and its companion audio tools, with the decision logic verified
by Verus.

- `src/` — the verified library:
  - `board.rs`: the soundboard's selection state (libraries, sound files, previous key states)
    and the decisions of one keyboard poll (`Soundboard::poll`).
  - `cycle.rs`: index stepping helpers (`bar`, `cycle_sound_file`, `cycle_sound_dir`,
    `get_key_state`).
  - `radix.rs`: hexadecimal and decimal integer parsing with the standard library's rules.
  - `devices.rs`: key-state decoding and audio device selection.
  - `cli.rs`: the passthrough tool's command line and its help and version texts.
  - `samples.rs`: decoding of little-endian `i16` sample files and the integer sums of their
    correlation.
  - `server.rs`: the echo server's port search and reply decisions.
  - `text.rs`: character-level text comparison and splitting.
- `tests/` — tests of the library on concrete values.
- `app/` — the executables: keyboard polling, file listing, audio devices, sockets and the
  floating-point part of the sample comparison. The tools share one executable, chosen by the
  name it is invoked under (`micpassthrough`, `server`, `testing`, `testingalt`; any other name
  runs the soundboard).
