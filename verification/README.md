# vibeboy

Parts of a Game Boy emulator as a verified library, and the programs around it.

- `src/` is the library. Every public function has a contract, and Verus proves
  it.
  - `timer`, `serial`, `sgb`: devices of the Game Boy.
  - `snes`: the 65C816 processor, bus, DMA, picture registers and bridge of the
    Super Game Boy's host.
  - `scaling`: pixel-art filters, the vectorizer's graphs, faces and spans, and
    the plans of the compute pipelines.
  - `session`, `ui_util`, `gamepad`: pacing, saves and inputs of a frontend.
  - `test_runner`: verdicts on test programs, and what the commands write.
- `tests/` runs the library on concrete values.
- `app/` is ordinary Rust: files, clocks, the graphics processor, gamepads, and
  whatever is floating point (curves, color distances).

Properties of several functions are public proof functions whose names start
with `law_`; they stand beside the functions that they speak of.

What the library takes on trust is marked `external_body`: appending to a
`String`, and the calls into the `svg` crate.
