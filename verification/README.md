# zx_rustrum

The front end of a ZX Spectrum emulator, as a verified library: what its
windows work out, decide and write down, with each function's behaviour
stated in its contract and proved by Verus.

## Layout

- `src/` — the library.
  - `text` — numbers, names and lists as sequences of characters: decimal and
    hexadecimal, padding, trimming, splitting, parsing.
  - `paths` — `std::path` operations, each behind one small function whose
    contract names its answer.
  - `uspeech` — the Currah µSpeech: paging at `$0038`, its ROM, the
    allophone chip and its intonation.
  - `roms`, `hardware` — ROM images per model and which to take from a
    directory; the peripherals, the Multifaces and the printers.
  - `bindings` — what the desk's keys and the pads work: names, the written
    form of a list of bindings and reading it back.
  - `keyboard`, `stick` — the keyboard matrix the machine reads from the
    desk's keys, modifiers, bindings and on-screen keyboard; the stick's
    switches, and a binding taking the next thing pressed.
  - `callflow`, `debugger`, `sprites`, `ram_map`, `back_buffer`, `beam` — the
    debug windows' figures, listings, addresses and overlays.
  - `tape`, `cassette`, `disk`, `quick`, `files`, `session`, `video_out` —
    loading, the tape scope, disks and their copies, quicksaves, file types,
    what is kept between runs, and what the video encoder is asked for.
  - `drives`, `rewind` — the disk and cartridge drives' lights and platters;
    stepping back through kept snapshots.
- `tests/` — tests of the library on concrete values.
- `app/` — the program around it: the ROM directory, the encoder process,
  the keyboard and pads, and the labels worked out in floating point.
