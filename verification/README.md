# superduper

The integer logic of a suite of audio plugins, verified with Verus.

- `src/looper` – the loop track: its layer stack, the Rec / Play-Stop /
  Overdub / Undo / Clear state machine, quantised stops, the parameter
  layout and the MIDI remote control; `laws.rs` states what holds across
  commands.
- `src/voices.rs` – voice allocation for the polyphonic synths (retrigger,
  free slot, quietest-releasing / oldest steal) and the choke-fade life
  cycle of a slot, and carrying a plan out on the slot pool.
- `src/midi.rs` – MIDI 1.0 channel messages and the expressive CC maps.
- `src/nam` – the amp-model browser: case-blind filtering, the prev/next
  arrows, the position read-out, download and import file names.
- `src/blocks.rs`, `src/labels.rs`, `src/filter.rs`, `src/gui_size.rs`,
  `src/limiter.rs`, `src/kubyz` – event batching, stepped-parameter names
  and choices, editor sizes and windowing APIs, the dither generator and
  true-peak ring taps, preset overrides, mouth trajectories.
- `src/text.rs` – characters, decimal numbers, white space, and the one
  std call the library trusts (`str::to_lowercase`).

`app/` holds the host-side glue: floating-point mixing and DSP, file and
network work. `tests/` runs the library on concrete values.
