# vrandr

A keyboard-driven terminal front end for `xrandr`: pick an output, stage
changes, preview the exact `xrandr` command, apply it in one call, and save
or restore named layout profiles.

The logic is a Verus-verified library (`src/`); a thin program (`app/`)
draws the screen, reads keys, runs `xrandr` and reads and writes profile
files.

## Layout

- `src/text.rs`, `src/num.rs`: character-level helpers, number parsing and
  formatting (decimal, hex, fixed-point).
- `src/float_text.rs`: reading numbers written as float text (`1e0`,
  `.5`, `inf`) into integer millionths for the scale and gamma dialogs.
- `src/model.rs`: outputs, modes, rotations, reflections and staged changes.
- `src/pending.rs`: the map of staged changes, one per output name.
- `src/command.rs`: the `xrandr` arguments and preview for staged changes,
  and merging a change into an output.
- `src/xrandr.rs`: the parser of `xrandr --current --prop`.
- `src/edid.rs`: the EDID base-block decoder.
- `src/config.rs`: saved layouts, profile names and paths.
- `src/app.rs`, `src/keys.rs`, `src/restore.rs`: the interface state and
  what each key and each reported outcome does to it.
- `src/ui.rs`: the text shown in each pane.
- `src/laws.rs`: properties spanning several operations.

Numbers that `xrandr` prints with decimals are held as integers: refresh
rates in thousandths of a hertz, scale, gamma and brightness factors in millionths.
Profile files keep the decimal form.
