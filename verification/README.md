# kernel_glue

Verified policy layer between a radiation/dissipation field simulation and
an operating-system kernel, plus the command-line decisions of the host-side
falsification harness.

- `src/pid_map.rs`: the fixed mapping of the 16 PIDs onto a 4x4 block of
  field sites.
- `src/field_state.rs`: the glue state (grid size, evolution counter, per-PID
  trace baselines) and the decisions of stimulation, IPC send/receive and the
  field-driven scheduler.
- `src/numeric.rs`, `src/cli.rs`: decimal option values, the harness
  subcommand and the `falsify` options.
- `src/measure.rs`: bit-for-bit comparison of two runs' measurements.
- `src/laws.rs`: properties proved across calls and inputs.
- `app/`: the field world behind a spinlock, the floating-point physics
  reads, the falsification run and its report, and `main`.

The field physics (`field_core`) is floating point and lives outside this
crate; `app/` calls it.
