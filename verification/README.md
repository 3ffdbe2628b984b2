# flop_stats

Tools around a postflop solver for button-versus-big-blind flop spots: a debug exporter
that solves realistic flop trees and writes per-hand action statistics, and a stat probe
that reads spots from a CSV file (or draws a fixed-seed sample) and writes one row per
hand and bet size.

## Layout

- `src/` is the verified library (Verus):
  - `text.rs`, `unicode_case.rs`: character helpers, decimal digits, case mapping.
  - `cards.rs`, `hand_eval.rs`: card encoding and names, dead-card filtering, five- to
    seven-card hand evaluation and showdown counts.
  - `debug_run/`: strict card notation, range-text normalisation, the debug scenarios,
    action-tree audits, the walk that decides which solver nodes are read, labels and
    the text columns of the exported rows.
  - `probe/`: lenient notation, preflop range tables and their lookup, reading the input
    file's CSV text into spots, pot and bet sizes, the fixed-seed sample, screening of
    spots and the skip summary.
  - `csv_out.rs`: output rows encoded as CSV text.
- `tests/`: tests of the library on concrete values.
- `app/`: the programs themselves: reading and writing files, the solver, floating-point
  statistics.
