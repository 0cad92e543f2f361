# qga_swarm

A verified library for the headless preview of QGA swarm wires.

- `src/qgae.rs`: QGAE edge files read into wire parcels (`parse_qgae`), with the
  format stated as a function on bytes; `src/roundtrip.rs`: what a writer lays down
  and the laws that reading and writing undo each other.
- `src/bins.rs`, `src/paths.rs`, `src/args.rs`, `src/film.rs`: the preview's
  decisions: parcel bins and stems, capture names, the command line, the beat sheet.
- `app/`: the preview program: file reading, floating-point geometry and the GPU.

Coordinates are kept as IEEE-754 binary32 bit patterns; `f32::from_bits` gives the
stored floats.
