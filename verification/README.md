# horb

Hydrogenic-orbital dark-matter halo toolkit.

- `src/` is the verified library: quantum-number validation and
  spectroscopic labels, the real-harmonic and basis-state tables, the
  factorials and Laguerre indices of the radial normalisation, Simpson
  weights, coefficient-vector enumeration for wavefunction scans, halo and
  baryon profile names, the line rules of the input tables and the command
  selection of the rotation-curve tool. Every function carries a contract
  proved by Verus; the laws of the library are public proof functions.
- `app/` holds the floating-point physics (wavefunction values, densities,
  enclosed masses, circular velocities, halo and baryon profiles), file and
  console I/O, CSV decoding and the CUDA calls of the GPU scans. It calls the
  library for every integer or text decision.
- `tests/` exercises the library on concrete inputs.
