//! Discrete core of the hydrogenic-orbital halo toolkit: quantum-number
//! validation, spectroscopic labels, orbital and halo name tables, the
//! integer parts of the radial normalisation, coefficient enumeration for
//! wavefunction scans, quadrature weights, and the text rules that the
//! command-line tools apply to their inputs.

pub mod text;
pub mod error;
pub mod quantum;
pub mod angular;
pub mod halo_models;
pub mod radial;
pub mod basis_states;
pub mod quadrature;
pub mod rows;
pub mod cli;
pub mod coeffs;
