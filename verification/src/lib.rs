//! A scalar wave field on a two-dimensional grid, advanced in time by an
//! explicit finite-difference scheme over three time layers.
//!
//! Samples, coefficients and coordinates are fixed-point numbers: the real
//! value `r` is the integer `r * 1_000_000` (see `fixed`). A step forms
//! every product exactly and rounds toward zero once, so a run is the same
//! on every machine, and the contracts say what each sample is, not what
//! it is near.
//!
//! A step does its work in a fixed order (see `sim`): forces are written
//! into the current layer (`force`), the layers rotate (`grid`), the
//! stencil computes the interior of the new current layer (`stencil`), and
//! the boundary runs over the result (`boundary`). The samples live in
//! `ndarray` arrays, which the library reaches through `storage` alone.

pub mod boundary;
pub mod coeff;
pub mod field;
pub mod fixed;
pub mod force;
pub mod grid;
pub mod laws;
pub mod params;
pub mod sim;
pub mod stencil;
pub mod storage;
