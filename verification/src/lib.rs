//! Lattice scanning for a cloud of hydrogen-like orbitals.
//!
//! A density field is sampled on an integer lattice, slice by slice and
//! spread over as many frames as it takes; every lattice point whose density
//! exceeds a threshold yields up to three quad faces turned toward the viewer.
//!
//! The field itself is floating-point work and lives outside this library.
//! It reaches the scanner as a function from a lattice point to a [`sample::Sample`],
//! whose numbers are single-precision bit patterns; everything decided here is
//! decided on integers.
//!
//! - [`voxel`]: the volume, its resolution and the density threshold
//! - [`single`]: comparisons of single-precision values on their bit patterns
//! - [`orbitals`]: quantum numbers, names, shapes and angles
//! - [`vantage`]: the viewer's side of things, and the scan order it implies
//! - [`sample`]: what the scanner makes of one reading
//! - [`instance`]: the faces of one voxel
//! - [`adjacency`]: the accepted positions of the slice under way
//! - [`lattice`]: the order in which positions are visited
//! - [`function`]: the scanner: a cursor and the step that moves it
//! - [`pass`]: what holds of a whole pass, however it is cut into steps
//! - [`state`]: what is kept between frames, and one frame's work
//! - [`clock`]: the wall clock behind the time budget

pub mod adjacency;
pub mod clock;
pub mod function;
pub mod instance;
pub mod lattice;
pub mod orbitals;
pub mod pass;
pub mod sample;
pub mod single;
pub mod state;
pub mod vantage;
pub mod voxel;
