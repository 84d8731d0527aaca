//! A D2Q9 lattice-Boltzmann engine on a rectangular grid.
//!
//! Every scalar (a distribution component, a density, a velocity) is carried
//! as the 64 bits of an IEEE-754 double. The engine decides where each value
//! goes: the streaming stencil, the fixed outer ring, the bounce-back at solid
//! cells, which cells relax and which tracers move. The arithmetic on the
//! scalars themselves is handed in by the caller as function values, and the
//! contracts say to which arguments each of them is applied and where its
//! result is stored.

pub mod cell;
pub mod config;
pub mod grid;
pub mod lattice;
pub mod stream;
pub mod collide;
pub mod tracers;
pub mod frame;
pub mod laws;

pub use cell::{Cell, Relaxed, ONE_BITS, ZERO_BITS};
pub use collide::Snapshot;
pub use config::{Config, ConfigError, DrawMode};
pub use lattice::{IndexError, Lattice};
