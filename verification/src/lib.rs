//! A small byte machine: sixteen one-byte registers, 256 bytes of memory,
//! a closed set of two-byte instructions executed one per cycle, and a
//! decaying "heat" score that records how recently each cell was marked.

pub mod alu;
pub mod cpu;
pub mod display;
pub mod driver;
pub mod laws;
pub mod program;
pub mod state;
