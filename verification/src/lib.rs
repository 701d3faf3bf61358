//! A small engine for keeping machine-generated "golden" fixture files in
//! sync with the output of a deterministic, seeded generation algorithm.
//!
//! The crate is organised around three ideas:
//!
//! - a deterministic generator: each fixture name yields a root seed, and the
//!   randomness for item `i` is forked from that root seed independently of
//!   every other index, so the sequence of outputs is stable across runs and
//!   across different requested counts;
//! - a marker-delimited artifact format: the machine-owned part of a file
//!   sits between literal `BEGIN`/`END` section markers, and everything
//!   outside the markers is hand-written content that must be preserved
//!   byte for byte;
//! - a reconciliation driver: for each generated item it compares the
//!   generated section of the file on disk with the freshly generated
//!   output, and either renders a diff (check mode) or produces the new
//!   file contents (write mode).

pub mod adapter;
pub mod byteseq;
pub mod driver;
pub mod section;
pub mod seed;
pub mod strategy;
