//! Configuration-driven mode registry for a llama.cpp chat launcher.
//!
//! The crate reads and writes the launcher's line-oriented configuration
//! text: scalar and indexed field lookup, the pipe-delimited encoding of a
//! saved chat mode, the ordered store of such modes, and the path rules
//! that go with them. Every function works on plain text and plain values;
//! reading and writing files is left to the caller.

pub mod text;
pub mod trim;
pub mod split;
pub mod number;
pub mod decimal;
pub mod field;
pub mod path;
pub mod params;
pub mod tokens;
pub mod mode;
pub mod roundtrip;
pub mod store;
pub mod readback;
pub mod setup;
pub mod models;
pub mod files;
pub mod launch;
pub mod menu;
