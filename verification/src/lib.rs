//! A verified interpreter for the Universal Machine of the ICFP 2006
//! programming contest: a 32-bit register machine with a dynamically
//! allocated heap of platter arrays and a self-modifying program array.
//!
//! `command` decodes and encodes instruction platters; `machine` holds
//! the registers, the heap and the fetch-decode-execute loop, each
//! contract stated over an abstract `State`; `io` is the byte-stream
//! boundary to the host; `laws` proves the algebraic and invariant
//! properties the machine obeys.

pub mod command;
pub mod io;
pub mod laws;
pub mod machine;
