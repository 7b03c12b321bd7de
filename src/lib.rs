//! The register engine of a four-level RPN programmer's calculator with a
//! selectable word size (1 to 128 bits) and display base, and the address
//! table that the calculator can be loaded with.

pub mod bits;
pub mod command;
pub mod completion;
pub mod cpu;
pub mod laws;
pub mod radix;
pub mod rom;
pub mod text;
