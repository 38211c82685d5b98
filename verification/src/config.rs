//! Plain carriers for programs handed to the machine or the assembler
//! by whatever loaded them.

use vstd::prelude::*;

verus! {

/// A binary program image, ready to load at address 0.
pub struct BinConfig {
    pub program: Vec<u8>,
}

/// Assembly source text, with the name its output should carry.
pub struct TxtConfig {
    pub program: String,
    pub name: String,
}

} // verus!
