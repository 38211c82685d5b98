//! A small byte-oriented virtual machine and its assembler.
//!
//! The crate pairs a binary bytecode format with the engine that
//! interprets it: tokenizing assembly text, emitting the instruction
//! encoding, and running the fetch-decode-execute loop over a flat
//! address space with registers, a program counter and a value stack.

pub mod assembler;
pub mod bytes;
pub mod config;
pub mod engine;
pub mod isa;
pub mod machine;
pub mod text;
