//! A small tape machine whose programs are spelled with the letters of a greeting.
//!
//! A program is a flat stream of characters. Each character is one instruction acting on a
//! circular tape of byte cells; `!` and `?` nest like parentheses and are the only control flow.
//! Every stream starts with a built-in preamble that emits a greeting, and may go on with text
//! supplied by the caller.

pub mod assembly;
pub mod blocks;
pub mod bracket;
pub mod config;
pub mod error;
pub mod greeting;
pub mod instr;
pub mod interp;
pub mod laws;
pub mod machine;
pub mod program;
pub mod tape;

pub use interp::HelloInterpreter;
