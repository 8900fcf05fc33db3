//! A library for building and running programs of a minimal eight-instruction
//! tape machine, together with a small pcap reader.
//!
//! A client composes [`ir::Item`] fragments, lowers them to a flat action
//! list, links the loop brackets with [`program::Program::build`], and runs
//! the result in an [`interp::Interpreter`] that consumes input bytes and
//! emits output bytes.
//!
//! The [`stats`] module is an extra beside that path: it computes the same
//! capture summary directly on parsed packets, without the tape machine.

pub mod client;
pub mod inst;
pub mod interp;
pub mod ir;
pub mod num;
pub mod pcap;
pub mod program;
pub mod stats;
pub mod text;

pub use inst::Instruction;
