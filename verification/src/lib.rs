//! Instrumentation of WebAssembly modules for post-mortem debugging.

pub mod ast;
pub mod coredump_builder;
pub mod coredump_encoder;
pub mod coredump_to_stack;
pub mod coredump_types;
pub mod edits;
pub mod index;
pub mod laws;
pub mod memory;
pub mod opcodes;
pub mod parser;
pub mod printer;
pub mod rewriter;
pub mod roundtrip;
pub mod split;
pub mod traverse;
pub mod varint;
pub mod wast;
