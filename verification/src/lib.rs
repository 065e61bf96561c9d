//! Assembler core for a 16-bit-word, 64K-word-addressable virtual machine
//! with a memory-mapped text-mode display controller.
//!
//! Source text is tokenized line by line under a mode-sensitive grammar,
//! symbol tables are kept for callable routines, named constants and
//! fixed-size resource regions, and all defined blocks are linearized into
//! a flat 65536-word memory image that is serialized big-endian.

pub mod session;
pub mod encode;
pub mod err;
pub mod image;
pub mod opcodes;
pub mod parse;
pub mod symbols;
pub mod text;
