//! A binary serialization core: bounded cursors that decode typed values from
//! a byte sequence and encode them into one, under a chosen byte order, with
//! byte-exact budgets for nested structures.
//!
//! Every function in this crate carries a contract over a mathematical model
//! (byte sequences, positions, ceilings). The contracts are machine-checked;
//! the few facts taken on trust, all of them about the standard library, are
//! marked where they stand.

pub mod budget;
pub mod decoders;
pub mod encoders;
pub mod endian;
pub mod laws;
pub mod reader;
pub mod result;
pub mod string;
pub mod text;
pub mod writer;
