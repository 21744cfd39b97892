//! Decoder for the Intel HEX text format.
//!
//! The crate turns the lines of an Intel HEX file into a typed record
//! stream and reconstructs the flat binary image those records encode:
//! each line is decoded into a raw record, validated against its
//! checksum, interpreted into a typed variant that snapshots the active
//! extended-address state, and finally merged into one byte buffer in
//! stream order.

pub mod commands;
pub mod file;
pub mod raw;
pub mod record;
