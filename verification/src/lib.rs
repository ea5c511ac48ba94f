//! Locates the end of the genuine content of a Windows portable executable
//! and plans the copy that keeps only that content.
//!
//! * [`parse`] turns a byte buffer into a [`image::ParsedPe`] and resolves
//!   its boundary in one call. It asks for addresses of 64 bits, and the
//!   manifest compiles the logging of the parser out.
//! * [`boundary`] holds the two strategies by which the boundary is found.
//! * [`chunk`] splits the kept range into chunks, [`copy`] says what a copy
//!   made of those chunks holds, and [`job`] drives a caller that writes
//!   them to an output of its own.
//! * [`naming`] derives the output file's name, and [`checksum`] computes the
//!   number that the header report shows.

pub mod boundary;
pub mod checksum;
pub mod chunk;
pub mod copy;
pub mod image;
pub mod job;
pub mod naming;
pub mod parse;
