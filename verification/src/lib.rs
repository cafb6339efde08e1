//! Core of a zero-knowledge virtual machine: an addressable memory with an
//! access log, a Merkle commitment tree over final memory images, per-opcode
//! execution chips split into adapters and cores, and a segmented execution
//! loop.
//!
//! Every value the machine touches is an element of the prime field in
//! [`field`]. [`memory`] holds the sparse cells, the timestamp, and the
//! access log a later offline consistency argument consumes. [`tree`]
//! commits a finalized image to a single root digest, sharing the
//! subtrees of untouched regions. Opcode execution is split between
//! [`adapters`], which do the register and heap plumbing common to an
//! opcode class, and cores ([`alu`], [`jal`], [`hintstore`],
//! [`field_arithmetic`]), which do the opcode-specific work and leave
//! records behind for trace generation. [`exec`] drives the dispatch
//! loop and slices long runs into proof segments without changing what
//! the program computes.

pub mod adapters;
pub mod alu;
pub mod arch;
pub mod columns;
pub mod config;
pub mod exec;
pub mod field;
pub mod field_arithmetic;
pub mod final_page;
pub mod hintstore;
pub mod jal;
pub mod memory;
pub mod range_tuple;
pub mod tree;

pub use field::Felt;
