//! Runtime ownership and borrow tracking for a small container library.
//!
//! Rust enforces its single-owner, many-readers-or-one-writer discipline at
//! compile time.  This crate reproduces the same guarantees as an explicit,
//! runtime-checked state machine: an [`registry::OwnershipRegistry`] records
//! one owner and a borrow state per live value, [`registry::BorrowGuard`]s are
//! scoped claims against those records, and the containers
//! ([`sequence::DynamicSequence`] and [`map::AssociativeMap`]) route every
//! aliasing-sensitive operation through that discipline.  A comparison-based
//! sorter ([`sorter`]) is generic over an ordering capability
//! ([`compare::ThreeWayCompare`]).
//!
//! Every fallible operation returns `Result<_, ErrorKind>`; the error
//! taxonomy lives in [`errors`].

pub mod compare;
pub mod errors;
pub mod map;
pub mod registry;
pub mod sequence;
pub mod sorter;
pub mod usage;
