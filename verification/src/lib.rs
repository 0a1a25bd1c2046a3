//! Resolution of ledger transaction instructions.
//!
//! A transaction message stores the accounts of each instruction as compact
//! indices into several key tables. This crate turns a message and its
//! execution metadata into fully resolved instructions:
//!
//! - [`resolver`] turns an account index into an address with its signer and
//!   writable flags;
//! - [`extraction`] walks the top-level and inner instructions of a message;
//! - [`normalize`] converts wire-format metadata, field by field;
//! - [`transformers`] offers both on a whole transaction;
//! - [`nesting`] rebuilds the forest of calls from a flat, depth-annotated
//!   sequence of instructions.
//!
//! Every function carries a contract over the mathematical view of its
//! arguments, proved with Verus.

pub mod base58;
pub mod error;
pub mod extraction;
pub mod instruction;
pub mod message;
pub mod metadata;
pub mod nesting;
pub mod normalize;
pub mod permissions;
pub mod pubkey;
pub mod resolver;
pub mod transformers;
