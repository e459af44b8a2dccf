//! A persistent key-value service behind an admission-controlled HTTP
//! surface: byte values stored under caller-chosen keys, plus a one-shot
//! "install" transition that provisions a single administrative user record.
//!
//! The crate holds the decision-making core: the store model and its
//! handlers ([`service`]), the user record and its wire codec ([`user`],
//! [`wire`]), and the admission pipeline's gate, timeout verdict, and error
//! translation ([`admission`]). A binary wires these decisions to a real
//! storage engine and an HTTP server.
pub mod wire;
pub mod user;
pub mod store;
pub mod service;
pub mod admission;

use vstd::prelude::*;

verus! {

/// Largest request body, in bytes, that a write accepts.
pub const BODY_CEILING: usize = 5_000 * 1024;

/// Decides whether a request body of `len` bytes may reach the write handler.
pub fn body_within_ceiling(len: usize) -> (r: bool)
    ensures
        r == (len <= BODY_CEILING),
{
    len <= BODY_CEILING
}

} // verus!
