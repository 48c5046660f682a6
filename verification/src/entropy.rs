//! What the library draws from outside: random bytes and new identifiers.
//!
//! Nothing is known of what comes back. The functions that use it are
//! verified for whatever it is.

use vstd::prelude::*;

verus! {

/// Draws sixteen bytes from `rand::thread_rng`, the thread's
/// cryptographically secure generator. Nothing is claimed of the bytes.
#[verifier::external_body]
pub(crate) fn random_block() -> (block: [u8; 16]) {
    rand::Rng::gen(&mut rand::thread_rng())
}

/// Draws the twelve bytes of a new `mongodb::bson::oid::ObjectId`. Nothing
/// is claimed of the bytes.
#[verifier::external_body]
pub(crate) fn random_object_id() -> (bytes: [u8; 12]) {
    mongodb::bson::oid::ObjectId::new().bytes()
}

} // verus!
