//! Verification core for LSAT bearer credentials: a macaroon whose caveats
//! must be satisfied under a key derived from a root secret, together with a
//! payment preimage whose SHA-256 hash must be embedded in the macaroon's
//! identifier. The crate also provides the per-request, memoized
//! authentication context that surrounds one verification.

pub mod binding;
pub mod caveats;
pub mod codec;
pub mod errors;
pub mod lsat;
