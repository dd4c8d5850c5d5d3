//! Payment binding verifier: the macaroon's identifier, hex-encoded and with
//! every `"ff"` occurrence removed, must contain the hex-encoded SHA-256 hash
//! of the revealed payment preimage as a substring.

use vstd::prelude::*;
use crate::codec::{
    ascii_string, chars_of, contains_bytes, contains_seq, hex_encode, hex_of,
    lemma_hex_of_ascii, lemma_strip_ff_ascii, strip_ff, strip_ff_bytes,
};
use crate::errors::LsatError;

verus! {

/// A 32-byte payment preimage, revealed by the client as proof of payment.
#[derive(Clone, Copy, Debug, PartialEq, Eq)]
pub struct PaymentPreimage(pub [u8; 32]);

/// A 32-byte payment hash: the SHA-256 digest of a preimage.
#[derive(Clone, Copy, Debug, PartialEq, Eq)]
pub struct PaymentHash(pub [u8; 32]);

/// The SHA-256 digest of a 32-byte preimage, a function of the bytes alone.
pub uninterp spec fn sha256_of(data: Seq<u8>) -> Seq<u8>;

/// Relies on lightning's `From<PaymentPreimage> for PaymentHash`: it hashes
/// the preimage bytes with SHA-256 and returns the 32 digest bytes.
#[verifier::external_body]
pub(crate) fn sha256_preimage(preimage: &[u8; 32]) -> (r: [u8; 32])
    ensures
        r@ == sha256_of(preimage@),
{
    let p = lightning::types::payment::PaymentPreimage(*preimage);
    lightning::types::payment::PaymentHash::from(p).0
}

impl PaymentPreimage {
    /// The payment hash this preimage proves: SHA-256 of its bytes.
    pub fn payment_hash(&self) -> (r: PaymentHash)
        ensures
            r.0@ == sha256_of(self.0@),
    {
        PaymentHash(sha256_preimage(&self.0))
    }
}

/// The payment binding holds: the identifier's hex encoding, with every
/// `"ff"` removed, contains the preimage's hash hex as a substring.
pub open spec fn binding_ok(identifier: Seq<u8>, preimage: Seq<u8>) -> bool {
    contains_seq(strip_ff(hex_of(identifier)), hex_of(sha256_of(preimage)))
}

/// The payment binding stage: hex-encode the identifier, remove every
/// occurrence of `"ff"`, hex-encode the preimage's SHA-256 hash, and succeed
/// exactly when the normalized identifier contains the hash hex as a
/// substring. This is a substring test, not an equality test: the identifier
/// may carry extra metadata bytes beyond the embedded hash.
pub fn verify_payment_binding(identifier: &Vec<u8>, preimage: &PaymentPreimage) -> (r: Result<
    (),
    LsatError,
>)
    ensures
        r is Ok <==> binding_ok(identifier@, preimage.0@),
        r matches Err(e) ==> (e matches LsatError::HashBindingMismatch {
            payment_hash_hex,
            identifier_hex,
        } && payment_hash_hex@ == chars_of(hex_of(sha256_of(preimage.0@))) && identifier_hex@
            == chars_of(strip_ff(hex_of(identifier@)))),
{
    let hash = sha256_preimage(&preimage.0);
    let hash_hex = hex_encode(hash.as_slice());
    let id_hex = hex_encode(identifier.as_slice());
    let id_hex_stripped = strip_ff_bytes(&id_hex);
    if contains_bytes(&id_hex_stripped, &hash_hex) {
        Ok(())
    } else {
        proof {
            lemma_hex_of_ascii(hash@);
            lemma_hex_of_ascii(identifier@);
            lemma_strip_ff_ascii(id_hex@);
        }
        let payment_hash_hex = ascii_string(&hash_hex);
        let identifier_hex = ascii_string(&id_hex_stripped);
        proof {
            assert(payment_hash_hex@ =~= chars_of(hash_hex@));
            assert(identifier_hex@ =~= chars_of(id_hex_stripped@));
        }
        Err(LsatError::HashBindingMismatch { payment_hash_hex, identifier_hex })
    }
}

} // verus!
