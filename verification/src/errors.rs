//! The closed set of verification failures, each carrying its human-readable
//! diagnostic text, and the spec-level verdict a verification run is pinned
//! to.

use vstd::prelude::*;
use vstd::string::StringExecFns;

verus! {

/// A verification failure. Every failure the credential checks can produce is
/// one of these variants; callers branch on the variant rather than on
/// message text.
#[derive(Clone, Debug, PartialEq, Eq)]
pub enum LsatError {
    /// No LSAT-format credential was presented with the request.
    MissingCredential,
    /// More caveat conditions were presented than the macaroon carries; the
    /// cryptographic check was skipped.
    CaveatCountMismatch,
    /// The macaroon's signature chain did not validate, or an embedded caveat
    /// was left unsatisfied; `detail` is the underlying algorithm's reason.
    SignatureOrCaveatFailure { detail: String },
    /// The revealed preimage's hash was not found in the normalized macaroon
    /// identifier; both hex strings are kept for diagnostics.
    HashBindingMismatch { payment_hash_hex: String, identifier_hex: String },
}

/// The outcome of one verification run, over mathematical values only: what a
/// `Result<(), LsatError>` says, with strings as character sequences.
pub enum Verdict {
    Pass,
    Missing,
    CaveatCount,
    SigOrCaveat(Seq<char>),
    HashBinding(Seq<char>, Seq<char>),
}

/// The verdict a concrete verification result denotes.
pub open spec fn verdict_of(r: Result<(), LsatError>) -> Verdict {
    match r {
        Ok(_) => Verdict::Pass,
        Err(e) => match e {
            LsatError::MissingCredential => Verdict::Missing,
            LsatError::CaveatCountMismatch => Verdict::CaveatCount,
            LsatError::SignatureOrCaveatFailure { detail } => Verdict::SigOrCaveat(detail@),
            LsatError::HashBindingMismatch { payment_hash_hex, identifier_hex } => {
                Verdict::HashBinding(payment_hash_hex@, identifier_hex@)
            },
        },
    }
}

/// The diagnostic message of each failure, as the characters it spells.
pub open spec fn spec_message(e: LsatError) -> Seq<char> {
    match e {
        LsatError::MissingCredential => "No credential present"@,
        LsatError::CaveatCountMismatch => "Error validating macaroon: Caveats don't match"@,
        LsatError::SignatureOrCaveatFailure { detail } => {
            "Error validating macaroon: "@ + detail@
        },
        LsatError::HashBindingMismatch { payment_hash_hex, identifier_hex } => {
            "Invalid PaymentHash "@ + payment_hash_hex@ + " for macaroon "@ + identifier_hex@
        },
    }
}

impl LsatError {
    /// The human-readable diagnostic text of this failure.
    pub fn message(&self) -> (r: String)
        ensures
            r@ == spec_message(*self),
    {
        match self {
            LsatError::MissingCredential => "No credential present".to_owned(),
            LsatError::CaveatCountMismatch => {
                "Error validating macaroon: Caveats don't match".to_owned()
            },
            LsatError::SignatureOrCaveatFailure { detail } => {
                let mut m = "Error validating macaroon: ".to_owned();
                m.append(detail.as_str());
                m
            },
            LsatError::HashBindingMismatch { payment_hash_hex, identifier_hex } => {
                let mut m = "Invalid PaymentHash ".to_owned();
                m.append(payment_hash_hex.as_str());
                m.append(" for macaroon ");
                m.append(identifier_hex.as_str());
                m
            },
        }
    }
}

} // verus!
