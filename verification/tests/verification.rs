// The verification orchestrator against macaroons minted with the real
// macaroon crate. SHA-256 of 32 zero bytes is the identifier used for
// passing runs; it contains no "ff", so normalization leaves it intact.

use lsat::binding::PaymentPreimage;
use lsat::errors::LsatError;
use lsat::lsat::verify_lsat;
use macaroon::{ByteString, Macaroon, MacaroonKey};

const ZERO_HASH_HEX: &str = "66687aadf862bd776c8fc18b8e9f8e20089714856ee233b3902a591d0d5f2925";

fn zero_preimage() -> PaymentPreimage {
    PaymentPreimage([0u8; 32])
}

fn mint(root: &[u8], identifier: Vec<u8>, caveats: &[&str]) -> Macaroon {
    macaroon::initialize().unwrap();
    let key = MacaroonKey::generate(root);
    let mut mac = Macaroon::create(None, &key, ByteString(identifier)).unwrap();
    for c in caveats {
        mac.add_first_party_caveat((*c).into());
    }
    mac
}

fn bound_identifier() -> Vec<u8> {
    hex::decode(ZERO_HASH_HEX).unwrap()
}

#[test]
fn whole_verification_passes() {
    let mac = mint(b"root-secret", bound_identifier(), &["expires = never"]);
    let r = verify_lsat(
        &mac,
        vec!["expires = never".to_string()],
        b"root-secret".to_vec(),
        zero_preimage(),
    );
    assert_eq!(r, Ok(()));
}

#[test]
fn all_caveats_must_be_matched() {
    let mac = mint(b"root-secret", bound_identifier(), &["expires = never", "scope = read"]);
    // Both caveats matched: passes.
    let ok = verify_lsat(
        &mac,
        vec!["scope = read".to_string(), "expires = never".to_string()],
        b"root-secret".to_vec(),
        zero_preimage(),
    );
    assert_eq!(ok, Ok(()));
    // One caveat left unmatched: the caveat stage rejects.
    let missing = verify_lsat(
        &mac,
        vec!["expires = never".to_string()],
        b"root-secret".to_vec(),
        zero_preimage(),
    );
    assert!(matches!(missing, Err(LsatError::SignatureOrCaveatFailure { .. })));
}

#[test]
fn too_many_conditions_fail_fast() {
    // The macaroon's signature is invalid under the presented root key, so a
    // run of the signature algorithm would reject it; the count check fires
    // first and the cryptographic path is never consulted.
    let mac = mint(b"some-other-secret", bound_identifier(), &["expires = never"]);
    let r = verify_lsat(
        &mac,
        vec!["expires = never".to_string(), "scope = read".to_string()],
        b"root-secret".to_vec(),
        zero_preimage(),
    );
    assert_eq!(r, Err(LsatError::CaveatCountMismatch));
}

#[test]
fn wrong_root_key_is_rejected() {
    let mac = mint(b"some-other-secret", bound_identifier(), &[]);
    let r = verify_lsat(&mac, Vec::new(), b"root-secret".to_vec(), zero_preimage());
    assert!(matches!(r, Err(LsatError::SignatureOrCaveatFailure { .. })));
}

#[test]
fn tampered_condition_is_rejected() {
    // One flipped character in the presented condition string.
    let mac = mint(b"root-secret", bound_identifier(), &["expires = never"]);
    let r = verify_lsat(
        &mac,
        vec!["expires = neveR".to_string()],
        b"root-secret".to_vec(),
        zero_preimage(),
    );
    assert!(matches!(r, Err(LsatError::SignatureOrCaveatFailure { .. })));
}

#[test]
fn caveat_stage_decides_before_binding() {
    // Identifier not bound to the preimage, but the caveat stage fails first.
    let mac = mint(b"root-secret", vec![0x01, 0x02, 0x03], &["expires = never"]);
    let r = verify_lsat(
        &mac,
        vec!["wrong condition".to_string()],
        b"root-secret".to_vec(),
        zero_preimage(),
    );
    assert!(matches!(r, Err(LsatError::SignatureOrCaveatFailure { .. })));
}

#[test]
fn unbound_identifier_is_rejected_after_caveats_pass() {
    let mac = mint(b"root-secret", vec![0x01, 0x02, 0x03], &[]);
    let r = verify_lsat(&mac, Vec::new(), b"root-secret".to_vec(), zero_preimage());
    assert!(matches!(r, Err(LsatError::HashBindingMismatch { .. })));
}

#[test]
fn identical_inputs_give_identical_results() {
    let mac = mint(b"root-secret", bound_identifier(), &["expires = never"]);
    let run = || {
        verify_lsat(
            &mac,
            vec!["expires = never".to_string()],
            b"root-secret".to_vec(),
            zero_preimage(),
        )
    };
    assert_eq!(run(), run());

    let bad = mint(b"some-other-secret", bound_identifier(), &[]);
    let run_bad = || verify_lsat(&bad, Vec::new(), b"root-secret".to_vec(), zero_preimage());
    assert_eq!(run_bad(), run_bad());
}

#[test]
fn caveat_count_message_is_fixed() {
    assert_eq!(
        LsatError::CaveatCountMismatch.message(),
        "Error validating macaroon: Caveats don't match"
    );
}

#[test]
fn tampered_signature_is_rejected() {
    // The V2 token ends with the 32-byte signature; changing one character
    // well inside the base64 tail flips bits of the signature only.
    let mac = mint(b"root-secret", bound_identifier(), &[]);
    let token = mac.serialize(macaroon::Format::V2).unwrap();
    let mut bytes = token.into_bytes();
    let idx = bytes.len() - 8;
    bytes[idx] = if bytes[idx] == b'A' { b'B' } else { b'A' };
    let tampered = String::from_utf8(bytes).unwrap();
    let tampered_mac = Macaroon::deserialize(&tampered).expect("the token still parses");
    let r = verify_lsat(&tampered_mac, Vec::new(), b"root-secret".to_vec(), zero_preimage());
    assert!(matches!(r, Err(LsatError::SignatureOrCaveatFailure { .. })));
}

#[test]
fn signature_failure_message_carries_the_reason() {
    let err = LsatError::SignatureOrCaveatFailure { detail: "InvalidSignature".to_string() };
    assert_eq!(err.message(), "Error validating macaroon: InvalidSignature");
}
