// The per-request authentication context: no-credential handling, the
// verified and rejected records, and memoization across accesses.

use lsat::binding::PaymentPreimage;
use lsat::lsat::{
    compute_lsat_info, LsatCache, LsatCredential, LsatRequest, LSAT_TYPE_ERROR, LSAT_TYPE_FREE,
    LSAT_TYPE_PAID, LSAT_TYPE_PAYMENT_REQUIRED,
};
use macaroon::{ByteString, Macaroon, MacaroonKey};

const ZERO_HASH_HEX: &str = "66687aadf862bd776c8fc18b8e9f8e20089714856ee233b3902a591d0d5f2925";

fn valid_credential() -> LsatCredential {
    macaroon::initialize().unwrap();
    let key = MacaroonKey::generate(b"root-secret");
    let identifier = hex::decode(ZERO_HASH_HEX).unwrap();
    let mut mac = Macaroon::create(None, &key, ByteString(identifier)).unwrap();
    mac.add_first_party_caveat("expires = never".into());
    LsatCredential {
        mac,
        caveats: vec!["expires = never".to_string()],
        root_key: b"root-secret".to_vec(),
        preimage: PaymentPreimage([0u8; 32]),
        auth_header: "LSAT token:preimage".to_string(),
    }
}

#[test]
fn token_state_labels_are_exact() {
    assert_eq!(LSAT_TYPE_FREE, "FREE");
    assert_eq!(LSAT_TYPE_PAYMENT_REQUIRED, "PAYMENT REQUIRED");
    assert_eq!(LSAT_TYPE_PAID, "PAID");
    assert_eq!(LSAT_TYPE_ERROR, "ERROR");
}

#[test]
fn missing_credential_yields_error_record() {
    let info = compute_lsat_info(LsatRequest { credential: None });
    assert_eq!(info.lsat_type, "ERROR");
    assert_eq!(info.error, Some("No credential present".to_string()));
    assert!(info.preimage.is_none());
    assert!(info.payment_hash.is_none());
    assert!(info.auth_header.is_none());
}

#[test]
fn verified_credential_yields_paid_record() {
    let info = compute_lsat_info(LsatRequest { credential: Some(valid_credential()) });
    assert_eq!(info.lsat_type, "PAID");
    assert_eq!(info.error, None);
    assert_eq!(info.preimage, Some(PaymentPreimage([0u8; 32])));
    let hash = info.payment_hash.expect("payment hash should be recorded");
    assert_eq!(hex::encode(hash.0), ZERO_HASH_HEX);
    assert_eq!(info.auth_header, Some("LSAT token:preimage".to_string()));
}

#[test]
fn rejected_credential_yields_error_record() {
    let mut cred = valid_credential();
    cred.caveats = vec!["expires = 1970".to_string()];
    let info = compute_lsat_info(LsatRequest { credential: Some(cred) });
    assert_eq!(info.lsat_type, "ERROR");
    let message = info.error.expect("a diagnostic message should be recorded");
    assert!(message.starts_with("Error validating macaroon: "));
    assert!(info.preimage.is_none());
    assert!(info.payment_hash.is_none());
    assert_eq!(info.auth_header, Some("LSAT token:preimage".to_string()));
}

#[test]
fn first_access_computes_and_caches() {
    let mut cache = LsatCache::new();
    let first = cache.get_or_compute(LsatRequest { credential: Some(valid_credential()) });
    assert_eq!(first.lsat_type, "PAID");
    let second = cache.get_or_compute(LsatRequest { credential: Some(valid_credential()) });
    assert_eq!(first, second);
}

#[test]
fn later_accesses_ignore_the_request() {
    // After the first computation the cached record is returned as it is,
    // even when the later access presents a request that would have produced
    // a different record.
    let mut cache = LsatCache::new();
    let first = cache.get_or_compute(LsatRequest { credential: Some(valid_credential()) });
    assert_eq!(first.lsat_type, "PAID");
    let second = cache.get_or_compute(LsatRequest { credential: None });
    assert_eq!(first, second);
    assert_eq!(second.lsat_type, "PAID");
}
