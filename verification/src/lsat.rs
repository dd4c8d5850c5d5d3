//! Verification orchestrator and per-request authentication context: one
//! pass/fail decision composed of the caveat stage and the payment-binding
//! stage, and the lazily computed, memoized record of that decision which
//! downstream request handlers read.

use vstd::prelude::*;
use vstd::string::StringExecFns;
use crate::binding::{binding_ok, sha256_of, verify_payment_binding, PaymentHash, PaymentPreimage};
use crate::caveats::{cond_set, identifier_of, key_of, mac_caveats, mac_id, mac_verify_result, verify_caveats};
use crate::codec::{chars_of, hex_of, strip_ff};
use crate::errors::{spec_message, verdict_of, LsatError, Verdict};

verus! {

pub const LSAT_TYPE_FREE: &'static str = "FREE";

pub const LSAT_TYPE_PAYMENT_REQUIRED: &'static str = "PAYMENT REQUIRED";

pub const LSAT_TYPE_PAID: &'static str = "PAID";

pub const LSAT_TYPE_ERROR: &'static str = "ERROR";

pub const LSAT_HEADER: &'static str = "LSAT";

pub const LSAT_HEADER_NAME: &'static str = "Accept-Authenticate";

pub const LSAT_AUTHENTICATE_HEADER_NAME: &'static str = "WWW-Authenticate";

pub const LSAT_AUTHORIZATION_HEADER_NAME: &'static str = "Authorization";

/// Both stages pass: no more conditions than caveats, the chained signature
/// and caveat-satisfaction algorithm accepts, and the payment binding holds.
pub open spec fn lsat_ok(
    m: macaroon::Macaroon,
    conds: Seq<Seq<char>>,
    root_key: Seq<u8>,
    preimage: Seq<u8>,
) -> bool {
    &&& conds.len() <= mac_caveats(m).len()
    &&& mac_verify_result(m, key_of(root_key), cond_set(conds)) is Ok
    &&& binding_ok(mac_id(m), preimage)
}

/// The verdict one verification run is pinned to: the caveat stage decides
/// first — without consulting the signature algorithm when too many
/// conditions are presented — and the payment binding is checked only after
/// the caveat stage passes.
pub open spec fn lsat_verdict(
    m: macaroon::Macaroon,
    conds: Seq<Seq<char>>,
    root_key: Seq<u8>,
    preimage: Seq<u8>,
) -> Verdict {
    if conds.len() > mac_caveats(m).len() {
        Verdict::CaveatCount
    } else {
        match mac_verify_result(m, key_of(root_key), cond_set(conds)) {
            Result::Err(detail) => Verdict::SigOrCaveat(detail),
            Result::Ok(_) => {
                if binding_ok(mac_id(m), preimage) {
                    Verdict::Pass
                } else {
                    Verdict::HashBinding(
                        chars_of(hex_of(sha256_of(preimage))),
                        chars_of(strip_ff(hex_of(mac_id(m)))),
                    )
                }
            },
        }
    }
}

/// The verification orchestrator: run the caveat verifier, and on its success
/// the payment-binding verifier; return the first failure, success only when
/// both pass. A pure function of its inputs.
pub fn verify_lsat(
    mac: &macaroon::Macaroon,
    caveats: Vec<String>,
    root_key: Vec<u8>,
    preimage: PaymentPreimage,
) -> (r: Result<(), LsatError>)
    ensures
        verdict_of(r) == lsat_verdict(*mac, caveats.deep_view(), root_key@, preimage.0@),
        r is Ok <==> lsat_ok(*mac, caveats.deep_view(), root_key@, preimage.0@),
{
    match verify_caveats(mac, &caveats, &root_key) {
        Err(e) => Err(e),
        Ok(()) => {
            let macaroon_id = identifier_of(mac);
            verify_payment_binding(&macaroon_id, &preimage)
        },
    }
}

/// Per-request authentication result: the token state, the verified preimage
/// and payment hash when verification succeeded, the diagnostic message when
/// it did not, and the raw credential header when one was presented.
#[derive(Clone, Debug, PartialEq, Eq)]
pub struct LsatInfo {
    pub lsat_type: String,
    pub preimage: Option<PaymentPreimage>,
    pub payment_hash: Option<PaymentHash>,
    pub error: Option<String>,
    pub auth_header: Option<String>,
}

/// The mathematical value of an `LsatInfo`: its strings as character
/// sequences and its 32-byte values as byte sequences.
pub struct LsatInfoV {
    pub lsat_type: Seq<char>,
    pub preimage: Option<Seq<u8>>,
    pub payment_hash: Option<Seq<u8>>,
    pub error: Option<Seq<char>>,
    pub auth_header: Option<Seq<char>>,
}

impl View for LsatInfo {
    type V = LsatInfoV;

    open spec fn view(&self) -> LsatInfoV {
        LsatInfoV {
            lsat_type: self.lsat_type@,
            preimage: match self.preimage {
                Some(p) => Some(p.0@),
                None => None,
            },
            payment_hash: match self.payment_hash {
                Some(h) => Some(h.0@),
                None => None,
            },
            error: match self.error {
                Some(e) => Some(e@),
                None => None,
            },
            auth_header: match self.auth_header {
                Some(h) => Some(h@),
                None => None,
            },
        }
    }
}

impl LsatInfo {
    /// A field-for-field copy whose mathematical value equals this one's.
    pub fn duplicate(&self) -> (r: LsatInfo)
        ensures
            r@ == self@,
    {
        LsatInfo {
            lsat_type: self.lsat_type.clone(),
            preimage: self.preimage,
            payment_hash: self.payment_hash,
            error: match &self.error {
                Some(e) => Some(e.clone()),
                None => None,
            },
            auth_header: match &self.auth_header {
                Some(h) => Some(h.clone()),
                None => None,
            },
        }
    }
}

/// One presented credential: the macaroon, the conditions the server asks to
/// be satisfied, the server's root secret, the revealed preimage, and the raw
/// header it all came from.
pub struct LsatCredential {
    pub mac: macaroon::Macaroon,
    pub caveats: Vec<String>,
    pub root_key: Vec<u8>,
    pub preimage: PaymentPreimage,
    pub auth_header: String,
}

/// What one inbound request presents: a credential, or none.
pub struct LsatRequest {
    pub credential: Option<LsatCredential>,
}

/// The verdict a presented credential is pinned to.
pub open spec fn cred_verdict(c: LsatCredential) -> Verdict {
    lsat_verdict(c.mac, c.caveats.deep_view(), c.root_key@, c.preimage.0@)
}

/// The diagnostic message of a failed verdict, as its characters.
pub open spec fn verdict_message(v: Verdict) -> Seq<char> {
    match v {
        Verdict::Pass => Seq::empty(),
        Verdict::Missing => "No credential present"@,
        Verdict::CaveatCount => "Error validating macaroon: Caveats don't match"@,
        Verdict::SigOrCaveat(detail) => "Error validating macaroon: "@ + detail,
        Verdict::HashBinding(payment_hash_hex, identifier_hex) => "Invalid PaymentHash "@
            + payment_hash_hex + " for macaroon "@ + identifier_hex,
    }
}

/// The authentication result a request is pinned to: an `Error` record with
/// the literal message `No credential present` when no credential was
/// presented; a `Paid` record carrying the preimage and its hash when
/// verification passes; an `Error` record carrying the failure's diagnostic
/// message when it does not.
pub open spec fn spec_lsat_info(req: LsatRequest) -> LsatInfoV {
    match req.credential {
        None => LsatInfoV {
            lsat_type: "ERROR"@,
            preimage: None,
            payment_hash: None,
            error: Some("No credential present"@),
            auth_header: None,
        },
        Some(c) => {
            if cred_verdict(c) is Pass {
                LsatInfoV {
                    lsat_type: "PAID"@,
                    preimage: Some(c.preimage.0@),
                    payment_hash: Some(sha256_of(c.preimage.0@)),
                    error: None,
                    auth_header: Some(c.auth_header@),
                }
            } else {
                LsatInfoV {
                    lsat_type: "ERROR"@,
                    preimage: None,
                    payment_hash: None,
                    error: Some(verdict_message(cred_verdict(c))),
                    auth_header: Some(c.auth_header@),
                }
            }
        },
    }
}

/// Compute the authentication result of one request: examine the credential,
/// run the orchestrator when one is present, and record the outcome.
pub fn compute_lsat_info(req: LsatRequest) -> (r: LsatInfo)
    ensures
        r@ == spec_lsat_info(req),
{
    match req.credential {
        None => LsatInfo {
            lsat_type: LSAT_TYPE_ERROR.to_owned(),
            preimage: None,
            payment_hash: None,
            error: Some(LsatError::MissingCredential.message()),
            auth_header: None,
        },
        Some(c) => {
            let LsatCredential { mac, caveats, root_key, preimage, auth_header } = c;
            match verify_lsat(&mac, caveats, root_key, preimage) {
                Ok(()) => LsatInfo {
                    lsat_type: LSAT_TYPE_PAID.to_owned(),
                    preimage: Some(preimage),
                    payment_hash: Some(preimage.payment_hash()),
                    error: None,
                    auth_header: Some(auth_header),
                },
                Err(e) => {
                    let message = e.message();
                    proof {
                        assert(spec_message(e) == verdict_message(verdict_of(Err(e))));
                    }
                    LsatInfo {
                        lsat_type: LSAT_TYPE_ERROR.to_owned(),
                        preimage: None,
                        payment_hash: None,
                        error: Some(message),
                        auth_header: Some(auth_header),
                    }
                },
            }
        },
    }
}

/// The per-request cache of the authentication result: computed on first
/// access, returned unchanged on every later access within the same request.
pub struct LsatCache {
    info: Option<LsatInfo>,
}

/// How one access relates the cache before it, the cache after it, and the
/// returned record: a filled cache answers from its record and stays as it
/// was; an empty cache computes the request's record, stores it, and answers
/// with it.
pub open spec fn access_post(
    pre: LsatCache,
    req: LsatRequest,
    post: LsatCache,
    r: LsatInfo,
) -> bool {
    match pre.cached() {
        Some(i) => r@ == i@ && post == pre,
        None => {
            &&& r@ == spec_lsat_info(req)
            &&& match post.cached() {
                Some(j) => j@ == r@,
                None => false,
            }
        },
    }
}

impl LsatCache {
    /// What this cache holds: the memoized record, or nothing yet.
    pub closed spec fn cached(&self) -> Option<LsatInfo> {
        self.info
    }

    /// A fresh, empty cache for one request.
    pub fn new() -> (c: LsatCache)
        ensures
            c.cached() is None,
    {
        LsatCache { info: None }
    }

    /// First access computes the request's authentication result and caches
    /// it; every later access returns the cached record, bypassing the
    /// request entirely.
    pub fn get_or_compute(&mut self, req: LsatRequest) -> (r: LsatInfo)
        ensures
            access_post(*old(self), req, *final(self), r),
            final(self).cached() is Some,
    {
        match &self.info {
            Some(i) => i.duplicate(),
            None => {
                let fresh = compute_lsat_info(req);
                self.info = Some(fresh.duplicate());
                fresh
            },
        }
    }
}

/// Determinism of the verification orchestrator: any two results its
/// contract admits for the same macaroon, conditions, root key and preimage
/// carry the same verdict — the outcome is a function of the inputs, with no
/// hidden state.
pub proof fn lemma_verify_lsat_deterministic(
    m: macaroon::Macaroon,
    conds: Seq<Seq<char>>,
    root_key: Seq<u8>,
    preimage: Seq<u8>,
    r1: Result<(), LsatError>,
    r2: Result<(), LsatError>,
)
    requires
        verdict_of(r1) == lsat_verdict(m, conds, root_key, preimage),
        verdict_of(r2) == lsat_verdict(m, conds, root_key, preimage),
    ensures
        verdict_of(r1) == verdict_of(r2),
{
}

/// Determinism of the whole per-request computation: any two authentication
/// records the contract admits for the same request have the same
/// mathematical value.
pub proof fn lemma_lsat_info_deterministic(req: LsatRequest, r1: LsatInfo, r2: LsatInfo)
    requires
        r1@ == spec_lsat_info(req),
        r2@ == spec_lsat_info(req),
    ensures
        r1@ == r2@,
{
}

/// Memoization: once a cache has answered an access, every later access —
/// whatever request it presents, and however the verifier would have decided
/// it — returns a record with the same mathematical value and leaves the
/// cache untouched.
pub proof fn lemma_memoized_reads_agree(
    c0: LsatCache,
    req1: LsatRequest,
    c1: LsatCache,
    r1: LsatInfo,
    req2: LsatRequest,
    c2: LsatCache,
    r2: LsatInfo,
)
    requires
        access_post(c0, req1, c1, r1),
        access_post(c1, req2, c2, r2),
    ensures
        r2@ == r1@,
        c2 == c1,
{
}

} // verus!
