//! Caveat verifier: validates that a macaroon's first-party caveats are
//! satisfied by caller-supplied exact-match conditions, under a key derived
//! from the root secret. The macaroon crate performs the chained-signature
//! algorithm; its calls stand behind trusted declarations whose contracts
//! name what they return.

use vstd::prelude::*;
use crate::errors::LsatError;

verus! {

#[verifier::external_type_specification]
#[verifier::external_body]
pub struct ExMacaroon(macaroon::Macaroon);

#[verifier::external_type_specification]
#[verifier::external_body]
pub struct ExVerifier(macaroon::Verifier);

/// The predicates of a macaroon's first-party caveats, in their embedded
/// order, each as its bytes.
pub uninterp spec fn mac_caveats(m: macaroon::Macaroon) -> Seq<Seq<u8>>;

/// The bytes of a macaroon's identifier.
pub uninterp spec fn mac_id(m: macaroon::Macaroon) -> Seq<u8>;

/// The 32-byte verification key that `MacaroonKey::generate` derives, by
/// HMAC, from a seed alone.
pub uninterp spec fn key_of(seed: Seq<u8>) -> Seq<u8>;

/// The exact-match conditions a verifier has registered, each as the
/// characters of the string it was presented as (the verifier stores the
/// string's UTF-8 bytes, which determine the characters and are determined
/// by them).
pub uninterp spec fn verifier_conds(v: macaroon::Verifier) -> Set<Seq<char>>;

/// Whether a verifier has registered exact-match conditions only (no general
/// satisfier callbacks).
pub uninterp spec fn verifier_exact_only(v: macaroon::Verifier) -> bool;

/// The outcome of the chained signature and caveat-satisfaction algorithm on
/// a macaroon, a 32-byte key, and a set of exact-match conditions, with no
/// discharge macaroons: `Ok` when the signature chain validates under the key
/// and every embedded caveat is matched by a condition, otherwise the
/// algorithm's diagnostic text.
pub uninterp spec fn mac_verify_result(
    m: macaroon::Macaroon,
    key: Seq<u8>,
    conds: Set<Seq<char>>,
) -> Result<(), Seq<char>>;

/// Relies on `Macaroon::first_party_caveats`: it returns exactly the
/// first-party caveats, in order; each carries its predicate bytes.
#[verifier::external_body]
pub(crate) fn first_party_caveats_of(mac: &macaroon::Macaroon) -> (r: Vec<Vec<u8>>)
    ensures
        r.deep_view() == mac_caveats(*mac),
{
    mac.first_party_caveats()
        .into_iter()
        .map(|c| match c {
            macaroon::Caveat::FirstParty(fp) => fp.predicate().0,
            // first_party_caveats yields FirstParty variants only
            macaroon::Caveat::ThirdParty(_) => Vec::new(),
        })
        .collect()
}

/// Relies on `Macaroon::identifier`: it returns a clone of the identifier
/// bytes the macaroon was minted with.
#[verifier::external_body]
pub(crate) fn identifier_of(mac: &macaroon::Macaroon) -> (r: Vec<u8>)
    ensures
        r@ == mac_id(*mac),
{
    mac.identifier().0
}

/// Relies on `MacaroonKey::generate`: it derives a 32-byte key from the seed
/// by HMAC, deterministically.
#[verifier::external_body]
pub(crate) fn generate_key(seed: &Vec<u8>) -> (r: [u8; 32])
    ensures
        r@ == key_of(seed@),
{
    let key = macaroon::MacaroonKey::generate(seed);
    let bytes: &[u8; 32] = key.as_ref();
    *bytes
}

/// Relies on `Verifier::default`: a fresh verifier has no exact-match
/// conditions and no general satisfier callbacks.
#[verifier::external_body]
pub(crate) fn verifier_new() -> (v: macaroon::Verifier)
    ensures
        verifier_conds(v) == Set::<Seq<char>>::empty(),
        verifier_exact_only(v),
{
    macaroon::Verifier::default()
}

/// Relies on `Verifier::satisfy_exact`: it inserts the condition's bytes into
/// the verifier's set of exact-match conditions and touches nothing else.
#[verifier::external_body]
pub(crate) fn verifier_satisfy_exact(v: &mut macaroon::Verifier, cond: String)
    ensures
        verifier_conds(*final(v)) == verifier_conds(*old(v)).insert(cond@),
        verifier_exact_only(*final(v)) == verifier_exact_only(*old(v)),
{
    v.satisfy_exact(cond.into())
}

/// Relies on `Verifier::verify` with no discharge macaroons: its outcome is a
/// function of the macaroon, the key and the registered exact-match
/// conditions alone; the error text is the algorithm's own reason.
#[verifier::external_body]
pub(crate) fn verifier_verify(
    v: &macaroon::Verifier,
    mac: &macaroon::Macaroon,
    key: &[u8; 32],
) -> (r: Result<(), String>)
    requires
        verifier_exact_only(*v),
    ensures
        r is Ok <==> mac_verify_result(*mac, key@, verifier_conds(*v)) is Ok,
        r matches Err(m) ==> (mac_verify_result(*mac, key@, verifier_conds(*v)) matches Err(d)
            && d == m@),
{
    let k = macaroon::MacaroonKey::from(key);
    match v.verify(mac, &k, Vec::new()) {
        Ok(()) => Ok(()),
        Err(e) => Err(format!("{:?}", e)),
    }
}

/// The set of condition character sequences a list of presented conditions
/// holds.
pub open spec fn cond_set(conds: Seq<Seq<char>>) -> Set<Seq<char>> {
    Set::new(|c: Seq<char>| exists|i: int| 0 <= i < conds.len() && conds[i] == c)
}

proof fn lemma_cond_set_take_step(conds: Seq<Seq<char>>, i: int)
    requires
        0 <= i < conds.len(),
    ensures
        cond_set(conds.take(i + 1)) == cond_set(conds.take(i)).insert(conds[i]),
{
    let lhs = cond_set(conds.take(i + 1));
    let rhs = cond_set(conds.take(i)).insert(conds[i]);
    assert forall|c: Seq<char>| lhs.contains(c) implies rhs.contains(c) by {
        let k = choose|k: int| 0 <= k < conds.take(i + 1).len() && (#[trigger] conds.take(i + 1)[k]) == c;
        if k < i {
            assert(conds.take(i)[k] == c);
        }
    }
    assert forall|c: Seq<char>| rhs.contains(c) implies lhs.contains(c) by {
        if c == conds[i] {
            assert(conds.take(i + 1)[i] == c);
        } else {
            let k = choose|k: int| 0 <= k < conds.take(i).len() && (#[trigger] conds.take(i)[k]) == c;
            assert(conds.take(i + 1)[k] == c);
        }
    }
    assert(lhs =~= rhs);
}

/// The caveat stage: reject at once when more conditions are presented than
/// the macaroon carries caveats; otherwise derive the verification key from
/// the root secret, register every presented condition for exact-match
/// satisfaction, and run the chained signature and caveat-satisfaction
/// algorithm.
pub fn verify_caveats(mac: &macaroon::Macaroon, caveats: &Vec<String>, root_key: &Vec<u8>) -> (r:
    Result<(), LsatError>)
    ensures
        r is Ok <==> caveats@.len() <= mac_caveats(*mac).len() && mac_verify_result(
            *mac,
            key_of(root_key@),
            cond_set(caveats.deep_view()),
        ) is Ok,
        caveats@.len() > mac_caveats(*mac).len() ==> r == Result::<(), LsatError>::Err(
            LsatError::CaveatCountMismatch,
        ),
        r matches Err(e) ==> caveats@.len() <= mac_caveats(*mac).len() ==> (e matches
            LsatError::SignatureOrCaveatFailure { detail } && (mac_verify_result(
            *mac,
            key_of(root_key@),
            cond_set(caveats.deep_view()),
        ) matches Err(d) && d == detail@)),
{
    let mac_caveat_list = first_party_caveats_of(mac);
    proof {
        assert(mac_caveat_list@.len() == mac_caveats(*mac).len());
    }
    if caveats.len() > mac_caveat_list.len() {
        return Err(LsatError::CaveatCountMismatch);
    }
    let key = generate_key(root_key);
    let mut verifier = verifier_new();
    let mut i: usize = 0;
    proof {
        assert(cond_set(caveats.deep_view().take(0)) =~= Set::<Seq<char>>::empty());
    }
    while i < caveats.len()
        invariant
            i <= caveats@.len(),
            caveats@.len() == caveats.deep_view().len(),
            forall|k: int| 0 <= k < caveats@.len() ==> caveats.deep_view()[k] == caveats@[k]@,
            verifier_exact_only(verifier),
            verifier_conds(verifier) == cond_set(caveats.deep_view().take(i as int)),
        decreases caveats@.len() - i,
    {
        let cond = caveats[i].clone();
        verifier_satisfy_exact(&mut verifier, cond);
        proof {
            lemma_cond_set_take_step(caveats.deep_view(), i as int);
        }
        i = i + 1;
    }
    proof {
        assert(caveats.deep_view().take(caveats@.len() as int) =~= caveats
            .deep_view());
    }
    match verifier_verify(&verifier, mac, &key) {
        Ok(()) => Ok(()),
        Err(detail) => Err(LsatError::SignatureOrCaveatFailure { detail }),
    }
}

} // verus!
