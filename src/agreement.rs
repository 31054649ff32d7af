//! Agreements between two parties, each of whom signs the digest of the
//! terms with a one-time key derived for that agreement.
use vstd::prelude::*;

verus! {

use vstd::string::StringExecFns;
use vstd::utf8::encode_utf8;
use crate::hashing::{digest_bits, hash, hash_text, lemma_hex_text_bits, sha256_of};
use crate::lamport::{
    create_public_key, derived_key, lemma_sign_then_verify, public_of, random_private_key, sign,
    signature_of, verifies, PairView, PublicKey, Signature, KEY_SIZE,
};

/// An agreement between its creator (`by_user`) and a counterparty
/// (`with_user`), with a slot for each party's public key and signature.
#[derive(Clone, Debug)]
pub struct Agreement {
    pub id: u64,
    pub terms: Vec<String>,
    pub date: String,
    pub by_user: String,
    pub with_user: String,
    pub by_user_proof: Option<(PublicKey, Signature)>,
    pub with_user_proof: Option<(PublicKey, Signature)>,
}

/// Why an agreement has no verification answer.
#[derive(Clone, Copy, Debug, PartialEq, Eq)]
pub enum AgreementError {
    /// A party has not signed yet.
    Incomplete,
}

/// The terms as text.
pub open spec fn terms_view(terms: Seq<String>) -> Seq<Seq<char>> {
    terms.map_values(|t: String| t@)
}

/// The terms joined with no separator.
pub open spec fn joined(terms: Seq<Seq<char>>) -> Seq<char>
    decreases terms.len(),
{
    if terms.len() == 0 {
        Seq::empty()
    } else {
        joined(terms.drop_last()) + terms.last()
    }
}

/// The digest both parties sign: the hash of the joined terms.
pub open spec fn terms_digest(terms: Seq<Seq<char>>) -> Seq<char> {
    hash_text(joined(terms))
}

/// The key that `identity` derives for an agreement.
pub open spec fn party_key(identity: Seq<char>, a: Agreement) -> Seq<PairView> {
    derived_key(identity, a.by_user@, a.with_user@, a.date@, terms_view(a.terms@))
}

/// A slot holds the public key and the signature over the agreement's
/// 256-bit digest that `identity`'s derived key gives.
pub open spec fn signed_by(
    slot: Option<(PublicKey, Signature)>,
    identity: Seq<char>,
    a: Agreement,
) -> bool {
    let k = party_key(identity, a);
    let bits = digest_bits(terms_digest(terms_view(a.terms@)));
    match slot {
        Some(p) => {
            &&& p.0@ == public_of(k)
            &&& p.1@ == signature_of(bits, k)
            &&& bits.len() == KEY_SIZE
        },
        None => false,
    }
}

/// A slot is filled and its signature verifies against its public key.
pub open spec fn slot_verifies(slot: Option<(PublicKey, Signature)>, digest: Seq<char>) -> bool {
    match slot {
        Some(p) => verifies(digest, p.1@, p.0@),
        None => false,
    }
}

/// Both slots verify against the digest of the terms.
pub open spec fn agreement_verifies(a: Agreement) -> bool {
    let d = terms_digest(terms_view(a.terms@));
    slot_verifies(a.by_user_proof, d) && slot_verifies(a.with_user_proof, d)
}

/// The digest of the terms: they are joined with no separator and hashed.
pub fn agreement_digest(terms: &Vec<String>) -> (r: String)
    ensures
        r@ == terms_digest(terms_view(terms@)),
        digest_bits(r@).len() == KEY_SIZE,
{
    let ghost tv = terms_view(terms@);
    let mut message = String::new();
    let mut t: usize = 0;
    while t < terms.len()
        invariant
            t <= terms@.len(),
            tv == terms_view(terms@),
            message@ == joined(tv.subrange(0, t as int)),
        decreases terms@.len() - t,
    {
        message.append(&terms[t]);
        assert(tv.subrange(0, t + 1).drop_last() =~= tv.subrange(0, t as int));
        t = t + 1;
    }
    assert(tv.subrange(0, t as int) =~= tv);
    let r = hash(&message);
    proof {
        lemma_hex_text_bits(sha256_of(encode_utf8(message@)));
    }
    r
}

/// `identity` derives its key for the agreement and signs the digest of the terms.
fn sign_as(identity: &String, agreement: &Agreement) -> (r: (PublicKey, Signature))
    ensures
        signed_by(Some(r), identity@, *agreement),
{
    let key = random_private_key(identity.clone(), agreement);
    let public_key = create_public_key(&key);
    let digest = agreement_digest(&agreement.terms);
    let signature = sign(digest, &key).unwrap();
    (public_key, signature)
}

/// Creates an agreement; the creator (`by_user`) signs it at once, and the
/// counterparty's slot stays empty.
pub fn create_new_agreement(
    terms: Vec<String>,
    with_user: String,
    id: u64,
    by_user: String,
    date: String,
) -> (r: Agreement)
    ensures
        r.id == id,
        r.terms == terms,
        r.with_user == with_user,
        r.by_user == by_user,
        r.date == date,
        signed_by(r.by_user_proof, by_user@, r),
        r.with_user_proof is None,
{
    let mut agreement = Agreement {
        id,
        terms,
        date,
        by_user,
        with_user,
        by_user_proof: None,
        with_user_proof: None,
    };
    let proof = sign_as(&agreement.by_user, &agreement);
    agreement.by_user_proof = Some(proof);
    agreement
}

/// `user` accepts the agreement: it signs with its own derived key, and the
/// counterparty slot is filled (replaced if it was filled before).
pub fn agree_to_agreement(user: String, agreement: Agreement) -> (r: Agreement)
    ensures
        r.id == agreement.id,
        r.terms == agreement.terms,
        r.with_user == agreement.with_user,
        r.by_user == agreement.by_user,
        r.date == agreement.date,
        r.by_user_proof == agreement.by_user_proof,
        signed_by(r.with_user_proof, user@, r),
{
    let mut agreement = agreement;
    let proof = sign_as(&user, &agreement);
    agreement.with_user_proof = Some(proof);
    agreement
}

/// Verifies both parties' signatures against the digest of the terms. An
/// agreement with an empty slot has no answer: `Incomplete`.
pub fn verify_signatures(agreement: &Agreement) -> (r: Result<bool, AgreementError>)
    ensures
        r is Err <==> (agreement.by_user_proof is None || agreement.with_user_proof is None),
        r matches Ok(b) ==> b == agreement_verifies(*agreement),
{
    match (&agreement.by_user_proof, &agreement.with_user_proof) {
        (Some(first), Some(second)) => {
            let digest = agreement_digest(&agreement.terms);
            let first_ok = crate::lamport::verify(digest.clone(), &first.1, &first.0);
            let second_ok = crate::lamport::verify(digest, &second.1, &second.0);
            Ok(first_ok && second_ok)
        },
        _ => Err(AgreementError::Incomplete),
    }
}

/// Whether `identity` is the creator or the counterparty of the agreement.
pub fn involves(agreement: &Agreement, identity: &String) -> (r: bool)
    ensures
        r == (agreement.by_user@ == identity@ || agreement.with_user@ == identity@),
{
    agreement.by_user == *identity || agreement.with_user == *identity
}

/// An agreement whose two slots each hold what some party's key gives over
/// the terms' digest (as creation and acceptance leave it) verifies.
pub proof fn lemma_signed_agreement_verifies(
    a: Agreement,
    creator: Seq<char>,
    counterparty: Seq<char>,
)
    requires
        signed_by(a.by_user_proof, creator, a),
        signed_by(a.with_user_proof, counterparty, a),
    ensures
        agreement_verifies(a),
{
    let d = terms_digest(terms_view(a.terms@));
    let k1 = party_key(creator, a);
    let k2 = party_key(counterparty, a);
    lemma_sign_then_verify(k1, d);
    lemma_sign_then_verify(k2, d);
}

} // verus!
