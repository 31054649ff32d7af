//! Lamport one-time keys: derivation, public keys, signing and verification.
use vstd::prelude::*;

verus! {

use vstd::utf8::encode_utf8;
use crate::agreement::{terms_view, Agreement};
use crate::hashing::{
    digest_bits, hash, hash_text, hash_to_binary_array, hex_encode, hex_text,
    lemma_digest_bits_binary, sha256, sha256_of,
};

/// Number of key pairs in a key, one per bit of a 256-bit digest.
pub const KEY_SIZE: usize = 256;

/// Number of bytes in the digest that one key pair is cut from.
const KEY_ELEMENT_SIZE: usize = 32;

/// One key pair as text: the preimage (or image) for bit 0 and for bit 1.
pub type PairView = (Seq<char>, Seq<char>);

/// A one-time private key: 256 pairs of hex preimages.
#[derive(Debug)]
pub struct PrivateKey {
    key_pairs: Vec<(String, String)>,
}

/// A public key: 256 pairs of hex hashes of the private preimages.
#[derive(Clone, Debug)]
pub struct PublicKey {
    key_pairs: Vec<(String, String)>,
}

/// A signature: one revealed preimage per digest bit.
#[derive(Clone, Debug)]
pub struct Signature {
    signatures: Vec<String>,
}

/// Key pairs as text.
pub open spec fn pairs_view(v: Seq<(String, String)>) -> Seq<PairView> {
    v.map_values(|p: (String, String)| (p.0@, p.1@))
}

/// Signature elements as text.
pub open spec fn strings_view(v: Seq<String>) -> Seq<Seq<char>> {
    v.map_values(|s: String| s@)
}

impl View for PrivateKey {
    type V = Seq<PairView>;

    closed spec fn view(&self) -> Seq<PairView> {
        pairs_view(self.key_pairs@)
    }
}

impl View for PublicKey {
    type V = Seq<PairView>;

    closed spec fn view(&self) -> Seq<PairView> {
        pairs_view(self.key_pairs@)
    }
}

impl View for Signature {
    type V = Seq<Seq<char>>;

    closed spec fn view(&self) -> Seq<Seq<char>> {
        strings_view(self.signatures@)
    }
}

/// The half of a pair that a bit selects.
pub open spec fn half(pair: PairView, bit: u8) -> Seq<char> {
    if bit == 0 {
        pair.0
    } else {
        pair.1
    }
}

/// The public key of a private key: each preimage hashed in place.
pub open spec fn public_of(k: Seq<PairView>) -> Seq<PairView> {
    k.map_values(|p: PairView| (hash_text(p.0), hash_text(p.1)))
}

/// The signature of a bit sequence: the selected half of each pair.
pub open spec fn signature_of(bits: Seq<u8>, k: Seq<PairView>) -> Seq<Seq<char>> {
    Seq::new(bits.len(), |i: int| half(k[i], bits[i]))
}

/// A signature is valid for a digest and public key when the digest has 256
/// bits, both have 256 elements, and each element hashes to the image that
/// the bit at its position selects.
pub open spec fn verifies(m: Seq<char>, sig: Seq<Seq<char>>, pk: Seq<PairView>) -> bool {
    let bits = digest_bits(m);
    &&& bits.len() == KEY_SIZE
    &&& sig.len() == KEY_SIZE
    &&& pk.len() == KEY_SIZE
    &&& forall|i: int| 0 <= i < KEY_SIZE ==> hash_text(#[trigger] sig[i]) == half(pk[i], bits[i])
}

/// UTF-8 bytes of the terms, in order, with no separator.
pub open spec fn terms_bytes(terms: Seq<Seq<char>>) -> Seq<u8>
    decreases terms.len(),
{
    if terms.len() == 0 {
        Seq::empty()
    } else {
        terms_bytes(terms.drop_last()) + encode_utf8(terms.last())
    }
}

/// What is hashed before the index for every pair of a derived key.
pub open spec fn derivation_prefix(
    identity: Seq<char>,
    by_user: Seq<char>,
    with_user: Seq<char>,
    date: Seq<char>,
    terms: Seq<Seq<char>>,
) -> Seq<u8> {
    encode_utf8(hash_text(identity)) + encode_utf8(by_user) + encode_utf8(with_user)
        + encode_utf8(date) + terms_bytes(terms)
}

/// The 8-byte big-endian form of a pair index below 256.
pub open spec fn index_bytes(i: int) -> Seq<u8> {
    seq![0u8, 0u8, 0u8, 0u8, 0u8, 0u8, 0u8, i as u8]
}

/// A key pair cut from a 32-byte digest: hex of the first and of the last 16 bytes.
pub open spec fn pair_of_digest(d: Seq<u8>) -> PairView {
    (hex_text(d.subrange(0, 16)), hex_text(d.subrange(16, 32)))
}

/// The private key that an identity derives for an agreement.
pub open spec fn derived_key(
    identity: Seq<char>,
    by_user: Seq<char>,
    with_user: Seq<char>,
    date: Seq<char>,
    terms: Seq<Seq<char>>,
) -> Seq<PairView> {
    Seq::new(
        KEY_SIZE as nat,
        |i: int|
            pair_of_digest(
                sha256_of(derivation_prefix(identity, by_user, with_user, date, terms) + index_bytes(i)),
            ),
    )
}

impl PrivateKey {
    /// Number of elements.
    pub fn len(&self) -> (r: usize)
        ensures
            r == self@.len(),
    {
        self.key_pairs.len()
    }

    #[verifier::type_invariant]
    spec fn wf(&self) -> bool {
        self.key_pairs@.len() == KEY_SIZE
    }

    /// A copy of the element at position `i`.
    pub fn get_key(&self, i: usize) -> (r: (String, String))
        requires
            i < self@.len(),
        ensures
            (r.0@, r.1@) == self@[i as int],
    {
        let p = &self.key_pairs[i];
        (p.0.clone(), p.1.clone())
    }
}

impl PublicKey {
    /// A public key made of the given pairs, as received from elsewhere.
    pub fn new(key_pairs: Vec<(String, String)>) -> (r: PublicKey)
        ensures
            r@ == pairs_view(key_pairs@),
    {
        PublicKey { key_pairs }
    }

    /// Number of elements.
    pub fn len(&self) -> (r: usize)
        ensures
            r == self@.len(),
    {
        self.key_pairs.len()
    }

    /// A copy of the element at position `i`.
    pub fn get_key(&self, i: usize) -> (r: (String, String))
        requires
            i < self@.len(),
        ensures
            (r.0@, r.1@) == self@[i as int],
    {
        let p = &self.key_pairs[i];
        (p.0.clone(), p.1.clone())
    }
}

impl Signature {
    /// A signature made of the given elements, as received from elsewhere.
    pub fn new(signatures: Vec<String>) -> (r: Signature)
        ensures
            r@ == strings_view(signatures@),
    {
        Signature { signatures }
    }

    /// Number of elements.
    pub fn len(&self) -> (r: usize)
        ensures
            r == self@.len(),
    {
        self.signatures.len()
    }

    /// A copy of the element at position `i`.
    pub fn get_key(&self, i: usize) -> (r: String)
        requires
            i < self@.len(),
        ensures
            r@ == self@[i as int],
    {
        self.signatures[i].clone()
    }
}

/// Appends `src` to `out`.
fn append_bytes(out: &mut Vec<u8>, src: &[u8])
    ensures
        final(out)@ == old(out)@ + src@,
{
    let ghost start = out@;
    let mut j: usize = 0;
    while j < src.len()
        invariant
            j <= src@.len(),
            out@ == start + src@.subrange(0, j as int),
        decreases src@.len() - j,
    {
        out.push(src[j]);
        j = j + 1;
        assert(out@ =~= start + src@.subrange(0, j as int));
    }
    assert(src@.subrange(0, j as int) =~= src@);
}

/// Appends the UTF-8 bytes of `s` to `out`.
fn append_str(out: &mut Vec<u8>, s: &str)
    ensures
        final(out)@ == old(out)@ + encode_utf8(s@),
{
    append_bytes(out, s.as_bytes());
}

/// Copies `src[from..to]` into a new vector.
fn copy_range(src: &Vec<u8>, from: usize, to: usize) -> (r: Vec<u8>)
    requires
        from <= to <= src@.len(),
    ensures
        r@ == src@.subrange(from as int, to as int),
{
    let mut r: Vec<u8> = Vec::new();
    let mut j: usize = from;
    while j < to
        invariant
            from <= j <= to <= src@.len(),
            r@ == src@.subrange(from as int, j as int),
        decreases to - j,
    {
        r.push(src[j]);
        j = j + 1;
        assert(r@ =~= src@.subrange(from as int, j as int));
    }
    r
}

/// Derives the one-time private key of `principal` for an agreement. For
/// each index below 256, SHA-256 runs over the hash of the identity, both
/// parties, the date, every term and the big-endian index; the digest's two
/// halves, hex encoded, form the pair.
pub fn random_private_key(principal: String, agreement: &Agreement) -> (r: PrivateKey)
    ensures
        r@ == derived_key(
            principal@,
            agreement.by_user@,
            agreement.with_user@,
            agreement.date@,
            terms_view(agreement.terms@),
        ),
        r@.len() == KEY_SIZE,
{
    let ghost terms = terms_view(agreement.terms@);
    let hashed_principal = hash(&principal);
    let mut prefix: Vec<u8> = Vec::new();
    append_str(&mut prefix, &hashed_principal);
    append_str(&mut prefix, &agreement.by_user);
    append_str(&mut prefix, &agreement.with_user);
    append_str(&mut prefix, &agreement.date);
    let ghost base = prefix@;
    let mut t: usize = 0;
    while t < agreement.terms.len()
        invariant
            t <= agreement.terms@.len(),
            terms == terms_view(agreement.terms@),
            prefix@ == base + terms_bytes(terms.subrange(0, t as int)),
        decreases agreement.terms@.len() - t,
    {
        append_str(&mut prefix, &agreement.terms[t]);
        assert(terms.subrange(0, t + 1).drop_last() =~= terms.subrange(0, t as int));
        t = t + 1;
        assert(prefix@ =~= base + terms_bytes(terms.subrange(0, t as int)));
    }
    assert(terms.subrange(0, t as int) =~= terms);
    assert(prefix@ =~= derivation_prefix(
        principal@,
        agreement.by_user@,
        agreement.with_user@,
        agreement.date@,
        terms,
    ));
    let ghost expected = derived_key(
        principal@,
        agreement.by_user@,
        agreement.with_user@,
        agreement.date@,
        terms,
    );
    let mut key_pairs: Vec<(String, String)> = Vec::new();
    let mut i: usize = 0;
    while i < KEY_SIZE
        invariant
            i <= KEY_SIZE,
            key_pairs@.len() == i,
            forall|j: int| 0 <= j < i ==> pairs_view(key_pairs@)[j] == #[trigger] expected[j],
            expected == derived_key(
                principal@,
                agreement.by_user@,
                agreement.with_user@,
                agreement.date@,
                terms,
            ),
            prefix@ == derivation_prefix(
                principal@,
                agreement.by_user@,
                agreement.with_user@,
                agreement.date@,
                terms,
            ),
        decreases KEY_SIZE - i,
    {
        let mut input: Vec<u8> = Vec::new();
        append_bytes(&mut input, prefix.as_slice());
        let mut z: usize = 0;
        while z < 7
            invariant
                z <= 7,
                input@ == prefix@ + Seq::new(z as nat, |q: int| 0u8),
            decreases 7 - z,
        {
            input.push(0u8);
            z = z + 1;
            assert(input@ =~= prefix@ + Seq::new(z as nat, |q: int| 0u8));
        }
        input.push(i as u8);
        assert(input@ =~= prefix@ + index_bytes(i as int));
        let hash_output = sha256(input.as_slice());
        let first = copy_range(&hash_output, 0, KEY_ELEMENT_SIZE / 2);
        let second = copy_range(&hash_output, KEY_ELEMENT_SIZE / 2, KEY_ELEMENT_SIZE);
        let key_str1 = hex_encode(first.as_slice());
        let key_str2 = hex_encode(second.as_slice());
        key_pairs.push((key_str1, key_str2));
        i = i + 1;
    }
    assert(pairs_view(key_pairs@) =~= expected);
    PrivateKey { key_pairs }
}

/// A signature made with a key verifies against that key's public key, for
/// every digest that decodes to 256 bits.
pub proof fn lemma_sign_then_verify(k: Seq<PairView>, m: Seq<char>)
    requires
        k.len() == KEY_SIZE,
        digest_bits(m).len() == KEY_SIZE,
    ensures
        verifies(m, signature_of(digest_bits(m), k), public_of(k)),
{
    let bits = digest_bits(m);
    let sig = signature_of(bits, k);
    let pk = public_of(k);
    assert forall|i: int| 0 <= i < KEY_SIZE implies hash_text(#[trigger] sig[i]) == half(
        pk[i],
        bits[i],
    ) by {
        assert(pk[i] == (hash_text(k[i].0), hash_text(k[i].1)));
    }
}

/// A signature over one digest verifies for a digest with other bits only
/// if, at some position, both halves of the key pair hash to the same text.
pub proof fn lemma_other_digest_needs_collision(k: Seq<PairView>, m1: Seq<char>, m2: Seq<char>)
    requires
        k.len() == KEY_SIZE,
        digest_bits(m1).len() == KEY_SIZE,
        digest_bits(m1) != digest_bits(m2),
        verifies(m2, signature_of(digest_bits(m1), k), public_of(k)),
    ensures
        exists|i: int| 0 <= i < KEY_SIZE && hash_text(k[i].0) == hash_text(#[trigger] k[i].1),
{
    let b1 = digest_bits(m1);
    let b2 = digest_bits(m2);
    assert(!(b1 =~= b2));
    let i = choose|i: int| 0 <= i < KEY_SIZE && b1[i] != b2[i];
    lemma_digest_bits_binary(m1);
    lemma_digest_bits_binary(m2);
    let sig = signature_of(b1, k);
    assert(hash_text(sig[i]) == half(public_of(k)[i], b2[i]));
    assert(hash_text(k[i].0) == hash_text(k[i].1));
}

/// A signature or a public key with fewer than 256 elements never verifies.
pub proof fn lemma_short_inputs_rejected(m: Seq<char>, sig: Seq<Seq<char>>, pk: Seq<PairView>)
    requires
        sig.len() < KEY_SIZE || pk.len() < KEY_SIZE,
    ensures
        !verifies(m, sig, pk),
{
}

/// Deriving twice from the same identity and agreement attributes gives the
/// same key.
pub proof fn lemma_derivation_deterministic(
    first: PrivateKey,
    second: PrivateKey,
    identity: Seq<char>,
    by_user: Seq<char>,
    with_user: Seq<char>,
    date: Seq<char>,
    terms: Seq<Seq<char>>,
)
    requires
        first@ == derived_key(identity, by_user, with_user, date, terms),
        second@ == derived_key(identity, by_user, with_user, date, terms),
    ensures
        first@ == second@,
{
}

/// The public key of a private key: each preimage hashed.
pub fn create_public_key(private_key: &PrivateKey) -> (r: PublicKey)
    ensures
        r@ == public_of(private_key@),
{
    let n = private_key.key_pairs.len();
    let mut public_key: Vec<(String, String)> = Vec::new();
    let mut i: usize = 0;
    while i < n
        invariant
            n == private_key@.len(),
            i <= n,
            public_key@.len() == i,
            forall|j: int|
                0 <= j < i ==> pairs_view(public_key@)[j] == #[trigger] public_of(private_key@)[j],
        decreases n - i,
    {
        let (first_key, second_key) = private_key.get_key(i);
        public_key.push((hash(&first_key), hash(&second_key)));
        i = i + 1;
    }
    assert(pairs_view(public_key@) =~= public_of(private_key@));
    PublicKey { key_pairs: public_key }
}

/// Signs a hex digest: for each of its 256 bits, reveals the half of the
/// pair that the bit selects. A digest that does not decode to 256 bits
/// gives `None`.
pub fn sign(message_hash: String, private_key: &PrivateKey) -> (r: Option<Signature>)
    ensures
        r is Some <==> digest_bits(message_hash@).len() == KEY_SIZE,
        r matches Some(s) ==> s@ == signature_of(digest_bits(message_hash@), private_key@),
{
    proof {
        use_type_invariant(private_key);
    }
    let message_binary_array = hash_to_binary_array(message_hash);
    if message_binary_array.len() != KEY_SIZE {
        return None;
    }
    let ghost expected = signature_of(message_binary_array@, private_key@);
    let mut signature_array: Vec<String> = Vec::new();
    let mut i: usize = 0;
    while i < KEY_SIZE
        invariant
            i <= KEY_SIZE,
            message_binary_array@.len() == KEY_SIZE,
            private_key@.len() == KEY_SIZE,
            expected == signature_of(message_binary_array@, private_key@),
            signature_array@.len() == i,
            forall|j: int| 0 <= j < i ==> strings_view(signature_array@)[j] == #[trigger] expected[j],
        decreases KEY_SIZE - i,
    {
        let (first_key, second_key) = private_key.get_key(i);
        if message_binary_array[i] == 0 {
            signature_array.push(first_key);
        } else {
            signature_array.push(second_key);
        }
        i = i + 1;
    }
    assert(strings_view(signature_array@) =~= expected);
    Some(Signature { signatures: signature_array })
}

/// Verifies a signature over a hex digest against a public key. A digest
/// that does not decode to 256 bits, or a signature or key that does not
/// hold 256 elements, fails.
pub fn verify(message_hash: String, signature: &Signature, public_key: &PublicKey) -> (r: bool)
    ensures
        r == verifies(message_hash@, signature@, public_key@),
{
    let message_binary_array = hash_to_binary_array(message_hash);
    if message_binary_array.len() != KEY_SIZE || signature.signatures.len() != KEY_SIZE
        || public_key.key_pairs.len() != KEY_SIZE {
        return false;
    }
    let mut i: usize = 0;
    while i < KEY_SIZE
        invariant
            i <= KEY_SIZE,
            message_binary_array@ == digest_bits(message_hash@),
            message_binary_array@.len() == KEY_SIZE,
            signature@.len() == KEY_SIZE,
            public_key@.len() == KEY_SIZE,
            forall|j: int|
                0 <= j < i ==> hash_text(#[trigger] signature@[j]) == half(
                    public_key@[j],
                    message_binary_array@[j],
                ),
        decreases KEY_SIZE - i,
    {
        let sig = signature.get_key(i);
        let private_key_hash = hash(&sig);
        let (first_pub_key_hash, second_pub_key_hash) = public_key.get_key(i);
        let expected_hash = if message_binary_array[i] == 0 {
            first_pub_key_hash
        } else {
            second_pub_key_hash
        };
        if !(private_key_hash == expected_hash) {
            assert(hash_text(signature@[i as int]) != half(
                public_key@[i as int],
                message_binary_array@[i as int],
            ));
            return false;
        }
        i = i + 1;
    }
    true
}

} // verus!
