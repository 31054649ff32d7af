//! SHA-256 digests as lowercase hex text, and the decoding of a hex digest
//! into the bit sequence that selects key halves.
use sha2::Digest;
use vstd::prelude::*;

verus! {

use vstd::utf8::{encode_utf8, is_ascii_chars, is_ascii_chars_encode_utf8};

/// The 32-byte SHA-256 digest of a byte sequence.
pub uninterp spec fn sha256_of(data: Seq<u8>) -> Seq<u8>;

/// Relies on sha2's `Sha256::digest`: the SHA-256 digest of `data`, which is
/// always 32 bytes long.
#[verifier::external_body]
pub(crate) fn sha256(data: &[u8]) -> (r: Vec<u8>)
    ensures
        r@ == sha256_of(data@),
        r@.len() == 32,
{
    sha2::Sha256::digest(data).to_vec()
}

/// The lowercase hex digit of a value below 16.
pub open spec fn hex_digit(v: u8) -> char {
    if v < 10 {
        (v + 48) as char
    } else {
        (v + 87) as char
    }
}

/// Lowercase hex text of a byte sequence: two digits per byte, high nibble first.
pub open spec fn hex_text(b: Seq<u8>) -> Seq<char> {
    Seq::new(
        2 * b.len(),
        |i: int|
            if i % 2 == 0 {
                hex_digit(b[i / 2] / 16)
            } else {
                hex_digit(b[i / 2] % 16)
            },
    )
}

/// Relies on `hex::encode`: two lowercase digits per byte, high nibble first.
#[verifier::external_body]
pub(crate) fn hex_encode(data: &[u8]) -> (r: String)
    ensures
        r@ == hex_text(data@),
{
    hex::encode(data)
}

/// An ASCII hex digit, either case.
pub open spec fn is_hex_byte(c: u8) -> bool {
    (48 <= c <= 57) || (65 <= c <= 70) || (97 <= c <= 102)
}

/// The value of an ASCII hex digit.
pub open spec fn hex_value(c: u8) -> int {
    if c <= 57 {
        c - 48
    } else if c <= 70 {
        c - 55
    } else {
        c - 87
    }
}

/// Text that decodes as hex: an even number of hex digits.
pub open spec fn is_hex_bytes(s: Seq<u8>) -> bool {
    &&& s.len() % 2 == 0
    &&& forall|i: int| 0 <= i < s.len() ==> is_hex_byte(#[trigger] s[i])
}

/// The bytes that hex text stands for, two digits per byte.
pub open spec fn hex_bytes_value(s: Seq<u8>) -> Seq<u8> {
    Seq::new(s.len() / 2, |k: int| (hex_value(s[2 * k]) * 16 + hex_value(s[2 * k + 1])) as u8)
}

#[verifier::external_type_specification]
#[verifier::external_body]
pub struct ExFromHexError(hex::FromHexError);

/// Relies on `hex::decode`: it fails on odd length or on a byte that is not
/// a hex digit of either case, and otherwise returns one byte per digit pair.
#[verifier::external_body]
fn hex_decode(data: &[u8]) -> (r: Result<Vec<u8>, hex::FromHexError>)
    ensures
        r is Ok <==> is_hex_bytes(data@),
        r matches Ok(b) ==> b@ == hex_bytes_value(data@),
{
    hex::decode(data)
}

/// Hex text of the SHA-256 digest of the UTF-8 bytes of `s`.
pub open spec fn hash_text(s: Seq<char>) -> Seq<char> {
    hex_text(sha256_of(encode_utf8(s)))
}

/// Hashes a string: the lowercase hex of its SHA-256 digest.
pub fn hash(str: &str) -> (r: String)
    ensures
        r@ == hash_text(str@),
        r@.len() == 64,
{
    let digest = sha256(str.as_bytes());
    hex_encode(digest.as_slice())
}

/// The bits of a byte sequence, most significant bit of each byte first.
pub open spec fn byte_bits(b: Seq<u8>) -> Seq<u8> {
    Seq::new(8 * b.len(), |t: int| ((b[t / 8] >> ((7 - t % 8) as u8)) & 1u8))
}

/// The bits a digest's hex text stands for; empty when it is not hex.
pub open spec fn digest_bits(m: Seq<char>) -> Seq<u8> {
    if is_hex_bytes(encode_utf8(m)) {
        byte_bits(hex_bytes_value(encode_utf8(m)))
    } else {
        Seq::empty()
    }
}

/// Hex text of `n` bytes always decodes to `8 * n` bits.
pub proof fn lemma_hex_text_bits(d: Seq<u8>)
    ensures
        digest_bits(hex_text(d)).len() == 8 * d.len(),
{
    let t = hex_text(d);
    assert forall|i: int| 0 <= i < t.len() implies is_hex_byte(t[i] as u8) && '\0' <= #[trigger] t[i]
        <= '\u{7f}' by {
        let v: u8 = if i % 2 == 0 {
            d[i / 2] / 16
        } else {
            d[i / 2] % 16
        };
        assert(v < 16);
        assert(t[i] == hex_digit(v));
    }
    assert(is_ascii_chars(t));
    is_ascii_chars_encode_utf8(t);
    let e = encode_utf8(t);
    assert forall|i: int| 0 <= i < e.len() implies is_hex_byte(#[trigger] e[i]) by {
        assert(t[i] as u8 == e[i]);
    }
    assert(is_hex_bytes(e));
}

proof fn lemma_bit_is_binary(x: u8, s: u8)
    ensures
        (x >> s) & 1u8 <= 1u8,
{
    assert((x >> s) & 1u8 <= 1u8) by (bit_vector);
}

/// Every decoded bit is 0 or 1.
pub proof fn lemma_digest_bits_binary(m: Seq<char>)
    ensures
        forall|i: int| 0 <= i < digest_bits(m).len() ==> #[trigger] digest_bits(m)[i] <= 1,
{
    let bits = digest_bits(m);
    assert forall|i: int| 0 <= i < bits.len() implies #[trigger] bits[i] <= 1 by {
        let b = hex_bytes_value(encode_utf8(m));
        lemma_bit_is_binary(b[i / 8], (7 - i % 8) as u8);
    }
}

/// Decodes a hex digest into its bits, most significant bit of each byte
/// first. Text that is not hex gives an empty sequence.
pub fn hash_to_binary_array(hash_string: String) -> (r: Vec<u8>)
    ensures
        r@ == digest_bits(hash_string@),
{
    let text: &str = &hash_string;
    let mut bits: Vec<u8> = Vec::new();
    match hex_decode(text.as_bytes()) {
        Ok(bytes) => {
            let mut j: usize = 0;
            while j < bytes.len()
                invariant
                    j <= bytes@.len(),
                    bits@.len() == 8 * j,
                    forall|t: int|
                        0 <= t < bits@.len() ==> #[trigger] bits@[t] == ((bytes@[t / 8] >> ((7 - t
                            % 8) as u8)) & 1u8),
                decreases bytes@.len() - j,
            {
                let byte = bytes[j];
                let mut k: u8 = 0;
                while k < 8
                    invariant
                        j < bytes@.len(),
                        byte == bytes@[j as int],
                        k <= 8,
                        bits@.len() == 8 * j + k,
                        forall|t: int|
                            0 <= t < bits@.len() ==> #[trigger] bits@[t] == ((bytes@[t / 8] >> ((7
                                - t % 8) as u8)) & 1u8),
                    decreases 8 - k,
                {
                    let bit: u8 = (byte >> (7 - k)) & 1;
                    proof {
                        let t = 8 * j + k;
                        assert(t / 8 == j && t % 8 == k) by (nonlinear_arith)
                            requires
                                t == 8 * j + k,
                                0 <= k < 8,
                        ;
                    }
                    bits.push(bit);
                    k = k + 1;
                }
                j = j + 1;
            }
            assert(bits@ =~= byte_bits(bytes@));
            bits
        },
        Err(_) => bits,
    }
}

} // verus!
