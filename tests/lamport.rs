use pok_backend::agreement::{agreement_digest, Agreement};
use pok_backend::hashing::{hash, hash_to_binary_array};
use pok_backend::lamport::{
    create_public_key, random_private_key, sign, verify, PrivateKey, PublicKey, Signature,
};
use sha2::{Digest, Sha256};

fn attrs(by_user: &str, with_user: &str, date: &str, terms: &[&str]) -> Agreement {
    Agreement {
        id: 0,
        terms: terms.iter().map(|t| t.to_string()).collect(),
        date: date.to_string(),
        by_user: by_user.to_string(),
        with_user: with_user.to_string(),
        by_user_proof: None,
        with_user_proof: None,
    }
}

fn pairs(k: &PrivateKey) -> Vec<(String, String)> {
    (0..k.len()).map(|i| k.get_key(i)).collect()
}

fn public_pairs(k: &PublicKey) -> Vec<(String, String)> {
    (0..k.len()).map(|i| k.get_key(i)).collect()
}

fn elements(s: &Signature) -> Vec<String> {
    (0..s.len()).map(|i| s.get_key(i)).collect()
}

fn flip_hex(c: char) -> char {
    if c == '0' {
        '1'
    } else {
        '0'
    }
}

#[test]
fn hash_of_known_strings() {
    assert_eq!(
        hash("abc"),
        "ba7816bf8f01cfea414140de5dae2223b00361a396177a9cb410ff61f20015ad"
    );
    assert_eq!(
        hash(""),
        "e3b0c44298fc1c149afbf4c8996fb92427ae41e4649b934ca495991b7852b855"
    );
}

#[test]
fn bits_are_most_significant_first() {
    assert_eq!(hash_to_binary_array("80".to_string()), vec![1, 0, 0, 0, 0, 0, 0, 0]);
    assert_eq!(hash_to_binary_array("0f".to_string()), vec![0, 0, 0, 0, 1, 1, 1, 1]);
    assert_eq!(
        hash_to_binary_array("a501".to_string()),
        vec![1, 0, 1, 0, 0, 1, 0, 1, 0, 0, 0, 0, 0, 0, 0, 1]
    );
    assert_eq!(hash_to_binary_array("A5".to_string()), vec![1, 0, 1, 0, 0, 1, 0, 1]);
    assert_eq!(hash_to_binary_array(hash("xy")).len(), 256);
}

#[test]
fn malformed_hex_gives_no_bits() {
    assert!(hash_to_binary_array("zz".to_string()).is_empty());
    assert!(hash_to_binary_array("abc".to_string()).is_empty());
    assert!(hash_to_binary_array("".to_string()).is_empty());
}

#[test]
fn derived_key_matches_its_construction() {
    let a = attrs("A", "B", "1000", &["x", "y"]);
    let key = random_private_key("A".to_string(), &a);
    let p = pairs(&key);
    assert_eq!(p.len(), 256);
    for i in [0usize, 1, 200, 255] {
        let mut input: Vec<u8> = Vec::new();
        input.extend_from_slice(hash("A").as_bytes());
        input.extend_from_slice(b"AB1000xy");
        input.extend_from_slice(&i.to_be_bytes());
        let d = Sha256::digest(&input);
        assert_eq!(p[i].0, hex::encode(&d[0..16]));
        assert_eq!(p[i].1, hex::encode(&d[16..32]));
        assert_eq!(p[i].0.len(), 32);
    }
}

#[test]
fn derivation_is_deterministic() {
    let a = attrs("A", "B", "1000", &["x", "y"]);
    let k1 = random_private_key("A".to_string(), &a);
    let k2 = random_private_key("A".to_string(), &a);
    assert_eq!(pairs(&k1), pairs(&k2));
}

#[test]
fn derivation_changes_with_every_input() {
    let base = pairs(&random_private_key("A".to_string(), &attrs("A", "B", "1000", &["x", "y"])));
    let variants = vec![
        random_private_key("C".to_string(), &attrs("A", "B", "1000", &["x", "y"])),
        random_private_key("A".to_string(), &attrs("a", "B", "1000", &["x", "y"])),
        random_private_key("A".to_string(), &attrs("A", "b", "1000", &["x", "y"])),
        random_private_key("A".to_string(), &attrs("A", "B", "1001", &["x", "y"])),
        random_private_key("A".to_string(), &attrs("A", "B", "1000", &["x", "z"])),
        random_private_key("A".to_string(), &attrs("A", "B", "1000", &["y", "x"])),
    ];
    for v in variants {
        let p = pairs(&v);
        let differing = (0..256).filter(|&i| p[i] != base[i]).count();
        assert_eq!(differing, 256);
    }
}

#[test]
fn public_key_hashes_each_preimage() {
    let key = random_private_key("A".to_string(), &attrs("A", "B", "1000", &["x"]));
    let public = create_public_key(&key);
    let p = pairs(&key);
    let q = public_pairs(&public);
    assert_eq!(q.len(), 256);
    for i in 0..256 {
        assert_eq!(q[i].0, hash(&p[i].0));
        assert_eq!(q[i].1, hash(&p[i].1));
    }
}

#[test]
fn signature_reveals_the_selected_halves() {
    let key = random_private_key("A".to_string(), &attrs("A", "B", "1000", &["x"]));
    let digest = hash("message");
    let bits = hash_to_binary_array(digest.clone());
    let sig = sign(digest, &key).unwrap();
    let p = pairs(&key);
    let s = elements(&sig);
    assert_eq!(s.len(), 256);
    for i in 0..256 {
        let expected = if bits[i] == 0 { &p[i].0 } else { &p[i].1 };
        assert_eq!(&s[i], expected);
    }
}

#[test]
fn sign_then_verify_succeeds() {
    let key = random_private_key("A".to_string(), &attrs("A", "B", "1000", &["x", "y"]));
    let public = create_public_key(&key);
    for message in ["", "My confidential message", "xy"] {
        let digest = hash(message);
        let sig = sign(digest.clone(), &key).unwrap();
        assert!(verify(digest, &sig, &public));
    }
}

#[test]
fn other_digest_is_rejected() {
    let key = random_private_key("A".to_string(), &attrs("A", "B", "1000", &["x", "y"]));
    let public = create_public_key(&key);
    let sig = sign(hash("My confidential message"), &key).unwrap();
    assert!(!verify(hash("Not authentic"), &sig, &public));
}

#[test]
fn digest_case_does_not_matter() {
    let key = random_private_key("A".to_string(), &attrs("A", "B", "1000", &["x", "y"]));
    let public = create_public_key(&key);
    let digest = hash("xy");
    let sig = sign(digest.clone(), &key).unwrap();
    assert!(verify(digest.to_uppercase(), &sig, &public));
}

#[test]
fn tampered_signature_is_rejected() {
    let key = random_private_key("A".to_string(), &attrs("A", "B", "1000", &["x", "y"]));
    let public = create_public_key(&key);
    let digest = hash("xy");
    let sig = sign(digest.clone(), &key).unwrap();
    for (element, position) in [(0usize, 0usize), (17, 5), (255, 31)] {
        let mut s = elements(&sig);
        let mut chars: Vec<char> = s[element].chars().collect();
        chars[position] = flip_hex(chars[position]);
        s[element] = chars.into_iter().collect();
        assert!(!verify(digest.clone(), &Signature::new(s), &public));
    }
}

#[test]
fn short_signature_or_key_is_rejected() {
    let key = random_private_key("A".to_string(), &attrs("A", "B", "1000", &["x", "y"]));
    let public = create_public_key(&key);
    let digest = hash("xy");
    let sig = sign(digest.clone(), &key).unwrap();
    let mut s = elements(&sig);
    s.pop();
    assert!(!verify(digest.clone(), &Signature::new(s), &public));
    assert!(!verify(digest.clone(), &Signature::new(Vec::new()), &public));
    let mut q = public_pairs(&public);
    q.truncate(10);
    assert!(!verify(digest.clone(), &sig, &PublicKey::new(q)));
    let mut s = elements(&sig);
    s.push("00".to_string());
    assert!(!verify(digest, &Signature::new(s), &public));
}

#[test]
fn malformed_digest_fails_sign_and_verify() {
    let key = random_private_key("A".to_string(), &attrs("A", "B", "1000", &["x", "y"]));
    let public = create_public_key(&key);
    let sig = sign(hash("xy"), &key).unwrap();
    assert!(sign("not hex".to_string(), &key).is_none());
    assert!(sign("abcd".to_string(), &key).is_none());
    assert!(sign(format!("{}00", hash("xy")), &key).is_none());
    assert!(!verify("not hex".to_string(), &sig, &public));
    assert!(!verify(String::new(), &sig, &public));
}

#[test]
fn end_to_end_with_other_date_fails() {
    let a = attrs("A", "B", "1000", &["x", "y"]);
    let key = random_private_key("A".to_string(), &a);
    let public = create_public_key(&key);
    let digest = hash("xy");
    assert_eq!(agreement_digest(&a.terms), digest);
    let sig = sign(digest.clone(), &key).unwrap();
    assert!(verify(digest.clone(), &sig, &public));
    let other = random_private_key("A".to_string(), &attrs("A", "B", "1001", &["x", "y"]));
    assert!(!verify(digest, &sig, &create_public_key(&other)));
}
