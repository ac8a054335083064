use rsa::pkcs1v15::SigningKey;
use rsa::pkcs8::{DecodePublicKey, EncodePublicKey};
use rsa::signature::{SignatureEncoding, Signer};
use rsa::traits::{PrivateKeyParts, PublicKeyParts};
use rsa::{BigUint, RsaPrivateKey, RsaPublicKey};
use sha2::Sha256;
use wsl_hello::error::HelloAuthenticationError;
use wsl_hello::pem::normalize_public_key_pem;
use wsl_hello::signature::{
    public_key_result, read_public_key, signature_result, verify_signature, PublicKey,
};

/// A fresh key of 2048 bits. Its modulus is made of four primes, which are found much sooner than
/// two of twice their size.
fn keypair() -> (SigningKey<Sha256>, RsaPublicKey) {
    let mut rng = rand::thread_rng();
    loop {
        let mut primes = RsaPrivateKey::new(&mut rng, 1024).expect("keygen").primes().to_vec();
        primes.extend_from_slice(RsaPrivateKey::new(&mut rng, 1024).expect("keygen").primes());
        let private =
            RsaPrivateKey::from_primes(primes, BigUint::from(65537u32)).expect("keygen");
        if private.n().bits() == 2048 {
            let public = private.to_public_key();
            return (SigningKey::<Sha256>::new(private), public);
        }
    }
}

fn parts(public: &RsaPublicKey) -> PublicKey {
    PublicKey { modulus: public.n().to_bytes_be(), exponent: public.e().to_bytes_be() }
}

#[test]
fn accepts_a_genuine_signature() {
    let (signing_key, public) = keypair();
    let challenge = b"pam_wsl_hello:gray:deadbeef";
    let sig = signing_key.sign(challenge).to_vec();

    assert!(verify_signature(parts(&public), challenge, &sig).is_ok());
}

#[test]
fn rejects_a_signature_over_a_different_challenge() {
    let (signing_key, public) = keypair();
    let sig = signing_key.sign(b"pam_wsl_hello:gray:aaaaaaaa").to_vec();

    // A replayed signature must not authenticate a fresh nonce.
    assert!(verify_signature(parts(&public), b"pam_wsl_hello:gray:bbbbbbbb", &sig).is_err());
}

#[test]
fn rejects_a_signature_from_the_wrong_key() {
    let (signing_key, _) = keypair();
    let (_, other_public) = keypair();
    let challenge = b"pam_wsl_hello:gray:deadbeef";
    let sig = signing_key.sign(challenge).to_vec();

    assert!(verify_signature(parts(&other_public), challenge, &sig).is_err());
}

#[test]
fn rejects_garbage_and_empty_signatures() {
    let (_, public) = keypair();
    let public = parts(&public);
    let challenge = b"pam_wsl_hello:gray:deadbeef";

    assert!(verify_signature(public.clone(), challenge, &[]).is_err());
    assert!(verify_signature(public.clone(), challenge, &[0u8; 256]).is_err());
    assert!(verify_signature(public, challenge, b"not a signature").is_err());
}

/// Collapses a wrapped PEM into the single-line shape.
fn unwrap_pem(pem: &str) -> String {
    let body: String = pem.lines().filter(|l| !l.starts_with("-----")).collect();
    format!(
        "-----BEGIN PUBLIC KEY-----\n{}\n-----END PUBLIC KEY-----\n",
        body
    )
}

#[test]
fn accepts_the_unwrapped_pem_windows_actually_emits() {
    let (signing_key, public) = keypair();
    let unwrapped = unwrap_pem(&public.to_public_key_pem(Default::default()).expect("pem"));

    // Precondition: without normalising, the strict RFC 7468 parser refuses it.
    // If this ever starts passing, the rest of this test is vacuous.
    assert!(
        RsaPublicKey::from_public_key_pem(&unwrapped).is_err(),
        "strict parser unexpectedly accepted an unwrapped PEM"
    );

    let key = RsaPublicKey::from_public_key_pem(&normalize_public_key_pem(&unwrapped))
        .expect("normalised PEM must parse");
    let challenge = b"pam_wsl_hello:gray:deadbeef";
    let sig = signing_key.sign(challenge).to_vec();
    assert!(verify_signature(parts(&key), challenge, &sig).is_ok());

    let read = read_public_key(&unwrapped).expect("a key file of the old shape must be read");
    assert!(verify_signature(read, challenge, &sig).is_ok());
}

#[test]
fn normalizing_an_already_wrapped_pem_is_a_no_op() {
    let (_, public) = keypair();
    let wrapped = public.to_public_key_pem(Default::default()).expect("pem");
    assert_eq!(normalize_public_key_pem(&wrapped), wrapped);
}

#[test]
fn public_key_survives_a_pem_round_trip() {
    let (signing_key, public) = keypair();
    let pem = public.to_public_key_pem(Default::default()).expect("pem");
    let reparsed = RsaPublicKey::from_public_key_pem(&pem).expect("parse");

    let challenge = b"pam_wsl_hello:gray:deadbeef";
    let sig = signing_key.sign(challenge).to_vec();
    assert!(verify_signature(parts(&reparsed), challenge, &sig).is_ok());

    let read = read_public_key(&pem).expect("read");
    assert_eq!(read.modulus, public.n().to_bytes_be());
    assert_eq!(read.exponent, vec![1, 0, 1]);
    assert!(verify_signature(read, challenge, &sig).is_ok());
}

#[test]
fn a_refused_signature_is_a_failed_verification() {
    let (signing_key, public) = keypair();
    let mut sig = signing_key.sign(b"challenge").to_vec();
    sig[200] ^= 1;
    assert!(matches!(
        verify_signature(parts(&public), b"challenge", &sig),
        Err(HelloAuthenticationError::SignAuthenticationFail)
    ));
    assert!(matches!(
        verify_signature(parts(&public), b"challenge", &[]),
        Err(HelloAuthenticationError::SignAuthenticationFail)
    ));
}

#[test]
fn a_signature_with_a_leading_zero_is_too_long() {
    let (signing_key, public) = keypair();
    let mut sig = vec![0u8];
    sig.extend_from_slice(&signing_key.sign(b"challenge").to_vec());
    assert!(verify_signature(parts(&public), b"challenge", &sig).is_err());
}

#[test]
fn leading_zeros_of_a_modulus_do_not_count() {
    let (signing_key, public) = keypair();
    let sig = signing_key.sign(b"challenge").to_vec();
    let mut key = parts(&public);
    key.modulus.insert(0, 0);
    assert!(verify_signature(key, b"challenge", &sig).is_ok());
}

#[test]
fn degenerate_keys_accept_nothing() {
    let numbers: [&[u8]; 5] = [&[], &[0], &[1], &[2], &[0, 0, 255]];
    for modulus in numbers {
        for exponent in numbers {
            for signature in numbers {
                let key = PublicKey { modulus: modulus.to_vec(), exponent: exponent.to_vec() };
                assert!(verify_signature(key, b"challenge", signature).is_err());
            }
        }
    }
}

#[test]
fn findings_about_a_signature_decide() {
    assert!(signature_result(true, true).is_ok());
    assert!(matches!(
        signature_result(true, false),
        Err(HelloAuthenticationError::SignAuthenticationFail)
    ));
    assert!(matches!(
        signature_result(false, true),
        Err(HelloAuthenticationError::MalformedSignature)
    ));
}

#[test]
fn an_unreadable_key_file_is_described() {
    match read_public_key("no key at all") {
        Err(HelloAuthenticationError::InvalidPublicKey(text)) => {
            let pem = normalize_public_key_pem("no key at all");
            let expected = RsaPublicKey::from_public_key_pem(&pem).unwrap_err().to_string();
            assert_eq!(text, expected);
        }
        _ => panic!("a key was read"),
    }
}

#[test]
fn a_reading_of_a_key_is_taken_as_it_is() {
    let key = PublicKey { modulus: vec![7], exponent: vec![3] };
    let taken = public_key_result(Ok(key)).unwrap();
    assert_eq!((taken.modulus, taken.exponent), (vec![7], vec![3]));
    assert!(matches!(
        public_key_result(Err("bad".to_string())),
        Err(HelloAuthenticationError::InvalidPublicKey(text)) if text == "bad"
    ));
}

#[test]
fn line_endings_and_boundaries_do_not_change_the_key() {
    let (_, public) = keypair();
    let pem = public.to_public_key_pem(Default::default()).expect("pem");
    let body: String = pem.lines().filter(|l| !l.starts_with("-----")).collect();
    for text in [pem.replace('\n', "\r\n"), body] {
        let read = read_public_key(&text).expect("read");
        assert_eq!(read.modulus, public.n().to_bytes_be());
        assert_eq!(read.exponent, vec![1, 0, 1]);
    }
}
