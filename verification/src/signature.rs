//! Public keys, and the check of a signature over a challenge.

use vstd::prelude::*;

use rsa::pkcs1v15::{Signature, VerifyingKey};
use rsa::pkcs8::DecodePublicKey;
use rsa::signature::hazmat::PrehashVerifier;
use rsa::traits::PublicKeyParts;
use rsa::{BigUint, RsaPublicKey};
use sha2::{Digest, Sha256};

use crate::error::{viewed, HelloAuthenticationError, HelloAuthenticationErrorView};
use crate::pem::{normalize_public_key_pem, pem_body, pem_document};
use crate::pem::{law_unwrapped_document_is_wrapped, law_wrapped_document_is_unchanged};
use crate::pem::{base64_text, lemma_base64_stable_line, unwrapped_document};
use crate::pem::{law_frame_does_not_matter, law_line_endings_do_not_matter};
use crate::text::with_crlf;

verus! {

/// An RSA public key: its modulus and its exponent, as big-endian numbers.
#[derive(Clone, Debug)]
pub struct PublicKey {
    pub modulus: Vec<u8>,
    pub exponent: Vec<u8>,
}

/// The model of a [`PublicKey`].
pub struct PublicKeyView {
    pub modulus: Seq<u8>,
    pub exponent: Seq<u8>,
}

impl View for PublicKey {
    type V = PublicKeyView;

    open spec fn view(&self) -> PublicKeyView {
        PublicKeyView { modulus: self.modulus@, exponent: self.exponent@ }
    }
}

// ---- What the crates rsa and sha2 are trusted for ----

/// What `RsaPublicKey::from_public_key_pem` reads from a document: the modulus and the exponent,
/// as big-endian numbers without leading zeros, or the description of its error.
pub uninterp spec fn public_key_of_pem(pem: Seq<char>) -> Result<(Seq<u8>, Seq<u8>), Seq<char>>;

/// `RsaPublicKey::from_public_key_pem` reads a PUBLIC KEY document. What it reads, and what it
/// refuses with which description, depends on the document alone and is left to the name
/// `public_key_of_pem`.
#[verifier::external_body]
fn parse_public_key_pem(pem: &str) -> (res: Result<PublicKey, String>)
    ensures
        match res {
            Ok(key) => public_key_of_pem(pem@) == Ok::<(Seq<u8>, Seq<u8>), Seq<char>>(
                (key.modulus@, key.exponent@),
            ),
            Err(text) => public_key_of_pem(pem@) == Err::<(Seq<u8>, Seq<u8>), Seq<char>>(text@),
        },
{
    match RsaPublicKey::from_public_key_pem(pem) {
        Ok(key) => Ok(
            PublicKey { modulus: key.n().to_bytes_be(), exponent: key.e().to_bytes_be() },
        ),
        Err(err) => Err(err.to_string()),
    }
}

/// `Signature::try_from` takes any bytes for a PKCS#1 v1.5 signature: it does not fail.
#[verifier::external_body]
fn decodes_as_signature(signature: &[u8]) -> (decoded: bool)
    ensures
        decoded,
{
    Signature::try_from(signature).is_ok()
}

/// The digest that `Sha256::digest` gives of a message.
pub uninterp spec fn sha256_of(message: Seq<u8>) -> Seq<u8>;

/// `Sha256::digest` gives the SHA-256 digest of a message. The digest depends on the message
/// alone and is left to the name `sha256_of`.
#[verifier::external_body]
fn sha256(message: &[u8]) -> (digest: Vec<u8>)
    ensures
        digest@ == sha256_of(message@),
{
    Sha256::digest(message).to_vec()
}

/// The one digest for which `VerifyingKey::<Sha256>::verify_prehash` accepts `signature` under
/// the key with the given modulus and exponent, where there is one.
pub uninterp spec fn signed_digest(
    modulus: Seq<u8>,
    exponent: Seq<u8>,
    signature: Seq<u8>,
) -> Option<Seq<u8>>;

/// How many bytes a big-endian number takes without its leading zeros.
pub open spec fn significant_bytes(number: Seq<u8>) -> nat
    decreases number.len(),
{
    if number.len() > 0 && number[0] == 0 {
        significant_bytes(number.drop_first())
    } else {
        number.len()
    }
}

/// `VerifyingKey::<Sha256>::verify_prehash` checks a PKCS#1 v1.5 signature over a SHA-256 digest.
/// It opens the signature with the key and compares all of what it finds, padding and digest, so
/// that a signature fits one digest at most under one key. Which digest that is depends on the
/// key and the signature alone and is left to the name `signed_digest`. No signature is accepted
/// whose length is not that of the modulus.
#[verifier::external_body]
fn accepts_digest(key: &PublicKey, digest: &[u8], signature: &[u8]) -> (accepted: bool)
    ensures
        accepted == (signed_digest(key.modulus@, key.exponent@, signature@) == Some(digest@)),
        accepted ==> signature@.len() == significant_bytes(key.modulus@),
{
    let n = BigUint::from_bytes_be(&key.modulus);
    let e = BigUint::from_bytes_be(&key.exponent);
    let verifying_key = VerifyingKey::<Sha256>::new(RsaPublicKey::new_unchecked(n, e));
    match Signature::try_from(signature) {
        Ok(signature) => verifying_key.verify_prehash(digest, &signature).is_ok(),
        Err(_) => false,
    }
}

// ---- Reading a public key ----

/// The key, or the error, that a reading of a key document leads to.
pub open spec fn key_outcome(parsed: Result<(Seq<u8>, Seq<u8>), Seq<char>>) -> Result<
    PublicKeyView,
    HelloAuthenticationErrorView,
> {
    match parsed {
        Ok((modulus, exponent)) => Ok(PublicKeyView { modulus, exponent }),
        Err(text) => Err(HelloAuthenticationErrorView::InvalidPublicKey(text)),
    }
}

/// The key in the text of a key file: the file is read in its 64-column form.
pub open spec fn key_of_file(text: Seq<char>) -> Result<
    PublicKeyView,
    HelloAuthenticationErrorView,
> {
    key_outcome(public_key_of_pem(pem_document(pem_body(text))))
}

/// Turns what was read from a key document into a key or the error to report.
pub fn public_key_result(parsed: Result<PublicKey, String>) -> (res: Result<
    PublicKey,
    HelloAuthenticationError,
>)
    ensures
        parsed matches Ok(key) ==> res == Ok::<PublicKey, HelloAuthenticationError>(key),
        parsed matches Err(text) ==> res == Err::<PublicKey, HelloAuthenticationError>(
            HelloAuthenticationError::InvalidPublicKey(text),
        ),
{
    match parsed {
        Ok(key) => Ok(key),
        Err(text) => Err(HelloAuthenticationError::InvalidPublicKey(text)),
    }
}

/// Reads the public key in the text of a key file, whether its body is wrapped or not.
pub fn read_public_key(text: &str) -> (res: Result<PublicKey, HelloAuthenticationError>)
    ensures
        viewed(res) == key_of_file(text@),
        res matches Ok(key) ==> public_key_of_pem(pem_document(pem_body(text@))) == Ok::<
            (Seq<u8>, Seq<u8>),
            Seq<char>,
        >((key.modulus@, key.exponent@)),
        res matches Err(err) ==> public_key_of_pem(pem_document(pem_body(text@))) is Err,
{
    let pem = normalize_public_key_pem(text);
    public_key_result(parse_public_key_pem(pem.as_str()))
}

// ---- Checking a signature ----

/// Whether `signature` is accepted over `challenge` under `key`: it is a signature over the
/// challenge's digest.
pub open spec fn accepts(key: PublicKeyView, challenge: Seq<u8>, signature: Seq<u8>) -> bool {
    signed_digest(key.modulus, key.exponent, signature) == Some(sha256_of(challenge))
}

/// What a check of a signature leads to.
pub open spec fn signature_outcome(decoded: bool, accepted: bool) -> Result<
    (),
    HelloAuthenticationErrorView,
> {
    if !decoded {
        Err(HelloAuthenticationErrorView::MalformedSignature)
    } else if !accepted {
        Err(HelloAuthenticationErrorView::SignAuthenticationFail)
    } else {
        Ok(())
    }
}

/// Turns the two findings about a signature into a grant or the error to report.
pub fn signature_result(decoded: bool, accepted: bool) -> (res: Result<
    (),
    HelloAuthenticationError,
>)
    ensures
        viewed(res) == signature_outcome(decoded, accepted),
        res is Ok <==> decoded && accepted,
        !decoded ==> res->Err_0 is MalformedSignature,
        decoded && !accepted ==> res->Err_0 is SignAuthenticationFail,
{
    if !decoded {
        return Err(HelloAuthenticationError::MalformedSignature);
    }
    if !accepted {
        return Err(HelloAuthenticationError::SignAuthenticationFail);
    }
    Ok(())
}

/// Verifies an RSA PKCS#1 v1.5 / SHA-256 signature over `challenge`.
///
/// This single check stands between a Windows Hello gesture and a root shell. It fails closed:
/// every error path is a rejection, never a grant.
pub fn verify_signature(public_key: PublicKey, challenge: &[u8], signature: &[u8]) -> (res: Result<
    (),
    HelloAuthenticationError,
>)
    ensures
        viewed(res) == signature_outcome(true, accepts(public_key@, challenge@, signature@)),
        res is Ok <==> signed_digest(public_key.modulus@, public_key.exponent@, signature@) == Some(
            sha256_of(challenge@),
        ),
        res matches Err(err) ==> err is SignAuthenticationFail,
        signature@.len() != significant_bytes(public_key@.modulus) ==> res is Err,
{
    if !decodes_as_signature(signature) {
        return signature_result(false, false);
    }
    let digest = sha256(challenge);
    signature_result(true, accepts_digest(&public_key, digest.as_slice(), signature))
}

// ---- Laws ----

/// A replayed signature is refused: a signature that is accepted over one challenge is not
/// accepted, under the same key, over a challenge with another digest.
pub proof fn law_replayed_signature_is_refused(
    key: PublicKeyView,
    challenge: Seq<u8>,
    other: Seq<u8>,
    signature: Seq<u8>,
)
    requires
        accepts(key, challenge, signature),
        sha256_of(other) != sha256_of(challenge),
    ensures
        signature_outcome(true, accepts(key, other, signature)) == Err::<
            (),
            HelloAuthenticationErrorView,
        >(HelloAuthenticationErrorView::SignAuthenticationFail),
{
}

/// A key file with its body on one line holds the same key as one in lines of 64 columns.
pub proof fn law_wrapping_does_not_change_the_key(body: Seq<char>)
    requires
        base64_text(body),
    ensures
        key_of_file(unwrapped_document(body)) == key_of_file(pem_document(body)),
        key_of_file(pem_document(body)) == key_outcome(public_key_of_pem(pem_document(body))),
{
    if body.len() > 0 {
        lemma_base64_stable_line(body);
    }
    law_unwrapped_document_is_wrapped(body);
    law_wrapped_document_is_unchanged(body);
}

/// Neither line endings nor the boundaries change the key that is read from a text.
pub proof fn law_line_endings_and_boundaries_do_not_change_the_key(text: Seq<char>)
    ensures
        key_of_file(with_crlf(text)) == key_of_file(text),
        key_of_file(unwrapped_document(text)) == key_of_file(text),
{
    law_line_endings_do_not_matter(text);
    law_frame_does_not_matter(text);
}

/// A signature is good exactly if the digest that it carries under the key is the SHA-256 digest
/// of the whole challenge, whatever the key, the challenge and the signature. Any other fails the
/// verification.
pub proof fn law_signature_is_good_exactly_over_its_digest(
    key: PublicKeyView,
    challenge: Seq<u8>,
    signature: Seq<u8>,
)
    ensures
        signature_outcome(true, accepts(key, challenge, signature)) is Ok <==> signed_digest(
            key.modulus,
            key.exponent,
            signature,
        ) == Some(sha256_of(challenge)),
        signed_digest(key.modulus, key.exponent, signature) != Some(sha256_of(challenge))
            ==> signature_outcome(true, accepts(key, challenge, signature)) == Err::<
            (),
            HelloAuthenticationErrorView,
        >(HelloAuthenticationErrorView::SignAuthenticationFail),
{
}

/// What is no signature at all is malformed, whatever else is found.
pub proof fn law_malformed_signatures_are_refused(accepted: bool)
    ensures
        signature_outcome(false, accepted) == Err::<(), HelloAuthenticationErrorView>(
            HelloAuthenticationErrorView::MalformedSignature,
        ),
{
}

/// The key is the one that is read from the normalized document, modulus and exponent; and where
/// none can be read, the error says why.
pub proof fn law_key_is_read_from_the_normalized_document(
    text: Seq<char>,
    modulus: Seq<u8>,
    exponent: Seq<u8>,
    reason: Seq<char>,
)
    ensures
        public_key_of_pem(pem_document(pem_body(text))) == Ok::<(Seq<u8>, Seq<u8>), Seq<char>>(
            (modulus, exponent),
        ) ==> key_of_file(text) == Ok::<PublicKeyView, HelloAuthenticationErrorView>(
            PublicKeyView { modulus, exponent },
        ),
        public_key_of_pem(pem_document(pem_body(text))) == Err::<(Seq<u8>, Seq<u8>), Seq<char>>(
            reason,
        ) ==> key_of_file(text) == Err::<PublicKeyView, HelloAuthenticationErrorView>(
            HelloAuthenticationErrorView::InvalidPublicKey(reason),
        ),
{
}

/// Leading zeros do not count among the bytes of a number, and all others do.
pub proof fn law_leading_zeros_do_not_count(zeros: Seq<u8>, number: Seq<u8>)
    requires
        forall|i: int| 0 <= i < zeros.len() ==> zeros[i] == 0,
        number.len() > 0 ==> number[0] != 0,
    ensures
        significant_bytes(zeros + number) == number.len(),
    decreases zeros.len(),
{
    let all = zeros + number;
    if zeros.len() == 0 {
        assert(all == number);
    } else {
        let rest = zeros.drop_first();
        assert forall|i: int| 0 <= i < rest.len() implies rest[i] == 0 by {
            assert(rest[i] == zeros[i + 1]);
        }
        law_leading_zeros_do_not_count(rest, number);
        assert(all.drop_first() == rest + number);
        assert(all[0] == zeros[0]);
    }
}


/// The model of a key has its whole modulus and its whole exponent.
pub proof fn law_key_model(
    key: PublicKey,
)
    ensures
        key@.modulus == key.modulus@,
        key@.exponent == key.exponent@,
{
}

} // verus!
