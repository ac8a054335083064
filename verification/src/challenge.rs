//! The names, paths and challenges of an authentication.

use vstd::prelude::*;
use vstd::string::*;

use crate::error::HelloAuthenticationError;
use crate::text::{hex, hex_value, law_hex_is_read_back, lemma_hex_injective, push_hex};

verus! {

/// The name of a user's Windows Hello credential.
pub open spec fn key_name_of(user: Seq<char>) -> Seq<char> {
    "pam_wsl_hello_"@ + user
}

/// Names a user's Windows Hello credential.
pub fn credential_key_name(user: &str) -> (name: String)
    ensures
        name@ == key_name_of(user@),
        name@ == "pam_wsl_hello_"@ + user@,
{
    let mut name: String = "pam_wsl_hello_".to_owned();
    name.append(user);
    name
}

/// Where a user's public key is kept.
pub open spec fn key_path_of(user: Seq<char>) -> Seq<char> {
    "/etc/pam_wsl_hello/public_keys/"@ + key_name_of(user) + ".pem"@
}

/// The path of a user's public key file.
pub fn public_key_path(user: &str) -> (path: String)
    ensures
        path@ == key_path_of(user@),
{
    let mut path: String = "/etc/pam_wsl_hello/public_keys/".to_owned();
    path.append(credential_key_name(user).as_str());
    path.append(".pem");
    path
}

/// The text that Windows Hello is asked to sign.
pub open spec fn challenge_of(user: Seq<char>, nonce: Seq<u8>) -> Seq<char> {
    "pam_wsl_hello:"@ + user + ":"@ + hex(nonce)
}

/// Writes the challenge for a user and a nonce.
pub fn challenge_text(user: &str, nonce: &[u8; 32]) -> (text: String)
    ensures
        text@ == challenge_of(user@, nonce@),
{
    let mut text: String = "pam_wsl_hello:".to_owned();
    text.append(user);
    text.append(":");
    push_hex(&mut text, nonce.as_slice());
    text
}

/// The file that hands a challenge to the authenticator.
pub open spec fn challenge_path_of(challenge: Seq<char>) -> Seq<char> {
    "/tmp/"@ + challenge
}

/// The path of the file that hands a challenge to the authenticator.
pub fn challenge_path(challenge: &str) -> (path: String)
    ensures
        path@ == challenge_path_of(challenge@),
{
    let mut path: String = "/tmp/".to_owned();
    path.append(challenge);
    path
}

// ---- Nonces ----

/// The error of the crate getrandom.
#[verifier::external_type_specification]
#[verifier::external_body]
pub struct ExRandomError(getrandom::Error);

/// `getrandom::fill` fills a buffer with random bytes from the operating system, or fails and
/// leaves it in any state. What the bytes are, and whether it fails, rests with the system.
#[verifier::external_body]
fn fill_nonce() -> (drawn: (Result<(), getrandom::Error>, [u8; 32])) {
    let mut nonce = [0u8; 32];
    let filled = getrandom::fill(&mut nonce);
    (filled, nonce)
}

/// Turns a filled buffer, or the failure to fill it, into a nonce or the error to report.
pub fn nonce_result(filled: Result<(), getrandom::Error>, nonce: [u8; 32]) -> (res: Result<
    [u8; 32],
    HelloAuthenticationError,
>)
    ensures
        filled is Ok ==> res == Ok::<[u8; 32], HelloAuthenticationError>(nonce),
        filled is Err ==> res == Err::<[u8; 32], HelloAuthenticationError>(
            HelloAuthenticationError::NonceError,
        ),
{
    match filled {
        Ok(()) => Ok(nonce),
        Err(_) => Err(HelloAuthenticationError::NonceError),
    }
}

/// Whether `res` is what a call of `source` gave: its whole buffer where it was filled, and
/// otherwise the error.
pub open spec fn given_by<F: Fn() -> (Result<(), getrandom::Error>, [u8; 32])>(
    source: F,
    res: Result<[u8; 32], HelloAuthenticationError>,
) -> bool {
    exists|filled: Result<(), getrandom::Error>, buffer: [u8; 32]|
        {
            &&& #[trigger] call_ensures(source, (), (filled, buffer))
            &&& res == if filled is Ok {
                Ok::<[u8; 32], HelloAuthenticationError>(buffer)
            } else {
                Err::<[u8; 32], HelloAuthenticationError>(HelloAuthenticationError::NonceError)
            }
        }
}

/// Whether `res` is what the operating system gave.
pub closed spec fn given_by_system(res: Result<[u8; 32], HelloAuthenticationError>) -> bool {
    given_by(fill_nonce, res)
}

/// Draws a nonce from a source that fills a buffer or fails to.
pub fn nonce_from<F: Fn() -> (Result<(), getrandom::Error>, [u8; 32])>(source: F) -> (res: Result<
    [u8; 32],
    HelloAuthenticationError,
>)
    requires
        call_requires(source, ()),
    ensures
        given_by(source, res),
{
    let (filled, nonce) = source();
    nonce_result(filled, nonce)
}

/// Draws a nonce of 256 bits straight from the operating system.
///
/// The nonce is what sets one challenge of a user apart from the next, so it does not come from a
/// generator in this process. Which bytes are drawn, and whether any are, rests with the system.
pub fn draw_nonce() -> (res: Result<[u8; 32], HelloAuthenticationError>)
    ensures
        given_by_system(res),
        res matches Err(err) ==> err is NonceError,
{
    nonce_from(fill_nonce)
}

// ---- Laws ----

/// A challenge is for one user and one nonce only: another user or another nonce makes another
/// challenge.
pub proof fn law_challenge_binds_user_and_nonce(
    user: Seq<char>,
    nonce: Seq<u8>,
    other_user: Seq<char>,
    other_nonce: Seq<u8>,
)
    requires
        nonce.len() == 32,
        other_nonce.len() == 32,
        challenge_of(user, nonce) == challenge_of(other_user, other_nonce),
    ensures
        user == other_user,
        nonce == other_nonce,
{
    let a = challenge_of(user, nonce);
    let b = challenge_of(other_user, other_nonce);
    let lead = "pam_wsl_hello:"@.len() as int;
    let colon = ":"@.len() as int;
    let size = a.len() as int;
    assert(a.len() == lead + user.len() + colon + 64);
    assert(b.len() == lead + other_user.len() + colon + 64);
    assert(a.subrange(lead, lead + user.len()) == user);
    assert(b.subrange(lead, lead + user.len()) == other_user);
    assert(a.subrange(size - 64, size) == hex(nonce));
    assert(b.subrange(size - 64, size) == hex(other_nonce));
    lemma_hex_injective(nonce, other_nonce);
}

/// Each user has a key file of their own.
pub proof fn law_key_files_are_per_user(user: Seq<char>, other: Seq<char>)
    requires
        key_path_of(user) == key_path_of(other),
    ensures
        user == other,
{
    let a = key_path_of(user);
    let b = key_path_of(other);
    let lead = ("/etc/pam_wsl_hello/public_keys/"@ + "pam_wsl_hello_"@).len() as int;
    assert(a.len() == lead + user.len() + ".pem"@.len());
    assert(b.len() == lead + other.len() + ".pem"@.len());
    assert(a.subrange(lead, lead + user.len()) == user);
    assert(b.subrange(lead, lead + user.len()) == other);
}

/// The credential and the key file are named after the user, and the challenge file after the
/// challenge.
pub proof fn law_names_and_paths(user: Seq<char>, challenge: Seq<char>)
    ensures
        key_name_of(user) == "pam_wsl_hello_"@ + user,
        key_path_of(user) == "/etc/pam_wsl_hello/public_keys/pam_wsl_hello_"@ + user + ".pem"@,
        challenge_path_of(challenge) == "/tmp/"@ + challenge,
{
    reveal_strlit("/etc/pam_wsl_hello/public_keys/");
    reveal_strlit("pam_wsl_hello_");
    reveal_strlit("/etc/pam_wsl_hello/public_keys/pam_wsl_hello_");
    assert("/etc/pam_wsl_hello/public_keys/"@ + "pam_wsl_hello_"@
        == "/etc/pam_wsl_hello/public_keys/pam_wsl_hello_"@);
    assert(key_path_of(user) == "/etc/pam_wsl_hello/public_keys/pam_wsl_hello_"@ + user + ".pem"@);
}

/// A challenge is the scheme's name, the whole user name and the whole nonce, with colons between
/// them. The nonce is two lower case hexadecimal digits for each byte, from which it can be read
/// back.
pub proof fn law_challenge_holds_user_and_nonce(user: Seq<char>, nonce: Seq<u8>)
    ensures
        ({
            let c = challenge_of(user, nonce);
            let n = 15 + user.len() as int;
            &&& c.len() == n + 2 * nonce.len()
            &&& c.take(14) == "pam_wsl_hello:"@
            &&& c.subrange(14, n - 1) == user
            &&& c[n - 1] == ':'
            &&& forall|i: int|
                n <= i < c.len() ==> ('0' <= #[trigger] c[i] <= '9' || 'a' <= c[i] <= 'f')
            &&& forall|i: int|
                0 <= i < nonce.len() ==> 16 * hex_value(c[n + 2 * i]) + hex_value(c[n + 2 * i + 1])
                    == #[trigger] nonce[i]
        }),
{
    reveal_strlit("pam_wsl_hello:");
    reveal_strlit(":");
    let c = challenge_of(user, nonce);
    let n = 15 + user.len() as int;
    let h = hex(nonce);
    law_hex_is_read_back(nonce);
    assert(c.take(14) == "pam_wsl_hello:"@);
    assert(c.subrange(14, n - 1) == user);
    assert forall|i: int| n <= i < c.len() implies ('0' <= #[trigger] c[i] <= '9' || 'a' <= c[i]
        <= 'f') by {
        assert(c[i] == h[i - n]);
    }
    assert forall|i: int| 0 <= i < nonce.len() implies 16 * hex_value(c[n + 2 * i]) + hex_value(
        c[n + 2 * i + 1],
    ) == #[trigger] nonce[i] by {
        assert(c[n + 2 * i] == h[2 * i]);
        assert(c[n + 2 * i + 1] == h[2 * i + 1]);
    }
}

/// A nonce is the whole buffer that one call of its source filled, and there is none where that
/// call failed.
pub proof fn law_nonce_is_the_whole_buffer<F: Fn() -> (Result<(), getrandom::Error>, [u8; 32])>(
    source: F,
    res: Result<[u8; 32], HelloAuthenticationError>,
)
    requires
        given_by(source, res),
    ensures
        exists|filled: Result<(), getrandom::Error>, buffer: [u8; 32]|
            #![trigger call_ensures(source, (), (filled, buffer))]
            call_ensures(source, (), (filled, buffer)) && (filled is Ok ==> res is Ok
                && res->Ok_0 == buffer) && (filled is Err ==> res is Err && res->Err_0
                is NonceError),
{
}

/// The source that [`draw_nonce`] draws from is the operating system: its result is the whole buffer that one
/// call of `getrandom::fill` filled, or the error where that call failed.
proof fn law_drawn_nonce_is_the_systems(res: Result<[u8; 32], HelloAuthenticationError>)
    requires
        given_by_system(res),
    ensures
        exists|filled: Result<(), getrandom::Error>, buffer: [u8; 32]|
            #![trigger call_ensures(fill_nonce, (), (filled, buffer))]
            call_ensures(fill_nonce, (), (filled, buffer)) && (filled is Ok ==> res is Ok
                && res->Ok_0 == buffer) && (filled is Err ==> res is Err && res->Err_0
                is NonceError),
{
    law_nonce_is_the_whole_buffer(fill_nonce, res);
}

} // verus!
