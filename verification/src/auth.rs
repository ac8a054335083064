//! An authentication, step by step: what to do next, and what each outcome leads to.
//!
//! A [`Session`] says what it waits for. The caller does it, and hands the outcome back as an
//! [`Event`]; [`authenticate_via_hello`] then gives the session that follows.

use vstd::prelude::*;
use vstd::string::*;
use vstd::utf8::{decode_utf8, encode_utf8, valid_utf8};

use crate::challenge::{challenge_of, challenge_path_of, key_name_of, key_path_of};
use crate::challenge::{challenge_path, challenge_text, credential_key_name, public_key_path};
use crate::config::{config_value, get_authenticator_path, get_win_mnt};
use crate::error::{viewed, ConfigError, ConfigErrorView, IoError, IoErrorView};
use crate::error::{HelloAuthenticationError, HelloAuthenticationErrorView};
use crate::signature::{accepts, key_of_file, sha256_of, signature_outcome, signed_digest};
use crate::signature::{read_public_key, verify_signature, PublicKey, PublicKeyView};
use crate::text::{lemma_encoding_has_no_zero, lossy_text, text_of_utf8, text_of_utf8_lossy};

verus! {

/// The authentication succeeded.
pub const PAM_SUCCESS: i32 = 0;

/// The user was not authenticated.
pub const PAM_AUTH_ERR: i32 = 7;

/// The means of authentication cannot be reached.
pub const PAM_AUTHINFO_UNAVAIL: i32 = 9;

/// There is no such user to authenticate.
pub const PAM_USER_UNKNOWN: i32 = 10;

/// The flag that asks for no messages.
pub const PAM_SILENT: i32 = 0x8000;

/// Where the settings are kept.
pub open spec fn config_path() -> Seq<char> {
    "/etc/pam_wsl_hello/config"@
}

// ---- The user ----

/// The user that PAM reports, or the code that it reports instead of one.
pub open spec fn found_user(code: i32, name: Option<Seq<u8>>) -> Result<Seq<char>, i32> {
    if code == PAM_SUCCESS && name is Some {
        Ok(lossy_text(name->0))
    } else {
        Err(code)
    }
}

/// An optional byte vector by its view.
pub open spec fn bytes_view(bytes: Option<Vec<u8>>) -> Option<Seq<u8>> {
    match bytes {
        Some(bytes) => Some(bytes@),
        None => None,
    }
}

/// Writes a prompt as `pam_get_user` takes it: its bytes, and the zero byte that ends them.
pub fn c_prompt(prompt: &str) -> (bytes: Vec<u8>)
    requires
        !prompt@.contains('\0'),
    ensures
        bytes@ == encode_utf8(prompt@).push(0),
        forall|i: int| 0 <= i < bytes@.len() - 1 ==> bytes@[i] != 0,
{
    let mut bytes: Vec<u8> = Vec::new();
    bytes.extend_from_slice(prompt.as_bytes());
    bytes.push(0);
    proof {
        lemma_encoding_has_no_zero(prompt@);
        assert(bytes@ == encode_utf8(prompt@).push(0));
    }
    bytes
}

/// Takes the user name from what `pam_get_user` returned: its code, and the name where it gave
/// one.
pub fn get_user(code: i32, name: Option<Vec<u8>>) -> (res: Result<String, i32>)
    ensures
        viewed(res) == found_user(code, bytes_view(name)),
        code != 0 ==> res == Err::<String, i32>(code),
        code == 0 && name is Some && valid_utf8(name->0@) ==> res is Ok && res->Ok_0@
            == decode_utf8(name->0@),
{
    match name {
        Some(name) => if code == PAM_SUCCESS {
            Ok(text_of_utf8_lossy(name.as_slice()))
        } else {
            Err(code)
        },
        None => Err(code),
    }
}

// ---- The authenticator ----

/// What an authenticator that failed wrote, as text.
pub open spec fn failure_text(output: Seq<u8>) -> Seq<char> {
    if valid_utf8(output) {
        decode_utf8(output)
    } else {
        "invalid utf8 output"@
    }
}

/// What the end of the authenticator leads to: the signature that it wrote, or an error.
pub open spec fn authenticator_outcome(exit_code: Option<i32>, output: Seq<u8>) -> Result<
    Seq<u8>,
    HelloAuthenticationErrorView,
> {
    match exit_code {
        Some(code) => if code == 0 {
            Ok(output)
        } else {
            Err(HelloAuthenticationErrorView::HelloAuthenticationFail(failure_text(output)))
        },
        None => Err(HelloAuthenticationErrorView::AuthenticatorSignalled),
    }
}

/// Takes the signature from an authenticator that ended with an exit code, or with none where a
/// signal ended it.
pub fn authenticator_result(exit_code: Option<i32>, output: Vec<u8>) -> (res: Result<
    Vec<u8>,
    HelloAuthenticationError,
>)
    ensures
        viewed(res) == authenticator_outcome(exit_code, output@),
        res is Ok <==> exit_code == Some(0i32),
        exit_code == Some(0i32) ==> res->Ok_0@ == output@,
        exit_code is None ==> res->Err_0 is AuthenticatorSignalled,
        exit_code is Some && exit_code != Some(0i32) ==> (res->Err_0 matches
            HelloAuthenticationError::HelloAuthenticationFail(text) && text@ == if valid_utf8(
            output@,
        ) {
            decode_utf8(output@)
        } else {
            "invalid utf8 output"@
        }),
{
    match exit_code {
        Some(code) => if code == 0 {
            Ok(output)
        } else {
            let text: String = match text_of_utf8(output.as_slice()) {
                Some(text) => text.to_owned(),
                None => "invalid utf8 output".to_owned(),
            };
            Err(HelloAuthenticationError::HelloAuthenticationFail(text))
        },
        None => Err(HelloAuthenticationError::AuthenticatorSignalled),
    }
}

// ---- Sessions ----

/// Who is to be authenticated, by which key, and over which challenge.
#[derive(Debug)]
pub struct Attempt {
    pub user_name: String,
    pub public_key: PublicKey,
    pub challenge: String,
}

/// The model of an [`Attempt`].
pub struct AttemptView {
    pub user_name: Seq<char>,
    pub public_key: PublicKeyView,
    pub challenge: Seq<char>,
}

impl View for Attempt {
    type V = AttemptView;

    open spec fn view(&self) -> AttemptView {
        AttemptView {
            user_name: self.user_name@,
            public_key: self.public_key@,
            challenge: self.challenge@,
        }
    }
}

/// How far an authentication has come.
#[derive(Debug)]
pub enum Session {
    /// The user is to be found.
    FindUser,
    /// The user's public key file is to be read.
    ReadPublicKey { user_name: String },
    /// A nonce is to be drawn.
    DrawNonce { user_name: String, public_key: PublicKey },
    /// The challenge is to be written to its file.
    WriteChallenge { attempt: Attempt },
    /// The settings are to be read for the path of the authenticator.
    FindAuthenticator { attempt: Attempt },
    /// The settings are to be read for the mount point.
    FindMount { attempt: Attempt, authenticator_path: String },
    /// The authenticator is to be run.
    RunAuthenticator { attempt: Attempt, authenticator_path: String, win_mnt: String },
    /// The challenge file is to be removed.
    RemoveChallenge { attempt: Attempt, exit_code: Option<i32>, output: Vec<u8> },
    /// The authentication is over.
    Finished { outcome: Result<i32, HelloAuthenticationError> },
}

/// The model of a [`Session`].
pub enum SessionView {
    FindUser,
    ReadPublicKey { user_name: Seq<char> },
    DrawNonce { user_name: Seq<char>, public_key: PublicKeyView },
    WriteChallenge { attempt: AttemptView },
    FindAuthenticator { attempt: AttemptView },
    FindMount { attempt: AttemptView, authenticator_path: Seq<char> },
    RunAuthenticator {
        attempt: AttemptView,
        authenticator_path: Seq<char>,
        win_mnt: Seq<char>,
    },
    RemoveChallenge { attempt: AttemptView, exit_code: Option<i32>, output: Seq<u8> },
    Finished { outcome: Result<i32, HelloAuthenticationErrorView> },
}

impl View for Session {
    type V = SessionView;

    open spec fn view(&self) -> SessionView {
        match self {
            Session::FindUser => SessionView::FindUser,
            Session::ReadPublicKey { user_name } => SessionView::ReadPublicKey {
                user_name: user_name@,
            },
            Session::DrawNonce { user_name, public_key } => SessionView::DrawNonce {
                user_name: user_name@,
                public_key: public_key@,
            },
            Session::WriteChallenge { attempt } => SessionView::WriteChallenge {
                attempt: attempt@,
            },
            Session::FindAuthenticator { attempt } => SessionView::FindAuthenticator {
                attempt: attempt@,
            },
            Session::FindMount { attempt, authenticator_path } => SessionView::FindMount {
                attempt: attempt@,
                authenticator_path: authenticator_path@,
            },
            Session::RunAuthenticator { attempt, authenticator_path, win_mnt } =>
                SessionView::RunAuthenticator {
                attempt: attempt@,
                authenticator_path: authenticator_path@,
                win_mnt: win_mnt@,
            },
            Session::RemoveChallenge { attempt, exit_code, output } =>
                SessionView::RemoveChallenge {
                attempt: attempt@,
                exit_code: *exit_code,
                output: output@,
            },
            Session::Finished { outcome } => SessionView::Finished { outcome: viewed(*outcome) },
        }
    }
}

/// What came of the work that a session waits for.
#[derive(Debug)]
pub enum Event {
    /// `pam_get_user` returned.
    User { code: i32, name: Option<Vec<u8>> },
    /// The public key file could not be opened.
    PublicKeyOpenFailed { error: IoError },
    /// The public key file was opened and could not be read.
    PublicKeyReadFailed { error: IoError },
    /// The text of the public key file.
    PublicKeyRead { text: String },
    /// A nonce was drawn, or could not be.
    Nonce { drawn: Result<[u8; 32], HelloAuthenticationError> },
    /// The challenge file was written, or could not be.
    ChallengeWritten { result: Result<(), IoError> },
    /// The text of the settings file, or why it could not be read.
    ConfigRead { config: Result<String, IoError> },
    /// The authenticator could not be started.
    LaunchFailed { error: IoError },
    /// The authenticator was started, and what it wrote could not be read.
    ConnectionFailed { error: IoError },
    /// The authenticator ended, with an exit code or by a signal.
    Exited { exit_code: Option<i32>, output: Vec<u8> },
    /// The challenge file was removed, or could not be.
    ChallengeRemoved { result: Result<(), IoError> },
}

/// The model of an [`Event`].
pub enum EventView {
    User { code: i32, name: Option<Seq<u8>> },
    PublicKeyOpenFailed { error: IoErrorView },
    PublicKeyReadFailed { error: IoErrorView },
    PublicKeyRead { text: Seq<char> },
    Nonce { drawn: Result<Seq<u8>, HelloAuthenticationErrorView> },
    ChallengeWritten { result: Result<(), IoErrorView> },
    ConfigRead { config: Result<Seq<char>, IoErrorView> },
    LaunchFailed { error: IoErrorView },
    ConnectionFailed { error: IoErrorView },
    Exited { exit_code: Option<i32>, output: Seq<u8> },
    ChallengeRemoved { result: Result<(), IoErrorView> },
}

impl View for Event {
    type V = EventView;

    open spec fn view(&self) -> EventView {
        match self {
            Event::User { code, name } => EventView::User { code: *code, name: bytes_view(*name) },
            Event::PublicKeyOpenFailed { error } => EventView::PublicKeyOpenFailed {
                error: error@,
            },
            Event::PublicKeyReadFailed { error } => EventView::PublicKeyReadFailed {
                error: error@,
            },
            Event::PublicKeyRead { text } => EventView::PublicKeyRead { text: text@ },
            Event::Nonce { drawn } => EventView::Nonce { drawn: viewed(*drawn) },
            Event::ChallengeWritten { result } => EventView::ChallengeWritten {
                result: viewed(*result),
            },
            Event::ConfigRead { config } => EventView::ConfigRead { config: viewed(*config) },
            Event::LaunchFailed { error } => EventView::LaunchFailed { error: error@ },
            Event::ConnectionFailed { error } => EventView::ConnectionFailed { error: error@ },
            Event::Exited { exit_code, output } => EventView::Exited {
                exit_code: *exit_code,
                output: output@,
            },
            Event::ChallengeRemoved { result } => EventView::ChallengeRemoved {
                result: viewed(*result),
            },
        }
    }
}

/// The end of an authentication with an error.
pub open spec fn denied(error: HelloAuthenticationErrorView) -> SessionView {
    SessionView::Finished { outcome: Err(error) }
}

/// The session that follows once the user is known, or is known not to be.
pub open spec fn after_user(found: Result<Seq<char>, i32>) -> SessionView {
    match found {
        Ok(user_name) => SessionView::ReadPublicKey { user_name },
        Err(code) => denied(HelloAuthenticationErrorView::GetUserError(code)),
    }
}

/// The session that follows once the key file has been read.
pub open spec fn after_public_key(
    user_name: Seq<char>,
    read: Result<PublicKeyView, HelloAuthenticationErrorView>,
) -> SessionView {
    match read {
        Ok(public_key) => SessionView::DrawNonce { user_name, public_key },
        Err(error) => denied(error),
    }
}

/// The result of an authentication whose signature has been checked.
pub open spec fn after_check(checked: Result<(), HelloAuthenticationErrorView>) -> Result<
    i32,
    HelloAuthenticationErrorView,
> {
    match checked {
        Ok(_) => Ok(PAM_SUCCESS),
        Err(error) => Err(error),
    }
}

/// The session that follows `session` when `event` comes in. A session takes no notice of an
/// event that it does not wait for.
pub open spec fn step(session: SessionView, event: EventView) -> SessionView {
    match (session, event) {
        (SessionView::FindUser, EventView::User { code, name }) => after_user(
            found_user(code, name),
        ),
        (
            SessionView::ReadPublicKey { user_name },
            EventView::PublicKeyOpenFailed { error },
        ) => denied(HelloAuthenticationErrorView::PublicKeyFileError(error)),
        (
            SessionView::ReadPublicKey { user_name },
            EventView::PublicKeyReadFailed { error },
        ) => denied(HelloAuthenticationErrorView::Io(error)),
        (
            SessionView::ReadPublicKey { user_name },
            EventView::PublicKeyRead { text },
        ) => after_public_key(user_name, key_of_file(text)),
        (
            SessionView::DrawNonce { user_name, public_key },
            EventView::Nonce { drawn },
        ) => match drawn {
            Ok(nonce) => SessionView::WriteChallenge {
                attempt: AttemptView {
                    user_name,
                    public_key,
                    challenge: challenge_of(user_name, nonce),
                },
            },
            Err(error) => denied(error),
        },
        (
            SessionView::WriteChallenge { attempt },
            EventView::ChallengeWritten { result },
        ) => match result {
            Ok(_) => SessionView::FindAuthenticator { attempt },
            Err(error) => denied(HelloAuthenticationErrorView::Io(error)),
        },
        (
            SessionView::FindAuthenticator { attempt },
            EventView::ConfigRead { config },
        ) => match setting(config, "authenticator_path"@) {
            Ok(authenticator_path) => SessionView::FindMount { attempt, authenticator_path },
            Err(error) => denied(HelloAuthenticationErrorView::ConfigError(error)),
        },
        (
            SessionView::FindMount { attempt, authenticator_path },
            EventView::ConfigRead { config },
        ) => match setting(config, "win_mnt"@) {
            Ok(win_mnt) => SessionView::RunAuthenticator { attempt, authenticator_path, win_mnt },
            Err(error) => denied(HelloAuthenticationErrorView::ConfigError(error)),
        },
        (
            SessionView::RunAuthenticator { attempt, authenticator_path, win_mnt },
            EventView::LaunchFailed { error },
        ) => denied(HelloAuthenticationErrorView::AuthenticatorLaunchError(error)),
        (
            SessionView::RunAuthenticator { attempt, authenticator_path, win_mnt },
            EventView::ConnectionFailed { error },
        ) => denied(HelloAuthenticationErrorView::AuthenticatorConnectionError(error)),
        (
            SessionView::RunAuthenticator { attempt, authenticator_path, win_mnt },
            EventView::Exited { exit_code, output },
        ) => SessionView::RemoveChallenge { attempt, exit_code, output },
        (
            SessionView::RemoveChallenge { attempt, exit_code, output },
            EventView::ChallengeRemoved { result },
        ) => match result {
            Ok(_) => SessionView::Finished { outcome: verdict(attempt, exit_code, output) },
            Err(error) => denied(HelloAuthenticationErrorView::Io(error)),
        },
        _ => session,
    }
}

/// A setting in what was read of the settings file.
pub open spec fn setting(read: Result<Seq<char>, IoErrorView>, key: Seq<char>) -> Result<
    Seq<char>,
    ConfigErrorView,
> {
    match read {
        Ok(config) => config_value(config, key),
        Err(error) => Err(ConfigErrorView::Io(error)),
    }
}

/// What an attempt leads to once the authenticator has ended.
pub open spec fn verdict(attempt: AttemptView, exit_code: Option<i32>, output: Seq<u8>) -> Result<
    i32,
    HelloAuthenticationErrorView,
> {
    match authenticator_outcome(exit_code, output) {
        Err(error) => Err(error),
        Ok(signature) => after_check(
            signature_outcome(
                true,
                accepts(attempt.public_key, encode_utf8(attempt.challenge), signature),
            ),
        ),
    }
}

/// Goes on once the user is known, or is known not to be.
pub fn with_user(found: Result<String, i32>) -> (next: Session)
    ensures
        next@ == after_user(viewed(found)),
        found matches Ok(user_name) ==> next == (Session::ReadPublicKey { user_name }),
        found matches Err(code) ==> next == (Session::Finished {
            outcome: Err(HelloAuthenticationError::GetUserError(code)),
        }),
{
    match found {
        Ok(user_name) => Session::ReadPublicKey { user_name },
        Err(code) => Session::Finished {
            outcome: Err(HelloAuthenticationError::GetUserError(code)),
        },
    }
}

/// Goes on once the key file has been read.
pub fn with_public_key(
    user_name: String,
    read: Result<PublicKey, HelloAuthenticationError>,
) -> (next: Session)
    ensures
        next@ == after_public_key(user_name@, viewed(read)),
        read matches Ok(public_key) ==> next == (Session::DrawNonce { user_name, public_key }),
        read matches Err(error) ==> next == (Session::Finished { outcome: Err(error) }),
{
    match read {
        Ok(public_key) => Session::DrawNonce { user_name, public_key },
        Err(error) => Session::Finished { outcome: Err(error) },
    }
}

/// Grants access where the signature was found to be good, and only there.
pub fn grant(checked: Result<(), HelloAuthenticationError>) -> (res: Result<
    i32,
    HelloAuthenticationError,
>)
    ensures
        viewed(res) == after_check(viewed(checked)),
        checked is Ok ==> res == Ok::<i32, HelloAuthenticationError>(0),
        checked matches Err(error) ==> res == Err::<i32, HelloAuthenticationError>(error),
{
    match checked {
        Ok(()) => Ok(PAM_SUCCESS),
        Err(error) => Err(error),
    }
}

/// Decides an attempt once the authenticator has ended.
pub fn judge(attempt: Attempt, exit_code: Option<i32>, output: Vec<u8>) -> (res: Result<
    i32,
    HelloAuthenticationError,
>)
    ensures
        viewed(res) == verdict(attempt@, exit_code, output@),
        res is Ok <==> exit_code == Some(0i32) && signed_digest(
            attempt.public_key.modulus@,
            attempt.public_key.exponent@,
            output@,
        ) == Some(sha256_of(encode_utf8(attempt.challenge@))),
{
    match authenticator_result(exit_code, output) {
        Err(error) => Err(error),
        Ok(signature) => grant(
            verify_signature(
                attempt.public_key,
                attempt.challenge.as_str().as_bytes(),
                signature.as_slice(),
            ),
        ),
    }
}

/// Takes an authentication one step further.
pub fn authenticate_via_hello(session: Session, event: Event) -> (next: Session)
    ensures
        next@ == step(session@, event@),
{
    match (session, event) {
        (Session::FindUser, Event::User { code, name }) => with_user(get_user(code, name)),
        (Session::ReadPublicKey { user_name }, Event::PublicKeyOpenFailed { error }) =>
            Session::Finished {
            outcome: Err(HelloAuthenticationError::PublicKeyFileError(error)),
        },
        (Session::ReadPublicKey { user_name }, Event::PublicKeyReadFailed { error }) =>
            Session::Finished { outcome: Err(HelloAuthenticationError::from(error)) },
        (Session::ReadPublicKey { user_name }, Event::PublicKeyRead { text }) => with_public_key(
            user_name,
            read_public_key(text.as_str()),
        ),
        (Session::DrawNonce { user_name, public_key }, Event::Nonce { drawn }) => match drawn {
            Ok(nonce) => {
                let challenge = challenge_text(user_name.as_str(), &nonce);
                Session::WriteChallenge { attempt: Attempt { user_name, public_key, challenge } }
            },
            Err(error) => Session::Finished { outcome: Err(error) },
        },
        (Session::WriteChallenge { attempt }, Event::ChallengeWritten { result }) => match result {
            Ok(()) => Session::FindAuthenticator { attempt },
            Err(error) => Session::Finished { outcome: Err(HelloAuthenticationError::from(error)) },
        },
        (Session::FindAuthenticator { attempt }, Event::ConfigRead { config }) => {
            let found = match config {
                Ok(text) => get_authenticator_path(text.as_str()),
                Err(error) => Err(ConfigError::from(error)),
            };
            match found {
                Ok(authenticator_path) => Session::FindMount { attempt, authenticator_path },
                Err(error) => Session::Finished {
                    outcome: Err(HelloAuthenticationError::from(error)),
                },
            }
        },
        (Session::FindMount { attempt, authenticator_path }, Event::ConfigRead { config }) => {
            let found = match config {
                Ok(text) => get_win_mnt(text.as_str()),
                Err(error) => Err(ConfigError::from(error)),
            };
            match found {
                Ok(win_mnt) => Session::RunAuthenticator { attempt, authenticator_path, win_mnt },
                Err(error) => Session::Finished {
                    outcome: Err(HelloAuthenticationError::from(error)),
                },
            }
        },
        (
            Session::RunAuthenticator { attempt, authenticator_path, win_mnt },
            Event::LaunchFailed { error },
        ) => Session::Finished {
            outcome: Err(HelloAuthenticationError::AuthenticatorLaunchError(error)),
        },
        (
            Session::RunAuthenticator { attempt, authenticator_path, win_mnt },
            Event::ConnectionFailed { error },
        ) => Session::Finished {
            outcome: Err(HelloAuthenticationError::AuthenticatorConnectionError(error)),
        },
        (
            Session::RunAuthenticator { attempt, authenticator_path, win_mnt },
            Event::Exited { exit_code, output },
        ) => Session::RemoveChallenge { attempt, exit_code, output },
        (
            Session::RemoveChallenge { attempt, exit_code, output },
            Event::ChallengeRemoved { result },
        ) => match result {
            Ok(()) => Session::Finished { outcome: judge(attempt, exit_code, output) },
            Err(error) => Session::Finished { outcome: Err(HelloAuthenticationError::from(error)) },
        },
        (session, _) => session,
    }
}

// ---- Actions ----

/// What a session waits for.
#[derive(Debug)]
pub enum Action {
    /// Ask PAM for the user, with this prompt or the one that PAM chooses.
    GetUser { prompt: Option<String> },
    /// Read the public key file.
    ReadPublicKey { path: String },
    /// Draw a nonce.
    DrawNonce,
    /// Create the challenge file and write to it.
    WriteChallenge { path: String, contents: String },
    /// Read the settings file.
    ReadConfig { path: String },
    /// Run a program with two arguments, in a directory, with a file as its input.
    RunAuthenticator {
        program: String,
        command: String,
        credential_key_name: String,
        directory: String,
        input: String,
    },
    /// Remove the challenge file.
    RemoveChallenge { path: String },
    /// Nothing: the authentication is over.
    Report,
}

/// The model of an [`Action`].
pub enum ActionView {
    GetUser { prompt: Option<Seq<char>> },
    ReadPublicKey { path: Seq<char> },
    DrawNonce,
    WriteChallenge { path: Seq<char>, contents: Seq<char> },
    ReadConfig { path: Seq<char> },
    RunAuthenticator {
        program: Seq<char>,
        command: Seq<char>,
        credential_key_name: Seq<char>,
        directory: Seq<char>,
        input: Seq<char>,
    },
    RemoveChallenge { path: Seq<char> },
    Report,
}

impl View for Action {
    type V = ActionView;

    open spec fn view(&self) -> ActionView {
        match self {
            Action::GetUser { prompt } => ActionView::GetUser {
                prompt: match prompt {
                    Some(prompt) => Some(prompt@),
                    None => None,
                },
            },
            Action::ReadPublicKey { path } => ActionView::ReadPublicKey { path: path@ },
            Action::DrawNonce => ActionView::DrawNonce,
            Action::WriteChallenge { path, contents } => ActionView::WriteChallenge {
                path: path@,
                contents: contents@,
            },
            Action::ReadConfig { path } => ActionView::ReadConfig { path: path@ },
            Action::RunAuthenticator {
                program,
                command,
                credential_key_name,
                directory,
                input,
            } => ActionView::RunAuthenticator {
                program: program@,
                command: command@,
                credential_key_name: credential_key_name@,
                directory: directory@,
                input: input@,
            },
            Action::RemoveChallenge { path } => ActionView::RemoveChallenge { path: path@ },
            Action::Report => ActionView::Report,
        }
    }
}

/// What a session waits for.
pub open spec fn awaited(session: SessionView) -> ActionView {
    match session {
        SessionView::FindUser => ActionView::GetUser { prompt: None },
        SessionView::ReadPublicKey { user_name } => ActionView::ReadPublicKey {
            path: key_path_of(user_name),
        },
        SessionView::DrawNonce { user_name, public_key } => ActionView::DrawNonce,
        SessionView::WriteChallenge { attempt } => ActionView::WriteChallenge {
            path: challenge_path_of(attempt.challenge),
            contents: attempt.challenge,
        },
        SessionView::FindAuthenticator { attempt } => ActionView::ReadConfig {
            path: config_path(),
        },
        SessionView::FindMount { attempt, authenticator_path } => ActionView::ReadConfig {
            path: config_path(),
        },
        SessionView::RunAuthenticator { attempt, authenticator_path, win_mnt } =>
            ActionView::RunAuthenticator {
            program: authenticator_path,
            command: "authenticator"@,
            credential_key_name: key_name_of(attempt.user_name),
            directory: win_mnt,
            input: challenge_path_of(attempt.challenge),
        },
        SessionView::RemoveChallenge { attempt, exit_code, output } => ActionView::RemoveChallenge {
            path: challenge_path_of(attempt.challenge),
        },
        SessionView::Finished { outcome } => ActionView::Report,
    }
}

impl Session {
    /// The beginning of an authentication.
    pub fn start() -> (session: Session)
        ensures
            session@ == SessionView::FindUser,
    {
        Session::FindUser
    }

    /// Says what the session waits for.
    pub fn action(&self) -> (action: Action)
        ensures
            action@ == awaited(self@),
            self matches Session::RunAuthenticator { attempt, authenticator_path, win_mnt } ==> (
            action matches Action::RunAuthenticator {
                program,
                command,
                credential_key_name,
                directory,
                input,
            } && program@ == authenticator_path@ && command@ == "authenticator"@
                && credential_key_name@ == "pam_wsl_hello_"@ + attempt.user_name@ && directory@
                == win_mnt@ && input@ == "/tmp/"@ + attempt.challenge@),
            self matches Session::WriteChallenge { attempt } ==> (action matches
                Action::WriteChallenge { path, contents } && path@ == "/tmp/"@ + attempt.challenge@
                && contents@ == attempt.challenge@),
            self matches Session::RemoveChallenge { attempt, .. } ==> (action matches
                Action::RemoveChallenge { path } && path@ == "/tmp/"@ + attempt.challenge@),
    {
        match self {
            Session::FindUser => Action::GetUser { prompt: None },
            Session::ReadPublicKey { user_name } => Action::ReadPublicKey {
                path: public_key_path(user_name.as_str()),
            },
            Session::DrawNonce { .. } => Action::DrawNonce,
            Session::WriteChallenge { attempt } => Action::WriteChallenge {
                path: challenge_path(attempt.challenge.as_str()),
                contents: attempt.challenge.clone(),
            },
            Session::FindAuthenticator { .. } => Action::ReadConfig {
                path: "/etc/pam_wsl_hello/config".to_owned(),
            },
            Session::FindMount { .. } => Action::ReadConfig {
                path: "/etc/pam_wsl_hello/config".to_owned(),
            },
            Session::RunAuthenticator { attempt, authenticator_path, win_mnt } =>
                Action::RunAuthenticator {
                program: authenticator_path.clone(),
                command: "authenticator".to_owned(),
                credential_key_name: credential_key_name(attempt.user_name.as_str()),
                directory: win_mnt.clone(),
                input: challenge_path(attempt.challenge.as_str()),
            },
            Session::RemoveChallenge { attempt, .. } => Action::RemoveChallenge {
                path: challenge_path(attempt.challenge.as_str()),
            },
            Session::Finished { .. } => Action::Report,
        }
    }
}

// ---- The answer to PAM ----

/// The answer to PAM: the code, and the notice to print for the user, where there is one.
#[derive(Debug)]
pub struct PamReply {
    pub code: i32,
    pub notice: Option<String>,
}

/// The model of a [`PamReply`].
pub struct PamReplyView {
    pub code: i32,
    pub notice: Option<Seq<char>>,
}

impl View for PamReply {
    type V = PamReplyView;

    open spec fn view(&self) -> PamReplyView {
        PamReplyView {
            code: self.code,
            notice: match self.notice {
                Some(notice) => Some(notice@),
                None => None,
            },
        }
    }
}

/// The PAM code for an error.
pub open spec fn error_code(error: HelloAuthenticationErrorView) -> i32 {
    match error {
        HelloAuthenticationErrorView::PublicKeyFileError(err) => if err.not_found {
            PAM_USER_UNKNOWN
        } else {
            PAM_AUTH_ERR
        },
        HelloAuthenticationErrorView::AuthenticatorLaunchError(_) => PAM_AUTHINFO_UNAVAIL,
        HelloAuthenticationErrorView::AuthenticatorConnectionError(_) => PAM_AUTHINFO_UNAVAIL,
        HelloAuthenticationErrorView::AuthenticatorSignalled => PAM_AUTHINFO_UNAVAIL,
        _ => PAM_AUTH_ERR,
    }
}

/// The answer to PAM for the outcome of an authentication.
pub open spec fn reply(
    flags: i32,
    outcome: Result<i32, HelloAuthenticationErrorView>,
) -> PamReplyView {
    match outcome {
        Ok(code) => PamReplyView { code, notice: None },
        Err(error) => PamReplyView {
            code: error_code(error),
            notice: if flags & PAM_SILENT == 0 {
                Some("WSL Hello error: "@ + error.message())
            } else {
                None
            },
        },
    }
}

/// The PAM code for an error.
pub fn pam_code(error: &HelloAuthenticationError) -> (code: i32)
    ensures
        code == error_code(error@),
        code == 10 || code == 9 || code == 7,
        code == 10 <==> (error matches HelloAuthenticationError::PublicKeyFileError(io)
            && io.not_found),
        code == 9 <==> (error is AuthenticatorLaunchError || error is AuthenticatorConnectionError
            || error is AuthenticatorSignalled),
{
    match error {
        HelloAuthenticationError::PublicKeyFileError(err) => if err.not_found {
            PAM_USER_UNKNOWN
        } else {
            PAM_AUTH_ERR
        },
        HelloAuthenticationError::AuthenticatorLaunchError(_) => PAM_AUTHINFO_UNAVAIL,
        HelloAuthenticationError::AuthenticatorConnectionError(_) => PAM_AUTHINFO_UNAVAIL,
        HelloAuthenticationError::AuthenticatorSignalled => PAM_AUTHINFO_UNAVAIL,
        _ => PAM_AUTH_ERR,
    }
}

/// Answers PAM for the outcome of an authentication.
pub fn pam_sm_authenticate(flags: i32, outcome: Result<i32, HelloAuthenticationError>) -> (answer:
    PamReply)
    ensures
        answer@ == reply(flags, viewed(outcome)),
        outcome matches Ok(code) ==> answer.code == code && answer.notice is None,
        outcome matches Err(error) ==> answer.code == error_code(error@) && (answer.notice is Some
            <==> flags & PAM_SILENT == 0) && (answer.notice matches Some(notice) ==> notice@
            == "WSL Hello error: "@ + error@.message()),
{
    match outcome {
        Ok(code) => PamReply { code, notice: None },
        Err(error) => {
            let code = pam_code(&error);
            if flags & PAM_SILENT == 0 {
                let mut notice: String = "WSL Hello error: ".to_owned();
                notice.append(error.message().as_str());
                PamReply { code, notice: Some(notice) }
            } else {
                PamReply { code, notice: None }
            }
        },
    }
}

} // verus!
