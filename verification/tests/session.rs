use rsa::pkcs1v15::SigningKey;
use rsa::pkcs8::EncodePublicKey;
use rsa::signature::{Keypair, SignatureEncoding, Signer};
use rsa::traits::PublicKeyParts;
use rsa::{BigUint, RsaPrivateKey, RsaPublicKey};
use sha2::Sha256;
use wsl_hello::auth::{
    authenticate_via_hello, authenticator_result, c_prompt, get_user, grant, judge, pam_code,
    pam_sm_authenticate, with_public_key, with_user, Action, Attempt, Event, Session,
    PAM_AUTHINFO_UNAVAIL, PAM_AUTH_ERR, PAM_SILENT, PAM_SUCCESS, PAM_USER_UNKNOWN,
};
use wsl_hello::challenge::{
    challenge_path, challenge_text, credential_key_name, draw_nonce, nonce_result, public_key_path,
};
use wsl_hello::error::{ConfigError, HelloAuthenticationError, IoError};
use wsl_hello::signature::PublicKey;

const CONFIG: &str = "authenticator_path = \"/mnt/c/bridge.exe\"\nwin_mnt = \"/mnt/c\"\n";

// The primes of a 2048-bit key.
const P: &str = "f824ec9071ad5ff78d86224f249c21f4cef15bb95611662414f2e0b8fa07673162c90b60692138f5\
    f16263d0ea2bd48feca6b72c06f3b71b4fbfcc66193423138b835b72eb981b35ba48feb54a17312e\
    3da1274d4a619c1f0e43b0f5ce35bdb7427b616577a2fa7f23d75cb2a5b6cee97063f6df46d4974c\
    6e0f6c66b32183a3";
const Q: &str = "f8b3a7eea0703bac55369485bf7304dad3e4b33ce3eef42b83e358da10b9d44dac9d9bac72c6d2be\
    395969eb81566677ef0ca3c4ae1d72abc36a5fa5160d38f3251041e345b5d25c7598ce5b830e2a3e\
    61060b99d401291e61b51e6d178253cca889332c277c5a149ae275e40a67e95e04d13a5e8d656a5f\
    137f0fdcee05d765";

fn keypair() -> (SigningKey<Sha256>, RsaPublicKey) {
    let p = BigUint::parse_bytes(P.as_bytes(), 16).unwrap();
    let q = BigUint::parse_bytes(Q.as_bytes(), 16).unwrap();
    let private = RsaPrivateKey::from_p_q(p, q, BigUint::from(65537u32)).expect("key");
    let signing_key = SigningKey::<Sha256>::new(private);
    let public = signing_key.verifying_key().as_ref().clone();
    (signing_key, public)
}

fn io(not_found: bool, message: &str) -> IoError {
    IoError { not_found, message: message.to_string() }
}

fn user() -> Event {
    Event::User { code: PAM_SUCCESS, name: Some(b"gray".to_vec()) }
}

fn some_key() -> PublicKey {
    PublicKey { modulus: vec![255; 256], exponent: vec![1, 0, 1] }
}

fn attempt() -> Attempt {
    Attempt {
        user_name: "gray".to_string(),
        public_key: some_key(),
        challenge: "pam_wsl_hello:gray:00".to_string(),
    }
}

fn error_of(session: Session) -> HelloAuthenticationError {
    match session {
        Session::Finished { outcome: Err(error) } => error,
        other => panic!("{:?}", other),
    }
}

/// Runs a whole authentication in which the authenticator signs with `signing_key` what `signed`
/// makes of the challenge.
fn authenticate(
    signing_key: &SigningKey<Sha256>,
    pem: &str,
    signed: fn(String) -> String,
) -> Result<i32, HelloAuthenticationError> {
    let mut session = Session::start();
    let mut written: Option<(String, String)> = None;
    loop {
        let event = match session.action() {
            Action::GetUser { prompt } => {
                assert_eq!(prompt, None);
                user()
            }
            Action::ReadPublicKey { path } => {
                assert_eq!(path, "/etc/pam_wsl_hello/public_keys/pam_wsl_hello_gray.pem");
                Event::PublicKeyRead { text: pem.to_string() }
            }
            Action::DrawNonce => Event::Nonce { drawn: draw_nonce() },
            Action::WriteChallenge { path, contents } => {
                assert_eq!(path, format!("/tmp/{}", contents));
                written = Some((path, contents));
                Event::ChallengeWritten { result: Ok(()) }
            }
            Action::ReadConfig { path } => {
                assert_eq!(path, "/etc/pam_wsl_hello/config");
                Event::ConfigRead { config: Ok(CONFIG.to_string()) }
            }
            Action::RunAuthenticator { program, command, credential_key_name, directory, input } => {
                assert_eq!(program, "/mnt/c/bridge.exe");
                assert_eq!(command, "authenticator");
                assert_eq!(credential_key_name, "pam_wsl_hello_gray");
                assert_eq!(directory, "/mnt/c");
                let (path, contents) = written.clone().unwrap();
                assert_eq!(input, path);
                let output = signing_key.sign(signed(contents).as_bytes()).to_vec();
                Event::Exited { exit_code: Some(0), output }
            }
            Action::RemoveChallenge { path } => {
                assert_eq!(path, written.clone().unwrap().0);
                Event::ChallengeRemoved { result: Ok(()) }
            }
            Action::Report => break,
        };
        session = authenticate_via_hello(session, event);
    }
    match session {
        Session::Finished { outcome } => outcome,
        other => panic!("{:?}", other),
    }
}

#[test]
fn a_genuine_gesture_is_granted_and_another_is_not() {
    let (signing_key, public) = keypair();
    let pem = public.to_public_key_pem(Default::default()).unwrap();
    assert!(matches!(authenticate(&signing_key, &pem, |text| text), Ok(PAM_SUCCESS)));
    assert!(matches!(
        authenticate(&signing_key, &pem, |text| text + "0"),
        Err(HelloAuthenticationError::SignAuthenticationFail)
    ));
}

#[test]
fn a_judged_attempt_needs_its_own_signature() {
    let (signing_key, public) = keypair();
    let key = PublicKey { modulus: public.n().to_bytes_be(), exponent: public.e().to_bytes_be() };
    let signature = signing_key.sign(b"pam_wsl_hello:gray:00").to_vec();
    let good = Attempt { public_key: key.clone(), ..attempt() };
    assert!(matches!(judge(good, Some(0), signature.clone()), Ok(PAM_SUCCESS)));
    let replayed = Attempt {
        public_key: key.clone(),
        challenge: "pam_wsl_hello:gray:01".to_string(),
        ..attempt()
    };
    assert!(judge(replayed, Some(0), signature.clone()).is_err());
    let failed = Attempt { public_key: key, ..attempt() };
    assert!(judge(failed, Some(1), signature).is_err());
}

#[test]
fn a_replayed_output_is_refused_in_a_new_session() {
    let (signing_key, public) = keypair();
    let pem = public.to_public_key_pem(Default::default()).unwrap();
    let smooth = |nonce: [u8; 32], output: Vec<u8>| {
        let events = vec![
            user(),
            Event::PublicKeyRead { text: pem.clone() },
            Event::Nonce { drawn: Ok(nonce) },
            Event::ChallengeWritten { result: Ok(()) },
            Event::ConfigRead { config: Ok(CONFIG.to_string()) },
            Event::ConfigRead { config: Ok(CONFIG.to_string()) },
            Event::Exited { exit_code: Some(0), output },
            Event::ChallengeRemoved { result: Ok(()) },
        ];
        events.into_iter().fold(Session::start(), authenticate_via_hello)
    };
    let output = signing_key.sign(challenge_text("gray", &[1; 32]).as_bytes()).to_vec();
    assert!(matches!(
        smooth([1; 32], output.clone()),
        Session::Finished { outcome: Ok(PAM_SUCCESS) }
    ));
    assert!(matches!(
        error_of(smooth([2; 32], output)),
        HelloAuthenticationError::SignAuthenticationFail
    ));
}

#[test]
fn each_setting_comes_from_its_own_reading() {
    let (signing_key, public) = keypair();
    let pem = public.to_public_key_pem(Default::default()).unwrap();
    let end = |path: &str, mount: &str| {
        let events = vec![
            user(),
            Event::PublicKeyRead { text: pem.clone() },
            Event::Nonce { drawn: Ok([1; 32]) },
            Event::ChallengeWritten { result: Ok(()) },
            Event::ConfigRead { config: Ok(path.to_string()) },
            Event::ConfigRead { config: Ok(mount.to_string()) },
            Event::Exited {
                exit_code: Some(0),
                output: signing_key.sign(challenge_text("gray", &[1; 32]).as_bytes()).to_vec(),
            },
            Event::ChallengeRemoved { result: Ok(()) },
        ];
        events.into_iter().fold(Session::start(), authenticate_via_hello)
    };
    let path = "authenticator_path = \"/mnt/c/bridge.exe\"\n";
    let mount = "win_mnt = \"/mnt/c\"\n";
    assert!(matches!(end(path, mount), Session::Finished { outcome: Ok(PAM_SUCCESS) }));
    assert!(matches!(end(path, path), Session::Finished { outcome: Err(_) }));
    assert!(matches!(end(mount, mount), Session::Finished { outcome: Err(_) }));
}

#[test]
fn a_prompt_ends_in_one_zero_byte() {
    assert_eq!(c_prompt("login: "), b"login: \0".to_vec());
    assert_eq!(c_prompt(""), vec![0]);
    assert_eq!(c_prompt("\u{e9}"), vec![0xc3, 0xa9, 0]);
}

#[test]
fn the_user_is_what_pam_reports() {
    assert_eq!(get_user(PAM_SUCCESS, Some(b"gray".to_vec())), Ok("gray".to_string()));
    assert_eq!(
        get_user(PAM_SUCCESS, Some("gr\u{e9}y".as_bytes().to_vec())),
        Ok("gr\u{e9}y".to_string())
    );
    assert_eq!(get_user(PAM_SUCCESS, Some(b"gr\xffy".to_vec())), Ok("gr\u{fffd}y".to_string()));
    assert_eq!(get_user(19, Some(b"gray".to_vec())), Err(19));
    assert_eq!(get_user(19, None), Err(19));
    assert_eq!(get_user(PAM_SUCCESS, None), Err(PAM_SUCCESS));
}

#[test]
fn a_missing_user_ends_the_session() {
    let session =
        authenticate_via_hello(Session::start(), Event::User { code: 19, name: None });
    assert!(matches!(error_of(session), HelloAuthenticationError::GetUserError(19)));
    assert!(matches!(with_user(Ok("gray".to_string())), Session::ReadPublicKey { user_name } if user_name == "gray"));
    assert!(matches!(error_of(with_user(Err(-3))), HelloAuthenticationError::GetUserError(-3)));
}

#[test]
fn key_file_failures_end_the_session() {
    let reading = || authenticate_via_hello(Session::start(), user());
    let opened = Event::PublicKeyOpenFailed { error: io(true, "gone") };
    assert!(matches!(
        error_of(authenticate_via_hello(reading(), opened)),
        HelloAuthenticationError::PublicKeyFileError(IoError { not_found: true, .. })
    ));
    let read = Event::PublicKeyReadFailed { error: io(false, "torn") };
    assert!(matches!(
        error_of(authenticate_via_hello(reading(), read)),
        HelloAuthenticationError::Io(IoError { not_found: false, .. })
    ));
    let text = Event::PublicKeyRead { text: "nonsense".to_string() };
    assert!(matches!(
        error_of(authenticate_via_hello(reading(), text)),
        HelloAuthenticationError::InvalidPublicKey(_)
    ));
    let invalid = HelloAuthenticationError::InvalidPublicKey("bad".to_string());
    assert!(matches!(
        error_of(with_public_key("gray".to_string(), Err(invalid))),
        HelloAuthenticationError::InvalidPublicKey(text) if text == "bad"
    ));
    assert!(matches!(
        with_public_key("gray".to_string(), Ok(some_key())),
        Session::DrawNonce { user_name, .. } if user_name == "gray"
    ));
}

#[test]
fn the_nonce_makes_the_challenge() {
    let drawing = || with_public_key("gray".to_string(), Ok(some_key()));
    let session = authenticate_via_hello(drawing(), Event::Nonce { drawn: Ok([0xa5; 32]) });
    match session {
        Session::WriteChallenge { attempt } => {
            assert_eq!(attempt.challenge, format!("pam_wsl_hello:gray:{}", "a5".repeat(32)));
            assert_eq!(attempt.user_name, "gray");
        }
        other => panic!("{:?}", other),
    }
    let failed = Event::Nonce { drawn: Err(HelloAuthenticationError::NonceError) };
    assert!(matches!(
        error_of(authenticate_via_hello(drawing(), failed)),
        HelloAuthenticationError::NonceError
    ));
}

#[test]
fn challenge_file_failures_end_the_session() {
    let writing = Session::WriteChallenge { attempt: attempt() };
    let failed = Event::ChallengeWritten { result: Err(io(false, "full")) };
    assert!(matches!(
        error_of(authenticate_via_hello(writing, failed)),
        HelloAuthenticationError::Io(IoError { message, .. }) if message == "full"
    ));
    let removing =
        Session::RemoveChallenge { attempt: attempt(), exit_code: Some(0), output: Vec::new() };
    let failed = Event::ChallengeRemoved { result: Err(io(true, "gone")) };
    assert!(matches!(
        error_of(authenticate_via_hello(removing, failed)),
        HelloAuthenticationError::Io(IoError { message, .. }) if message == "gone"
    ));
}

#[test]
fn config_failures_end_the_session() {
    let finding = || Session::FindAuthenticator { attempt: attempt() };
    let failed = Event::ConfigRead { config: Err(io(true, "gone")) };
    assert!(matches!(
        error_of(authenticate_via_hello(finding(), failed)),
        HelloAuthenticationError::ConfigError(ConfigError::Io(_))
    ));
    let unset = Event::ConfigRead { config: Ok("win_mnt = \"a\"".to_string()) };
    assert!(matches!(
        error_of(authenticate_via_hello(finding(), unset)),
        HelloAuthenticationError::ConfigError(ConfigError::MissingField(field)) if field == "authenticator_path"
    ));
    let mount = Session::FindMount {
        attempt: attempt(),
        authenticator_path: "/mnt/c/bridge.exe".to_string(),
    };
    let invalid = Event::ConfigRead { config: Ok("win_mnt = a".to_string()) };
    assert!(matches!(
        error_of(authenticate_via_hello(mount, invalid)),
        HelloAuthenticationError::ConfigError(ConfigError::InvalidValueType(field)) if field == "win_mnt"
    ));
}

#[test]
fn authenticator_failures_end_the_session() {
    let running = || Session::RunAuthenticator {
        attempt: attempt(),
        authenticator_path: "/mnt/c/bridge.exe".to_string(),
        win_mnt: "/mnt/c".to_string(),
    };
    assert!(matches!(
        error_of(authenticate_via_hello(
            running(),
            Event::LaunchFailed { error: io(true, "no program") }
        )),
        HelloAuthenticationError::AuthenticatorLaunchError(_)
    ));
    assert!(matches!(
        error_of(authenticate_via_hello(
            running(),
            Event::ConnectionFailed { error: io(false, "broken pipe") }
        )),
        HelloAuthenticationError::AuthenticatorConnectionError(_)
    ));
    // The challenge is removed whatever the authenticator came to.
    let session =
        authenticate_via_hello(running(), Event::Exited { exit_code: None, output: Vec::new() });
    assert!(matches!(session.action(), Action::RemoveChallenge { .. }));
    let session = authenticate_via_hello(session, Event::ChallengeRemoved { result: Ok(()) });
    assert!(matches!(error_of(session), HelloAuthenticationError::AuthenticatorSignalled));
}

#[test]
fn exit_codes_decide_what_the_output_is() {
    assert_eq!(authenticator_result(Some(0), vec![1, 2]).unwrap(), vec![1, 2]);
    assert_eq!(
        authenticator_result(Some(1), b"cancelled".to_vec()).unwrap_err().message(),
        "authentication failed; cancelled"
    );
    assert_eq!(
        authenticator_result(Some(-1), vec![0xff]).unwrap_err().message(),
        "authentication failed; invalid utf8 output"
    );
    assert!(matches!(
        authenticator_result(None, vec![1, 2]),
        Err(HelloAuthenticationError::AuthenticatorSignalled)
    ));
}

#[test]
fn only_a_good_signature_is_granted() {
    assert!(matches!(grant(Ok(())), Ok(PAM_SUCCESS)));
    assert!(grant(Err(HelloAuthenticationError::SignAuthenticationFail)).is_err());
    assert!(grant(Err(HelloAuthenticationError::MalformedSignature)).is_err());
}

#[test]
fn unawaited_events_change_nothing() {
    let session = authenticate_via_hello(
        Session::start(),
        Event::Exited { exit_code: Some(0), output: Vec::new() },
    );
    assert!(matches!(session, Session::FindUser));
    let finished = Session::Finished { outcome: Ok(PAM_SUCCESS) };
    assert!(matches!(
        authenticate_via_hello(finished, Event::User { code: 19, name: None }),
        Session::Finished { outcome: Ok(PAM_SUCCESS) }
    ));
}

#[test]
fn names_and_paths_are_built_from_the_user() {
    assert_eq!(credential_key_name("gray"), "pam_wsl_hello_gray");
    assert_eq!(
        public_key_path("gray"),
        "/etc/pam_wsl_hello/public_keys/pam_wsl_hello_gray.pem"
    );
    let mut nonce = [0u8; 32];
    nonce[0] = 0x0f;
    nonce[31] = 0xe9;
    let challenge = challenge_text("gray", &nonce);
    assert_eq!(challenge, format!("pam_wsl_hello:gray:0f{}e9", "00".repeat(30)));
    assert_eq!(challenge_path(&challenge), format!("/tmp/{}", challenge));
}

#[test]
fn challenges_differ_with_the_nonce_and_the_user() {
    let a = [7u8; 32];
    let mut b = a;
    b[17] = 8;
    assert_ne!(challenge_text("gray", &a), challenge_text("gray", &b));
    assert_ne!(challenge_text("gray", &a), challenge_text("gray:", &a));
    assert_ne!(public_key_path("gray"), public_key_path("grey"));
}

#[test]
fn drawn_nonces_are_random() {
    let a = draw_nonce().unwrap();
    let b = draw_nonce().unwrap();
    assert_ne!(a, [0u8; 32]);
    assert_ne!(a, b);
}

#[test]
fn a_nonce_needs_randomness() {
    assert_eq!(nonce_result(Ok(()), [3; 32]).unwrap(), [3; 32]);
    assert!(matches!(
        nonce_result(Err(getrandom::Error::UNSUPPORTED), [3; 32]),
        Err(HelloAuthenticationError::NonceError)
    ));
}

fn all_errors() -> Vec<(HelloAuthenticationError, i32, &'static str)> {
    vec![
        (
            HelloAuthenticationError::GetUserError(-19),
            PAM_AUTH_ERR,
            "cannot determine the PAM user; pam_get_user returned -19",
        ),
        (
            HelloAuthenticationError::GetUserError(i32::MIN),
            PAM_AUTH_ERR,
            "cannot determine the PAM user; pam_get_user returned -2147483648",
        ),
        (
            HelloAuthenticationError::GetUserError(1070),
            PAM_AUTH_ERR,
            "cannot determine the PAM user; pam_get_user returned 1070",
        ),
        (
            HelloAuthenticationError::from(ConfigError::MissingField("win_mnt".to_string())),
            PAM_AUTH_ERR,
            "config error; field: 'win_mnt' is not found",
        ),
        (
            HelloAuthenticationError::PublicKeyFileError(io(true, "No such file")),
            PAM_USER_UNKNOWN,
            "cannot find the credential public key for this user",
        ),
        (
            HelloAuthenticationError::PublicKeyFileError(io(false, "Permission denied")),
            PAM_AUTH_ERR,
            "Permission denied",
        ),
        (HelloAuthenticationError::from(io(true, "No such file")), PAM_AUTH_ERR, "No such file"),
        (
            HelloAuthenticationError::InvalidPublicKey("PEM error".to_string()),
            PAM_AUTH_ERR,
            "the pem file of the public key is invalid; PEM error",
        ),
        (
            HelloAuthenticationError::MalformedSignature,
            PAM_AUTH_ERR,
            "Windows Hello returned a malformed signature",
        ),
        (
            HelloAuthenticationError::NonceError,
            PAM_AUTH_ERR,
            "cannot obtain randomness from the OS for the challenge",
        ),
        (
            HelloAuthenticationError::AuthenticatorLaunchError(io(true, "No such file")),
            PAM_AUTHINFO_UNAVAIL,
            "cannot launch Windows Hello; No such file",
        ),
        (
            HelloAuthenticationError::AuthenticatorConnectionError(io(false, "Broken pipe")),
            PAM_AUTHINFO_UNAVAIL,
            "cannot communicate with Windows Hello; Broken pipe",
        ),
        (
            HelloAuthenticationError::AuthenticatorSignalled,
            PAM_AUTHINFO_UNAVAIL,
            "internal error; AuthenticatorSignalled",
        ),
        (
            HelloAuthenticationError::HelloAuthenticationFail("cancelled".to_string()),
            PAM_AUTH_ERR,
            "authentication failed; cancelled",
        ),
        (
            HelloAuthenticationError::SignAuthenticationFail,
            PAM_AUTH_ERR,
            "the result of signature verification of the credential is failure",
        ),
    ]
}

#[test]
fn every_error_has_its_code_and_its_message() {
    for (error, code, message) in all_errors() {
        assert_eq!(pam_code(&error), code, "{:?}", error);
        assert_eq!(error.message(), message);
    }
}

#[test]
fn pam_is_told_of_an_error_aloud_or_silently() {
    for (error, code, message) in all_errors() {
        let reply = pam_sm_authenticate(1, Err(error));
        assert_eq!(reply.code, code);
        assert_eq!(reply.notice, Some(format!("WSL Hello error: {}", message)));
    }
    for (error, code, _) in all_errors() {
        let reply = pam_sm_authenticate(PAM_SILENT | 1, Err(error));
        assert_eq!((reply.code, reply.notice), (code, None));
    }
}

#[test]
fn pam_is_told_of_a_success() {
    let reply = pam_sm_authenticate(0, Ok(PAM_SUCCESS));
    assert_eq!((reply.code, reply.notice), (0, None));
}
