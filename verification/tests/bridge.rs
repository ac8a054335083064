use wsl_hello::bridge::{
    create_public_key, Creation, CreationAction, CreationEvent, FailureReason,
};
use wsl_hello::pem::normalize_public_key_pem;

fn not_found() -> FailureReason {
    FailureReason::CredentialNotFound("pam_wsl_hello_gray".to_string())
}

fn other() -> FailureReason {
    FailureReason::Other("the user cancelled".to_string())
}

fn start() -> Creation {
    Creation::start("pam_wsl_hello_gray".to_string())
}

fn other_failure(creation: &Creation) -> bool {
    matches!(creation, Creation::Finished { outcome: Err(FailureReason::Other(text)) } if text == "the user cancelled")
}

#[test]
fn an_existing_credential_is_exported() {
    let creation = create_public_key(start(), CreationEvent::Opened { status: Ok(()) });
    assert!(matches!(creation, Creation::Export));
    let creation =
        create_public_key(creation, CreationEvent::Exported { base64: "QUJD".repeat(20) });
    match creation {
        Creation::Finished { outcome: Ok(pem) } => {
            assert_eq!(
                pem,
                format!(
                    "-----BEGIN PUBLIC KEY-----\n{}\n{}\n-----END PUBLIC KEY-----\n",
                    "QUJD".repeat(16),
                    "QUJD".repeat(4)
                )
            );
            assert_eq!(normalize_public_key_pem(&pem), pem);
        }
        other => panic!("{:?}", other),
    }
}

#[test]
fn an_absent_credential_is_created() {
    let creation = create_public_key(start(), CreationEvent::Opened { status: Err(not_found()) });
    assert!(matches!(&creation, Creation::Create { key_name } if key_name == "pam_wsl_hello_gray"));
    let creation = create_public_key(creation, CreationEvent::Created { status: Ok(()) });
    assert!(matches!(creation, Creation::Export));
}

#[test]
fn other_statuses_end_the_creation() {
    let creation = create_public_key(start(), CreationEvent::Opened { status: Err(other()) });
    assert!(other_failure(&creation));
    let creation = create_public_key(start(), CreationEvent::Opened { status: Err(not_found()) });
    let creation = create_public_key(creation, CreationEvent::Created { status: Err(not_found()) });
    assert!(matches!(
        creation,
        Creation::Finished { outcome: Err(FailureReason::CredentialNotFound(_)) }
    ));
}

#[test]
fn a_failed_call_ends_the_creation() {
    let creation = create_public_key(start(), CreationEvent::Failed { reason: not_found() });
    assert!(matches!(
        creation,
        Creation::Finished { outcome: Err(FailureReason::CredentialNotFound(_)) }
    ));
    let creation = create_public_key(start(), CreationEvent::Opened { status: Ok(()) });
    let creation = create_public_key(creation, CreationEvent::Failed { reason: other() });
    assert!(other_failure(&creation));
    let creation = create_public_key(creation, CreationEvent::Exported { base64: String::new() });
    assert!(other_failure(&creation));
}

#[test]
fn other_events_change_nothing() {
    let creation = create_public_key(start(), CreationEvent::Created { status: Ok(()) });
    assert!(matches!(creation, Creation::Open { .. }));
    let creation = create_public_key(creation, CreationEvent::Exported { base64: String::new() });
    assert!(matches!(creation, Creation::Open { .. }));
}

#[test]
fn a_creation_says_what_it_waits_for() {
    assert!(matches!(
        start().action(),
        CreationAction::OpenCredential { key_name } if key_name == "pam_wsl_hello_gray"
    ));
    let creation = create_public_key(start(), CreationEvent::Opened { status: Err(not_found()) });
    assert!(matches!(
        creation.action(),
        CreationAction::CreateCredential { key_name, replace_existing: true }
            if key_name == "pam_wsl_hello_gray"
    ));
    let creation = create_public_key(creation, CreationEvent::Created { status: Ok(()) });
    assert!(matches!(creation.action(), CreationAction::ExportPublicKey));
    let creation = create_public_key(creation, CreationEvent::Exported { base64: String::new() });
    assert!(matches!(creation.action(), CreationAction::Report));
}
