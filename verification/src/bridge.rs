//! The creation of a user's credential on the Windows side, step by step.
//!
//! An existing credential is used as it is. Only where there is none is one created; it is then
//! safe to ask for a replacement, because there is nothing to replace.

use vstd::prelude::*;

use crate::error::viewed;
use crate::pem::{base64_text, law_wrapped_document_is_unchanged, pem_body, pem_document};
use crate::pem::{law_base64_is_stable, law_document_keeps_body, wrap_public_key_pem};

verus! {

/// Why a credential could not be opened, created or exported.
#[derive(Debug)]
pub enum FailureReason {
    /// There is no credential of this name.
    CredentialNotFound(String),
    /// Anything else; with its description.
    Other(String),
}

/// The model of a [`FailureReason`].
pub enum FailureReasonView {
    CredentialNotFound(Seq<char>),
    Other(Seq<char>),
}

impl View for FailureReason {
    type V = FailureReasonView;

    open spec fn view(&self) -> FailureReasonView {
        match self {
            FailureReason::CredentialNotFound(name) => FailureReasonView::CredentialNotFound(name@),
            FailureReason::Other(text) => FailureReasonView::Other(text@),
        }
    }
}

/// How far the creation of a public key has come.
#[derive(Debug)]
pub enum Creation {
    /// The credential is to be opened.
    Open { key_name: String },
    /// There is none: one is to be created.
    Create { key_name: String },
    /// The public key of the credential is to be exported, as base64 text.
    Export,
    /// The creation is over, with the PEM document of the public key or an error.
    Finished { outcome: Result<String, FailureReason> },
}

/// The model of a [`Creation`].
pub enum CreationView {
    Open { key_name: Seq<char> },
    Create { key_name: Seq<char> },
    Export,
    Finished { outcome: Result<Seq<char>, FailureReasonView> },
}

impl View for Creation {
    type V = CreationView;

    open spec fn view(&self) -> CreationView {
        match self {
            Creation::Open { key_name } => CreationView::Open { key_name: key_name@ },
            Creation::Create { key_name } => CreationView::Create { key_name: key_name@ },
            Creation::Export => CreationView::Export,
            Creation::Finished { outcome } => CreationView::Finished { outcome: viewed(*outcome) },
        }
    }
}

/// What came of the work that a creation waits for.
#[derive(Debug)]
pub enum CreationEvent {
    /// A call into Windows failed before it could report a status.
    Failed { reason: FailureReason },
    /// The status of the opened credential.
    Opened { status: Result<(), FailureReason> },
    /// The status of the created credential.
    Created { status: Result<(), FailureReason> },
    /// The public key as base64 text.
    Exported { base64: String },
}

/// The model of a [`CreationEvent`].
pub enum CreationEventView {
    Failed { reason: FailureReasonView },
    Opened { status: Result<(), FailureReasonView> },
    Created { status: Result<(), FailureReasonView> },
    Exported { base64: Seq<char> },
}

impl View for CreationEvent {
    type V = CreationEventView;

    open spec fn view(&self) -> CreationEventView {
        match self {
            CreationEvent::Failed { reason } => CreationEventView::Failed { reason: reason@ },
            CreationEvent::Opened { status } => CreationEventView::Opened {
                status: viewed(*status),
            },
            CreationEvent::Created { status } => CreationEventView::Created {
                status: viewed(*status),
            },
            CreationEvent::Exported { base64 } => CreationEventView::Exported { base64: base64@ },
        }
    }
}

/// The creation that follows `creation` when `event` comes in. A creation takes no notice of an
/// event that it does not wait for.
pub open spec fn creation_step(
    creation: CreationView,
    event: CreationEventView,
) -> CreationView {
    match (creation, event) {
        (CreationView::Finished { outcome }, _) => creation,
        (_, CreationEventView::Failed { reason }) => CreationView::Finished {
            outcome: Err(reason),
        },
        (CreationView::Open { key_name }, CreationEventView::Opened { status }) => match status {
            Ok(_) => CreationView::Export,
            Err(reason) => if reason is CredentialNotFound {
                CreationView::Create { key_name }
            } else {
                CreationView::Finished { outcome: Err(reason) }
            },
        },
        (CreationView::Create { key_name }, CreationEventView::Created { status }) => match status {
            Ok(_) => CreationView::Export,
            Err(reason) => CreationView::Finished { outcome: Err(reason) },
        },
        (CreationView::Export, CreationEventView::Exported { base64 }) => CreationView::Finished {
            outcome: Ok(pem_document(base64)),
        },
        _ => creation,
    }
}

/// Takes the creation of a public key one step further.
pub fn create_public_key(creation: Creation, event: CreationEvent) -> (next: Creation)
    ensures
        next@ == creation_step(creation@, event@),
{
    match (creation, event) {
        (Creation::Finished { outcome }, _) => Creation::Finished { outcome },
        (_, CreationEvent::Failed { reason }) => Creation::Finished { outcome: Err(reason) },
        (Creation::Open { key_name }, CreationEvent::Opened { status }) => match status {
            Ok(()) => Creation::Export,
            Err(FailureReason::CredentialNotFound(_)) => Creation::Create { key_name },
            Err(reason) => Creation::Finished { outcome: Err(reason) },
        },
        (Creation::Create { key_name }, CreationEvent::Created { status }) => match status {
            Ok(()) => Creation::Export,
            Err(reason) => Creation::Finished { outcome: Err(reason) },
        },
        (Creation::Export, CreationEvent::Exported { base64 }) => Creation::Finished {
            outcome: Ok(wrap_public_key_pem(base64.as_str())),
        },
        (creation, _) => creation,
    }
}

/// What a creation waits for.
#[derive(Debug)]
pub enum CreationAction {
    /// Open the credential.
    OpenCredential { key_name: String },
    /// Create the credential, with or without leave to replace one of the same name.
    CreateCredential { key_name: String, replace_existing: bool },
    /// Export the public key of the credential at hand, as base64 text.
    ExportPublicKey,
    /// Nothing: the creation is over.
    Report,
}

/// The model of a [`CreationAction`].
pub enum CreationActionView {
    OpenCredential { key_name: Seq<char> },
    CreateCredential { key_name: Seq<char>, replace_existing: bool },
    ExportPublicKey,
    Report,
}

impl View for CreationAction {
    type V = CreationActionView;

    open spec fn view(&self) -> CreationActionView {
        match self {
            CreationAction::OpenCredential { key_name } => CreationActionView::OpenCredential {
                key_name: key_name@,
            },
            CreationAction::CreateCredential { key_name, replace_existing } =>
                CreationActionView::CreateCredential {
                key_name: key_name@,
                replace_existing: *replace_existing,
            },
            CreationAction::ExportPublicKey => CreationActionView::ExportPublicKey,
            CreationAction::Report => CreationActionView::Report,
        }
    }
}

/// What a creation waits for. A credential is created with leave to replace, because some versions
/// of Windows answer a creation without that leave with an undocumented error.
pub open spec fn creation_awaited(creation: CreationView) -> CreationActionView {
    match creation {
        CreationView::Open { key_name } => CreationActionView::OpenCredential { key_name },
        CreationView::Create { key_name } => CreationActionView::CreateCredential {
            key_name,
            replace_existing: true,
        },
        CreationView::Export => CreationActionView::ExportPublicKey,
        CreationView::Finished { outcome } => CreationActionView::Report,
    }
}

impl Creation {
    /// Says what the creation waits for.
    pub fn action(&self) -> (action: CreationAction)
        ensures
            action@ == creation_awaited(self@),
            self matches Creation::Create { key_name } ==> (action matches
                CreationAction::CreateCredential { key_name: created, replace_existing }
                && created@ == key_name@ && replace_existing),
    {
        match self {
            Creation::Open { key_name } => CreationAction::OpenCredential {
                key_name: key_name.clone(),
            },
            Creation::Create { key_name } => CreationAction::CreateCredential {
                key_name: key_name.clone(),
                replace_existing: true,
            },
            Creation::Export => CreationAction::ExportPublicKey,
            Creation::Finished { .. } => CreationAction::Report,
        }
    }

    /// The beginning of the creation of a public key.
    pub fn start(key_name: String) -> (creation: Creation)
        ensures
            creation@ == (CreationView::Open { key_name: key_name@ }),
    {
        Creation::Open { key_name }
    }
}

// ---- Laws ----

/// The creation after a sequence of events.
pub open spec fn creation_run(key_name: Seq<char>, events: Seq<CreationEventView>) -> CreationView
    decreases events.len(),
{
    if events.len() == 0 {
        CreationView::Open { key_name }
    } else {
        creation_step(creation_run(key_name, events.drop_last()), events.last())
    }
}

/// Whether an event reports that there is no credential.
pub open spec fn reports_absence(event: CreationEventView) -> bool {
    event matches CreationEventView::Opened { status } && status is Err && status->Err_0
        is CredentialNotFound
}

/// A credential is created, replacing what is there, only after the credential was found to be
/// absent, and under the name that was looked for.
pub proof fn law_creates_only_what_is_absent(
    key_name: Seq<char>,
    events: Seq<CreationEventView>,
)
    requires
        creation_run(key_name, events) is Create,
    ensures
        creation_run(key_name, events) == (CreationView::Create { key_name }),
        exists|i: int| 0 <= i < events.len() && reports_absence(#[trigger] events[i]),
    decreases events.len(),
{
    lemma_open_keeps_name(key_name, events.drop_last());
    let before = creation_run(key_name, events.drop_last());
    if before is Create {
        law_creates_only_what_is_absent(key_name, events.drop_last());
        let i = choose|i: int|
            0 <= i < events.drop_last().len() && reports_absence(
                #[trigger] events.drop_last()[i],
            );
        assert(events[i] == events.drop_last()[i]);
    } else {
        assert(reports_absence(events[events.len() - 1]));
    }
}

proof fn lemma_open_keeps_name(key_name: Seq<char>, events: Seq<CreationEventView>)
    ensures
        creation_run(key_name, events) is Open ==> creation_run(key_name, events) == (
        CreationView::Open { key_name }),
    decreases events.len(),
{
    if events.len() > 0 {
        lemma_open_keeps_name(key_name, events.drop_last());
    }
}

/// Whether a credential is created follows from the status of the opened one: it is created where
/// there is none and only there, under the same name and with leave to replace.
pub proof fn law_creates_exactly_what_is_absent(
    key_name: Seq<char>,
    status: Result<(), FailureReasonView>,
)
    ensures
        ({
            let opened = CreationEventView::Opened { status };
            let next = creation_awaited(creation_step(CreationView::Open { key_name }, opened));
            &&& next is CreateCredential <==> reports_absence(opened)
            &&& reports_absence(opened) ==> next == (CreationActionView::CreateCredential {
                key_name,
                replace_existing: true,
            })
        }),
{
}

/// How many steps a creation has behind it.
pub open spec fn creation_stage(creation: CreationView) -> nat {
    match creation {
        CreationView::Open { .. } => 0,
        CreationView::Create { .. } => 1,
        CreationView::Export => 2,
        CreationView::Finished { .. } => 3,
    }
}

/// An event takes a creation forward or leaves it as it is: what lies behind it is not waited for
/// again.
pub proof fn law_creation_goes_forward(creation: CreationView, event: CreationEventView)
    ensures
        creation_step(creation, event) == creation || creation_stage(creation) < creation_stage(
            creation_step(creation, event),
        ),
{
}

/// Whether an event brings the base64 text whose document is `pem`.
pub open spec fn exports_document(event: CreationEventView, pem: Seq<char>) -> bool {
    event matches CreationEventView::Exported { base64 } && pem == pem_document(base64)
}

/// A creation that ends well ends with the document of the public key that was exported.
pub proof fn law_created_document_is_the_exported_key(
    key_name: Seq<char>,
    events: Seq<CreationEventView>,
    pem: Seq<char>,
)
    requires
        creation_run(key_name, events) == (CreationView::Finished { outcome: Ok(pem) }),
    ensures
        exists|i: int| 0 <= i < events.len() && exports_document(#[trigger] events[i], pem),
    decreases events.len(),
{
    if creation_run(key_name, events.drop_last()) is Finished {
        law_created_document_is_the_exported_key(key_name, events.drop_last(), pem);
        let i = choose|i: int|
            0 <= i < events.drop_last().len() && exports_document(
                #[trigger] events.drop_last()[i],
                pem,
            );
        assert(events[i] == events.drop_last()[i]);
    } else {
        assert(exports_document(events[events.len() - 1], pem));
    }
}

/// What a creation ends with for a base64 text is already in normal form: normalizing it changes
/// nothing.
pub proof fn law_created_key_file_is_in_normal_form(base64: Seq<char>)
    requires
        base64_text(base64),
    ensures
        creation_step(CreationView::Export, CreationEventView::Exported { base64 }) matches
            CreationView::Finished { outcome } && outcome matches Ok(pem) && pem_document(
            pem_body(pem),
        ) == pem,
{
    law_wrapped_document_is_unchanged(base64);
}

/// An existing credential is used as it is: once it has been opened, none is created any more.
pub proof fn law_existing_credential_is_kept(creation: CreationView, event: CreationEventView)
    requires
        creation is Export,
    ensures
        creation_step(creation, event) is Export || creation_step(creation, event) is Finished,
{
}

/// A creation that is over stays as it ended.
pub proof fn law_finished_creation_is_final(creation: CreationView, event: CreationEventView)
    requires
        creation is Finished,
    ensures
        creation_step(creation, event) == creation,
{
}

/// A failed call ends a creation that is not over, with the reason of the failure.
pub proof fn law_failed_call_ends_creation(creation: CreationView, reason: FailureReasonView)
    requires
        !(creation is Finished),
    ensures
        creation_step(creation, CreationEventView::Failed { reason }) == (CreationView::Finished {
            outcome: Err(reason),
        }),
{
}

/// A credential that was opened or created is exported.
pub proof fn law_good_status_leads_to_export(key_name: Seq<char>)
    ensures
        creation_step(
            CreationView::Open { key_name },
            CreationEventView::Opened { status: Ok(()) },
        ) == CreationView::Export,
        creation_step(
            CreationView::Create { key_name },
            CreationEventView::Created { status: Ok(()) },
        ) == CreationView::Export,
{
}

/// A failed status ends a creation with its own reason, whatever it is; but for a credential that
/// is not there to be opened, which is created instead, under the same name.
pub proof fn law_failed_status_is_reported(key_name: Seq<char>, reason: FailureReasonView)
    ensures
        creation_step(
            CreationView::Create { key_name },
            CreationEventView::Created { status: Err(reason) },
        ) == (CreationView::Finished { outcome: Err(reason) }),
        !(reason is CredentialNotFound) ==> creation_step(
            CreationView::Open { key_name },
            CreationEventView::Opened { status: Err(reason) },
        ) == (CreationView::Finished { outcome: Err(reason) }),
        reason is CredentialNotFound ==> creation_step(
            CreationView::Open { key_name },
            CreationEventView::Opened { status: Err(reason) },
        ) == (CreationView::Create { key_name }),
{
}

/// The exported text is the body of the document that a creation ends with.
pub proof fn law_exported_text_is_the_body(base64: Seq<char>)
    ensures
        creation_step(CreationView::Export, CreationEventView::Exported { base64 }) == (
        CreationView::Finished { outcome: Ok(pem_document(base64)) }),
        base64_text(base64) ==> pem_body(pem_document(base64)) == base64,
{
    if base64_text(base64) {
        law_base64_is_stable(base64);
        law_document_keeps_body(base64);
    }
}

/// Whether an event reports that a credential is there: opened or created, without an error.
pub open spec fn reports_credential(event: CreationEventView) -> bool {
    ||| event matches CreationEventView::Opened { status } && status is Ok
    ||| event matches CreationEventView::Created { status } && status is Ok
}

/// A key is exported only after a credential was opened or created without an error.
pub proof fn law_exports_only_what_is_there(key_name: Seq<char>, events: Seq<CreationEventView>)
    requires
        creation_awaited(creation_run(key_name, events)) is ExportPublicKey,
    ensures
        exists|i: int| 0 <= i < events.len() && reports_credential(#[trigger] events[i]),
    decreases events.len(),
{
    let before = creation_run(key_name, events.drop_last());
    if before is Export {
        law_exports_only_what_is_there(key_name, events.drop_last());
        let i = choose|i: int|
            0 <= i < events.drop_last().len() && reports_credential(
                #[trigger] events.drop_last()[i],
            );
        assert(events[i] == events.drop_last()[i]);
    } else {
        assert(reports_credential(events[events.len() - 1]));
    }
}

/// Whether an event brings the reason of a failure.
pub open spec fn brings_reason(event: CreationEventView, reason: FailureReasonView) -> bool {
    ||| event == (CreationEventView::Failed { reason })
    ||| event == (CreationEventView::Opened { status: Err(reason) })
    ||| event == (CreationEventView::Created { status: Err(reason) })
}

/// A creation fails only for a reason that was reported to it.
pub proof fn law_fails_only_for_a_reported_reason(
    key_name: Seq<char>,
    events: Seq<CreationEventView>,
    reason: FailureReasonView,
)
    requires
        creation_run(key_name, events) == (CreationView::Finished { outcome: Err(reason) }),
    ensures
        exists|i: int| 0 <= i < events.len() && brings_reason(#[trigger] events[i], reason),
    decreases events.len(),
{
    if creation_run(key_name, events.drop_last()) is Finished {
        law_fails_only_for_a_reported_reason(key_name, events.drop_last(), reason);
        let i = choose|i: int|
            0 <= i < events.drop_last().len() && brings_reason(
                #[trigger] events.drop_last()[i],
                reason,
            );
        assert(events[i] == events.drop_last()[i]);
    } else {
        assert(brings_reason(events[events.len() - 1], reason));
    }
}

/// Whether a creation waits for an event.
pub open spec fn creation_awaits(creation: CreationView, event: CreationEventView) -> bool {
    match creation {
        CreationView::Open { .. } => event is Opened || event is Failed,
        CreationView::Create { .. } => event is Created || event is Failed,
        CreationView::Export => event is Exported || event is Failed,
        CreationView::Finished { .. } => false,
    }
}

/// An event that a creation does not wait for changes nothing, and one that it waits for takes it
/// further.
pub proof fn law_creation_takes_awaited_events_only(
    creation: CreationView,
    event: CreationEventView,
)
    ensures
        !creation_awaits(creation, event) ==> creation_step(creation, event) == creation,
        creation_awaits(creation, event) ==> creation_stage(creation) < creation_stage(
            creation_step(creation, event),
        ),
{
}

/// What each creation waits for: the credential is opened and created under the name at hand.
pub proof fn law_creation_actions(
    key_name: Seq<char>,
    outcome: Result<Seq<char>, FailureReasonView>,
)
    ensures
        creation_awaited(CreationView::Open { key_name }) == (CreationActionView::OpenCredential {
            key_name,
        }),
        creation_awaited(CreationView::Create { key_name }) == (
        CreationActionView::CreateCredential { key_name, replace_existing: true }),
        creation_awaited(CreationView::Export) == CreationActionView::ExportPublicKey,
        creation_awaited(CreationView::Finished { outcome }) == CreationActionView::Report,
{
}

/// Creating and exporting, from beginning to end: where the credential is there, its exported text
/// becomes the document at once; where it is not, after it was created.
pub proof fn law_creation_from_beginning_to_end(
    key_name: Seq<char>,
    missing: Seq<char>,
    base64: Seq<char>,
)
    ensures
        creation_run(
            key_name,
            seq![
                CreationEventView::Opened { status: Ok(()) },
                CreationEventView::Exported { base64 },
            ],
        ) == (CreationView::Finished { outcome: Ok(pem_document(base64)) }),
        creation_run(
            key_name,
            seq![
                CreationEventView::Opened {
                    status: Err(FailureReasonView::CredentialNotFound(missing)),
                },
                CreationEventView::Created { status: Ok(()) },
                CreationEventView::Exported { base64 },
            ],
        ) == (CreationView::Finished { outcome: Ok(pem_document(base64)) }),
{
    let opened = CreationEventView::Opened { status: Ok(()) };
    let absent = CreationEventView::Opened {
        status: Err(FailureReasonView::CredentialNotFound(missing)),
    };
    let created = CreationEventView::Created { status: Ok(()) };
    let exported = CreationEventView::Exported { base64 };
    let none = Seq::<CreationEventView>::empty();
    assert(seq![opened].drop_last() == none);
    assert(seq![opened, exported].drop_last() == seq![opened]);
    assert(seq![absent].drop_last() == none);
    assert(seq![absent, created].drop_last() == seq![absent]);
    assert(seq![absent, created, exported].drop_last() == seq![absent, created]);
    reveal_with_fuel(creation_run, 4);
}


/// The models of a creation, of what comes in and of what it waits for have all that these have.
pub proof fn law_creation_models(
    text: String,
    reason: FailureReason,
    status: Result<(), FailureReason>,
    outcome: Result<String, FailureReason>,
    replace_existing: bool,
)
    ensures
        FailureReason::CredentialNotFound(text)@ == FailureReasonView::CredentialNotFound(text@),
        FailureReason::Other(text)@ == FailureReasonView::Other(text@),
        (Creation::Open { key_name: text })@ == (CreationView::Open { key_name: text@ }),
        (Creation::Create { key_name: text })@ == (CreationView::Create { key_name: text@ }),
        Creation::Export@ == CreationView::Export,
        (Creation::Finished { outcome })@ == (CreationView::Finished { outcome: viewed(outcome) }),
        (CreationEvent::Failed { reason })@ == (CreationEventView::Failed { reason: reason@ }),
        (CreationEvent::Opened { status })@ == (CreationEventView::Opened { status: viewed(status) }),
        (CreationEvent::Created { status })@ == (CreationEventView::Created { status: viewed(status) }),
        (CreationEvent::Exported { base64: text })@ == (CreationEventView::Exported { base64: text@ }),
        (CreationAction::OpenCredential { key_name: text })@ == (CreationActionView::OpenCredential {
            key_name: text@,
        }),
        (CreationAction::CreateCredential { key_name: text, replace_existing })@ == (
        CreationActionView::CreateCredential { key_name: text@, replace_existing }),
        CreationAction::ExportPublicKey@ == CreationActionView::ExportPublicKey,
        CreationAction::Report@ == CreationActionView::Report,
{
}

/// An event changes a creation only where it answers what the creation waits for.
pub proof fn law_creation_events_answer(creation: CreationView, event: CreationEventView)
    requires
        creation_step(creation, event) != creation,
    ensures
        match creation_awaited(creation) {
            CreationActionView::OpenCredential { .. } => event is Opened || event is Failed,
            CreationActionView::CreateCredential { .. } => event is Created || event is Failed,
            CreationActionView::ExportPublicKey => event is Exported || event is Failed,
            CreationActionView::Report => false,
        },
{
}

} // verus!
