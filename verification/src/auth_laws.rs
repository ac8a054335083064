//! What holds of every authentication, whatever events come in.

use vstd::prelude::*;
use vstd::utf8::{encode_utf8, valid_utf8};

use crate::auth::{awaited, denied, found_user, reply, setting, step, verdict};
use crate::auth::{Action, Attempt, Event, PamReply, PamReplyView, Session};
use crate::auth::{ActionView, AttemptView, EventView, SessionView, PAM_SILENT, PAM_SUCCESS};
use crate::challenge::{challenge_of, challenge_path_of, law_challenge_binds_user_and_nonce};
use crate::challenge::law_names_and_paths;
use crate::config::config_value;
use crate::error::{viewed, HelloAuthenticationError, IoError};
use crate::error::{ConfigErrorView, HelloAuthenticationErrorView, IoErrorView};
use crate::pem::{pem_body, pem_document};
use crate::signature::{accepts, key_of_file, law_replayed_signature_is_refused};
use crate::signature::{public_key_of_pem, sha256_of, signed_digest, PublicKey, PublicKeyView};
use crate::text::{hex, lossy_text, replaced_utf8};

verus! {

/// The session after a sequence of events.
pub open spec fn run(events: Seq<EventView>) -> SessionView
    decreases events.len(),
{
    if events.len() == 0 {
        SessionView::FindUser
    } else {
        step(run(events.drop_last()), events.last())
    }
}

/// Whether a session waits for an event.
pub open spec fn awaits(session: SessionView, event: EventView) -> bool {
    match session {
        SessionView::FindUser => event is User,
        SessionView::ReadPublicKey { .. } => event is PublicKeyOpenFailed || event
            is PublicKeyReadFailed || event is PublicKeyRead,
        SessionView::DrawNonce { .. } => event is Nonce,
        SessionView::WriteChallenge { .. } => event is ChallengeWritten,
        SessionView::FindAuthenticator { .. } => event is ConfigRead,
        SessionView::FindMount { .. } => event is ConfigRead,
        SessionView::RunAuthenticator { .. } => event is LaunchFailed || event is ConnectionFailed
            || event is Exited,
        SessionView::RemoveChallenge { .. } => event is ChallengeRemoved,
        SessionView::Finished { .. } => false,
    }
}

/// How many steps a session has behind it.
pub open spec fn stage(session: SessionView) -> nat {
    match session {
        SessionView::FindUser => 0,
        SessionView::ReadPublicKey { .. } => 1,
        SessionView::DrawNonce { .. } => 2,
        SessionView::WriteChallenge { .. } => 3,
        SessionView::FindAuthenticator { .. } => 4,
        SessionView::FindMount { .. } => 5,
        SessionView::RunAuthenticator { .. } => 6,
        SessionView::RemoveChallenge { .. } => 7,
        SessionView::Finished { .. } => 8,
    }
}

/// Whether an event reports that something failed.
pub open spec fn reports_failure(event: EventView) -> bool {
    match event {
        EventView::User { code, name } => code != PAM_SUCCESS,
        EventView::PublicKeyOpenFailed { .. } => true,
        EventView::PublicKeyReadFailed { .. } => true,
        EventView::PublicKeyRead { .. } => false,
        EventView::Nonce { drawn } => drawn is Err,
        EventView::ChallengeWritten { result } => result is Err,
        EventView::ConfigRead { config } => config is Err,
        EventView::LaunchFailed { .. } => true,
        EventView::ConnectionFailed { .. } => true,
        EventView::Exited { .. } => false,
        EventView::ChallengeRemoved { result } => result is Err,
    }
}

/// Whether an authentication ended in a grant.
pub open spec fn granted(session: SessionView) -> bool {
    session matches SessionView::Finished { outcome } && outcome is Ok
}

/// Whether an authentication ended in an error.
pub open spec fn refused(session: SessionView) -> bool {
    session matches SessionView::Finished { outcome } && outcome is Err
}

/// An authentication that is over stays as it ended.
pub proof fn law_finished_is_final(session: SessionView, event: EventView)
    requires
        session is Finished,
    ensures
        step(session, event) == session,
{
}

/// An event that a session does not wait for changes nothing.
pub proof fn law_unawaited_events_change_nothing(session: SessionView, event: EventView)
    requires
        !awaits(session, event),
    ensures
        step(session, event) == session,
{
}

/// Every awaited event brings the end nearer.
pub proof fn law_awaited_events_make_progress(session: SessionView, event: EventView)
    requires
        awaits(session, event),
    ensures
        stage(session) < stage(step(session, event)) <= 8,
{
}

/// It fails closed: whatever fails, at whatever stage, ends in a refusal.
pub proof fn law_failures_refuse(session: SessionView, event: EventView)
    requires
        awaits(session, event),
        reports_failure(event),
    ensures
        refused(step(session, event)),
{
}

/// The challenge, the key and the user of an attempt do not change on the way: what is written
/// out to be signed is what the signature is checked against.
pub proof fn law_attempt_does_not_change(session: SessionView, event: EventView)
    ensures
        attempt_of(session) is Some && attempt_of(step(session, event)) is Some ==> attempt_of(
            step(session, event),
        ) == attempt_of(session),
{
}

/// There is one challenge file: what is written, handed to the authenticator and removed is the
/// file of the attempt's challenge.
pub proof fn law_one_challenge_file(session: SessionView, attempt: AttemptView)
    requires
        attempt_of(session) == Some(attempt),
    ensures
        match awaited(session) {
            ActionView::WriteChallenge { path, contents } => path == challenge_path_of(
                attempt.challenge,
            ) && contents == attempt.challenge,
            ActionView::RunAuthenticator { input, .. } => input == challenge_path_of(
                attempt.challenge,
            ),
            ActionView::RemoveChallenge { path } => path == challenge_path_of(attempt.challenge),
            _ => true,
        },
{
}

/// However the authenticator ends, the challenge file is removed before anything is decided.
pub proof fn law_challenge_is_removed_first(
    session: SessionView,
    attempt: AttemptView,
    exit_code: Option<i32>,
    output: Seq<u8>,
)
    requires
        session is RunAuthenticator,
        attempt_of(session) == Some(attempt),
    ensures
        awaited(step(session, EventView::Exited { exit_code, output })) == (
        ActionView::RemoveChallenge { path: challenge_path_of(attempt.challenge) }),
{
}

/// The attempt that a session is about, once there is one.
pub open spec fn attempt_of(session: SessionView) -> Option<AttemptView> {
    match session {
        SessionView::WriteChallenge { attempt } => Some(attempt),
        SessionView::FindAuthenticator { attempt } => Some(attempt),
        SessionView::FindMount { attempt, .. } => Some(attempt),
        SessionView::RunAuthenticator { attempt, .. } => Some(attempt),
        SessionView::RemoveChallenge { attempt, .. } => Some(attempt),
        _ => None,
    }
}

/// Where in a sequence of events each step of an authentication was taken.
pub struct Trail {
    pub user: int,
    pub key: int,
    pub nonce: int,
    pub written: int,
    pub path: int,
    pub mount: int,
    pub exited: int,
    pub removed: int,
}

/// The event at `i` names the user.
pub open spec fn names_user(events: Seq<EventView>, i: int, user: Seq<char>) -> bool {
    &&& 0 <= i < events.len()
    &&& events[i] matches EventView::User { code, name } && found_user(code, name) == Ok::<
        Seq<char>,
        i32,
    >(user)
}

/// The event at `i` brings the text of a file that holds the key.
pub open spec fn brings_key(events: Seq<EventView>, i: int, key: PublicKeyView) -> bool {
    &&& 0 <= i < events.len()
    &&& events[i] matches EventView::PublicKeyRead { text } && key_of_file(text) == Ok::<
        PublicKeyView,
        HelloAuthenticationErrorView,
    >(key)
}

/// The event at `i` brings the nonce that makes the challenge for the user.
pub open spec fn makes_challenge(
    events: Seq<EventView>,
    i: int,
    user: Seq<char>,
    challenge: Seq<char>,
) -> bool {
    &&& 0 <= i < events.len()
    &&& events[i] matches EventView::Nonce { drawn } && drawn is Ok && challenge == challenge_of(
        user,
        drawn->Ok_0,
    )
}

/// The event at `i` brings settings in which `key` has the given value.
pub open spec fn brings_setting(
    events: Seq<EventView>,
    i: int,
    key: Seq<char>,
    value: Seq<char>,
) -> bool {
    &&& 0 <= i < events.len()
    &&& events[i] matches EventView::ConfigRead { config } && setting(config, key) == Ok::<
        Seq<char>,
        ConfigErrorView,
    >(value)
}

/// The user, the key and the nonce of an attempt came in, in this order.
pub open spec fn attempt_made(events: Seq<EventView>, t: Trail, attempt: AttemptView) -> bool {
    &&& names_user(events, t.user, attempt.user_name)
    &&& brings_key(events, t.key, attempt.public_key)
    &&& makes_challenge(events, t.nonce, attempt.user_name, attempt.challenge)
    &&& t.user < t.key < t.nonce
}

/// After that, the challenge was written out.
pub open spec fn attempt_written(events: Seq<EventView>, t: Trail, attempt: AttemptView) -> bool {
    &&& attempt_made(events, t, attempt)
    &&& t.nonce < t.written < events.len()
    &&& events[t.written] matches EventView::ChallengeWritten { result } && result is Ok
}

/// After that, the settings named the authenticator and the directory it ran in.
pub open spec fn attempt_configured(
    events: Seq<EventView>,
    t: Trail,
    attempt: AttemptView,
    authenticator_path: Seq<char>,
    win_mnt: Seq<char>,
) -> bool {
    &&& attempt_written(events, t, attempt)
    &&& brings_setting(events, t.path, "authenticator_path"@, authenticator_path)
    &&& brings_setting(events, t.mount, "win_mnt"@, win_mnt)
    &&& t.written < t.path < t.mount
}

/// After that, the authenticator ended with `exit_code` and wrote `output`.
pub open spec fn attempt_run(
    events: Seq<EventView>,
    t: Trail,
    attempt: AttemptView,
    exit_code: Option<i32>,
    output: Seq<u8>,
) -> bool {
    &&& exists|path: Seq<char>, mount: Seq<char>| #[trigger]
        attempt_configured(events, t, attempt, path, mount)
    &&& t.mount < t.exited < events.len()
    &&& events[t.exited] == (EventView::Exited { exit_code, output })
}

/// What must have happened, in this order, for access to be granted: the user was found; the
/// key was read from the key file; a nonce was drawn; the challenge for that user and that nonce
/// was written out; the authenticator that the settings name ended well; the challenge was
/// removed; and what the authenticator wrote is a signature over that challenge that is accepted
/// under that key.
pub open spec fn grant_earned(
    events: Seq<EventView>,
    t: Trail,
    attempt: AttemptView,
    signature: Seq<u8>,
) -> bool {
    &&& attempt_run(events, t, attempt, Some(0), signature)
    &&& t.exited < t.removed < events.len()
    &&& events[t.removed] matches EventView::ChallengeRemoved { result } && result is Ok
    &&& accepts(attempt.public_key, encode_utf8(attempt.challenge), signature)
}

/// What the events so far show of a session.
spec fn accounted(session: SessionView, events: Seq<EventView>, t: Trail) -> bool {
    match session {
        SessionView::FindUser => true,
        SessionView::ReadPublicKey { user_name } => names_user(events, t.user, user_name),
        SessionView::DrawNonce { user_name, public_key } => {
            &&& names_user(events, t.user, user_name)
            &&& brings_key(events, t.key, public_key)
            &&& t.user < t.key
        },
        SessionView::WriteChallenge { attempt } => attempt_made(events, t, attempt),
        SessionView::FindAuthenticator { attempt } => attempt_written(events, t, attempt),
        SessionView::FindMount { attempt, authenticator_path } => {
            &&& attempt_written(events, t, attempt)
            &&& brings_setting(events, t.path, "authenticator_path"@, authenticator_path)
            &&& t.written < t.path
        },
        SessionView::RunAuthenticator { attempt, authenticator_path, win_mnt } =>
            attempt_configured(events, t, attempt, authenticator_path, win_mnt),
        SessionView::RemoveChallenge { attempt, exit_code, output } => attempt_run(
            events,
            t,
            attempt,
            exit_code,
            output,
        ),
        SessionView::Finished { outcome } => outcome is Ok ==> outcome == Ok::<
            i32,
            HelloAuthenticationErrorView,
        >(PAM_SUCCESS) && exists|attempt: AttemptView, signature: Seq<u8>| #[trigger]
            grant_earned(events, t, attempt, signature),
    }
}

/// What the events show of a session they still show when another event comes in.
proof fn lemma_accounted_grows(
    session: SessionView,
    events: Seq<EventView>,
    event: EventView,
    t: Trail,
)
    requires
        accounted(session, events, t),
    ensures
        accounted(session, events.push(event), t),
{
    let more = events.push(event);
    assert forall|i: int| 0 <= i < events.len() implies more[i] == events[i] by {}
    match session {
        SessionView::RemoveChallenge { attempt, exit_code, output } => {
            lemma_run_grows(events, event, t, attempt, exit_code, output);
        },
        SessionView::Finished { outcome } => {
            if outcome is Ok {
                let (attempt, signature) = choose|attempt: AttemptView, signature: Seq<u8>|
                    #[trigger] grant_earned(events, t, attempt, signature);
                lemma_run_grows(events, event, t, attempt, Some(0), signature);
                assert(grant_earned(more, t, attempt, signature));
            }
        },
        _ => {},
    }
}

proof fn lemma_run_grows(
    events: Seq<EventView>,
    event: EventView,
    t: Trail,
    attempt: AttemptView,
    exit_code: Option<i32>,
    output: Seq<u8>,
)
    requires
        attempt_run(events, t, attempt, exit_code, output),
    ensures
        attempt_run(events.push(event), t, attempt, exit_code, output),
{
    let (path, mount) = choose|path: Seq<char>, mount: Seq<char>| #[trigger]
        attempt_configured(events, t, attempt, path, mount);
    assert(attempt_configured(events.push(event), t, attempt, path, mount));
}

/// What one more event adds to the account of a session.
proof fn lemma_account_step(
    session: SessionView,
    events: Seq<EventView>,
    event: EventView,
    t: Trail,
) -> (after: Trail)
    requires
        accounted(session, events, t),
    ensures
        accounted(step(session, event), events.push(event), after),
{
    let more = events.push(event);
    let now = events.len() as int;
    lemma_accounted_grows(session, events, event, t);
    if !awaits(session, event) {
        t
    } else {
        match session {
            SessionView::FindUser => Trail { user: now, ..t },
            SessionView::ReadPublicKey { user_name } => Trail { key: now, ..t },
            SessionView::DrawNonce { user_name, public_key } => Trail { nonce: now, ..t },
            SessionView::WriteChallenge { attempt } => Trail { written: now, ..t },
            SessionView::FindAuthenticator { attempt } => Trail { path: now, ..t },
            SessionView::FindMount { attempt, authenticator_path } => Trail { mount: now, ..t },
            SessionView::RunAuthenticator { attempt, authenticator_path, win_mnt } => {
                let after = Trail { exited: now, ..t };
                assert(attempt_configured(more, after, attempt, authenticator_path, win_mnt));
                after
            },
            SessionView::RemoveChallenge { attempt, exit_code, output } => {
                let after = Trail { removed: now, ..t };
                let (path, mount) = choose|path: Seq<char>, mount: Seq<char>| #[trigger]
                    attempt_configured(more, t, attempt, path, mount);
                assert(attempt_configured(more, after, attempt, path, mount));
                if granted(step(session, event)) {
                    assert(grant_earned(more, after, attempt, output));
                }
                after
            },
            SessionView::Finished { outcome } => t,
        }
    }
}

/// Every session can be accounted for by the events that led to it.
proof fn lemma_account(events: Seq<EventView>) -> (t: Trail)
    ensures
        accounted(run(events), events, t),
    decreases events.len(),
{
    if events.len() == 0 {
        Trail {
            user: 0,
            key: 0,
            nonce: 0,
            written: 0,
            path: 0,
            mount: 0,
            exited: 0,
            removed: 0,
        }
    } else {
        let before = lemma_account(events.drop_last());
        assert(events.drop_last().push(events.last()) == events);
        lemma_account_step(run(events.drop_last()), events.drop_last(), events.last(), before)
    }
}

/// Access is granted only for a signature that is accepted, under the user's key, over the
/// challenge that was made for that user from the nonce that was drawn before the authenticator
/// was run.
pub proof fn law_grant_is_earned(events: Seq<EventView>)
    requires
        granted(run(events)),
    ensures
        run(events) == (SessionView::Finished { outcome: Ok(PAM_SUCCESS) }),
        exists|t: Trail, attempt: AttemptView, signature: Seq<u8>| #[trigger]
            grant_earned(events, t, attempt, signature),
{
    let t = lemma_account(events);
    let (attempt, signature) = choose|attempt: AttemptView, signature: Seq<u8>| #[trigger]
        grant_earned(events, t, attempt, signature);
    assert(grant_earned(events, t, attempt, signature));
}

/// The texts that the two readings of the settings file bring: one for the authenticator's path
/// and one for the mount point. The file may change between them.
pub struct Settings {
    pub path: Seq<char>,
    pub mount: Seq<char>,
}

/// Whether each reading brings the setting that it is for.
pub open spec fn complete(settings: Settings) -> bool {
    &&& config_value(settings.path, "authenticator_path"@) is Ok
    &&& config_value(settings.mount, "win_mnt"@) is Ok
}

/// The events of an authentication in which every step is taken and nothing fails.
pub open spec fn smooth_events(
    name: Seq<u8>,
    key_text: Seq<char>,
    nonce: Seq<u8>,
    settings: Settings,
    output: Seq<u8>,
) -> Seq<EventView> {
    seq![
        EventView::User { code: PAM_SUCCESS, name: Some(name) },
        EventView::PublicKeyRead { text: key_text },
        EventView::Nonce { drawn: Ok(nonce) },
        EventView::ChallengeWritten { result: Ok(()) },
        EventView::ConfigRead { config: Ok(settings.path) },
        EventView::ConfigRead { config: Ok(settings.mount) },
        EventView::Exited { exit_code: Some(0), output },
        EventView::ChallengeRemoved { result: Ok(()) },
    ]
}

/// Where such an authentication ends: with what is wrong with the key or the settings, or else
/// with the verdict on the attempt.
proof fn lemma_smooth_run(
    name: Seq<u8>,
    key_text: Seq<char>,
    nonce: Seq<u8>,
    settings: Settings,
    output: Seq<u8>,
)
    ensures
        ({
            let last = run(smooth_events(name, key_text, nonce, settings, output));
            match key_of_file(key_text) {
                Err(error) => last == denied(error),
                Ok(public_key) => if complete(settings) {
                    last == (SessionView::Finished {
                        outcome: verdict(
                            AttemptView {
                                user_name: lossy_text(name),
                                public_key,
                                challenge: challenge_of(lossy_text(name), nonce),
                            },
                            Some(0),
                            output,
                        ),
                    })
                } else {
                    refused(last)
                },
            }
        }),
{
    let events = smooth_events(name, key_text, nonce, settings, output);
    assert(events.take(0) == Seq::<EventView>::empty());
    assert(events.take(1).drop_last() == events.take(0));
    assert(events.take(2).drop_last() == events.take(1));
    assert(events.take(3).drop_last() == events.take(2));
    assert(events.take(4).drop_last() == events.take(3));
    assert(events.take(5).drop_last() == events.take(4));
    assert(events.take(6).drop_last() == events.take(5));
    assert(events.take(7).drop_last() == events.take(6));
    assert(events.drop_last() == events.take(7));
    reveal_with_fuel(run, 9);
}

/// A genuine gesture is granted: where nothing fails and the signature is accepted, the
/// authentication ends in success.
pub proof fn law_genuine_signature_is_granted(
    name: Seq<u8>,
    key_text: Seq<char>,
    nonce: Seq<u8>,
    settings: Settings,
    signature: Seq<u8>,
)
    requires
        key_of_file(key_text) is Ok,
        complete(settings),
        accepts(
            key_of_file(key_text)->Ok_0,
            encode_utf8(challenge_of(lossy_text(name), nonce)),
            signature,
        ),
    ensures
        run(smooth_events(name, key_text, nonce, settings, signature)) == (SessionView::Finished {
            outcome: Ok(PAM_SUCCESS),
        }),
{
    lemma_smooth_run(name, key_text, nonce, settings, signature);
}

/// Two nonces of a user make two challenges. What the authenticator wrote, and was granted, for
/// the one is refused for the other, if the digests of the challenges differ.
pub proof fn law_replayed_output_is_refused(
    user_name: Seq<char>,
    public_key: PublicKeyView,
    nonce: Seq<u8>,
    other_nonce: Seq<u8>,
    exit_code: Option<i32>,
    output: Seq<u8>,
)
    requires
        nonce.len() == 32,
        other_nonce.len() == 32,
        nonce != other_nonce,
        verdict(
            AttemptView { user_name, public_key, challenge: challenge_of(user_name, nonce) },
            exit_code,
            output,
        ) is Ok,
    ensures
        challenge_of(user_name, nonce) != challenge_of(user_name, other_nonce),
        sha256_of(encode_utf8(challenge_of(user_name, nonce))) != sha256_of(
            encode_utf8(challenge_of(user_name, other_nonce)),
        ) ==> verdict(
            AttemptView { user_name, public_key, challenge: challenge_of(user_name, other_nonce) },
            Some(0),
            output,
        ) == Err::<i32, HelloAuthenticationErrorView>(
            HelloAuthenticationErrorView::SignAuthenticationFail,
        ),
{
    if challenge_of(user_name, nonce) == challenge_of(user_name, other_nonce) {
        law_challenge_binds_user_and_nonce(user_name, nonce, user_name, other_nonce);
    }
    let challenge = encode_utf8(challenge_of(user_name, nonce));
    let other = encode_utf8(challenge_of(user_name, other_nonce));
    if sha256_of(challenge) != sha256_of(other) {
        law_replayed_signature_is_refused(public_key, challenge, other, output);
    }
}

/// A replay is refused: where one authentication was granted, another of the same user, with the
/// same key file, another nonce and the same output of the authenticator, has another challenge.
/// Though nothing fails in it, it is refused if the digests of the two challenges differ.
pub proof fn law_replay_is_refused(
    name: Seq<u8>,
    key_text: Seq<char>,
    nonce: Seq<u8>,
    other_nonce: Seq<u8>,
    settings: Settings,
    other_settings: Settings,
    output: Seq<u8>,
)
    requires
        nonce.len() == 32,
        other_nonce.len() == 32,
        nonce != other_nonce,
        granted(run(smooth_events(name, key_text, nonce, settings, output))),
        complete(other_settings),
    ensures
        challenge_of(lossy_text(name), nonce) != challenge_of(lossy_text(name), other_nonce),
        sha256_of(encode_utf8(challenge_of(lossy_text(name), nonce))) != sha256_of(
            encode_utf8(challenge_of(lossy_text(name), other_nonce)),
        ) ==> run(smooth_events(name, key_text, other_nonce, other_settings, output)) == denied(
            HelloAuthenticationErrorView::SignAuthenticationFail,
        ),
{
    lemma_smooth_run(name, key_text, nonce, settings, output);
    lemma_smooth_run(name, key_text, other_nonce, other_settings, output);
    law_replayed_output_is_refused(
        lossy_text(name),
        key_of_file(key_text)->Ok_0,
        nonce,
        other_nonce,
        Some(0),
        output,
    );
}

/// An attempt is granted exactly if the authenticator ended well and what it wrote is a signature
/// that is accepted over the attempt's own challenge.
pub proof fn law_unaccepted_signature_is_refused(
    attempt: AttemptView,
    exit_code: Option<i32>,
    output: Seq<u8>,
)
    ensures
        verdict(attempt, exit_code, output) is Ok <==> exit_code == Some(0i32) && accepts(
            attempt.public_key,
            encode_utf8(attempt.challenge),
            output,
        ),
{
}

/// The user is asked for with the prompt that PAM chooses.
pub proof fn law_prompt_is_left_to_pam(session: SessionView)
    ensures
        awaited(session) matches ActionView::GetUser { prompt } ==> prompt is None,
{
}

/// PAM is told of success for a success only: no error has its code.
pub proof fn law_errors_are_never_success(flags: i32, error: HelloAuthenticationErrorView)
    ensures
        reply(flags, Err(error)).code != PAM_SUCCESS,
{
}

/// PAM is told of success only for a grant that was earned.
pub proof fn law_success_is_earned(
    flags: i32,
    events: Seq<EventView>,
    outcome: Result<i32, HelloAuthenticationErrorView>,
)
    requires
        run(events) == (SessionView::Finished { outcome }),
        reply(flags, outcome).code == PAM_SUCCESS,
    ensures
        exists|t: Trail, attempt: AttemptView, signature: Seq<u8>| #[trigger]
            grant_earned(events, t, attempt, signature),
{
    law_grant_is_earned(events);
}

/// The silent flag keeps back the notice and changes nothing else.
pub proof fn law_silence_hides_the_notice_only(
    flags: i32,
    outcome: Result<i32, HelloAuthenticationErrorView>,
)
    ensures
        reply(flags, outcome).code == reply(0, outcome).code,
        flags & PAM_SILENT != 0 ==> reply(flags, outcome).notice is None,
        flags & PAM_SILENT == 0 ==> (reply(flags, outcome).notice is Some <==> outcome is Err),
{
}

// ---- What each step leads to ----

/// The user is who PAM says: any name that is text is taken whole, replacement characters stand in
/// one that is not, and a code other than success is reported.
pub proof fn law_user_is_who_pam_says(
    user: Seq<char>,
    bytes: Seq<u8>,
    code: i32,
    name: Option<Seq<u8>>,
)
    ensures
        step(
            SessionView::FindUser,
            EventView::User { code: 0, name: Some(encode_utf8(user)) },
        ) == (SessionView::ReadPublicKey { user_name: user }),
        !valid_utf8(bytes) ==> step(
            SessionView::FindUser,
            EventView::User { code: 0, name: Some(bytes) },
        ) == (SessionView::ReadPublicKey { user_name: replaced_utf8(bytes) }),
        code != 0 || name is None ==> step(SessionView::FindUser, EventView::User { code, name })
            == (SessionView::Finished {
            outcome: Err(HelloAuthenticationErrorView::GetUserError(code)),
        }),
{
    vstd::utf8::encode_utf8_valid_utf8(user);
    vstd::utf8::encode_utf8_decode_utf8(user);
}

/// A key file that cannot be opened, one that cannot be read and one that holds no key are three
/// errors, each with its reason; and a key that is read goes on with the user that it is for.
pub proof fn law_key_file_is_read(
    user_name: Seq<char>,
    error: IoErrorView,
    text: Seq<char>,
    modulus: Seq<u8>,
    exponent: Seq<u8>,
    reason: Seq<char>,
)
    ensures
        step(
            SessionView::ReadPublicKey { user_name },
            EventView::PublicKeyOpenFailed { error },
        ) == (SessionView::Finished {
            outcome: Err(HelloAuthenticationErrorView::PublicKeyFileError(error)),
        }),
        step(
            SessionView::ReadPublicKey { user_name },
            EventView::PublicKeyReadFailed { error },
        ) == (SessionView::Finished { outcome: Err(HelloAuthenticationErrorView::Io(error)) }),
        public_key_of_pem(pem_document(pem_body(text))) == Err::<(Seq<u8>, Seq<u8>), Seq<char>>(
            reason,
        ) ==> step(SessionView::ReadPublicKey { user_name }, EventView::PublicKeyRead { text }) == (
        SessionView::Finished {
            outcome: Err(HelloAuthenticationErrorView::InvalidPublicKey(reason)),
        }),
        public_key_of_pem(pem_document(pem_body(text))) == Ok::<(Seq<u8>, Seq<u8>), Seq<char>>(
            (modulus, exponent),
        ) ==> step(SessionView::ReadPublicKey { user_name }, EventView::PublicKeyRead { text }) == (
        SessionView::DrawNonce { user_name, public_key: PublicKeyView { modulus, exponent } }),
{
}

/// A drawn nonce makes the challenge for the user; where none could be drawn, that is the error.
pub proof fn law_nonce_makes_the_challenge(
    user_name: Seq<char>,
    public_key: PublicKeyView,
    nonce: Seq<u8>,
    error: HelloAuthenticationErrorView,
)
    ensures
        step(
            SessionView::DrawNonce { user_name, public_key },
            EventView::Nonce { drawn: Ok(nonce) },
        ) == (SessionView::WriteChallenge {
            attempt: AttemptView {
                user_name,
                public_key,
                challenge: "pam_wsl_hello:"@ + user_name + ":"@ + hex(nonce),
            },
        }),
        step(
            SessionView::DrawNonce { user_name, public_key },
            EventView::Nonce { drawn: Err(error) },
        ) == (SessionView::Finished { outcome: Err(error) }),
{
}

/// A challenge that was written, and one that was removed, takes the attempt further; where the
/// file fails, that is the error.
pub proof fn law_challenge_file_must_work(
    attempt: AttemptView,
    exit_code: Option<i32>,
    output: Seq<u8>,
    error: IoErrorView,
)
    ensures
        step(
            SessionView::WriteChallenge { attempt },
            EventView::ChallengeWritten { result: Ok(()) },
        ) == (SessionView::FindAuthenticator { attempt }),
        step(
            SessionView::WriteChallenge { attempt },
            EventView::ChallengeWritten { result: Err(error) },
        ) == (SessionView::Finished { outcome: Err(HelloAuthenticationErrorView::Io(error)) }),
        step(
            SessionView::RemoveChallenge { attempt, exit_code, output },
            EventView::ChallengeRemoved { result: Err(error) },
        ) == (SessionView::Finished { outcome: Err(HelloAuthenticationErrorView::Io(error)) }),
{
}

/// Both settings are taken as they are in the file; where one is missing or malformed, or the file
/// cannot be read, that is the error.
pub proof fn law_settings_are_taken(
    attempt: AttemptView,
    authenticator_path: Seq<char>,
    config: Seq<char>,
    value: Seq<char>,
    error: ConfigErrorView,
    io: IoErrorView,
)
    ensures
        config_value(config, "authenticator_path"@) == Ok::<Seq<char>, ConfigErrorView>(value)
            ==> step(
            SessionView::FindAuthenticator { attempt },
            EventView::ConfigRead { config: Ok(config) },
        ) == (SessionView::FindMount { attempt, authenticator_path: value }),
        config_value(config, "authenticator_path"@) == Err::<Seq<char>, ConfigErrorView>(error)
            ==> step(
            SessionView::FindAuthenticator { attempt },
            EventView::ConfigRead { config: Ok(config) },
        ) == (SessionView::Finished {
            outcome: Err(HelloAuthenticationErrorView::ConfigError(error)),
        }),
        step(
            SessionView::FindAuthenticator { attempt },
            EventView::ConfigRead { config: Err(io) },
        ) == (SessionView::Finished {
            outcome: Err(HelloAuthenticationErrorView::ConfigError(ConfigErrorView::Io(io))),
        }),
        config_value(config, "win_mnt"@) == Ok::<Seq<char>, ConfigErrorView>(value) ==> step(
            SessionView::FindMount { attempt, authenticator_path },
            EventView::ConfigRead { config: Ok(config) },
        ) == (SessionView::RunAuthenticator { attempt, authenticator_path, win_mnt: value }),
        config_value(config, "win_mnt"@) == Err::<Seq<char>, ConfigErrorView>(error) ==> step(
            SessionView::FindMount { attempt, authenticator_path },
            EventView::ConfigRead { config: Ok(config) },
        ) == (SessionView::Finished {
            outcome: Err(HelloAuthenticationErrorView::ConfigError(error)),
        }),
        step(
            SessionView::FindMount { attempt, authenticator_path },
            EventView::ConfigRead { config: Err(io) },
        ) == (SessionView::Finished {
            outcome: Err(HelloAuthenticationErrorView::ConfigError(ConfigErrorView::Io(io))),
        }),
{
}

/// An authenticator that does not start, or whose output is lost, is an error with its reason; how
/// one ended, and all that it wrote, is kept until the challenge file is removed.
pub proof fn law_authenticator_is_heard(
    attempt: AttemptView,
    authenticator_path: Seq<char>,
    win_mnt: Seq<char>,
    error: IoErrorView,
    exit_code: Option<i32>,
    output: Seq<u8>,
)
    ensures
        step(
            SessionView::RunAuthenticator { attempt, authenticator_path, win_mnt },
            EventView::LaunchFailed { error },
        ) == (SessionView::Finished {
            outcome: Err(HelloAuthenticationErrorView::AuthenticatorLaunchError(error)),
        }),
        step(
            SessionView::RunAuthenticator { attempt, authenticator_path, win_mnt },
            EventView::ConnectionFailed { error },
        ) == (SessionView::Finished {
            outcome: Err(HelloAuthenticationErrorView::AuthenticatorConnectionError(error)),
        }),
        step(
            SessionView::RunAuthenticator { attempt, authenticator_path, win_mnt },
            EventView::Exited { exit_code, output },
        ) == (SessionView::RemoveChallenge { attempt, exit_code, output }),
{
}

/// How an attempt is decided once its challenge file is removed. Without an exit code, a signal
/// ended the authenticator. With another code than zero, what it wrote is the message. With code
/// zero, access is granted exactly if what it wrote carries, under the user's key, the SHA-256
/// digest of the whole challenge.
pub proof fn law_attempt_is_decided(
    attempt: AttemptView,
    code: i32,
    output: Seq<u8>,
    text: Seq<char>,
)
    ensures
        step(
            SessionView::RemoveChallenge { attempt, exit_code: None, output },
            EventView::ChallengeRemoved { result: Ok(()) },
        ) == (SessionView::Finished {
            outcome: Err(HelloAuthenticationErrorView::AuthenticatorSignalled),
        }),
        code != 0 ==> step(
            SessionView::RemoveChallenge {
                attempt,
                exit_code: Some(code),
                output: encode_utf8(text),
            },
            EventView::ChallengeRemoved { result: Ok(()) },
        ) == (SessionView::Finished {
            outcome: Err(HelloAuthenticationErrorView::HelloAuthenticationFail(text)),
        }),
        code != 0 && !valid_utf8(output) ==> step(
            SessionView::RemoveChallenge { attempt, exit_code: Some(code), output },
            EventView::ChallengeRemoved { result: Ok(()) },
        ) == (SessionView::Finished {
            outcome: Err(
                HelloAuthenticationErrorView::HelloAuthenticationFail("invalid utf8 output"@),
            ),
        }),
        step(
            SessionView::RemoveChallenge { attempt, exit_code: Some(0), output },
            EventView::ChallengeRemoved { result: Ok(()) },
        ) == (SessionView::Finished {
            outcome: if signed_digest(
                attempt.public_key.modulus,
                attempt.public_key.exponent,
                output,
            ) == Some(sha256_of(encode_utf8(attempt.challenge))) {
                Ok(0i32)
            } else {
                Err(HelloAuthenticationErrorView::SignAuthenticationFail)
            },
        }),
{
    vstd::utf8::encode_utf8_valid_utf8(text);
    vstd::utf8::encode_utf8_decode_utf8(text);
}

/// The authenticator that is run is the configured one, as it is configured, in the configured
/// directory, for the user's credential, and with the challenge as its input.
pub proof fn law_configured_authenticator_is_run(
    attempt: AttemptView,
    path: Seq<char>,
    mount: Seq<char>,
)
    ensures
        awaited(
            SessionView::RunAuthenticator { attempt, authenticator_path: path, win_mnt: mount },
        ) == (ActionView::RunAuthenticator {
            program: path,
            command: "authenticator"@,
            credential_key_name: "pam_wsl_hello_"@ + attempt.user_name,
            directory: mount,
            input: "/tmp/"@ + attempt.challenge,
        }),
{
    law_names_and_paths(attempt.user_name, attempt.challenge);
}

/// What is read, written and removed: the user's key file, the settings file and the challenge
/// file; and nothing is done in a session that only draws a nonce or is over.
pub proof fn law_files_at_hand(
    user_name: Seq<char>,
    public_key: PublicKeyView,
    attempt: AttemptView,
    path: Seq<char>,
    exit_code: Option<i32>,
    output: Seq<u8>,
    outcome: Result<i32, HelloAuthenticationErrorView>,
)
    ensures
        awaited(SessionView::FindUser) == (ActionView::GetUser { prompt: None }),
        awaited(SessionView::ReadPublicKey { user_name }) == (ActionView::ReadPublicKey {
            path: "/etc/pam_wsl_hello/public_keys/pam_wsl_hello_"@ + user_name + ".pem"@,
        }),
        awaited(SessionView::DrawNonce { user_name, public_key }) == ActionView::DrawNonce,
        awaited(SessionView::WriteChallenge { attempt }) == (ActionView::WriteChallenge {
            path: "/tmp/"@ + attempt.challenge,
            contents: attempt.challenge,
        }),
        awaited(SessionView::FindAuthenticator { attempt }) == (ActionView::ReadConfig {
            path: "/etc/pam_wsl_hello/config"@,
        }),
        awaited(SessionView::FindMount { attempt, authenticator_path: path }) == (
        ActionView::ReadConfig { path: "/etc/pam_wsl_hello/config"@ }),
        awaited(SessionView::RemoveChallenge { attempt, exit_code, output }) == (
        ActionView::RemoveChallenge { path: "/tmp/"@ + attempt.challenge }),
        awaited(SessionView::Finished { outcome }) == ActionView::Report,
{
    law_names_and_paths(user_name, attempt.challenge);
}

/// The way of an authentication in which nothing fails: what is done, in this order, with what
/// was read on the way.
pub proof fn law_actions_of_a_smooth_authentication(
    user: Seq<char>,
    key_text: Seq<char>,
    nonce: Seq<u8>,
    settings: Settings,
    path: Seq<char>,
    mount: Seq<char>,
    output: Seq<u8>,
)
    requires
        public_key_of_pem(pem_document(pem_body(key_text))) is Ok,
        config_value(settings.path, "authenticator_path"@) == Ok::<Seq<char>, ConfigErrorView>(
            path,
        ),
        config_value(settings.mount, "win_mnt"@) == Ok::<Seq<char>, ConfigErrorView>(mount),
    ensures
        ({
            let events = smooth_events(encode_utf8(user), key_text, nonce, settings, output);
            let challenge = "pam_wsl_hello:"@ + user + ":"@ + hex(nonce);
            &&& awaited(run(events.take(0))) == (ActionView::GetUser { prompt: None })
            &&& awaited(run(events.take(1))) == (ActionView::ReadPublicKey {
                path: "/etc/pam_wsl_hello/public_keys/pam_wsl_hello_"@ + user + ".pem"@,
            })
            &&& awaited(run(events.take(2))) == ActionView::DrawNonce
            &&& awaited(run(events.take(3))) == (ActionView::WriteChallenge {
                path: "/tmp/"@ + challenge,
                contents: challenge,
            })
            &&& awaited(run(events.take(4))) == (ActionView::ReadConfig {
                path: "/etc/pam_wsl_hello/config"@,
            })
            &&& awaited(run(events.take(5))) == (ActionView::ReadConfig {
                path: "/etc/pam_wsl_hello/config"@,
            })
            &&& awaited(run(events.take(6))) == (ActionView::RunAuthenticator {
                program: path,
                command: "authenticator"@,
                credential_key_name: "pam_wsl_hello_"@ + user,
                directory: mount,
                input: "/tmp/"@ + challenge,
            })
            &&& awaited(run(events.take(7))) == (ActionView::RemoveChallenge {
                path: "/tmp/"@ + challenge,
            })
            &&& awaited(run(events)) == ActionView::Report
        }),
{
    let events = smooth_events(encode_utf8(user), key_text, nonce, settings, output);
    let challenge = "pam_wsl_hello:"@ + user + ":"@ + hex(nonce);
    law_names_and_paths(user, challenge);
    vstd::utf8::encode_utf8_valid_utf8(user);
    vstd::utf8::encode_utf8_decode_utf8(user);
    assert(events.take(0) == Seq::<EventView>::empty());
    assert(events.take(1).drop_last() == events.take(0));
    assert(events.take(2).drop_last() == events.take(1));
    assert(events.take(3).drop_last() == events.take(2));
    assert(events.take(4).drop_last() == events.take(3));
    assert(events.take(5).drop_last() == events.take(4));
    assert(events.take(6).drop_last() == events.take(5));
    assert(events.take(7).drop_last() == events.take(6));
    assert(events.drop_last() == events.take(7));
    reveal_with_fuel(run, 9);
}

// ---- What PAM and the user are told ----

/// PAM is told that the user is unknown exactly for a missing key file, that Windows Hello cannot
/// be reached exactly where the authenticator did not start, was not heard or was ended by a
/// signal, and for every other error that the authentication failed.
pub proof fn law_codes(flags: i32, code: i32, error: HelloAuthenticationErrorView)
    ensures
        reply(flags, Ok(code)).code == code,
        reply(flags, Err(error)).code == 10 || reply(flags, Err(error)).code == 9 || reply(
            flags,
            Err(error),
        ).code == 7,
        reply(flags, Err(error)).code == 10 <==> (error matches
            HelloAuthenticationErrorView::PublicKeyFileError(io) && io.not_found),
        reply(flags, Err(error)).code == 9 <==> (error is AuthenticatorLaunchError || error
            is AuthenticatorConnectionError || error is AuthenticatorSignalled),
{
}

/// The user is told what went wrong, unless the caller asked for silence; of a success they are
/// told nothing.
pub proof fn law_notices(flags: i32, code: i32, error: HelloAuthenticationErrorView)
    ensures
        reply(flags, Ok(code)).notice is None,
        flags & 0x8000i32 == 0 ==> reply(flags, Err(error)).notice == Some(
            "WSL Hello error: "@ + error.message(),
        ),
        flags & 0x8000i32 != 0 ==> reply(flags, Err(error)).notice is None,
{
}

/// An event changes a session only where it answers what the session waits for.
pub proof fn law_events_answer(session: SessionView, event: EventView)
    requires
        step(session, event) != session,
    ensures
        match awaited(session) {
            ActionView::GetUser { .. } => event is User,
            ActionView::ReadPublicKey { .. } => event is PublicKeyOpenFailed || event
                is PublicKeyReadFailed || event is PublicKeyRead,
            ActionView::DrawNonce => event is Nonce,
            ActionView::WriteChallenge { .. } => event is ChallengeWritten,
            ActionView::ReadConfig { .. } => event is ConfigRead,
            ActionView::RunAuthenticator { .. } => event is LaunchFailed || event
                is ConnectionFailed || event is Exited,
            ActionView::RemoveChallenge { .. } => event is ChallengeRemoved,
            ActionView::Report => false,
        },
{
}

// ---- Models ----

/// The model of a session has all that the session has.
pub proof fn law_session_models(
    attempt: Attempt,
    user_name: String,
    public_key: PublicKey,
    authenticator_path: String,
    win_mnt: String,
    exit_code: Option<i32>,
    output: Vec<u8>,
    outcome: Result<i32, HelloAuthenticationError>,
)
    ensures
        attempt@.user_name == attempt.user_name@,
        attempt@.public_key == attempt.public_key@,
        attempt@.challenge == attempt.challenge@,
        Session::FindUser@ == SessionView::FindUser,
        (Session::ReadPublicKey { user_name })@ == (SessionView::ReadPublicKey { user_name: user_name@ }),
        (Session::DrawNonce { user_name, public_key })@ == (SessionView::DrawNonce {
            user_name: user_name@,
            public_key: public_key@,
        }),
        (Session::WriteChallenge { attempt })@ == (SessionView::WriteChallenge { attempt: attempt@ }),
        (Session::FindAuthenticator { attempt })@ == (SessionView::FindAuthenticator {
            attempt: attempt@,
        }),
        (Session::FindMount { attempt, authenticator_path })@ == (SessionView::FindMount {
            attempt: attempt@,
            authenticator_path: authenticator_path@,
        }),
        (Session::RunAuthenticator { attempt, authenticator_path, win_mnt })@ == (
        SessionView::RunAuthenticator {
            attempt: attempt@,
            authenticator_path: authenticator_path@,
            win_mnt: win_mnt@,
        }),
        (Session::RemoveChallenge { attempt, exit_code, output })@ == (SessionView::RemoveChallenge {
            attempt: attempt@,
            exit_code,
            output: output@,
        }),
        (Session::Finished { outcome })@ == (SessionView::Finished { outcome: viewed(outcome) }),
{
}

/// The model of an event has all that the event brings.
pub proof fn law_event_models(
    code: i32,
    name: Vec<u8>,
    error: IoError,
    text: String,
    drawn: Result<[u8; 32], HelloAuthenticationError>,
    result: Result<(), IoError>,
    config: Result<String, IoError>,
    exit_code: Option<i32>,
    output: Vec<u8>,
)
    ensures
        (Event::User { code, name: Some(name) })@ == (EventView::User { code, name: Some(name@) }),
        (Event::User { code, name: None })@ == (EventView::User { code, name: None }),
        (Event::PublicKeyOpenFailed { error })@ == (EventView::PublicKeyOpenFailed { error: error@ }),
        (Event::PublicKeyReadFailed { error })@ == (EventView::PublicKeyReadFailed { error: error@ }),
        (Event::PublicKeyRead { text })@ == (EventView::PublicKeyRead { text: text@ }),
        (Event::Nonce { drawn })@ == (EventView::Nonce { drawn: viewed(drawn) }),
        (Event::ChallengeWritten { result })@ == (EventView::ChallengeWritten {
            result: viewed(result),
        }),
        (Event::ConfigRead { config })@ == (EventView::ConfigRead { config: viewed(config) }),
        (Event::LaunchFailed { error })@ == (EventView::LaunchFailed { error: error@ }),
        (Event::ConnectionFailed { error })@ == (EventView::ConnectionFailed { error: error@ }),
        (Event::Exited { exit_code, output })@ == (EventView::Exited { exit_code, output: output@ }),
        (Event::ChallengeRemoved { result })@ == (EventView::ChallengeRemoved {
            result: viewed(result),
        }),
{
}

/// The models of an action and of an answer to PAM have all that these have.
pub proof fn law_action_models(
    path: String,
    contents: String,
    program: String,
    command: String,
    directory: String,
    code: i32,
)
    ensures
        (Action::GetUser { prompt: None })@ == (ActionView::GetUser { prompt: None }),
        (Action::GetUser { prompt: Some(contents) })@ == (ActionView::GetUser {
            prompt: Some(contents@),
        }),
        (Action::ReadPublicKey { path })@ == (ActionView::ReadPublicKey { path: path@ }),
        Action::DrawNonce@ == ActionView::DrawNonce,
        (Action::WriteChallenge { path, contents })@ == (ActionView::WriteChallenge {
            path: path@,
            contents: contents@,
        }),
        (Action::ReadConfig { path })@ == (ActionView::ReadConfig { path: path@ }),
        (Action::RunAuthenticator {
            program,
            command,
            credential_key_name: contents,
            directory,
            input: path,
        })@ == (ActionView::RunAuthenticator {
            program: program@,
            command: command@,
            credential_key_name: contents@,
            directory: directory@,
            input: path@,
        }),
        (Action::RemoveChallenge { path })@ == (ActionView::RemoveChallenge { path: path@ }),
        Action::Report@ == ActionView::Report,
        (PamReply { code, notice: None })@ == (PamReplyView { code, notice: None }),
        (PamReply { code, notice: Some(contents) })@ == (PamReplyView {
            code,
            notice: Some(contents@),
        }),
{
}

} // verus!
