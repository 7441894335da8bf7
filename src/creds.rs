//! Credential resolution: what each secret-store lookup and each reply to the
//! session request means, and the bounded retry around the whole attempt.
use vstd::prelude::*;

use crate::lastfm::{
    is_error_status, session_map, session_request_form, signed_form_entries, LastFmCreds,
};
use crate::params::{text_pairs, Entry};

verus! {

/// Why credentials could not be had.
#[derive(Debug)]
pub enum CredsError {
    /// A required environment variable (its name) is missing or invalid (the reason).
    Env(&'static str, String),
    /// The secret store failed, for the given reason.
    Keyring(String),
    /// No password is stored yet.
    MissingPassword,
    /// No API secret is stored yet.
    MissingApiSecret,
    /// The session request did not reach the service, for the given reason.
    Transport(String),
    /// The service answered the session request with an error status.
    Status(u16),
    /// The reply to the session request did not hold a session key.
    Malformed,
    /// Every allowed attempt failed with a retryable error.
    RetryExhausted(usize),
}

/// Transport failures and server errors may go away on their own; all else is final.
pub open spec fn retryable(e: CredsError) -> bool {
    match e {
        CredsError::Transport(_) => true,
        CredsError::Status(s) => 500 <= s <= 599,
        _ => false,
    }
}

/// What a read of one secret-store entry gave.
#[derive(Debug)]
pub enum SecretLookup {
    Found(String),
    NoEntry,
    Failed(String),
}

/// What posting the session request gave: no answer (the reason), or an
/// answer with its status and, if the body held one, the session key.
#[derive(Debug)]
pub enum SessionReply {
    NoAnswer(String),
    Answered(u16, Option<String>),
}

/// Where the session token comes from.
#[derive(Debug)]
pub enum SessionSource {
    /// A token stored by an earlier run.
    Stored(String),
    /// None is stored: it has to be requested with the password.
    Request,
    /// The store failed.
    Fail(CredsError),
}

impl CredsError {
    /// Whether a later attempt may succeed.
    pub fn is_retryable(&self) -> (r: bool)
        ensures
            r == retryable(*self),
    {
        match self {
            CredsError::Transport(_) => true,
            CredsError::Status(s) => 500 <= *s && *s <= 599,
            _ => false,
        }
    }
}

/// The password from its store entry; a missing entry asks for it to be set.
pub fn password_from_store(lookup: SecretLookup) -> (r: Result<String, CredsError>)
    ensures
        match lookup {
            SecretLookup::Found(p) => r == Ok::<String, CredsError>(p),
            SecretLookup::NoEntry => r == Err::<String, CredsError>(CredsError::MissingPassword),
            SecretLookup::Failed(m) => r == Err::<String, CredsError>(CredsError::Keyring(m)),
        },
{
    match lookup {
        SecretLookup::Found(p) => Ok(p),
        SecretLookup::NoEntry => Err(CredsError::MissingPassword),
        SecretLookup::Failed(m) => Err(CredsError::Keyring(m)),
    }
}

/// The API secret from its store entry; a missing entry asks for it to be set.
pub fn api_secret_from_store(lookup: SecretLookup) -> (r: Result<String, CredsError>)
    ensures
        match lookup {
            SecretLookup::Found(s) => r == Ok::<String, CredsError>(s),
            SecretLookup::NoEntry => r == Err::<String, CredsError>(CredsError::MissingApiSecret),
            SecretLookup::Failed(m) => r == Err::<String, CredsError>(CredsError::Keyring(m)),
        },
{
    match lookup {
        SecretLookup::Found(s) => Ok(s),
        SecretLookup::NoEntry => Err(CredsError::MissingApiSecret),
        SecretLookup::Failed(m) => Err(CredsError::Keyring(m)),
    }
}

/// A stored session token is used as it is; without one it is requested.
pub fn session_source(lookup: SecretLookup) -> (r: SessionSource)
    ensures
        match lookup {
            SecretLookup::Found(t) => r == SessionSource::Stored(t),
            SecretLookup::NoEntry => r == SessionSource::Request,
            SecretLookup::Failed(m) => r == SessionSource::Fail(CredsError::Keyring(m)),
        },
{
    match lookup {
        SecretLookup::Found(t) => SessionSource::Stored(t),
        SecretLookup::NoEntry => SessionSource::Request,
        SecretLookup::Failed(m) => SessionSource::Fail(CredsError::Keyring(m)),
    }
}

/// The session key from the reply to the session request.
pub fn session_key_from_reply(reply: SessionReply) -> (r: Result<String, CredsError>)
    ensures
        match reply {
            SessionReply::NoAnswer(m) => r == Err::<String, CredsError>(CredsError::Transport(m)),
            SessionReply::Answered(status, key) => if 400 <= status <= 599 {
                r == Err::<String, CredsError>(CredsError::Status(status))
            } else {
                match key {
                    Some(k) => r == Ok::<String, CredsError>(k),
                    None => r == Err::<String, CredsError>(CredsError::Malformed),
                }
            },
        },
{
    match reply {
        SessionReply::NoAnswer(m) => Err(CredsError::Transport(m)),
        SessionReply::Answered(status, key) => {
            if is_error_status(status) {
                Err(CredsError::Status(status))
            } else {
                match key {
                    Some(k) => Ok(k),
                    None => Err(CredsError::Malformed),
                }
            }
        },
    }
}

/// What the caller does next while resolving credentials.
pub enum RetryAction {
    /// Make one attempt at resolving the credentials.
    Attempt,
    /// Wait one second, then make another attempt.
    Backoff,
    /// Stop, with this result.
    Finish(Result<LastFmCreds, CredsError>),
}

/// Bounded retry of credential resolution.
pub struct CredsRetry {
    attempts: usize,
    made: usize,
}

/// Environment variable holding the API key.
pub const API_KEY_VAR: &'static str = "AMPLE_API_KEY";

/// Environment variable holding the account name.
pub const USERNAME_VAR: &'static str = "AMPLE_USERNAME";

/// Secret-store entry of the account password.
pub const PASSWORD_ENTRY_NAME: &'static str = "amplePassword";

/// Secret-store entry of the API secret.
pub const SECRET_ENTRY_NAME: &'static str = "ampleSecret";

/// Secret-store entry of the session token.
pub const SESSION_ENTRY_NAME: &'static str = "ampleSession";

/// Outside work one credential attempt asks for, or its result.
pub enum CredsStep {
    /// Read this environment variable.
    ReadEnv(&'static str),
    /// Read this secret-store entry.
    ReadSecret(&'static str),
    /// Post this form to the service to obtain a session.
    PostSession(Vec<(String, String)>),
    /// Store this value under this secret-store entry.
    StoreSecret(&'static str, String),
    /// The attempt is over.
    Done(Result<LastFmCreds, CredsError>),
}

/// A step with its form as text.
pub enum StepView {
    ReadEnv(&'static str),
    ReadSecret(&'static str),
    PostSession(Seq<Entry>),
    StoreSecret(&'static str, String),
    Done(Result<LastFmCreds, CredsError>),
}

impl View for CredsStep {
    type V = StepView;

    open spec fn view(&self) -> StepView {
        match self {
            CredsStep::ReadEnv(n) => StepView::ReadEnv(*n),
            CredsStep::ReadSecret(n) => StepView::ReadSecret(*n),
            CredsStep::PostSession(f) => StepView::PostSession(text_pairs(f@)),
            CredsStep::StoreSecret(n, v) => StepView::StoreSecret(*n, *v),
            CredsStep::Done(r) => StepView::Done(*r),
        }
    }
}

/// The outcome of the outside work of a step.
pub enum CredsEvent {
    /// The variable's value, or why it could not be read.
    Env(Result<String, String>),
    Secret(SecretLookup),
    Reply(SessionReply),
    /// The value was stored, or why it could not be.
    Stored(Result<(), String>),
}

/// How far an attempt has come, with what it has gathered.
pub enum Stage {
    NeedApiKey,
    NeedUsername { api_key: String },
    NeedPassword { api_key: String, username: String },
    NeedSecret { api_key: String, username: String, password: String },
    NeedSession { api_key: String, username: String, password: String, secret: String },
    AwaitReply { api_key: String, secret: String },
    AwaitStore { api_key: String, secret: String, token: String },
    Finished,
}

/// Whether `ev` answers the step pending in `stage`.
pub open spec fn answers(stage: Stage, ev: CredsEvent) -> bool {
    match stage {
        Stage::NeedApiKey | Stage::NeedUsername { .. } => ev is Env,
        Stage::NeedPassword { .. } | Stage::NeedSecret { .. } | Stage::NeedSession { .. } => ev is Secret,
        Stage::AwaitReply { .. } => ev is Reply,
        Stage::AwaitStore { .. } => ev is Stored,
        Stage::Finished => false,
    }
}

/// The stage after the failure `e`, and the step that reports it.
pub open spec fn failed(e: CredsError) -> (Stage, StepView) {
    (Stage::Finished, StepView::Done(Err(e)))
}

/// One credential attempt: the API key and the account name from the
/// environment, the password and the API secret from the secret store, then a
/// stored session token, or else a new one requested with the password and
/// stored for later runs. Any failure ends the attempt.
pub open spec fn attempt_next(stage: Stage, ev: CredsEvent) -> (Stage, StepView) {
    match (stage, ev) {
        (Stage::NeedApiKey, CredsEvent::Env(r)) => match r {
            Ok(k) => (Stage::NeedUsername { api_key: k }, StepView::ReadEnv(USERNAME_VAR)),
            Err(why) => failed(CredsError::Env(API_KEY_VAR, why)),
        },
        (Stage::NeedUsername { api_key }, CredsEvent::Env(r)) => match r {
            Ok(u) => (
                Stage::NeedPassword { api_key, username: u },
                StepView::ReadSecret(PASSWORD_ENTRY_NAME),
            ),
            Err(why) => failed(CredsError::Env(USERNAME_VAR, why)),
        },
        (Stage::NeedPassword { api_key, username }, CredsEvent::Secret(l)) => match l {
            SecretLookup::Found(p) => (
                Stage::NeedSecret { api_key, username, password: p },
                StepView::ReadSecret(SECRET_ENTRY_NAME),
            ),
            SecretLookup::NoEntry => failed(CredsError::MissingPassword),
            SecretLookup::Failed(m) => failed(CredsError::Keyring(m)),
        },
        (Stage::NeedSecret { api_key, username, password }, CredsEvent::Secret(l)) => match l {
            SecretLookup::Found(sec) => (
                Stage::NeedSession { api_key, username, password, secret: sec },
                StepView::ReadSecret(SESSION_ENTRY_NAME),
            ),
            SecretLookup::NoEntry => failed(CredsError::MissingApiSecret),
            SecretLookup::Failed(m) => failed(CredsError::Keyring(m)),
        },
        (Stage::NeedSession { api_key, username, password, secret }, CredsEvent::Secret(l)) => match l {
            SecretLookup::Found(t) => (
                Stage::Finished,
                StepView::Done(Ok(LastFmCreds { api_key, api_secret: secret, session_token: t })),
            ),
            SecretLookup::NoEntry => (
                Stage::AwaitReply { api_key, secret },
                StepView::PostSession(
                    signed_form_entries(session_map(api_key@, username@, password@), secret@),
                ),
            ),
            SecretLookup::Failed(m) => failed(CredsError::Keyring(m)),
        },
        (Stage::AwaitReply { api_key, secret }, CredsEvent::Reply(r)) => match r {
            SessionReply::NoAnswer(m) => failed(CredsError::Transport(m)),
            SessionReply::Answered(status, key) => if 400 <= status <= 599 {
                failed(CredsError::Status(status))
            } else {
                match key {
                    Some(k) => (
                        Stage::AwaitStore { api_key, secret, token: k },
                        StepView::StoreSecret(SESSION_ENTRY_NAME, k),
                    ),
                    None => failed(CredsError::Malformed),
                }
            },
        },
        (Stage::AwaitStore { api_key, secret, token }, CredsEvent::Stored(r)) => match r {
            Ok(_) => (
                Stage::Finished,
                StepView::Done(Ok(LastFmCreds { api_key, api_secret: secret, session_token: token })),
            ),
            Err(m) => failed(CredsError::Keyring(m)),
        },
        (st, _) => (st, StepView::Done(Err(CredsError::Malformed))),
    }
}

/// The steps an attempt asks for when fed `events` in turn, stopping at the
/// first event that does not answer the pending step.
pub open spec fn attempt_run(stage: Stage, events: Seq<CredsEvent>) -> Seq<StepView>
    decreases events.len(),
{
    if events.len() == 0 || !answers(stage, events[0]) {
        seq![]
    } else {
        let (next, step) = attempt_next(stage, events[0]);
        seq![step] + attempt_run(next, events.drop_first())
    }
}

/// How many steps post a session request.
pub open spec fn request_count(steps: Seq<StepView>) -> nat
    decreases steps.len(),
{
    if steps.len() == 0 {
        0
    } else {
        (if steps[0] is PostSession { 1nat } else { 0nat }) + request_count(steps.drop_first())
    }
}

/// How many steps store a secret.
pub open spec fn store_count(steps: Seq<StepView>) -> nat
    decreases steps.len(),
{
    if steps.len() == 0 {
        0
    } else {
        (if steps[0] is StoreSecret { 1nat } else { 0nat }) + store_count(steps.drop_first())
    }
}

/// How far along an attempt a stage is.
pub open spec fn stage_rank(stage: Stage) -> nat {
    match stage {
        Stage::NeedApiKey => 0,
        Stage::NeedUsername { .. } => 1,
        Stage::NeedPassword { .. } => 2,
        Stage::NeedSecret { .. } => 3,
        Stage::NeedSession { .. } => 4,
        Stage::AwaitReply { .. } => 5,
        Stage::AwaitStore { .. } => 6,
        Stage::Finished => 7,
    }
}

proof fn lemma_attempt_progress(stage: Stage, events: Seq<CredsEvent>)
    ensures
        request_count(attempt_run(stage, events)) <= if stage_rank(stage) <= 4 {
            1nat
        } else {
            0nat
        },
        store_count(attempt_run(stage, events)) <= if stage_rank(stage) <= 5 {
            1nat
        } else {
            0nat
        },
        stage_rank(stage) <= 4 && store_count(attempt_run(stage, events)) > 0 ==> request_count(
            attempt_run(stage, events),
        ) > 0,
    decreases events.len(),
{
    if events.len() > 0 && answers(stage, events[0]) {
        let (next, step) = attempt_next(stage, events[0]);
        let rest = attempt_run(next, events.drop_first());
        lemma_attempt_progress(next, events.drop_first());
        assert(stage_rank(next) > stage_rank(stage));
        assert((seq![step] + rest).drop_first() =~= rest);
        assert((seq![step] + rest)[0] == step);
        assert(step is PostSession ==> stage is NeedSession);
        assert(step is StoreSecret ==> stage is AwaitReply);
        assert(step is PostSession ==> next is AwaitReply);
    }
}

/// One attempt posts the session request at most once and stores the session
/// token at most once, and stores it only after having posted the request: a
/// token already in the store is used as it is.
pub proof fn lemma_session_stored_at_most_once(events: Seq<CredsEvent>)
    ensures
        request_count(attempt_run(Stage::NeedApiKey, events)) <= 1,
        store_count(attempt_run(Stage::NeedApiKey, events)) <= 1,
        store_count(attempt_run(Stage::NeedApiKey, events)) > 0 ==> request_count(
            attempt_run(Stage::NeedApiKey, events),
        ) > 0,
{
    lemma_attempt_progress(Stage::NeedApiKey, events);
}

/// One credential attempt, driven by the outcomes of the steps it asks for.
pub struct CredsAttempt {
    stage: Stage,
}

impl CredsAttempt {
    pub closed spec fn stage(&self) -> Stage {
        self.stage
    }

    /// A fresh attempt, and its first step.
    pub fn new() -> (r: (CredsAttempt, CredsStep))
        ensures
            r.0.stage() == Stage::NeedApiKey,
            r.1@ == StepView::ReadEnv(API_KEY_VAR),
    {
        (CredsAttempt { stage: Stage::NeedApiKey }, CredsStep::ReadEnv(API_KEY_VAR))
    }

    /// Whether `ev` answers the pending step.
    pub fn expects(&self, ev: &CredsEvent) -> (r: bool)
        ensures
            r == answers(self.stage(), *ev),
    {
        match (&self.stage, ev) {
            (Stage::NeedApiKey, CredsEvent::Env(_)) => true,
            (Stage::NeedUsername { .. }, CredsEvent::Env(_)) => true,
            (Stage::NeedPassword { .. }, CredsEvent::Secret(_)) => true,
            (Stage::NeedSecret { .. }, CredsEvent::Secret(_)) => true,
            (Stage::NeedSession { .. }, CredsEvent::Secret(_)) => true,
            (Stage::AwaitReply { .. }, CredsEvent::Reply(_)) => true,
            (Stage::AwaitStore { .. }, CredsEvent::Stored(_)) => true,
            _ => false,
        }
    }

    /// Takes the outcome of the pending step and gives the next one.
    pub fn on_event(&mut self, ev: CredsEvent) -> (step: CredsStep)
        requires
            answers(old(self).stage(), ev),
        ensures
            (final(self).stage(), step@) == attempt_next(old(self).stage(), ev),
    {
        let mut stage = Stage::Finished;
        std::mem::swap(&mut stage, &mut self.stage);
        match (stage, ev) {
            (Stage::NeedApiKey, CredsEvent::Env(r)) => match r {
                Ok(k) => {
                    self.stage = Stage::NeedUsername { api_key: k };
                    CredsStep::ReadEnv(USERNAME_VAR)
                },
                Err(why) => CredsStep::Done(Err(CredsError::Env(API_KEY_VAR, why))),
            },
            (Stage::NeedUsername { api_key }, CredsEvent::Env(r)) => match r {
                Ok(u) => {
                    self.stage = Stage::NeedPassword { api_key, username: u };
                    CredsStep::ReadSecret(PASSWORD_ENTRY_NAME)
                },
                Err(why) => CredsStep::Done(Err(CredsError::Env(USERNAME_VAR, why))),
            },
            (Stage::NeedPassword { api_key, username }, CredsEvent::Secret(l)) => {
                match password_from_store(l) {
                    Ok(p) => {
                        self.stage = Stage::NeedSecret { api_key, username, password: p };
                        CredsStep::ReadSecret(SECRET_ENTRY_NAME)
                    },
                    Err(e) => CredsStep::Done(Err(e)),
                }
            },
            (Stage::NeedSecret { api_key, username, password }, CredsEvent::Secret(l)) => {
                match api_secret_from_store(l) {
                    Ok(sec) => {
                        self.stage = Stage::NeedSession { api_key, username, password, secret: sec };
                        CredsStep::ReadSecret(SESSION_ENTRY_NAME)
                    },
                    Err(e) => CredsStep::Done(Err(e)),
                }
            },
            (Stage::NeedSession { api_key, username, password, secret }, CredsEvent::Secret(l)) => {
                match session_source(l) {
                    SessionSource::Stored(t) => CredsStep::Done(
                        Ok(LastFmCreds { api_key, api_secret: secret, session_token: t }),
                    ),
                    SessionSource::Request => {
                        let form = session_request_form(
                            api_key.as_str(),
                            username.as_str(),
                            password.as_str(),
                            secret.as_str(),
                        );
                        self.stage = Stage::AwaitReply { api_key, secret };
                        CredsStep::PostSession(form)
                    },
                    SessionSource::Fail(e) => CredsStep::Done(Err(e)),
                }
            },
            (Stage::AwaitReply { api_key, secret }, CredsEvent::Reply(r)) => {
                match session_key_from_reply(r) {
                    Ok(k) => {
                        let stored = k.clone();
                        self.stage = Stage::AwaitStore { api_key, secret, token: k };
                        CredsStep::StoreSecret(SESSION_ENTRY_NAME, stored)
                    },
                    Err(e) => CredsStep::Done(Err(e)),
                }
            },
            (Stage::AwaitStore { api_key, secret, token }, CredsEvent::Stored(r)) => match r {
                Ok(_) => CredsStep::Done(
                    Ok(LastFmCreds { api_key, api_secret: secret, session_token: token }),
                ),
                Err(m) => CredsStep::Done(Err(CredsError::Keyring(m))),
            },
            (st, _) => {
                self.stage = st;
                CredsStep::Done(Err(CredsError::Malformed))
            },
        }
    }
}

/// What follows the outcome of an attempt, when `made` attempts had already
/// been made out of `attempts` allowed.
pub open spec fn retry_decision(attempts: nat, made: nat, outcome: Result<LastFmCreds, CredsError>) -> RetryAction {
    match outcome {
        Ok(c) => RetryAction::Finish(Ok(c)),
        Err(e) => if !retryable(e) {
            RetryAction::Finish(Err(e))
        } else if made + 1 < attempts {
            RetryAction::Backoff
        } else {
            RetryAction::Finish(Err(CredsError::RetryExhausted(attempts as usize)))
        },
    }
}

/// Feeding attempt outcomes in turn, from `made` attempts already made: how
/// many backoffs are taken, and the result once the loop finishes (none if
/// the outcomes run out first).
pub open spec fn retry_run(
    attempts: nat,
    made: nat,
    outcomes: Seq<Result<LastFmCreds, CredsError>>,
) -> (nat, Option<Result<LastFmCreds, CredsError>>)
    decreases outcomes.len(),
{
    if outcomes.len() == 0 {
        (0, None)
    } else {
        match retry_decision(attempts, made, outcomes[0]) {
            RetryAction::Finish(r) => (0, Some(r)),
            _ => {
                let rest = retry_run(attempts, made + 1, outcomes.drop_first());
                (rest.0 + 1, rest.1)
            },
        }
    }
}

/// Failed attempt outcomes, one per error.
pub open spec fn failed_attempts(errors: Seq<CredsError>) -> Seq<Result<LastFmCreds, CredsError>> {
    errors.map_values(|e: CredsError| Err::<LastFmCreds, CredsError>(e))
}

proof fn lemma_retry_then_success(
    attempts: nat,
    made: nat,
    failures: Seq<CredsError>,
    creds: LastFmCreds,
)
    requires
        forall|i: int| 0 <= i < failures.len() ==> retryable(#[trigger] failures[i]),
        made + failures.len() < attempts,
    ensures
        retry_run(attempts, made, failed_attempts(failures).push(Ok(creds))) == (
            failures.len(),
            Some(Ok::<LastFmCreds, CredsError>(creds)),
        ),
    decreases failures.len(),
{
    let outcomes = failed_attempts(failures).push(Ok(creds));
    if failures.len() > 0 {
        assert(retryable(failures[0]));
        assert(outcomes[0] == Err::<LastFmCreds, CredsError>(failures[0]));
        let rest = failures.drop_first();
        assert forall|i: int| 0 <= i < rest.len() implies retryable(#[trigger] rest[i]) by {
            assert(rest[i] == failures[i + 1]);
        }
        assert(outcomes.drop_first() =~= failed_attempts(rest).push(Ok(creds)));
        lemma_retry_then_success(attempts, made + 1, rest, creds);
    } else {
        assert(outcomes[0] == Ok::<LastFmCreds, CredsError>(creds));
    }
}

proof fn lemma_retry_exhausted(attempts: nat, made: nat, failures: Seq<CredsError>)
    requires
        forall|i: int| 0 <= i < failures.len() ==> retryable(#[trigger] failures[i]),
        made < attempts <= made + failures.len(),
    ensures
        retry_run(attempts, made, failed_attempts(failures)) == (
            (attempts - made - 1) as nat,
            Some(Err::<LastFmCreds, CredsError>(CredsError::RetryExhausted(attempts as usize))),
        ),
    decreases failures.len(),
{
    let outcomes = failed_attempts(failures);
    assert(retryable(failures[0]));
    assert(outcomes[0] == Err::<LastFmCreds, CredsError>(failures[0]));
    if made + 1 < attempts {
        let rest = failures.drop_first();
        assert forall|i: int| 0 <= i < rest.len() implies retryable(#[trigger] rest[i]) by {
            assert(rest[i] == failures[i + 1]);
        }
        assert(outcomes.drop_first() =~= failed_attempts(rest));
        lemma_retry_exhausted(attempts, made + 1, rest);
    }
}

/// Bounded retry: after retryable failures, a success is reached with one
/// backoff per failure when the failures are fewer than the attempts
/// allowed; otherwise the loop stops after the allowed attempts, with one
/// backoff between each two of them, and reports that it is exhausted.
pub proof fn lemma_retry_bounded(attempts: nat, failures: Seq<CredsError>, creds: LastFmCreds)
    requires
        forall|i: int| 0 <= i < failures.len() ==> retryable(#[trigger] failures[i]),
    ensures
        failures.len() < attempts ==> retry_run(
            attempts,
            0,
            failed_attempts(failures).push(Ok(creds)),
        ) == (failures.len(), Some(Ok::<LastFmCreds, CredsError>(creds))),
        0 < attempts <= failures.len() ==> retry_run(attempts, 0, failed_attempts(failures)) == (
            (attempts - 1) as nat,
            Some(Err::<LastFmCreds, CredsError>(CredsError::RetryExhausted(attempts as usize))),
        ),
{
    if failures.len() < attempts {
        lemma_retry_then_success(attempts, 0, failures, creds);
    }
    if 0 < attempts <= failures.len() {
        lemma_retry_exhausted(attempts, 0, failures);
    }
}

impl CredsRetry {
    pub closed spec fn attempts(&self) -> nat {
        self.attempts as nat
    }

    pub closed spec fn made(&self) -> nat {
        self.made as nat
    }

    /// At most `attempts` attempts, none made yet.
    pub fn new(attempts: usize) -> (r: CredsRetry)
        ensures
            r.attempts() == attempts,
            r.made() == 0,
    {
        CredsRetry { attempts, made: 0 }
    }

    /// The first step: an attempt, unless none is allowed.
    pub fn start(&self) -> (a: RetryAction)
        ensures
            a == (if self.made() < self.attempts() {
                RetryAction::Attempt
            } else {
                RetryAction::Finish(Err(CredsError::RetryExhausted(self.attempts() as usize)))
            }),
    {
        if self.made < self.attempts {
            RetryAction::Attempt
        } else {
            RetryAction::Finish(Err(CredsError::RetryExhausted(self.attempts)))
        }
    }

    /// Takes the outcome of an attempt and says what follows; after
    /// `Backoff` the caller waits one second and makes another attempt.
    pub fn on_outcome(&mut self, outcome: Result<LastFmCreds, CredsError>) -> (a: RetryAction)
        ensures
            final(self).attempts() == old(self).attempts(),
            final(self).made() == if old(self).made() < old(self).attempts() {
                old(self).made() + 1
            } else {
                old(self).made()
            },
            a == retry_decision(old(self).attempts(), old(self).made(), outcome),
    {
        if self.made < self.attempts {
            self.made = self.made + 1;
        }
        match outcome {
            Ok(c) => RetryAction::Finish(Ok(c)),
            Err(e) => {
                if !e.is_retryable() {
                    RetryAction::Finish(Err(e))
                } else if self.made < self.attempts {
                    RetryAction::Backoff
                } else {
                    RetryAction::Finish(Err(CredsError::RetryExhausted(self.attempts)))
                }
            },
        }
    }
}

} // verus!
