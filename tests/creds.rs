use ample::creds::{
    api_secret_from_store, password_from_store, session_key_from_reply, session_source,
    CredsAttempt, CredsError, CredsEvent, CredsRetry, CredsStep, RetryAction, SecretLookup,
    SessionReply, SessionSource, API_KEY_VAR, PASSWORD_ENTRY_NAME, SECRET_ENTRY_NAME,
    SESSION_ENTRY_NAME, USERNAME_VAR,
};
use ample::lastfm::LastFmCreds;

fn creds() -> LastFmCreds {
    LastFmCreds {
        api_key: "K".to_owned(),
        api_secret: "secret".to_owned(),
        session_token: "S".to_owned(),
    }
}

fn transient() -> CredsError {
    CredsError::Transport("connection refused".to_owned())
}

/// Runs the retry loop over scripted attempt outcomes; returns the number of
/// backoffs taken, the attempts made and the final result.
fn run(attempts: usize, mut outcomes: Vec<Result<LastFmCreds, CredsError>>) -> (usize, usize, Result<LastFmCreds, CredsError>) {
    outcomes.reverse();
    let mut retry = CredsRetry::new(attempts);
    let mut backoffs = 0;
    let mut made = 0;
    let mut action = retry.start();
    loop {
        match action {
            RetryAction::Attempt => {
                made += 1;
                action = retry.on_outcome(outcomes.pop().expect("scripted outcome"));
            }
            RetryAction::Backoff => {
                backoffs += 1;
                made += 1;
                action = retry.on_outcome(outcomes.pop().expect("scripted outcome"));
            }
            RetryAction::Finish(result) => return (backoffs, made, result),
        }
    }
}

#[test]
fn retry_succeeds_after_three_transient_failures() {
    let outcomes = vec![Err(transient()), Err(transient()), Err(transient()), Ok(creds())];
    let (backoffs, made, result) = run(5, outcomes);
    assert_eq!(backoffs, 3);
    assert_eq!(made, 4);
    let c = result.expect("credentials");
    assert_eq!(c.session_token, "S");
}

#[test]
fn retry_exhausted_after_allowed_attempts() {
    let outcomes = vec![Err(transient()), Err(transient())];
    let (backoffs, made, result) = run(2, outcomes);
    assert_eq!(made, 2);
    assert_eq!(backoffs, 1);
    assert!(matches!(result, Err(CredsError::RetryExhausted(2))));
}

#[test]
fn server_errors_are_retried() {
    let outcomes = vec![Err(CredsError::Status(503)), Ok(creds())];
    let (backoffs, _, result) = run(3, outcomes);
    assert_eq!(backoffs, 1);
    assert!(result.is_ok());
}

#[test]
fn fatal_errors_are_not_retried() {
    let (backoffs, made, result) = run(5, vec![Err(CredsError::MissingPassword)]);
    assert_eq!((backoffs, made), (0, 1));
    assert!(matches!(result, Err(CredsError::MissingPassword)));
    let (_, made, result) = run(5, vec![Err(CredsError::Status(403))]);
    assert_eq!(made, 1);
    assert!(matches!(result, Err(CredsError::Status(403))));
    let (_, _, result) = run(5, vec![Err(CredsError::Env("AMPLE_API_KEY", "not present".to_owned()))]);
    assert!(matches!(result, Err(CredsError::Env(_, _))));
}

#[test]
fn no_attempts_allowed() {
    let (backoffs, made, result) = run(0, vec![]);
    assert_eq!((backoffs, made), (0, 0));
    assert!(matches!(result, Err(CredsError::RetryExhausted(0))));
}

#[test]
fn retryable_classification() {
    assert!(transient().is_retryable());
    assert!(CredsError::Status(500).is_retryable());
    assert!(CredsError::Status(599).is_retryable());
    assert!(!CredsError::Status(404).is_retryable());
    assert!(!CredsError::Malformed.is_retryable());
    assert!(!CredsError::Keyring("locked".to_owned()).is_retryable());
    assert!(!CredsError::MissingApiSecret.is_retryable());
    assert!(!CredsError::RetryExhausted(3).is_retryable());
}

#[test]
fn missing_store_entries_name_what_to_set() {
    assert!(matches!(password_from_store(SecretLookup::NoEntry), Err(CredsError::MissingPassword)));
    assert!(matches!(api_secret_from_store(SecretLookup::NoEntry), Err(CredsError::MissingApiSecret)));
    assert_eq!(password_from_store(SecretLookup::Found("pw".to_owned())).unwrap(), "pw");
    assert_eq!(api_secret_from_store(SecretLookup::Found("s".to_owned())).unwrap(), "s");
    assert!(matches!(
        password_from_store(SecretLookup::Failed("denied".to_owned())),
        Err(CredsError::Keyring(m)) if m == "denied"
    ));
    assert!(matches!(
        api_secret_from_store(SecretLookup::Failed("denied".to_owned())),
        Err(CredsError::Keyring(_))
    ));
}

#[test]
fn stored_session_used_else_requested() {
    assert!(matches!(session_source(SecretLookup::Found("tok".to_owned())), SessionSource::Stored(t) if t == "tok"));
    assert!(matches!(session_source(SecretLookup::NoEntry), SessionSource::Request));
    assert!(matches!(
        session_source(SecretLookup::Failed("x".to_owned())),
        SessionSource::Fail(CredsError::Keyring(_))
    ));
}

#[test]
fn session_reply_interpretation() {
    assert_eq!(
        session_key_from_reply(SessionReply::Answered(200, Some("key".to_owned()))).unwrap(),
        "key"
    );
    assert!(matches!(
        session_key_from_reply(SessionReply::Answered(200, None)),
        Err(CredsError::Malformed)
    ));
    assert!(matches!(
        session_key_from_reply(SessionReply::Answered(403, Some("key".to_owned()))),
        Err(CredsError::Status(403))
    ));
    assert!(matches!(
        session_key_from_reply(SessionReply::Answered(502, None)),
        Err(CredsError::Status(502))
    ));
    assert!(matches!(
        session_key_from_reply(SessionReply::NoAnswer("timeout".to_owned())),
        Err(CredsError::Transport(_))
    ));
}

fn found(s: &str) -> CredsEvent {
    CredsEvent::Secret(SecretLookup::Found(s.to_owned()))
}

/// Feeds events to a fresh attempt; returns the steps it asked for (the
/// first one included).
fn drive(events: Vec<CredsEvent>) -> (Vec<CredsStep>, CredsAttempt) {
    let (mut attempt, first) = CredsAttempt::new();
    let mut steps = vec![first];
    for ev in events {
        assert!(attempt.expects(&ev));
        steps.push(attempt.on_event(ev));
    }
    (steps, attempt)
}

#[test]
fn attempt_uses_stored_session_without_request() {
    let (steps, _) = drive(vec![
        CredsEvent::Env(Ok("K".to_owned())),
        CredsEvent::Env(Ok("U".to_owned())),
        found("P"),
        found("secret"),
        found("tok"),
    ]);
    assert!(matches!(steps[0], CredsStep::ReadEnv(n) if n == API_KEY_VAR));
    assert!(matches!(steps[1], CredsStep::ReadEnv(n) if n == USERNAME_VAR));
    assert!(matches!(steps[2], CredsStep::ReadSecret(n) if n == PASSWORD_ENTRY_NAME));
    assert!(matches!(steps[3], CredsStep::ReadSecret(n) if n == SECRET_ENTRY_NAME));
    assert!(matches!(steps[4], CredsStep::ReadSecret(n) if n == SESSION_ENTRY_NAME));
    match &steps[5] {
        CredsStep::Done(Ok(c)) => {
            assert_eq!((c.api_key.as_str(), c.api_secret.as_str(), c.session_token.as_str()), ("K", "secret", "tok"));
        }
        _ => panic!("expected credentials"),
    }
    assert!(!steps.iter().any(|s| matches!(s, CredsStep::PostSession(_) | CredsStep::StoreSecret(_, _))));
}

#[test]
fn attempt_requests_and_stores_new_session() {
    let (steps, _) = drive(vec![
        CredsEvent::Env(Ok("K".to_owned())),
        CredsEvent::Env(Ok("U".to_owned())),
        found("P"),
        found("secret"),
        CredsEvent::Secret(SecretLookup::NoEntry),
        CredsEvent::Reply(SessionReply::Answered(200, Some("newkey".to_owned()))),
        CredsEvent::Stored(Ok(())),
    ]);
    match &steps[5] {
        CredsStep::PostSession(form) => {
            let pairs: Vec<(&str, &str)> = form.iter().map(|(k, v)| (k.as_str(), v.as_str())).collect();
            assert_eq!(
                pairs,
                vec![
                    ("api_key", "K"),
                    ("method", "auth.getMobileSession"),
                    ("password", "P"),
                    ("username", "U"),
                    ("format", "json"),
                    ("api_sig", "18af7b526eaad344a43479582db64159"),
                ]
            );
        }
        _ => panic!("expected a session request"),
    }
    assert!(matches!(&steps[6], CredsStep::StoreSecret(n, v) if *n == SESSION_ENTRY_NAME && v == "newkey"));
    assert!(matches!(&steps[7], CredsStep::Done(Ok(c)) if c.session_token == "newkey"));
    let stores = steps.iter().filter(|s| matches!(s, CredsStep::StoreSecret(_, _))).count();
    assert_eq!(stores, 1);
}

#[test]
fn attempt_stops_at_first_failure() {
    let (steps, _) = drive(vec![CredsEvent::Env(Err("not present".to_owned()))]);
    assert!(matches!(&steps[1], CredsStep::Done(Err(CredsError::Env(n, _))) if *n == API_KEY_VAR));

    let (steps, _) = drive(vec![
        CredsEvent::Env(Ok("K".to_owned())),
        CredsEvent::Env(Err("bad".to_owned())),
    ]);
    assert!(matches!(&steps[2], CredsStep::Done(Err(CredsError::Env(n, _))) if *n == USERNAME_VAR));

    let (steps, _) = drive(vec![
        CredsEvent::Env(Ok("K".to_owned())),
        CredsEvent::Env(Ok("U".to_owned())),
        CredsEvent::Secret(SecretLookup::NoEntry),
    ]);
    assert!(matches!(&steps[3], CredsStep::Done(Err(CredsError::MissingPassword))));

    let (steps, _) = drive(vec![
        CredsEvent::Env(Ok("K".to_owned())),
        CredsEvent::Env(Ok("U".to_owned())),
        found("P"),
        CredsEvent::Secret(SecretLookup::NoEntry),
    ]);
    assert!(matches!(&steps[4], CredsStep::Done(Err(CredsError::MissingApiSecret))));
}

#[test]
fn attempt_reports_request_and_store_failures() {
    let prefix = || {
        vec![
            CredsEvent::Env(Ok("K".to_owned())),
            CredsEvent::Env(Ok("U".to_owned())),
            found("P"),
            found("secret"),
            CredsEvent::Secret(SecretLookup::NoEntry),
        ]
    };
    let mut events = prefix();
    events.push(CredsEvent::Reply(SessionReply::NoAnswer("timeout".to_owned())));
    let (steps, _) = drive(events);
    match &steps[6] {
        CredsStep::Done(Err(e)) => assert!(e.is_retryable()),
        _ => panic!("expected a transport failure"),
    }

    let mut events = prefix();
    events.push(CredsEvent::Reply(SessionReply::Answered(200, Some("k".to_owned()))));
    events.push(CredsEvent::Stored(Err("locked".to_owned())));
    let (steps, _) = drive(events);
    assert!(matches!(&steps[7], CredsStep::Done(Err(CredsError::Keyring(m))) if m == "locked"));
}

#[test]
fn attempt_rejects_out_of_turn_events() {
    let (attempt, _) = CredsAttempt::new();
    assert!(!attempt.expects(&found("x")));
    assert!(!attempt.expects(&CredsEvent::Stored(Ok(()))));
    assert!(attempt.expects(&CredsEvent::Env(Ok("K".to_owned()))));
}
