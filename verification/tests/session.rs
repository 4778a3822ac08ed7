use mail_cli::errors::{MailError, SessionFailure};
use mail_cli::session::{SessionAction, SessionEstablisher, SessionEvent, SessionPhase, xoauth2_string};
use mail_cli::store_accounts::{StoredAccountData, StoredAccounts};

fn fresh_store() -> StoredAccounts {
    let mut store = StoredAccounts::new();
    store.insert(
        String::from("alice@example.com"),
        StoredAccountData::new(String::from("old-access"), String::from("the-refresh")),
    );
    store
}

fn establisher() -> SessionEstablisher {
    SessionEstablisher::new(
        String::from("alice@example.com"),
        &StoredAccountData::new(String::from("old-access"), String::from("the-refresh")),
    )
}

#[test]
fn xoauth2_exchange_string() {
    assert_eq!(
        xoauth2_string("u@x", "tok"),
        "user=u@x\u{1}auth=Bearer tok\u{1}\u{1}"
    );
}

#[test]
fn direct_open_succeeds() {
    let mut store = fresh_store();
    let mut est = establisher();
    match est.initial_action() {
        SessionAction::OpenSession(user, token) => {
            assert_eq!(user, "alice@example.com");
            assert_eq!(token, "old-access");
        }
        other => panic!("unexpected action {other:?}"),
    }
    let a = est.step(&mut store, SessionEvent::OpenSucceeded);
    assert!(matches!(a, SessionAction::Established));
    assert_eq!(est.phase(), SessionPhase::Done);
    // The store was never touched.
    let got = store.get(&String::from("alice@example.com")).unwrap();
    assert_eq!(got.access_token, "old-access");
}

#[test]
fn refresh_persists_before_retry() {
    let mut store = fresh_store();
    let mut est = establisher();

    let a1 = est.step(&mut store, SessionEvent::OpenFailed);
    match a1 {
        SessionAction::RefreshToken(refresh) => assert_eq!(refresh, "the-refresh"),
        other => panic!("unexpected action {other:?}"),
    }

    let a2 = est.step(
        &mut store,
        SessionEvent::RefreshSucceeded(String::from("new-access")),
    );
    assert!(matches!(a2, SessionAction::PersistCredentials));
    // The store reflects the new access token before any retry is issued,
    // and the refresh token is unchanged.
    let got = store.get(&String::from("alice@example.com")).unwrap();
    assert_eq!(got.access_token, "new-access");
    assert_eq!(got.refresh_token, "the-refresh");

    let a3 = est.step(&mut store, SessionEvent::PersistSucceeded);
    match a3 {
        SessionAction::OpenSession(user, token) => {
            assert_eq!(user, "alice@example.com");
            assert_eq!(token, "new-access");
        }
        other => panic!("unexpected action {other:?}"),
    }

    let a4 = est.step(&mut store, SessionEvent::OpenSucceeded);
    assert!(matches!(a4, SessionAction::Established));
    assert_eq!(est.phase(), SessionPhase::Done);
}

#[test]
fn refresh_failure_is_terminal_and_keeps_the_store() {
    let mut store = fresh_store();
    let mut est = establisher();

    let _ = est.step(&mut store, SessionEvent::OpenFailed);
    let a = est.step(&mut store, SessionEvent::RefreshFailed(Some(400)));
    match a {
        SessionAction::Fail(MailError::SessionEstablishmentFailed(
            SessionFailure::RefreshRejected(status),
        )) => assert_eq!(status, Some(400)),
        other => panic!("unexpected action {other:?}"),
    }
    assert_eq!(est.phase(), SessionPhase::Failed);
    let got = store.get(&String::from("alice@example.com")).unwrap();
    assert_eq!(got.access_token, "old-access");
    assert_eq!(got.refresh_token, "the-refresh");
}

#[test]
fn persist_failure_is_terminal() {
    let mut store = fresh_store();
    let mut est = establisher();

    let _ = est.step(&mut store, SessionEvent::OpenFailed);
    let _ = est.step(
        &mut store,
        SessionEvent::RefreshSucceeded(String::from("new-access")),
    );
    let a = est.step(&mut store, SessionEvent::PersistFailed);
    assert!(matches!(
        a,
        SessionAction::Fail(MailError::StoragePersistFailed)
    ));
    assert_eq!(est.phase(), SessionPhase::Failed);
}

#[test]
fn retry_failure_is_terminal() {
    let mut store = fresh_store();
    let mut est = establisher();

    let _ = est.step(&mut store, SessionEvent::OpenFailed);
    let _ = est.step(
        &mut store,
        SessionEvent::RefreshSucceeded(String::from("new-access")),
    );
    let _ = est.step(&mut store, SessionEvent::PersistSucceeded);
    let a = est.step(&mut store, SessionEvent::OpenFailed);
    assert!(matches!(
        a,
        SessionAction::Fail(MailError::SessionEstablishmentFailed(
            SessionFailure::RetryFailed
        ))
    ));
    assert_eq!(est.phase(), SessionPhase::Failed);
    // The refreshed credential stays persisted even though the retry failed.
    let got = store.get(&String::from("alice@example.com")).unwrap();
    assert_eq!(got.access_token, "new-access");
}
