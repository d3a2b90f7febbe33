use muxie::client::{
    after_daemon, attempt_open_via_daemon_or_fallback, classify_daemon_error, ClientError,
    ClientStep, MuxieClient,
};

struct OkClient;
impl MuxieClient for OkClient {
    fn open_url(&self, _url: &str) -> Result<(), ClientError> {
        Ok(())
    }
}

struct ErrClient;
impl MuxieClient for ErrClient {
    fn open_url(&self, _url: &str) -> Result<(), ClientError> {
        Err(ClientError::Failed("no daemon".to_string()))
    }
}

struct CancelClient;
impl MuxieClient for CancelClient {
    fn open_url(&self, _url: &str) -> Result<(), ClientError> {
        Err(ClientError::Canceled)
    }
}

#[test]
fn uses_daemon_when_available() {
    let client = OkClient;
    let mut fallback_called = false;
    let res = attempt_open_via_daemon_or_fallback(&client, "https://example.com", || {
        fallback_called = true;
        Ok(())
    });
    assert!(res.is_ok());
    assert!(!fallback_called);
}

#[test]
fn falls_back_when_daemon_unavailable() {
    let client = ErrClient;
    let mut fallback_called = false;
    let res = attempt_open_via_daemon_or_fallback(&client, "https://example.com", || {
        fallback_called = true;
        Ok(())
    });
    assert!(res.is_ok());
    assert!(fallback_called);
}

#[test]
fn cancellation_never_falls_back() {
    let mut fallback_called = false;
    let res = attempt_open_via_daemon_or_fallback(&CancelClient, "https://example.com", || {
        fallback_called = true;
        Ok(())
    });
    assert_eq!(res, Err(ClientError::Canceled));
    assert!(!fallback_called);
}

#[test]
fn daemon_errors_are_classified_by_marker() {
    assert_eq!(
        classify_daemon_error("org.freedesktop.DBus.Error.Failed: MUXIE:CANCELED"),
        ClientError::Canceled
    );
    assert_eq!(
        classify_daemon_error("no such name"),
        ClientError::Failed("no such name".to_string())
    );
    assert_eq!(after_daemon(&Ok(())), ClientStep::Done);
    assert_eq!(after_daemon(&Err(ClientError::Canceled)), ClientStep::Canceled);
    assert_eq!(after_daemon(&Err(ClientError::Failed("x".into()))), ClientStep::FallBack);
}
