use ssh_honeypot::AddressError;
use ssh_honeypot::AuthMethod;
use ssh_honeypot::ConnectionSession;
use ssh_honeypot::Decision;
use ssh_honeypot::ServerCoordinator;
use ssh_honeypot::StorageError;

fn session_at(address: &str, port: u16) -> ConnectionSession {
    let mut coordinator = ServerCoordinator::new(port);
    let (session, _event) = coordinator
        .on_new_connection(Some(address.to_string()))
        .unwrap();
    session
}

#[test]
fn connection_event_carries_address_and_configured_port() {
    let mut coordinator = ServerCoordinator::new(2222);
    let (session, event) = coordinator
        .on_new_connection(Some("203.0.113.5".to_string()))
        .unwrap();
    assert_eq!(event.client_address, "203.0.113.5");
    assert_eq!(event.listen_port, 2222);
    assert_eq!(session.client_address, "203.0.113.5");
    assert_eq!(session.listen_port, 2222);
}

#[test]
fn password_attempt_is_captured_then_denied() {
    let session = session_at("203.0.113.5", 2222);
    let record = session.on_password_auth("root".to_string(), "toor".to_string());
    assert_eq!(record.client_address, "203.0.113.5");
    assert_eq!(record.listen_port, 2222);
    assert_eq!(record.method, AuthMethod::Password);
    assert_eq!(record.username, "root");
    assert_eq!(record.secret, "toor");
    assert_eq!(session.finish_auth(&Ok(())), Decision::Deny);
}

#[test]
fn empty_credentials_are_still_captured_and_denied() {
    let session = session_at("198.51.100.9", 22);
    let record = session.on_password_auth(String::new(), String::new());
    assert_eq!(record.method, AuthMethod::Password);
    assert_eq!(record.username, "");
    assert_eq!(record.secret, "");
    assert_eq!(session.finish_auth(&Ok(())), Decision::Deny);
}

#[test]
fn none_attempt_has_empty_secret() {
    let session = session_at("203.0.113.5", 2222);
    let record = session.on_none_auth("guest".to_string());
    assert_eq!(record.client_address, "203.0.113.5");
    assert_eq!(record.listen_port, 2222);
    assert_eq!(record.method, AuthMethod::NoAuth);
    assert_eq!(record.username, "guest");
    assert_eq!(record.secret, "");
    assert_eq!(session.finish_auth(&Ok(())), Decision::Deny);
}

#[test]
fn interactive_attempt_is_denied_without_a_record() {
    let session = session_at("203.0.113.5", 2222);
    assert_eq!(
        session.on_interactive_auth("root", "pam", None),
        Decision::Deny
    );
    assert_eq!(
        session.on_interactive_auth("", "", Some("earlier answers")),
        Decision::Deny
    );
}

#[test]
fn storage_failure_never_changes_the_decision() {
    let session = session_at("203.0.113.5", 2222);
    let _record = session.on_password_auth("root".to_string(), "hunter2".to_string());
    assert_eq!(
        session.finish_auth(&Err(StorageError::Unreachable)),
        Decision::Deny
    );
    assert_eq!(
        session.finish_auth(&Err(StorageError::WriteRejected)),
        Decision::Deny
    );
    assert_eq!(session.finish_auth(&Ok(())), Decision::Deny);
}

#[test]
fn missing_address_refuses_a_session() {
    let mut coordinator = ServerCoordinator::new(2222);
    let refused = coordinator.on_new_connection(None);
    assert_eq!(refused.unwrap_err(), AddressError::Missing);
}

#[test]
fn empty_address_refuses_a_session() {
    let mut coordinator = ServerCoordinator::new(2222);
    let refused = coordinator.on_new_connection(Some(String::new()));
    assert_eq!(refused.unwrap_err(), AddressError::Empty);
}

#[test]
fn each_connection_gets_a_fresh_session_identity() {
    let mut coordinator = ServerCoordinator::new(2222);
    let (first, _) = coordinator
        .on_new_connection(Some("203.0.113.5".to_string()))
        .unwrap();
    let (second, _) = coordinator
        .on_new_connection(Some("203.0.113.6".to_string()))
        .unwrap();
    assert_ne!(first.session_id, second.session_id);
    let refused = coordinator.on_new_connection(None);
    assert!(refused.is_err());
    let (third, _) = coordinator
        .on_new_connection(Some("203.0.113.7".to_string()))
        .unwrap();
    assert_ne!(second.session_id, third.session_id);
}

#[test]
fn method_names_match_the_storage_schema() {
    assert_eq!(AuthMethod::Password.name(), "password");
    assert_eq!(AuthMethod::PublicKey.name(), "publickey");
    assert_eq!(AuthMethod::NoAuth.name(), "none");
}
