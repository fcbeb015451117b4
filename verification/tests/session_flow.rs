use zkp_message_sender::Action;
use zkp_message_sender::RemoteEvent;
use zkp_message_sender::Session;
use zkp_message_sender::ZkpError;

#[test]
fn connect_failure_aborts_without_store_or_retrieve() {
    let mut session = Session::new();
    assert_eq!(session.next_action(), Action::Connect);
    let (line, is_err) = session.step(RemoteEvent::ConnectFailed("connection refused".to_string()));
    assert_eq!(line, "Failed to connect to API endpoint: connection refused");
    assert!(is_err);
    assert_eq!(session.next_action(), Action::Halt);
    assert_eq!(session.exit_code(), 1);
}

#[test]
fn accepted_store_then_retrieve() {
    let mut session = Session::new();
    let (line, is_err) = session.step(RemoteEvent::Connected("trin v0.1.0".to_string()));
    assert_eq!(line, "Connected to Ethereum node with client version: trin v0.1.0");
    assert!(!is_err);
    assert_eq!(session.next_action(), Action::Store);
    let (line, is_err) = session.step(RemoteEvent::StoreAccepted);
    assert_eq!(line, "ZKP successfully stored on the Ethereum node.");
    assert!(!is_err);
    assert_eq!(session.next_action(), Action::Retrieve);
    let (line, is_err) = session.step(RemoteEvent::Retrieved("Some(value)".to_string()));
    assert_eq!(line, "Retrieved ZKP from the Ethereum node: Some(value)");
    assert!(!is_err);
    assert_eq!(session.next_action(), Action::Halt);
    assert_eq!(session.exit_code(), 0);
}

#[test]
fn rejected_store_still_retrieves() {
    let mut session = Session::new();
    session.step(RemoteEvent::Connected("v".to_string()));
    let (line, is_err) = session.step(RemoteEvent::StoreRejected);
    assert_eq!(line, "Failed to store ZKP on the Ethereum node.");
    assert!(is_err);
    assert_eq!(session.next_action(), Action::Retrieve);
}

#[test]
fn failed_store_still_retrieves() {
    let mut session = Session::new();
    session.step(RemoteEvent::Connected("v".to_string()));
    let (line, is_err) = session.step(RemoteEvent::StoreFailed("timeout".to_string()));
    assert_eq!(line, "Error storing ZKP on the Ethereum node: timeout");
    assert!(is_err);
    assert_eq!(session.next_action(), Action::Retrieve);
}

#[test]
fn failed_retrieve_does_not_abort() {
    let mut session = Session::new();
    session.step(RemoteEvent::Connected("v".to_string()));
    session.step(RemoteEvent::StoreAccepted);
    let (line, is_err) = session.step(RemoteEvent::RetrieveFailed("timeout".to_string()));
    assert_eq!(line, "Error retrieving ZKP from the Ethereum node: timeout");
    assert!(is_err);
    assert_eq!(session.next_action(), Action::Halt);
    assert_eq!(session.exit_code(), 0);
}

#[test]
fn error_messages_render() {
    let e = ZkpError::SerializationError("bad record".to_string());
    assert_eq!(e.message(), "bad record");
    let e = ZkpError::ApiError("no route".to_string());
    assert_eq!(e.message(), "no route");
}
