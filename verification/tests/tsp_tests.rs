use openmcp::auth::{KeyVerifier, TspKeyVerifier};
use openmcp::tsp::{ListenerAction, RelationStatus, RelationStore, TrustEndpoint, TspMessage};

#[test]
fn fresh_store_reports_unrelated() {
    let mut store = RelationStore::new();
    store.register_identity("did:example:self".to_string());
    let st = store.relation_status("did:example:self", "did:example:peer1");
    assert_eq!(st, Ok(RelationStatus::Unrelated));
}

#[test]
fn unregistered_identity_is_an_error() {
    let store = RelationStore::new();
    let st = store.relation_status("did:example:self", "did:example:peer1");
    assert!(st.is_err());
}

#[test]
fn request_is_recorded_and_accepted() {
    let mut ep = TrustEndpoint::new("did:example:self".to_string());
    let msg = TspMessage::RequestRelationship {
        sender: "did:example:peer1".to_string(),
        thread_id: "thread-1".to_string(),
    };
    let act = ep.handle_message(&msg);
    match act {
        ListenerAction::SendAccept {
            receiver,
            thread_id,
        } => {
            assert_eq!(receiver, "did:example:peer1");
            assert_eq!(thread_id, "thread-1");
        }
        ListenerAction::Ignore => panic!("a relationship request must be accepted"),
    }
    let st = ep
        .store
        .relation_status("did:example:self", "did:example:peer1");
    assert_eq!(st, Ok(RelationStatus::Pending));
}

#[test]
fn other_messages_are_ignored() {
    let mut ep = TrustEndpoint::new("did:example:self".to_string());
    let act = ep.handle_message(&TspMessage::Other);
    assert!(matches!(act, ListenerAction::Ignore));
    let st = ep
        .store
        .relation_status("did:example:self", "did:example:peer1");
    assert_eq!(st, Ok(RelationStatus::Unrelated));
}

#[test]
fn relationship_becomes_verifiable_once_bidirectional() {
    // A peer with no prior relationship is denied; after the endpoint
    // handles its request and the peer's own side completes the accept
    // exchange (set directly here), the same peer is allowed.
    let mut ep = TrustEndpoint::new("did:example:self".to_string());
    let v0 = TspKeyVerifier::new(ep.store.clone(), "did:example:self".to_string());
    assert_eq!(
        v0.verify("did:example:peer1").unwrap_err(),
        "Relation is not bidirectional"
    );

    let msg = TspMessage::RequestRelationship {
        sender: "did:example:peer1".to_string(),
        thread_id: "thread-1".to_string(),
    };
    ep.handle_message(&msg);
    let v1 = TspKeyVerifier::new(ep.store.clone(), "did:example:self".to_string());
    assert_eq!(
        v1.verify("did:example:peer1").unwrap_err(),
        "Relation is not bidirectional"
    );

    ep.store.set_bidirectional("did:example:peer1");
    let v2 = TspKeyVerifier::new(ep.store.clone(), "did:example:self".to_string());
    assert!(v2.verify("did:example:peer1").is_ok());
}

#[test]
fn repeated_request_makes_one_progression() {
    // Two identical requests with the same correlation identifier: the
    // second changes nothing a verifier observes, and repeated verification
    // answers the same.
    let mut ep = TrustEndpoint::new("did:example:self".to_string());
    let msg = TspMessage::RequestRelationship {
        sender: "did:example:peer1".to_string(),
        thread_id: "thread-1".to_string(),
    };
    let first = ep.handle_message(&msg);
    assert!(matches!(first, ListenerAction::SendAccept { .. }));
    let status_after_first = ep
        .store
        .relation_status("did:example:self", "did:example:peer1");

    let second = ep.handle_message(&msg);
    assert!(matches!(second, ListenerAction::SendAccept { .. }));
    let status_after_second = ep
        .store
        .relation_status("did:example:self", "did:example:peer1");
    assert_eq!(status_after_first, status_after_second);

    let v = TspKeyVerifier::new(ep.store.clone(), "did:example:self".to_string());
    let a = v.verify("did:example:peer1").is_ok();
    let b = v.verify("did:example:peer1").is_ok();
    assert_eq!(a, b);
}

#[test]
fn repeated_request_does_not_downgrade_bidirectional() {
    let mut ep = TrustEndpoint::new("did:example:self".to_string());
    ep.store.set_bidirectional("did:example:peer1");
    let msg = TspMessage::RequestRelationship {
        sender: "did:example:peer1".to_string(),
        thread_id: "thread-2".to_string(),
    };
    ep.handle_message(&msg);
    let st = ep
        .store
        .relation_status("did:example:self", "did:example:peer1");
    assert_eq!(st, Ok(RelationStatus::Bidirectional));
}

#[test]
fn statuses_are_tracked_per_peer() {
    let mut ep = TrustEndpoint::new("did:example:self".to_string());
    ep.store.record_request("did:example:peer1");
    ep.store.set_bidirectional("did:example:peer2");
    assert_eq!(
        ep.store.relation_status("did:example:self", "did:example:peer1"),
        Ok(RelationStatus::Pending)
    );
    assert_eq!(
        ep.store.relation_status("did:example:self", "did:example:peer2"),
        Ok(RelationStatus::Bidirectional)
    );
    assert_eq!(
        ep.store.relation_status("did:example:self", "did:example:peer3"),
        Ok(RelationStatus::Unrelated)
    );
}
