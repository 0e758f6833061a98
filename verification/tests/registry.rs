use messenger::error::{BrokerError, StatusCode};
use messenger::message::Message;
use messenger::registry::{Occupancy, Registry};
use messenger::router::route;

fn note(sender: &str, recipient: &str, content: &str) -> Message {
    Message::new(sender.to_string(), recipient.to_string(), content.to_string(), 0)
}

#[test]
fn new_registry_has_no_sessions() {
    let registry = Registry::new();
    assert!(registry.lookup("alice").is_none());
    assert_eq!(registry.occupancy("alice"), Occupancy::Vacant);
}

#[test]
fn register_enters_the_nickname() {
    let mut registry = Registry::new();
    let session = registry.register("alice").unwrap();
    assert_eq!(session.nickname(), "alice");
    assert!(registry.lookup("alice").is_some());
    assert!(registry.lookup("bob").is_none());
    assert_eq!(registry.occupancy("alice"), Occupancy::Live);
}

#[test]
fn register_twice_while_first_is_connected_fails() {
    let mut registry = Registry::new();
    let first = registry.register("alice");
    assert!(first.is_ok());
    let second = registry.register("alice");
    match second {
        Err(error) => {
            assert_eq!(error, BrokerError::AlreadyActive);
            assert_eq!(error.status(), StatusCode::AlreadyExists);
        }
        Ok(_) => panic!("a second session was accepted"),
    }
    // the first session still receives
    assert!(route(&registry, &note("bob", "alice", "hi")).is_ok());
    let mut inbound = first.unwrap().into_inbound();
    assert_eq!(inbound.try_recv().unwrap().content, "hi");
}

#[test]
fn register_after_disconnect_evicts_the_stale_session() {
    let mut registry = Registry::new();
    let first = registry.register("alice").unwrap();
    drop(first);
    assert_eq!(registry.occupancy("alice"), Occupancy::Stale);
    let second = registry.register("alice").unwrap();
    assert_eq!(registry.occupancy("alice"), Occupancy::Live);
    assert!(route(&registry, &note("bob", "alice", "again")).is_ok());
    let mut inbound = second.into_inbound();
    assert_eq!(inbound.try_recv().unwrap().content, "again");
}

#[test]
fn stale_session_lingers_until_the_nickname_registers_again() {
    let mut registry = Registry::new();
    drop(registry.register("alice").unwrap());
    let _bob = registry.register("bob").unwrap();
    assert!(registry.lookup("alice").is_some());
    assert_eq!(registry.occupancy("alice"), Occupancy::Stale);
}

#[test]
fn closed_stream_counts_as_stale() {
    let mut registry = Registry::new();
    let mut inbound = registry.register("alice").unwrap().into_inbound();
    inbound.close();
    assert_eq!(registry.occupancy("alice"), Occupancy::Stale);
    assert!(registry.register("alice").is_ok());
}

#[test]
fn claim_against_live_session_changes_nothing() {
    let mut registry = Registry::new();
    let first = registry.register("alice").unwrap();
    assert!(matches!(
        registry.claim("alice", Occupancy::Live),
        Err(BrokerError::AlreadyActive)
    ));
    assert!(route(&registry, &note("bob", "alice", "still here")).is_ok());
    let mut inbound = first.into_inbound();
    assert_eq!(inbound.try_recv().unwrap().content, "still here");
}

#[test]
fn claim_of_vacant_and_of_stale_nickname_succeeds() {
    let mut registry = Registry::new();
    let first = registry.claim("alice", Occupancy::Vacant).unwrap();
    assert_eq!(first.nickname(), "alice");
    drop(first);
    let second = registry.claim("alice", Occupancy::Stale).unwrap();
    assert_eq!(second.nickname(), "alice");
    assert_eq!(registry.occupancy("alice"), Occupancy::Live);
}

#[test]
fn sessions_of_different_nicknames_are_apart() {
    let mut registry = Registry::new();
    let alice = registry.register("alice").unwrap();
    let bob = registry.register("bob").unwrap();
    assert!(route(&registry, &note("carol", "bob", "for bob")).is_ok());
    let mut to_alice = alice.into_inbound();
    let mut to_bob = bob.into_inbound();
    assert!(to_alice.try_recv().is_err());
    assert_eq!(to_bob.try_recv().unwrap().content, "for bob");
}

#[test]
fn the_handle_in_the_registry_feeds_the_session() {
    let mut registry = Registry::new();
    let session = registry.register("alice").unwrap();
    let producer = registry.lookup("alice").unwrap().clone();
    producer.send(note("bob", "alice", "direct")).unwrap();
    let mut inbound = session.into_inbound();
    assert_eq!(inbound.try_recv().unwrap().content, "direct");
}

#[test]
fn every_error_has_its_status() {
    assert_eq!(BrokerError::RecipientNotFound.status(), StatusCode::NotFound);
    assert_eq!(BrokerError::AlreadyActive.status(), StatusCode::AlreadyExists);
    assert_eq!(BrokerError::DeliveryFailed.status(), StatusCode::Internal);
    assert_eq!(BrokerError::PersistenceFailed.status(), StatusCode::Internal);
}
