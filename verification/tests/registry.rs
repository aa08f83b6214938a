use notebud_websocket::registry::{BindError, ConnectionRegistry};

#[test]
fn register_hands_out_increasing_identifiers() {
    let mut registry: ConnectionRegistry<&str> = ConnectionRegistry::new();
    assert_eq!(registry.register("a"), 0);
    assert_eq!(registry.register("b"), 1);
    assert_eq!(registry.register("c"), 2);
    assert_eq!(registry.connection_count(), 3);
    assert_eq!(registry.bound_count(), 0);
    assert_eq!(registry.sender_of(1), Some(&"b"));
    assert_eq!(registry.sender_of(7), None);
}

#[test]
fn identifiers_are_not_reused_after_removal() {
    let mut registry: ConnectionRegistry<u8> = ConnectionRegistry::new();
    let first = registry.register(1);
    assert_eq!(registry.unbind(first), None);
    let second = registry.register(2);
    assert_eq!(first, 0);
    assert_eq!(second, 1);
    assert_eq!(registry.connection_count(), 1);
}

#[test]
fn a_new_connection_is_unbound() {
    let mut registry: ConnectionRegistry<u8> = ConnectionRegistry::new();
    let c = registry.register(0);
    assert!(!registry.is_bound(c));
    assert_eq!(registry.user_id_of(c), None);
    assert_eq!(registry.username_of(c), None);
    assert_eq!(registry.lookup_connection_for_identity("alice"), None);
}

#[test]
fn bind_attaches_identity_and_route() {
    let mut registry: ConnectionRegistry<u8> = ConnectionRegistry::new();
    let c = registry.register(0);
    assert_eq!(registry.bind(c, "id-alice".to_string(), "alice".to_string()), Ok(()));
    assert!(registry.is_bound(c));
    assert_eq!(registry.user_id_of(c), Some("id-alice".to_string()));
    assert_eq!(registry.username_of(c), Some("alice".to_string()));
    assert_eq!(registry.lookup_connection_for_identity("id-alice"), Some(c));
    assert_eq!(registry.bound_count(), 1);
}

#[test]
fn bind_fails_on_a_bound_connection() {
    let mut registry: ConnectionRegistry<u8> = ConnectionRegistry::new();
    let c = registry.register(0);
    assert_eq!(registry.bind(c, "id-alice".to_string(), "alice".to_string()), Ok(()));
    assert_eq!(
        registry.bind(c, "id-bob".to_string(), "bob".to_string()),
        Err(BindError::AlreadyBound)
    );
    assert_eq!(registry.user_id_of(c), Some("id-alice".to_string()));
    assert_eq!(registry.lookup_connection_for_identity("id-bob"), None);
    assert_eq!(registry.bound_count(), 1);
}

#[test]
fn bind_fails_on_an_unknown_connection() {
    let mut registry: ConnectionRegistry<u8> = ConnectionRegistry::new();
    assert_eq!(
        registry.bind(3, "id-alice".to_string(), "alice".to_string()),
        Err(BindError::UnknownConnection)
    );
    let c = registry.register(0);
    assert_eq!(registry.unbind(c), None);
    assert_eq!(
        registry.bind(c, "id-alice".to_string(), "alice".to_string()),
        Err(BindError::UnknownConnection)
    );
    assert_eq!(registry.lookup_connection_for_identity("id-alice"), None);
}

#[test]
fn unbind_returns_the_identity_and_drops_the_route() {
    let mut registry: ConnectionRegistry<u8> = ConnectionRegistry::new();
    let c = registry.register(0);
    registry.bind(c, "id-alice".to_string(), "alice".to_string()).unwrap();
    assert_eq!(registry.unbind(c), Some("id-alice".to_string()));
    assert!(!registry.is_bound(c));
    assert_eq!(registry.lookup_connection_for_identity("id-alice"), None);
    assert_eq!(registry.connection_count(), 0);
    assert_eq!(registry.bound_count(), 0);
    assert_eq!(registry.unbind(c), None);
}

#[test]
fn second_binding_of_an_identity_wins() {
    let mut registry: ConnectionRegistry<u8> = ConnectionRegistry::new();
    let older = registry.register(0);
    let newer = registry.register(1);
    registry.bind(older, "id-alice".to_string(), "alice".to_string()).unwrap();
    registry.bind(newer, "id-alice".to_string(), "alice".to_string()).unwrap();
    assert_eq!(registry.lookup_connection_for_identity("id-alice"), Some(newer));
    assert!(registry.is_bound(older));
    assert!(registry.is_bound(newer));
    assert_eq!(registry.bound_count(), 2);
}

#[test]
fn unbinding_the_older_connection_keeps_the_newer_route() {
    let mut registry: ConnectionRegistry<u8> = ConnectionRegistry::new();
    let older = registry.register(0);
    let newer = registry.register(1);
    registry.bind(older, "id-alice".to_string(), "alice".to_string()).unwrap();
    registry.bind(newer, "id-alice".to_string(), "alice".to_string()).unwrap();
    assert_eq!(registry.unbind(older), Some("id-alice".to_string()));
    assert_eq!(registry.lookup_connection_for_identity("id-alice"), Some(newer));
    assert_eq!(registry.unbind(newer), Some("id-alice".to_string()));
    assert_eq!(registry.lookup_connection_for_identity("id-alice"), None);
}

#[test]
fn has_capacity_on_a_fresh_registry() {
    let registry: ConnectionRegistry<u8> = ConnectionRegistry::new();
    assert!(registry.has_capacity());
}
