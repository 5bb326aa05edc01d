use ssh_honeypot::ClientRegistry;
use ssh_honeypot::ServerCoordinator;

#[test]
fn lookup_finds_what_insert_filed() {
    let mut registry: ClientRegistry<u64> = ClientRegistry::new();
    registry.insert(1, 10, 100);
    registry.insert(2, 20, 200);
    assert_eq!(registry.lookup(1, 10), Some(&100));
    assert_eq!(registry.lookup(2, 20), Some(&200));
    assert_eq!(registry.lookup(1, 20), None);
}

#[test]
fn insert_on_a_filed_identity_replaces_the_handle() {
    let mut registry: ClientRegistry<u64> = ClientRegistry::new();
    registry.insert(1, 10, 100);
    registry.insert(1, 10, 101);
    assert_eq!(registry.lookup(1, 10), Some(&101));
    assert_eq!(registry.len(), 1);
}

#[test]
fn lookup_after_remove_finds_nothing() {
    let mut registry: ClientRegistry<u64> = ClientRegistry::new();
    registry.insert(1, 10, 100);
    registry.remove(1, 10);
    assert_eq!(registry.lookup(1, 10), None);
}

#[test]
fn remove_of_an_absent_identity_is_a_no_op() {
    let mut registry: ClientRegistry<u64> = ClientRegistry::new();
    registry.insert(1, 10, 100);
    registry.remove(3, 30);
    registry.remove(1, 11);
    assert_eq!(registry.lookup(1, 10), Some(&100));
}

#[test]
fn interleaved_connections_never_corrupt_each_other() {
    let mut registry: ClientRegistry<u64> = ClientRegistry::new();
    for session in 0u64..8 {
        for channel in 0u64..4 {
            registry.insert(session, channel, session * 100 + channel);
        }
    }
    assert_eq!(registry.len(), 32);
    for session in 0u64..8 {
        registry.remove(session, 1);
    }
    assert_eq!(registry.len(), 24);
    for session in 0u64..8 {
        for channel in 0u64..4 {
            let found = registry.lookup(session, channel);
            if channel == 1 {
                assert_eq!(found, None);
            } else {
                assert_eq!(found, Some(&(session * 100 + channel)));
            }
        }
    }
}

#[test]
fn closing_a_session_releases_only_its_entries() {
    let mut coordinator = ServerCoordinator::new(2222);
    let (first, _) = coordinator
        .on_new_connection(Some("203.0.113.5".to_string()))
        .unwrap();
    let (second, _) = coordinator
        .on_new_connection(Some("203.0.113.6".to_string()))
        .unwrap();

    let mut registry: ClientRegistry<u64> = ClientRegistry::new();
    registry.insert(first.session_id, 0, 1);
    registry.insert(first.session_id, 1, 2);
    registry.insert(second.session_id, 0, 3);

    first.on_session_close(&mut registry);
    assert_eq!(registry.lookup(first.session_id, 0), None);
    assert_eq!(registry.lookup(first.session_id, 1), None);
    assert_eq!(registry.lookup(second.session_id, 0), Some(&3));

    first.on_session_close(&mut registry);
    assert_eq!(registry.lookup(second.session_id, 0), Some(&3));
}
