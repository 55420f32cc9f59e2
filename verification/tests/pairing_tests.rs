use bore_core::pairing::{PairingTable, Pending};

fn entry(id: u128, session: u64, socket: u64, created: u64) -> Pending {
    Pending { id, session, socket, created }
}

#[test]
fn claim_hands_over_the_waiting_socket() {
    let mut t = PairingTable::new();
    t.insert(entry(10, 1, 100, 0));
    t.insert(entry(11, 1, 101, 0));
    let e = t.claim(10).unwrap();
    assert_eq!(e.socket, 100);
    assert!(t.contains(11));
    assert!(!t.contains(10));
}

#[test]
fn an_id_is_claimed_at_most_once() {
    let mut t = PairingTable::new();
    t.insert(entry(42, 1, 7, 0));
    // Two racing claims of the same identifier, serialized by the caller's
    // lock: exactly one wins, the other finds nothing.
    let first = t.claim(42);
    let second = t.claim(42);
    assert!(first.is_some());
    assert!(second.is_none());
}

#[test]
fn claim_of_unknown_id_is_refused() {
    let mut t = PairingTable::new();
    t.insert(entry(1, 1, 7, 0));
    assert!(t.claim(2).is_none());
    assert!(t.contains(1));
}

#[test]
fn expiry_removes_exactly_the_old_entries() {
    let mut t = PairingTable::new();
    t.insert(entry(1, 1, 100, 1000)); // created at 1s, expires at 11s
    t.insert(entry(2, 1, 101, 9000)); // created at 9s, expires at 19s
    let gone = t.expire(10_999, 10_000);
    assert!(gone.is_empty());
    let gone = t.expire(11_000, 10_000);
    assert_eq!(gone.len(), 1);
    assert_eq!(gone[0].id, 1);
    assert_eq!(gone[0].socket, 100);
    assert!(!t.contains(1));
    assert!(t.contains(2));
}

#[test]
fn expiry_with_no_traffic_still_fires() {
    let mut t = PairingTable::new();
    t.insert(entry(5, 3, 50, 0));
    let gone = t.expire(10_000, 10_000);
    assert_eq!(gone.len(), 1);
    assert!(!t.contains(5));
}

#[test]
fn failing_a_session_drops_only_its_pairings() {
    let mut t = PairingTable::new();
    t.insert(entry(1, 1, 100, 0));
    t.insert(entry(2, 2, 200, 0));
    t.insert(entry(3, 1, 101, 0));
    let gone = t.fail_session(1);
    assert_eq!(gone.len(), 2);
    assert!(gone.iter().all(|e| e.session == 1));
    assert!(!t.contains(1));
    assert!(t.contains(2));
    assert!(!t.contains(3));
}
