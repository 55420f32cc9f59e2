use bore_core::fault::Fault;
use bore_core::ports::PortRegistry;

#[test]
fn any_port_respects_minimum() {
    let mut reg = PortRegistry::new(1024);
    let p = reg.grant(0, 1).unwrap();
    assert!(p >= 1024);
    assert!(reg.is_leased(p));
}

#[test]
fn requested_port_is_granted_exactly() {
    let mut reg = PortRegistry::new(1024);
    assert_eq!(reg.grant(5000, 1).unwrap(), 5000);
    assert!(reg.is_leased(5000));
}

#[test]
fn port_below_minimum_is_refused() {
    let mut reg = PortRegistry::new(1024);
    assert!(matches!(reg.grant(1023, 1), Err(Fault::PortUnavailable)));
    assert!(matches!(reg.grant(80, 1), Err(Fault::PortUnavailable)));
    assert!(!reg.is_leased(1023));
    assert!(!reg.is_leased(80));
}

#[test]
fn leased_port_is_refused() {
    let mut reg = PortRegistry::new(1024);
    assert_eq!(reg.grant(2000, 1).unwrap(), 2000);
    assert!(matches!(reg.grant(2000, 2), Err(Fault::PortUnavailable)));
}

#[test]
fn any_port_skips_leased_ones() {
    let mut reg = PortRegistry::new(1024);
    assert_eq!(reg.grant(1024, 1).unwrap(), 1024);
    assert_eq!(reg.grant(1025, 2).unwrap(), 1025);
    let p = reg.grant(0, 3).unwrap();
    assert!(p >= 1024);
    assert_ne!(p, 1024);
    assert_ne!(p, 1025);
}

#[test]
fn release_frees_the_port_immediately() {
    let mut reg = PortRegistry::new(1024);
    assert_eq!(reg.grant(3000, 7).unwrap(), 3000);
    assert_eq!(reg.release(7), Some(3000));
    assert!(!reg.is_leased(3000));
    assert_eq!(reg.grant(3000, 8).unwrap(), 3000);
}

#[test]
fn release_without_lease_is_a_no_op() {
    let mut reg = PortRegistry::new(1024);
    assert_eq!(reg.release(42), None);
    assert_eq!(reg.grant(4000, 1).unwrap(), 4000);
    assert_eq!(reg.release(999), None);
    assert!(reg.is_leased(4000));
}
