use http_server::pool::{Claim, Connection, ConnectionPool, WebSocketConnections};

#[test]
fn idle_connection_expires_on_claim() {
    let mut pool = ConnectionPool::new(8);
    pool.enqueue(Connection::new("idle", 1_000)).ok().unwrap();
    match pool.claim_for_service(6_001, 5) {
        Claim::Expired(c) => assert_eq!(c.stream, "idle"),
        _ => panic!("an idle connection must not be serviced"),
    }
    assert_eq!(pool.len(), 0);
}

#[test]
fn connection_within_keep_alive_is_ready() {
    let mut pool = ConnectionPool::new(8);
    pool.enqueue(Connection::new("fresh", 1_000)).ok().unwrap();
    assert!(matches!(pool.claim_for_service(6_000, 5), Claim::Ready(_)));
    assert!(matches!(pool.claim_for_service(6_000, 5), Claim::Empty));
}

#[test]
fn is_timeout_boundaries() {
    let c = Connection::new((), 10_000);
    assert!(!c.is_timeout(15_000, 5));
    assert!(c.is_timeout(15_001, 5));
    assert!(!c.is_timeout(9_000, 0));
    assert!(!c.is_timeout(u64::MAX, u64::MAX));
    let mut c = c;
    c.touch(20_000);
    assert_eq!(c.last_active, 20_000);
}

#[test]
fn one_connection_goes_to_one_claimant() {
    let mut pool = ConnectionPool::new(4);
    pool.enqueue(42).ok().unwrap();
    let claims: Vec<Option<i32>> = (0..8).map(|_| pool.claim()).collect();
    assert_eq!(claims.iter().filter(|c| c.is_some()).count(), 1);
    assert_eq!(claims[0], Some(42));
}

#[test]
fn pool_order_and_capacity() {
    let mut pool = ConnectionPool::new(2);
    assert!(pool.enqueue(1).is_ok());
    assert!(pool.enqueue(2).is_ok());
    assert_eq!(pool.enqueue(3), Err(3));
    assert_eq!(pool.claim(), Some(2));
    pool.requeue(2);
    assert_eq!(pool.claim(), Some(1));
    assert_eq!(pool.claim(), Some(2));
    assert_eq!(pool.claim(), None);
}

#[test]
fn registry_fingerprints_are_unique() {
    let mut reg = WebSocketConnections::new();
    assert_eq!(reg.insert("a"), Ok(0));
    assert_eq!(reg.insert("b"), Ok(1));
    assert_eq!(reg.len(), 2);
    assert_eq!(reg.pop(), Some("a"));
    assert_eq!(reg.insert("a"), Ok(2));
    assert_eq!(reg.pop(), Some("b"));
    assert_eq!(reg.pop(), Some("a"));
    assert_eq!(reg.pop(), None);
}
