use waystone::config::Config;
use waystone::load_balancer::upstream::{HostPort, PoolError, Upstream, UpstreamIterator};

#[test]
fn parse_host_and_port() {
    let hp = HostPort::new("example.com:8080").unwrap();
    assert_eq!(hp.host, "example.com");
    assert_eq!(hp.port, 8080);
}

#[test]
fn parse_splits_on_last_colon() {
    let hp = HostPort::new("a:b:80").unwrap();
    assert_eq!(hp.host, "a:b");
    assert_eq!(hp.port, 80);
}

#[test]
fn parse_empty_host_is_accepted() {
    let hp = HostPort::new(":80").unwrap();
    assert_eq!(hp.host, "");
    assert_eq!(hp.port, 80);
}

#[test]
fn parse_port_bounds() {
    assert_eq!(HostPort::new("h:0").unwrap().port, 0);
    assert_eq!(HostPort::new("h:65535").unwrap().port, 65535);
}

#[test]
fn parse_malformed_endpoints() {
    for bad in [
        "nocolon",
        "",
        "host:",
        "host:abc",
        "host:-1",
        "host:65536",
        "host:999999",
        "host:1 2",
    ] {
        match HostPort::new(bad) {
            Err(PoolError::MalformedEndpoint) => {}
            other => panic!("{:?} gave {:?}", bad, other),
        }
    }
}

#[test]
fn authority_round_trips() {
    let hp = HostPort::new("example.com:8080").unwrap();
    assert_eq!(hp.authority(), "example.com:8080");
}

#[test]
fn empty_pool_is_refused() {
    let specs: Vec<String> = Vec::new();
    match Upstream::new(&specs) {
        Err(PoolError::EmptyPool) => {}
        other => panic!("Unexpected {:?}", other.map(|u| u.servers.len())),
    }
}

#[test]
fn malformed_member_is_refused() {
    let specs = vec![String::from("a:1"), String::from("bad")];
    match Upstream::new(&specs) {
        Err(PoolError::MalformedEndpoint) => {}
        other => panic!("Unexpected {:?}", other.map(|u| u.servers.len())),
    }
}

#[test]
fn pool_keeps_order_and_duplicates() {
    let specs = vec![
        String::from("a:1"),
        String::from("b:2"),
        String::from("a:1"),
    ];
    let pool = Upstream::new(&specs).unwrap();
    assert_eq!(pool.servers.len(), 3);
    assert_eq!(pool.servers[0].host, "a");
    assert_eq!(pool.servers[1].host, "b");
    assert_eq!(pool.servers[2].host, "a");
    assert_eq!(pool.servers[0].port, 1);
}

#[test]
fn pool_from_config() {
    let config = Config::new("upstream_servers:\n  - x:9\n", 1).unwrap();
    let pool = Upstream::from_config(&config).unwrap();
    assert_eq!(pool.servers.len(), 1);
    assert_eq!(pool.servers[0].host, "x");
    assert_eq!(pool.servers[0].port, 9);
}

fn collect(mut it: UpstreamIterator<'_>) -> Vec<HostPort> {
    let mut out = Vec::new();
    while let Some(hp) = it.next() {
        out.push(hp.clone());
    }
    out
}

#[test]
fn traversal_visits_each_endpoint_once() {
    let specs = vec![
        String::from("a:1"),
        String::from("b:2"),
        String::from("c:3"),
    ];
    let pool = Upstream::new(&specs).unwrap();
    for start in 0..7usize {
        let order = collect(UpstreamIterator::new(&pool.servers, start));
        assert_eq!(order.len(), 3);
        for hp in &pool.servers {
            assert_eq!(order.iter().filter(|o| *o == hp).count(), 1);
        }
        // rotation order: each member is followed by its pool successor
        let offset = start % 3;
        for k in 0..3 {
            assert_eq!(order[k], pool.servers[(offset + k) % 3]);
        }
    }
}

#[test]
fn traversal_of_single_endpoint() {
    let specs = vec![String::from("only:1")];
    let pool = Upstream::new(&specs).unwrap();
    let order = collect(pool.start_from_random());
    assert_eq!(order.len(), 1);
    assert_eq!(order[0].host, "only");
}

#[test]
fn random_traversals_stay_within_pool() {
    let specs = vec![
        String::from("a:1"),
        String::from("b:2"),
        String::from("c:3"),
    ];
    let pool = Upstream::new(&specs).unwrap();
    let mut seen_first = [false; 3];
    for _ in 0..200 {
        let order = collect(pool.start_from_random());
        assert_eq!(order.len(), 3);
        let first = pool
            .servers
            .iter()
            .position(|hp| *hp == order[0])
            .expect("first endpoint must come from the pool");
        seen_first[first] = true;
    }
    // with 200 draws over 3 starts, every start should have come up
    assert!(seen_first.iter().all(|s| *s));
}
