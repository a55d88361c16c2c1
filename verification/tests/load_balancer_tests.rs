use waystone::load_balancer::upstream::HostPort;
use waystone::load_balancer::{
    select_responder, target_url, translate, HttpVersion, ProxyError, RequestTemplate,
    MAX_BODY_SIZE,
};

fn headers_fixture() -> Vec<(String, Vec<u8>)> {
    vec![
        (String::from("accept"), b"*/*".to_vec()),
        (String::from("host"), b"client.example".to_vec()),
        (String::from("x-trace"), b"abc123".to_vec()),
    ]
}

fn translate_ok(headers: Vec<(String, Vec<u8>)>, body: Vec<u8>) -> RequestTemplate {
    translate(
        String::from("POST"),
        String::from("/"),
        HttpVersion::V11,
        headers,
        body,
    )
    .unwrap()
}

#[test]
fn host_header_is_scrubbed() {
    let template = translate_ok(headers_fixture(), b"x".to_vec());
    let names: Vec<&str> = template.headers.iter().map(|h| h.0.as_str()).collect();
    assert_eq!(names, vec!["accept", "x-trace"]);
    assert_eq!(template.headers[0].1, b"*/*".to_vec());
    assert_eq!(template.headers[1].1, b"abc123".to_vec());
}

#[test]
fn host_header_scrub_is_case_insensitive() {
    let headers = vec![
        (String::from("HoSt"), b"a".to_vec()),
        (String::from("HOST"), b"b".to_vec()),
        (String::from("hosts"), b"kept".to_vec()),
        (String::from("hos"), b"kept".to_vec()),
    ];
    let template = translate_ok(headers, Vec::new());
    let names: Vec<&str> = template.headers.iter().map(|h| h.0.as_str()).collect();
    assert_eq!(names, vec!["hosts", "hos"]);
}

#[test]
fn body_at_cap_is_accepted() {
    let body = vec![7u8; MAX_BODY_SIZE];
    let template = translate_ok(Vec::new(), body.clone());
    assert_eq!(template.body, body);
}

#[test]
fn body_over_cap_is_refused() {
    let body = vec![7u8; MAX_BODY_SIZE + 1];
    match translate(
        String::from("POST"),
        String::from("/"),
        HttpVersion::V11,
        Vec::new(),
        body,
    ) {
        Err(ProxyError::BodyTooLarge) => {}
        Err(other) => panic!("Unexpected error {:?}", other),
        Ok(_) => panic!("an oversized body must be refused"),
    }
}

#[test]
fn template_passes_request_through_verbatim() {
    let body = b"hello world".to_vec();
    let template = translate(
        String::from("POST"),
        String::from("/echo?x=1"),
        HttpVersion::V2,
        headers_fixture(),
        body.clone(),
    )
    .unwrap();
    assert_eq!(template.method, "POST");
    assert_eq!(template.path_and_query, "/echo?x=1");
    assert_eq!(template.version, HttpVersion::V2);
    assert_eq!(template.body, body);
}

#[test]
fn target_url_materializes_endpoint() {
    let hp = HostPort {
        host: String::from("127.0.0.1"),
        port: 9000,
    };
    assert_eq!(target_url(&hp, "/echo?x=1"), "http://127.0.0.1:9000/echo?x=1");
    let hp0 = HostPort {
        host: String::from("h"),
        port: 0,
    };
    assert_eq!(target_url(&hp0, "/"), "http://h:0/");
}

#[test]
fn failover_picks_first_transport_success() {
    // pool [A, B, C]: A and B unreachable, C answers
    let outcomes = vec![false, false, true];
    assert_eq!(select_responder(&outcomes), Ok(2));
    // whichever of the unreachable pair comes first, C still answers
    let outcomes = vec![false, true, false];
    assert_eq!(select_responder(&outcomes), Ok(1));
    let outcomes = vec![true, false, false];
    assert_eq!(select_responder(&outcomes), Ok(0));
}

#[test]
fn upstream_status_is_not_failover() {
    // a transport success is final even when later members would answer too
    let outcomes = vec![false, true, true];
    assert_eq!(select_responder(&outcomes), Ok(1));
}

#[test]
fn total_failure_is_unreachable_error() {
    let outcomes = vec![false, false, false];
    assert_eq!(
        select_responder(&outcomes),
        Err(ProxyError::AllUpstreamsUnreachable)
    );
    let none: Vec<bool> = Vec::new();
    assert_eq!(
        select_responder(&none),
        Err(ProxyError::AllUpstreamsUnreachable)
    );
}
