use prox::dispatch::{dispatch, host_name, is_reported, ConnectionError};
use prox::forward::{
    plan_forward, make_proxy_request, resolve, target_uri, Outcome, Plan, UpstreamError,
};
use prox::forwarded::add_forwarded_for;
use prox::headers::{is_hop_header, without_hop_headers, Header};
use prox::response::{bad_gateway, gateway_timeout, internal_server_error, not_found, Reply};
use prox::router::{Site, SiteTable};
use prox::text::same_ignoring_case;

fn h(name: &str, value: &str) -> Header {
    Header::new(name, value)
}

fn pairs(hs: &[Header]) -> Vec<(String, String)> {
    hs.iter().map(|x| (x.name.clone(), x.value.clone())).collect()
}

fn site(hosts: &[&str], target: Option<&str>) -> Site {
    Site::new(hosts.iter().map(|s| s.to_string()).collect(), target.map(|s| s.to_string()))
}

fn values_of(hs: &[Header], name: &str) -> Vec<String> {
    hs.iter()
        .filter(|x| x.name.eq_ignore_ascii_case(name))
        .map(|x| x.value.clone())
        .collect()
}

#[test]
fn case_insensitive_comparison() {
    assert!(same_ignoring_case("Content-Type", "content-TYPE"));
    assert!(!same_ignoring_case("Host", "Hosts"));
    assert!(!same_ignoring_case("a-b", "a_b"));
    assert!(same_ignoring_case("", ""));
}

#[test]
fn hop_names_are_recognised_in_any_case() {
    for name in [
        "Connection",
        "keep-alive",
        "PROXY-AUTHENTICATE",
        "Proxy-Authorization",
        "te",
        "Trailers",
        "transfer-encoding",
        "Upgrade",
    ] {
        assert!(is_hop_header(name), "{}", name);
    }
    assert!(!is_hop_header("X-Test"));
    assert!(!is_hop_header("Content-Length"));
    assert!(!is_hop_header("Trailer-Extra"));
}

#[test]
fn hop_headers_are_removed_and_others_kept_in_order() {
    let input = vec![
        h("Accept", "*/*"),
        h("Connection", "close"),
        h("X-A", "1"),
        h("keep-alive", "timeout=5"),
        h("Transfer-Encoding", "chunked"),
        h("X-B", "2"),
        h("Upgrade", "websocket"),
        h("X-A", "3"),
    ];
    let out = without_hop_headers(&input);
    assert_eq!(
        pairs(&out),
        vec![
            ("Accept".to_string(), "*/*".to_string()),
            ("X-A".to_string(), "1".to_string()),
            ("X-B".to_string(), "2".to_string()),
            ("X-A".to_string(), "3".to_string()),
        ]
    );
}

#[test]
fn hop_filter_of_empty_set_is_empty() {
    assert!(without_hop_headers(&Vec::new()).is_empty());
}

#[test]
fn forwarded_for_created_when_absent() {
    let out = add_forwarded_for(vec![h("Accept", "*/*")], "192.0.2.7");
    assert_eq!(
        pairs(&out),
        vec![
            ("Accept".to_string(), "*/*".to_string()),
            ("X-Forwarded-For".to_string(), "192.0.2.7".to_string()),
        ]
    );
}

#[test]
fn forwarded_for_appends_after_prior_entries() {
    let out = add_forwarded_for(
        vec![h("x-forwarded-for", "10.0.0.1, 10.0.0.2"), h("Accept", "*/*")],
        "2001:db8::1",
    );
    assert_eq!(values_of(&out, "X-Forwarded-For"), vec!["10.0.0.1, 10.0.0.2, 2001:db8::1".to_string()]);
    assert_eq!(out.len(), 2);
    assert_eq!(out[0].name, "Accept");
}

#[test]
fn forwarded_for_lines_are_joined_in_order() {
    let out = add_forwarded_for(
        vec![h("X-Forwarded-For", "10.0.0.1"), h("Accept", "*/*"), h("X-Forwarded-For", "10.0.0.2")],
        "10.0.0.3",
    );
    assert_eq!(values_of(&out, "X-Forwarded-For"), vec!["10.0.0.1, 10.0.0.2, 10.0.0.3".to_string()]);
    let entries: Vec<String> = values_of(&out, "X-Forwarded-For")[0]
        .split(',')
        .map(|s| s.trim().to_string())
        .filter(|s| !s.is_empty())
        .collect();
    assert_eq!(entries, vec!["10.0.0.1", "10.0.0.2", "10.0.0.3"]);
}

#[test]
fn routing_twice_gives_the_same_site() {
    let table = SiteTable::new(vec![
        site(&["a.example", "www.a.example"], Some("http://127.0.0.1:9001")),
        site(&["b.example"], Some("http://127.0.0.1:9002")),
    ]);
    let first = table.route("b.example").unwrap();
    let second = table.route("b.example").unwrap();
    assert!(std::ptr::eq(first, second));
    assert_eq!(first.hosts, vec!["b.example".to_string()]);
    assert_eq!(table.route("www.a.example").unwrap().target.as_deref(), Some("http://127.0.0.1:9001"));
}

#[test]
fn routing_ignores_case_of_host() {
    let table = SiteTable::new(vec![site(&["a.example"], Some("http://127.0.0.1:9001"))]);
    assert!(table.route("A.Example").is_some());
    assert!(table.route("a.example.org").is_none());
    assert!(table.route("").is_none());
}

#[test]
fn routing_last_site_wins_on_duplicate_host() {
    let table = SiteTable::new(vec![
        site(&["dup.example"], Some("http://127.0.0.1:1")),
        site(&["dup.example"], Some("http://127.0.0.1:2")),
    ]);
    assert_eq!(table.len(), 2);
    assert_eq!(table.route("dup.example").unwrap().target.as_deref(), Some("http://127.0.0.1:2"));
}

#[test]
fn host_name_drops_the_port() {
    assert_eq!(host_name("a.example:8080"), "a.example");
    assert_eq!(host_name("a.example"), "a.example");
    assert_eq!(host_name("[::1]:80"), "[::1]");
    assert_eq!(host_name("[::1"), "[::1");
    assert_eq!(host_name(""), "");
}

#[test]
fn site_without_target_is_not_found_for_any_path() {
    let s = site(&["off.example"], None);
    for path in ["/", "/foo", "/a/b?c=d", ""] {
        assert!(matches!(plan_forward(&s, path, vec![h("Host", "off.example")], "10.0.0.9"), Plan::NotFound));
    }
}

#[test]
fn target_uri_joins_base_and_path() {
    assert_eq!(target_uri("http://127.0.0.1:9001", "/foo").as_deref(), Some("http://127.0.0.1:9001/foo"));
    assert_eq!(target_uri("http://127.0.0.1:9001/base/", "/a/../b?x=1").as_deref(), Some("http://127.0.0.1:9001/b?x=1"));
    assert_eq!(target_uri("not a url", "/foo"), None);
}

#[test]
fn request_for_known_host_goes_to_its_target() {
    let table = SiteTable::new(vec![site(&["a.example"], Some("http://127.0.0.1:9001"))]);
    let plan = dispatch(&table, "/foo", vec![h("Host", "a.example"), h("X-Test", "1")], "10.1.2.3");
    match plan {
        Plan::Send(o) => {
            assert_eq!(o.uri, "http://127.0.0.1:9001/foo");
            assert_eq!(values_of(&o.headers, "X-Forwarded-For"), vec!["10.1.2.3".to_string()]);
            assert_eq!(values_of(&o.headers, "Host"), vec!["a.example".to_string()]);
        }
        Plan::NotFound => panic!("expected a forwarded request"),
    }
}

#[test]
fn request_for_host_with_port_is_routed() {
    let table = SiteTable::new(vec![site(&["a.example"], Some("http://127.0.0.1:9001"))]);
    let plan = dispatch(&table, "/", vec![h("host", "A.EXAMPLE:8080")], "10.1.2.3");
    assert!(matches!(plan, Plan::Send(_)));
}

#[test]
fn request_for_unknown_host_is_not_found() {
    let table = SiteTable::new(vec![site(&["a.example"], Some("http://127.0.0.1:9001"))]);
    let plan = dispatch(&table, "/foo", vec![h("Host", "unknown.example")], "10.1.2.3");
    assert!(matches!(plan, Plan::NotFound));
    assert_eq!(not_found().status, 404);
}

#[test]
fn request_without_host_is_not_found() {
    let table = SiteTable::new(vec![site(&["a.example"], Some("http://127.0.0.1:9001"))]);
    assert!(matches!(dispatch(&table, "/", vec![h("Accept", "*/*")], "10.1.2.3"), Plan::NotFound));
}

#[test]
fn refused_upstream_is_bad_gateway() {
    let r = resolve(Outcome::Failed(UpstreamError::ConnectionRefused));
    assert_eq!(r.status, 502);
    assert!(r.headers.is_empty());
    assert_eq!(resolve(Outcome::Failed(UpstreamError::ConnectionAborted)).status, 502);
    assert_eq!(resolve(Outcome::Failed(UpstreamError::ConnectionReset)).status, 502);
}

#[test]
fn other_upstream_error_is_internal_server_error() {
    assert_eq!(resolve(Outcome::Failed(UpstreamError::Other)).status, 500);
}

#[test]
fn timeout_is_gateway_timeout() {
    let r = resolve(Outcome::TimedOut);
    assert_eq!(r.status, 504);
    assert!(r.headers.is_empty());
}

#[test]
fn upstream_response_keeps_status_and_drops_hop_headers() {
    let up = Reply {
        status: 201,
        headers: vec![h("Content-Type", "text/plain"), h("Connection", "keep-alive"), h("Transfer-Encoding", "chunked")],
    };
    let r = resolve(Outcome::Responded(up));
    assert_eq!(r.status, 201);
    assert_eq!(pairs(&r.headers), vec![("Content-Type".to_string(), "text/plain".to_string())]);
}

#[test]
fn canonical_responses_have_fixed_statuses() {
    assert_eq!(not_found().status, 404);
    assert_eq!(bad_gateway().status, 502);
    assert_eq!(internal_server_error().status, 500);
    assert_eq!(gateway_timeout().status, 504);
    assert!(not_found().headers.is_empty());
}

#[test]
fn connection_close_is_dropped_and_custom_header_kept() {
    let plan = make_proxy_request(
        Some("http://127.0.0.1:9001/".to_string()),
        vec![h("Connection", "close"), h("X-Test", "1")],
        "127.0.0.1",
    );
    match plan {
        Plan::Send(o) => {
            assert!(values_of(&o.headers, "Connection").is_empty());
            assert_eq!(values_of(&o.headers, "X-Test"), vec!["1".to_string()]);
        }
        Plan::NotFound => panic!("expected a forwarded request"),
    }
    assert!(matches!(make_proxy_request(None, vec![h("X-Test", "1")], "127.0.0.1"), Plan::NotFound));
}

#[test]
fn broken_pipe_is_not_reported() {
    assert!(!is_reported(&ConnectionError::BrokenPipe));
    assert!(is_reported(&ConnectionError::Other));
}
