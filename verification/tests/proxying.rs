use linuxdo_accelerator::cache::Table;
use linuxdo_accelerator::config::AppConfig;
use linuxdo_accelerator::net::{IpAddress, SocketAddress};
use linuxdo_accelerator::proxy::{
    build_upstream_request, extract_host, failed_forwarding, forward_request, forward_target,
    listen_address, proxy_handler, redirect_handler, relay_response, should_skip_request_header,
    should_skip_response_header, simple_response, Header, Reply, RequestHead,
};
use linuxdo_accelerator::resolver::ResolvedUpstream;
use linuxdo_accelerator::upstream::{
    dispatch_upstream_request, format_socket_addrs, log_upstream_debug, send_once, send_start,
    should_trace_upstream, Attempt, DispatchStep, H2PoolKey, Protocol, SendEvent, SendState,
};

fn config() -> AppConfig {
    AppConfig {
        listen_host: "127.211.73.84".to_string(),
        http_port: 80,
        https_port: 443,
        upstream: "https://linux.do".to_string(),
        proxy_domains: vec!["linux.do".to_string(), "www.linux.do".to_string()],
        certificate_domains: vec!["linux.do".to_string()],
        ca_common_name: "Linux.do Accelerator Root CA".to_string(),
        server_common_name: "fallback.do".to_string(),
        doh_endpoints: vec![],
        managed_prefer_ipv6: false,
    }
}

fn head(authority: Option<&str>, path: Option<&str>, headers: Vec<Header>) -> RequestHead {
    RequestHead {
        authority_host: authority.map(str::to_string),
        path_and_query: path.map(str::to_string),
        headers,
    }
}

fn value<'a>(reply: &'a Reply, name: &str) -> Option<&'a str> {
    reply
        .headers
        .iter()
        .find(|header| header.name == name)
        .map(|header| std::str::from_utf8(&header.value).unwrap())
}

#[test]
fn simple_error_response_declares_utf8() {
    let response = simple_response(502, "ECH 强制模式");
    assert_eq!(value(&response, "content-type"), Some("text/plain; charset=utf-8"));
    assert_eq!(response.status, 502);
    assert_eq!(response.body, "ECH 强制模式".as_bytes());
}

#[test]
fn finds_the_requested_host() {
    let config = config();
    let host = |head: RequestHead| extract_host(&head, &config);
    let named = || vec![Header::new("Host", "WWW.Linux.do:8443"), Header::new("host", "x")];
    assert_eq!(host(head(Some("CDN.linux.do"), None, named())).as_deref(), Some("cdn.linux.do"));
    assert_eq!(host(head(None, None, named())).as_deref(), Some("www.linux.do"));
    assert_eq!(host(head(None, None, vec![])).as_deref(), Some("linux.do"));
    let odd = Header { name: "host".to_string(), value: vec![b'a', 0xff] };
    assert_eq!(host(head(None, None, vec![odd])).as_deref(), Some("linux.do"));
    let mut empty = self::config();
    empty.proxy_domains.clear();
    assert_eq!(extract_host(&head(None, None, vec![]), &empty), None);
}

#[test]
fn redirects_to_https() {
    let reply = redirect_handler(&head(Some("linux.do"), Some("/t/1?a=b"), vec![]), &config());
    assert_eq!(reply.status, 301);
    assert_eq!(value(&reply, "location"), Some("https://linux.do/t/1?a=b"));
    assert!(reply.body.is_empty());
    let mut other = config();
    other.https_port = 8443;
    other.proxy_domains.clear();
    let reply = redirect_handler(&head(None, None, vec![]), &other);
    assert_eq!(value(&reply, "location"), Some("https://fallback.do:8443/"));
}

#[test]
fn refuses_what_it_does_not_manage() {
    let reply = proxy_handler(None, true).unwrap();
    assert_eq!(reply.status, 400);
    assert_eq!(reply.body, b"missing Host header");
    let reply = proxy_handler(Some("example.com"), false).unwrap();
    assert_eq!(reply.status, 502);
    assert_eq!(reply.body, b"host is not managed by linuxdo-accelerator");
    assert!(proxy_handler(Some("linux.do"), true).is_none());
    let reply = failed_forwarding("boom");
    assert_eq!(reply.status, 502);
    assert_eq!(reply.body, b"upstream request failed: boom");
}

#[test]
fn says_what_a_request_is_forwarded_to() {
    let mut config = config();
    let target = forward_request(&head(None, Some("/a"), vec![]), &config).unwrap();
    assert_eq!(target.scheme, "https");
    assert_eq!(target.port, 443);
    assert_eq!(target.path_and_query, "/a");
    config.upstream = "HTTP://linux.do:8080/x".to_string();
    let target = forward_request(&head(None, None, vec![]), &config).unwrap();
    assert_eq!((target.scheme.as_str(), target.port), ("http", 8080));
    assert_eq!(target.path_and_query, "/");
    config.upstream = "foo://linux.do".to_string();
    let error = forward_request(&head(None, None, vec![]), &config).err();
    assert_eq!(error.as_deref(), Some("upstream URL is missing port"));
    config.upstream = "linux.do".to_string();
    let error = forward_request(&head(None, None, vec![]), &config).err().unwrap();
    assert!(error.starts_with("failed to parse upstream URL linux.do: "));
    let parts = Ok(("https".to_string(), Some(444)));
    let target = forward_target("https://linux.do:444", parts, "/".to_string()).unwrap();
    assert_eq!(target.port, 444);
}

#[test]
fn connection_headers_are_dropped() {
    for name in ["Connection", "host", "TE", "upgrade", "Proxy-Connection", "trailers"] {
        assert!(should_skip_request_header(name));
    }
    assert!(!should_skip_request_header("cookie"));
    assert!(!should_skip_response_header("host"));
    assert!(!should_skip_response_header("proxy-connection"));
    for name in ["Keep-Alive", "proxy-authenticate", "Proxy-Authorization", "transfer-encoding"] {
        assert!(should_skip_request_header(name));
        assert!(should_skip_response_header(name));
    }
}

#[test]
fn builds_the_upstream_request() {
    let headers = vec![
        Header::new("Host", "127.0.0.1"),
        Header::new("accept", "*/*"),
        Header::new("connection", "keep-alive"),
        Header::new("cookie", "a=b"),
    ];
    let request = build_upstream_request("linux.do", "POST", &headers, vec![1, 2], "/t");
    let names: Vec<_> = request.headers.iter().map(|header| header.name.as_str()).collect();
    assert_eq!(names, ["accept", "cookie", "host"]);
    assert_eq!(request.headers[2].value, b"linux.do");
    assert_eq!(request.method, "POST");
    assert_eq!(request.uri, "/t");
    assert_eq!(request.body, vec![1, 2]);
}

#[test]
fn relays_a_response() {
    let headers = vec![
        Header::new("transfer-encoding", "chunked"),
        Header::new("cf-ray", "1"),
        Header::new("host", "x"),
    ];
    let reply = relay_response(404, &headers, vec![7]);
    assert_eq!(reply.status, 404);
    assert_eq!(reply.body, vec![7]);
    let names: Vec<_> = reply.headers.iter().map(|header| header.name.as_str()).collect();
    assert_eq!(names, ["cf-ray", "host"]);
    assert_eq!(listen_address("127.211.73.84", 443), "127.211.73.84:443");
}

fn address(bits: u32) -> SocketAddress {
    SocketAddress { ip: IpAddress::V4(bits), port: 443 }
}

fn upstream(ech: bool) -> ResolvedUpstream {
    ResolvedUpstream {
        addrs: vec![address(1), address(2)],
        ech_config: if ech { Some(vec![9]) } else { None },
    }
}

#[test]
fn no_upstream_is_tried_without_ech() {
    match dispatch_upstream_request("linux.do", &upstream(false), &vec![]) {
        DispatchStep::Fail(error) => {
            assert_eq!(error, "ECH 强制模式：linux.do 未提供可用的 ECH 配置")
        }
        _ => panic!("expected a failure"),
    }
}

#[test]
fn addresses_are_tried_in_order() {
    let step = |attempts: Vec<Attempt<String>>| {
        dispatch_upstream_request("linux.do", &upstream(true), &attempts)
    };
    let failed = |text: &str| Attempt::Failed(text.to_string());
    match step(vec![]) {
        DispatchStep::Try { addr, ech_config } => {
            assert_eq!(addr, address(1));
            assert_eq!(ech_config, vec![9]);
        }
        _ => panic!("expected an attempt"),
    }
    assert!(matches!(
        step(vec![failed("a")]),
        DispatchStep::Try { addr, .. } if addr == address(2)
    ));
    assert!(matches!(
        step(vec![failed("a"), Attempt::Succeeded]),
        DispatchStep::Deliver { addr } if addr == address(2)
    ));
    assert!(matches!(
        step(vec![failed("a"), failed("b")]),
        DispatchStep::Fail(error) if error == "b"
    ));
    let nowhere = ResolvedUpstream { addrs: vec![], ech_config: Some(vec![9]) };
    match dispatch_upstream_request("linux.do", &nowhere, &vec![]) {
        DispatchStep::Fail(error) => {
            assert_eq!(error, "ECH 强制模式：linux.do 所有上游地址都握手失败")
        }
        _ => panic!("expected a failure"),
    }
}

fn run(start: SendState<String>, events: Vec<SendEvent<String>>) -> SendState<String> {
    events.into_iter().fold(start, send_once)
}

#[test]
fn a_plain_upstream_is_spoken_to_plainly() {
    assert!(matches!(send_start("HTTP"), SendState::SendPlain));
    let done = run(send_start("http"), vec![SendEvent::Answered(true)]);
    assert!(matches!(done, SendState::Done(Protocol::Http1)));
    let failed = run(send_start("http"), vec![SendEvent::Failed("no route".to_string())]);
    assert!(matches!(failed, SendState::Failed(error) if error == "no route"));
}

#[test]
fn an_open_connection_is_used_and_replaced() {
    let done = run(send_start("https"), vec![SendEvent::Answered(true), SendEvent::Answered(true), SendEvent::Answered(true)]);
    assert!(matches!(done, SendState::Done(Protocol::Http2)));
    let evict = run(
        send_start("https"),
        vec![SendEvent::Answered(true), SendEvent::Answered(true), SendEvent::Failed("closed".to_string())],
    );
    assert!(matches!(evict, SendState::EvictPooled));
    let evict = run(send_start("https"), vec![SendEvent::Answered(true), SendEvent::Answered(false)]);
    assert!(matches!(evict, SendState::EvictPooled));
    assert!(matches!(send_once(evict, SendEvent::Answered(true)), SendState::Connect));
    let invalid = run(
        send_start("https"),
        vec![SendEvent::Answered(true), SendEvent::Answered(true), SendEvent::Invalid("bad uri".to_string())],
    );
    assert!(matches!(invalid, SendState::Failed(error) if error == "bad uri"));
}

#[test]
fn a_new_connection_is_kept_if_it_is_http2() {
    let store = run(send_start("https"), vec![SendEvent::Answered(false), SendEvent::Answered(true), SendEvent::Answered(true)]);
    assert!(matches!(store, SendState::StorePooled));
    assert!(matches!(send_once(store, SendEvent::Answered(true)), SendState::Done(Protocol::Http2)));
    let done = run(send_start("https"), vec![SendEvent::Answered(false), SendEvent::Answered(false), SendEvent::Answered(true)]);
    assert!(matches!(done, SendState::Done(Protocol::Http1)));
    assert_eq!(Protocol::Http1.name(), "http/1.1");
    assert_eq!(Protocol::Http2.name(), "h2");
}

#[test]
fn connections_are_kept_by_host_and_address() {
    let mut pool: Table<H2PoolKey, u8> = Table::new();
    pool.insert(H2PoolKey::new("Linux.do", address(1)), 1);
    assert_eq!(pool.get(&H2PoolKey::new("linux.DO", address(1))), Some(&1));
    assert_eq!(pool.get(&H2PoolKey::new("linux.do", address(2))), None);
}

#[test]
fn some_hosts_are_traced() {
    assert!(should_trace_upstream("CDN3.linux.do"));
    assert!(!should_trace_upstream("cdn.linux.do"));
    assert_eq!(
        log_upstream_debug("linux.do", "/", "hello").as_deref(),
        Some("host=linux.do path=/ hello")
    );
    assert_eq!(log_upstream_debug("example.com", "/", "hello"), None);
    assert_eq!(format_socket_addrs(&vec![address(1), address(2)]), "0.0.0.1:443,0.0.0.2:443");
    assert_eq!(format_socket_addrs(&vec![]), "");
}
