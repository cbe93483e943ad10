//! The local proxy: which host a request is for, how it is answered, and what
//! is sent to the upstream.
use vstd::prelude::*;
use vstd::utf8::encode_utf8;
use crate::config::AppConfig;
use crate::text::{
    decimal, decimal_text, joined, joined3, joined4, lower, lowered, option_text, same_text, split,
    split_at_char, split_is_never_empty, texts,
};

verus! {

// ---------------------------------------------------------------------------
// Messages
// ---------------------------------------------------------------------------
/// A header field of a message.
pub struct Header {
    pub name: String,
    pub value: Vec<u8>,
}

/// What a [`Header`] holds.
#[verifier::ext_equal]
pub struct HeaderView {
    pub name: Seq<char>,
    pub value: Seq<u8>,
}

impl View for Header {
    type V = HeaderView;

    open spec fn view(&self) -> HeaderView {
        HeaderView { name: self.name@, value: self.value@ }
    }
}

/// What some header fields hold.
pub open spec fn header_views(headers: Seq<Header>) -> Seq<HeaderView> {
    headers.map_values(|h: Header| h@)
}

/// The octets of a text.
pub fn text_octets(text: &str) -> (octets: Vec<u8>)
    ensures
        octets@ == encode_utf8(text@),
{
    let mut octets: Vec<u8> = Vec::new();
    octets.extend_from_slice(text.as_bytes());
    assert(octets@ =~= encode_utf8(text@));
    octets
}

impl Header {
    /// A header field whose value is a text.
    pub fn new(name: &str, value: &str) -> (header: Header)
        ensures
            header@ == (HeaderView { name: name@, value: encode_utf8(value@) }),
    {
        Header { name: name.to_owned(), value: text_octets(value) }
    }

    /// A copy of the header field.
    pub fn duplicate(&self) -> (copy: Header)
        ensures
            copy@ == self@,
    {
        Header {
            name: self.name.clone(),
            value: crate::https_rr::octets_of(self.value.as_slice()),
        }
    }
}

/// What the proxy reads of a request before its body.
pub struct RequestHead {
    /// The host in the request target, if it names one.
    pub authority_host: Option<String>,
    /// The path and query in the request target, if it has them.
    pub path_and_query: Option<String>,
    pub headers: Vec<Header>,
}

/// A response that the proxy makes up itself, or relays.
pub struct Reply {
    pub status: u16,
    pub headers: Vec<Header>,
    pub body: Vec<u8>,
}

/// What a [`Reply`] holds.
#[verifier::ext_equal]
pub struct ReplyView {
    pub status: u16,
    pub headers: Seq<HeaderView>,
    pub body: Seq<u8>,
}

impl View for Reply {
    type V = ReplyView;

    open spec fn view(&self) -> ReplyView {
        ReplyView {
            status: self.status,
            headers: header_views(self.headers@),
            body: self.body@,
        }
    }
}

/// A response that is only a message to the user.
pub open spec fn message_reply(status: u16, message: Seq<char>) -> ReplyView {
    ReplyView {
        status,
        headers: seq![
            HeaderView {
                name: "content-type"@,
                value: encode_utf8("text/plain; charset=utf-8"@),
            },
        ],
        body: encode_utf8(message),
    }
}

/// A response that is only a message to the user, in UTF-8.
pub fn simple_response(status: u16, message: &str) -> (reply: Reply)
    ensures
        reply@ == message_reply(status, message@),
{
    let mut headers: Vec<Header> = Vec::new();
    headers.push(Header::new("content-type", "text/plain; charset=utf-8"));
    let reply = Reply { status, headers, body: text_octets(message) };
    assert(reply@ =~= message_reply(status, message@));
    reply
}

// ---------------------------------------------------------------------------
// Which host a request is for
// ---------------------------------------------------------------------------
/// A header value is a text: each octet is a visible ASCII character, a space
/// or a tab.
pub open spec fn visible(value: Seq<u8>) -> bool {
    forall|i: int|
        0 <= i < value.len() ==> (32 <= #[trigger] value[i] < 127 || value[i] == 9)
}

/// The characters of a header value that is a text.
pub open spec fn visible_text(value: Seq<u8>) -> Seq<char> {
    value.map_values(|b: u8| b as char)
}

/// The value of the first header field of that name, which is given in lower
/// case.
pub open spec fn header_value(headers: Seq<HeaderView>, name: Seq<char>) -> Option<Seq<u8>>
    decreases headers.len(),
{
    if headers.len() == 0 {
        None
    } else if lower(headers[0].name) == name {
        Some(headers[0].value)
    } else {
        header_value(headers.drop_first(), name)
    }
}

/// The host that the `Host` header names, without the port.
pub open spec fn named_host(headers: Seq<HeaderView>) -> Option<Seq<char>> {
    match header_value(headers, "host"@) {
        Some(value) => if visible(value) {
            Some(lower(split(visible_text(value), ':')[0]))
        } else {
            None
        },
        None => None,
    }
}

/// The host that a request is for: the one in its target, or else in its
/// `Host` header, or else the first of those that are forwarded.
pub open spec fn requested_host(
    authority_host: Option<Seq<char>>,
    headers: Seq<HeaderView>,
    proxy_domains: Seq<Seq<char>>,
) -> Option<Seq<char>> {
    match authority_host {
        Some(host) => Some(lower(host)),
        None => match named_host(headers) {
            Some(host) => Some(host),
            None => if proxy_domains.len() > 0 {
                Some(proxy_domains[0])
            } else {
                None
            },
        },
    }
}

fn find_header(headers: &Vec<Header>, name: &str) -> (at: Option<usize>)
    ensures
        match at {
            Some(i) => i < headers@.len() && header_value(header_views(headers@), name@) == Some(
                headers@[i as int].value@,
            ),
            None => header_value(header_views(headers@), name@) is None,
        },
{
    let ghost all = header_views(headers@);
    let mut i: usize = 0;
    assert(all.skip(0) =~= all);
    while i < headers.len()
        invariant
            i <= headers@.len(),
            all == header_views(headers@),
            header_value(all, name@) == header_value(all.skip(i as int), name@),
        decreases headers@.len() - i,
    {
        assert(all.skip(i as int)[0] == headers@[i as int]@);
        assert(all.skip(i as int).drop_first() =~= all.skip(i as int + 1));
        let found = lowered(headers[i].name.as_str());
        if same_text(found.as_str(), name) {
            return Some(i);
        }
        i = i + 1;
    }
    None
}

fn read_visible(value: &Vec<u8>) -> (chars: Option<Vec<char>>)
    ensures
        match chars {
            Some(c) => visible(value@) && c@ == visible_text(value@),
            None => !visible(value@),
        },
{
    let mut chars: Vec<char> = Vec::new();
    let mut i: usize = 0;
    while i < value.len()
        invariant
            i <= value@.len(),
            chars@ == visible_text(value@).take(i as int),
            forall|j: int| 0 <= j < i ==> (32 <= #[trigger] value@[j] < 127 || value@[j] == 9),
        decreases value@.len() - i,
    {
        let b: u8 = value[i];
        if !((b >= 32 && b < 127) || b == 9) {
            assert(!(32 <= value@[i as int] < 127 || value@[i as int] == 9));
            return None;
        }
        chars.push(b as char);
        assert(visible_text(value@).take(i as int + 1) =~= visible_text(value@).take(
            i as int,
        ).push(value@[i as int] as char));
        i = i + 1;
    }
    assert(visible_text(value@).take(i as int) =~= visible_text(value@));
    Some(chars)
}

fn host_of_headers(headers: &Vec<Header>) -> (host: Option<String>)
    ensures
        option_text(host) == named_host(header_views(headers@)),
{
    match find_header(headers, "host") {
        None => None,
        Some(i) => match read_visible(&headers[i].value) {
            None => None,
            Some(chars) => {
                let pieces = split_at_char(chars.as_slice(), ':');
                proof {
                    split_is_never_empty(chars@, ':');
                }
                assert(texts(pieces@)[0] == pieces@[0]@);
                Some(lowered(pieces[0].as_str()))
            },
        },
    }
}

/// The host that a request is for, in lower case unless it is configured.
pub fn extract_host(head: &RequestHead, config: &AppConfig) -> (host: Option<String>)
    ensures
        option_text(host) == requested_host(
            option_text(head.authority_host),
            header_views(head.headers@),
            texts(config.proxy_domains@),
        ),
{
    match &head.authority_host {
        Some(host) => Some(lowered(host.as_str())),
        None => match host_of_headers(&head.headers) {
            Some(host) => Some(host),
            None => if config.proxy_domains.len() > 0 {
                assert(texts(config.proxy_domains@)[0] == config.proxy_domains@[0]@);
                Some(config.proxy_domains[0].clone())
            } else {
                None
            },
        },
    }
}

// ---------------------------------------------------------------------------
// Redirecting and refusing
// ---------------------------------------------------------------------------
/// The text `host:port`.
pub open spec fn address_text(host: Seq<char>, port: u16) -> Seq<char> {
    host + ":"@ + decimal(port as nat)
}

/// The address to listen on with a port.
pub fn listen_address(host: &str, port: u16) -> (address: String)
    ensures
        address@ == address_text(host@, port),
{
    joined3(host, ":", decimal_text(port as u64).as_str())
}

/// The path and query of a request target, or that of the root.
pub open spec fn target_path(path_and_query: Option<Seq<char>>) -> Seq<char> {
    match path_and_query {
        Some(path) => path,
        None => "/"@,
    }
}

fn path_of(head: &RequestHead) -> (path: String)
    ensures
        path@ == target_path(option_text(head.path_and_query)),
{
    match &head.path_and_query {
        Some(path) => path.clone(),
        None => "/".to_owned(),
    }
}

/// Where a plain request is sent: the same host and path, by HTTPS. The port
/// is left out if it is the usual one.
pub open spec fn https_location(host: Seq<char>, https_port: u16, path: Seq<char>) -> Seq<char> {
    "https://"@ + host + (if https_port == 443 {
        ""@
    } else {
        ":"@ + decimal(https_port as nat)
    }) + path
}

/// A permanent redirection.
pub open spec fn redirection(location: Seq<char>) -> ReplyView {
    ReplyView {
        status: 301,
        headers: seq![HeaderView { name: "location"@, value: encode_utf8(location) }],
        body: Seq::empty(),
    }
}

/// Answers a plain request: it is redirected to HTTPS.
pub fn redirect_handler(head: &RequestHead, config: &AppConfig) -> (reply: Reply)
    ensures
        reply@ == redirection(
            https_location(
                match requested_host(
                    option_text(head.authority_host),
                    header_views(head.headers@),
                    texts(config.proxy_domains@),
                ) {
                    Some(host) => host,
                    None => config.server_common_name@,
                },
                config.https_port,
                target_path(option_text(head.path_and_query)),
            ),
        ),
{
    let host = match extract_host(head, config) {
        Some(host) => host,
        None => config.server_common_name.clone(),
    };
    let port = if config.https_port == 443 {
        "".to_owned()
    } else {
        joined(":", decimal_text(config.https_port as u64).as_str())
    };
    let path = path_of(head);
    let location = joined4("https://", host.as_str(), port.as_str(), path.as_str());
    let mut headers: Vec<Header> = Vec::new();
    headers.push(Header::new("location", location.as_str()));
    let body: Vec<u8> = Vec::new();
    let reply = Reply { status: 301, headers, body };
    assert(reply@ =~= redirection(location@));
    reply
}

/// Answers a request that is not forwarded: one for no host, and one for a
/// host that is not managed. There is no answer to the others yet.
pub fn proxy_handler(host: Option<&str>, managed: bool) -> (reply: Option<Reply>)
    ensures
        reply is None <==> host is Some && managed,
        reply matches Some(r) ==> r@ == if host is None {
            message_reply(400, "missing Host header"@)
        } else {
            message_reply(502, "host is not managed by linuxdo-accelerator"@)
        },
{
    match host {
        None => Some(simple_response(400, "missing Host header")),
        Some(_) => if managed {
            None
        } else {
            Some(simple_response(502, "host is not managed by linuxdo-accelerator"))
        },
    }
}

/// Answers a request whose forwarding failed.
pub fn failed_forwarding(error: &str) -> (reply: Reply)
    ensures
        reply@ == message_reply(502, "upstream request failed: "@ + error@),
{
    let message = joined("upstream request failed: ", error);
    simple_response(502, message.as_str())
}

// ---------------------------------------------------------------------------
// Forwarding
// ---------------------------------------------------------------------------
/// The scheme and the port of a URL, the usual one of the scheme if it names
/// none: what `Url::parse`, `Url::scheme` and `Url::port_or_known_default`
/// give, or the text of the error of the first.
pub uninterp spec fn url_parts(url: Seq<char>) -> Result<(Seq<char>, Option<u16>), Seq<char>>;

/// `reqwest::Url::parse`, with the scheme and the port of the URL taken out.
/// Nothing more is claimed of the outcome than that the text determines it.
#[verifier::external_body]
fn parse_url(url: &str) -> (parts: Result<(String, Option<u16>), String>)
    ensures
        match parts {
            Ok((scheme, port)) => url_parts(url@) == Ok::<
                (Seq<char>, Option<u16>),
                Seq<char>,
            >((scheme@, port)),
            Err(error) => url_parts(url@) == Err::<(Seq<char>, Option<u16>), Seq<char>>(error@),
        },
{
    match reqwest::Url::parse(url) {
        Ok(parsed) => Ok((parsed.scheme().to_string(), parsed.port_or_known_default())),
        Err(error) => Err(error.to_string()),
    }
}

/// What a request is forwarded to.
pub struct ForwardTarget {
    pub scheme: String,
    pub port: u16,
    pub path_and_query: String,
}

/// What a [`ForwardTarget`] holds.
#[verifier::ext_equal]
pub struct TargetView {
    pub scheme: Seq<char>,
    pub port: u16,
    pub path_and_query: Seq<char>,
}

impl View for ForwardTarget {
    type V = TargetView;

    open spec fn view(&self) -> TargetView {
        TargetView {
            scheme: self.scheme@,
            port: self.port,
            path_and_query: self.path_and_query@,
        }
    }
}

/// What a request for `path` is forwarded to, if the URL of the upstream has
/// these parts.
pub open spec fn target_of(
    upstream: Seq<char>,
    parts: Result<(Seq<char>, Option<u16>), Seq<char>>,
    path: Seq<char>,
) -> Result<TargetView, Seq<char>> {
    match parts {
        Err(error) => Err("failed to parse upstream URL "@ + upstream + ": "@ + error),
        Ok((_, None)) => Err("upstream URL is missing port"@),
        Ok((scheme, Some(port))) => Ok(TargetView { scheme, port, path_and_query: path }),
    }
}

/// The target that the parts of the upstream URL make.
pub fn forward_target(
    upstream: &str,
    parts: Result<(String, Option<u16>), String>,
    path: String,
) -> (target: Result<ForwardTarget, String>)
    ensures
        match target {
            Ok(t) => target_of(upstream@, parts_view(parts), path@) == Ok::<
                TargetView,
                Seq<char>,
            >(t@),
            Err(error) => target_of(upstream@, parts_view(parts), path@) == Err::<
                TargetView,
                Seq<char>,
            >(error@),
        },
{
    match parts {
        Err(error) => Err(
            joined4("failed to parse upstream URL ", upstream, ": ", error.as_str()),
        ),
        Ok((scheme, port)) => match port {
            None => Err("upstream URL is missing port".to_owned()),
            Some(port) => Ok(ForwardTarget { scheme, port, path_and_query: path }),
        },
    }
}

/// The parts of a URL as values.
pub open spec fn parts_view(parts: Result<(String, Option<u16>), String>) -> Result<
    (Seq<char>, Option<u16>),
    Seq<char>,
> {
    match parts {
        Ok((scheme, port)) => Ok((scheme@, port)),
        Err(error) => Err(error@),
    }
}

/// Says what a request is forwarded to.
pub fn forward_request(head: &RequestHead, config: &AppConfig) -> (target: Result<
    ForwardTarget,
    String,
>)
    ensures
        match target {
            Ok(t) => target_of(
                config.upstream@,
                url_parts(config.upstream@),
                target_path(option_text(head.path_and_query)),
            ) == Ok::<TargetView, Seq<char>>(t@),
            Err(error) => target_of(
                config.upstream@,
                url_parts(config.upstream@),
                target_path(option_text(head.path_and_query)),
            ) == Err::<TargetView, Seq<char>>(error@),
        },
{
    let parts = parse_url(config.upstream.as_str());
    forward_target(config.upstream.as_str(), parts, path_of(head))
}

/// The header fields of a request that are for this connection alone, and
/// `Host`, which is set anew.
pub open spec fn request_header_skipped(name: Seq<char>) -> bool {
    let n = lower(name);
    ||| n == "connection"@
    ||| n == "host"@
    ||| n == "keep-alive"@
    ||| n == "proxy-authenticate"@
    ||| n == "proxy-authorization"@
    ||| n == "proxy-connection"@
    ||| n == "te"@
    ||| n == "trailers"@
    ||| n == "transfer-encoding"@
    ||| n == "upgrade"@
}

/// The header fields of a response that are for this connection alone.
pub open spec fn response_header_skipped(name: Seq<char>) -> bool {
    let n = lower(name);
    ||| n == "connection"@
    ||| n == "keep-alive"@
    ||| n == "proxy-authenticate"@
    ||| n == "proxy-authorization"@
    ||| n == "te"@
    ||| n == "trailers"@
    ||| n == "transfer-encoding"@
    ||| n == "upgrade"@
}

/// Whether a header field of a request is not forwarded as it is.
pub fn should_skip_request_header(header_name: &str) -> (skip: bool)
    ensures
        skip == request_header_skipped(header_name@),
{
    let name = lowered(header_name);
    let n = name.as_str();
    same_text(n, "connection") || same_text(n, "host") || same_text(n, "keep-alive") || same_text(
        n,
        "proxy-authenticate",
    ) || same_text(n, "proxy-authorization") || same_text(n, "proxy-connection") || same_text(
        n,
        "te",
    ) || same_text(n, "trailers") || same_text(n, "transfer-encoding") || same_text(n, "upgrade")
}

/// Whether a header field of a response is not relayed.
pub fn should_skip_response_header(header_name: &str) -> (skip: bool)
    ensures
        skip == response_header_skipped(header_name@),
{
    let name = lowered(header_name);
    let n = name.as_str();
    same_text(n, "connection") || same_text(n, "keep-alive") || same_text(
        n,
        "proxy-authenticate",
    ) || same_text(n, "proxy-authorization") || same_text(n, "te") || same_text(n, "trailers")
        || same_text(n, "transfer-encoding") || same_text(n, "upgrade")
}

/// The header fields of a request that are forwarded as they are, in order.
pub open spec fn forwarded_headers(headers: Seq<HeaderView>) -> Seq<HeaderView> {
    headers.filter(|h: HeaderView| !request_header_skipped(h.name))
}

/// The header fields of a response that are relayed, in order.
pub open spec fn relayed_headers(headers: Seq<HeaderView>) -> Seq<HeaderView> {
    headers.filter(|h: HeaderView| !response_header_skipped(h.name))
}

/// What is sent to the upstream.
pub struct UpstreamRequest {
    pub method: String,
    pub uri: String,
    pub headers: Vec<Header>,
    pub body: Vec<u8>,
}

/// The request for the upstream: the path and query for its target, the header
/// fields that are forwarded, and then `Host`.
pub fn build_upstream_request(
    request_host: &str,
    method: &str,
    headers: &Vec<Header>,
    body: Vec<u8>,
    path_and_query: &str,
) -> (request: UpstreamRequest)
    ensures
        request.method@ == method@,
        request.uri@ == path_and_query@,
        header_views(request.headers@) == forwarded_headers(header_views(headers@)).push(
            HeaderView { name: "host"@, value: encode_utf8(request_host@) },
        ),
        request.body@ == body@,
{
    let mut kept: Vec<Header> = Vec::new();
    let ghost all = header_views(headers@);
    let ghost pass = |h: HeaderView| !request_header_skipped(h.name);
    let mut i: usize = 0;
    assert(all.take(0) =~= Seq::empty());
    proof {
        reveal(Seq::filter);
    }
    assert(header_views(kept@) =~= all.take(0).filter(pass));
    while i < headers.len()
        invariant
            i <= headers@.len(),
            all == header_views(headers@),
            pass == (|h: HeaderView| !request_header_skipped(h.name)),
            header_views(kept@) == all.take(i as int).filter(pass),
        decreases headers@.len() - i,
    {
        let ghost upto = all.take(i as int + 1);
        let ghost before = kept@;
        assert(upto.drop_last() =~= all.take(i as int));
        assert(upto.last() == headers@[i as int]@);
        proof {
            reveal(Seq::filter);
        }
        if !should_skip_request_header(headers[i].name.as_str()) {
            kept.push(headers[i].duplicate());
            assert(header_views(kept@) =~= header_views(before).push(headers@[i as int]@));
        }
        assert(header_views(kept@) =~= upto.filter(pass));
        i = i + 1;
    }
    assert(all.take(i as int) =~= all);
    let ghost before = kept@;
    kept.push(Header::new("host", request_host));
    assert(header_views(kept@) =~= header_views(before).push(
        HeaderView { name: "host"@, value: encode_utf8(request_host@) },
    ));
    UpstreamRequest {
        method: method.to_owned(),
        uri: path_and_query.to_owned(),
        headers: kept,
        body,
    }
}

/// The response of the upstream as it is relayed: without the header fields
/// that were for that connection alone.
pub fn relay_response(status: u16, headers: &Vec<Header>, body: Vec<u8>) -> (reply: Reply)
    ensures
        reply@ == (ReplyView {
            status,
            headers: relayed_headers(header_views(headers@)),
            body: body@,
        }),
{
    let mut kept: Vec<Header> = Vec::new();
    let ghost all = header_views(headers@);
    let ghost pass = |h: HeaderView| !response_header_skipped(h.name);
    let mut i: usize = 0;
    assert(all.take(0) =~= Seq::empty());
    proof {
        reveal(Seq::filter);
    }
    assert(header_views(kept@) =~= all.take(0).filter(pass));
    while i < headers.len()
        invariant
            i <= headers@.len(),
            all == header_views(headers@),
            pass == (|h: HeaderView| !response_header_skipped(h.name)),
            header_views(kept@) == all.take(i as int).filter(pass),
        decreases headers@.len() - i,
    {
        let ghost upto = all.take(i as int + 1);
        let ghost before = kept@;
        assert(upto.drop_last() =~= all.take(i as int));
        assert(upto.last() == headers@[i as int]@);
        proof {
            reveal(Seq::filter);
        }
        if !should_skip_response_header(headers[i].name.as_str()) {
            kept.push(headers[i].duplicate());
            assert(header_views(kept@) =~= header_views(before).push(headers@[i as int]@));
        }
        assert(header_views(kept@) =~= upto.filter(pass));
        i = i + 1;
    }
    assert(all.take(i as int) =~= all);
    Reply { status, headers: kept, body }
}

// ---------------------------------------------------------------------------
// Laws
// ---------------------------------------------------------------------------
proof fn filtered_is_from(
    headers: Seq<HeaderView>,
    pred: spec_fn(HeaderView) -> bool,
    i: int,
)
    requires
        0 <= i < headers.filter(pred).len(),
    ensures
        pred(headers.filter(pred)[i]),
        headers.contains(headers.filter(pred)[i]),
    decreases headers.len(),
{
    reveal(Seq::filter);
    let fewer = headers.drop_last();
    let kept = headers.filter(pred);
    if i < fewer.filter(pred).len() {
        filtered_is_from(fewer, pred, i);
        let k = choose|k: int| 0 <= k < fewer.len() && fewer[k] == fewer.filter(pred)[i];
        assert(headers[k] == kept[i]);
    } else {
        assert(headers[headers.len() - 1] == kept[i]);
    }
}

/// What is for one connection alone goes no further: of a request exactly the
/// other header fields are forwarded, and nothing is made up.
pub proof fn forwarded_headers_are_the_others(headers: Seq<HeaderView>, header: HeaderView)
    ensures
        forwarded_headers(headers).contains(header) <==> headers.contains(header)
            && !request_header_skipped(header.name),
{
    let pred = |h: HeaderView| !request_header_skipped(h.name);
    if forwarded_headers(headers).contains(header) {
        let i = choose|i: int|
            0 <= i < forwarded_headers(headers).len() && forwarded_headers(headers)[i] == header;
        filtered_is_from(headers, pred, i);
    }
    if headers.contains(header) && !request_header_skipped(header.name) {
        let k = choose|k: int| 0 <= k < headers.len() && headers[k] == header;
        headers.lemma_filter_contains(pred, k);
    }
}

/// Of a response exactly those header fields are relayed that are not for one
/// connection alone.
pub proof fn relayed_headers_are_the_others(headers: Seq<HeaderView>, header: HeaderView)
    ensures
        relayed_headers(headers).contains(header) <==> headers.contains(header)
            && !response_header_skipped(header.name),
{
    let pred = |h: HeaderView| !response_header_skipped(h.name);
    if relayed_headers(headers).contains(header) {
        let i = choose|i: int|
            0 <= i < relayed_headers(headers).len() && relayed_headers(headers)[i] == header;
        filtered_is_from(headers, pred, i);
    }
    if headers.contains(header) && !response_header_skipped(header.name) {
        let k = choose|k: int| 0 <= k < headers.len() && headers[k] == header;
        headers.lemma_filter_contains(pred, k);
    }
}

proof fn last_host_is_found(headers: Seq<HeaderView>, last: HeaderView)
    requires
        forall|i: int| 0 <= i < headers.len() ==> lower((#[trigger] headers[i]).name) != "host"@,
        lower(last.name) == "host"@,
    ensures
        header_value(headers.push(last), "host"@) == Some(last.value),
    decreases headers.len(),
{
    let all = headers.push(last);
    if headers.len() > 0 {
        let fewer = headers.drop_first();
        assert(all[0] == headers[0]);
        assert(all.drop_first() =~= fewer.push(last));
        assert forall|i: int| 0 <= i < fewer.len() implies lower((#[trigger] fewer[i]).name)
            != "host"@ by {
            assert(fewer[i] == headers[i + 1]);
        }
        last_host_is_found(fewer, last);
    } else {
        assert(all[0] == last);
    }
}

/// Whatever `Host` a request had, the one that goes to the upstream is the host
/// that it was for.
pub proof fn the_upstream_is_told_the_host(headers: Seq<HeaderView>, host: Seq<char>)
    ensures
        header_value(
            forwarded_headers(headers).push(
                HeaderView { name: "host"@, value: encode_utf8(host) },
            ),
            "host"@,
        ) == Some(encode_utf8(host)),
{
    let pred = |h: HeaderView| !request_header_skipped(h.name);
    let kept = forwarded_headers(headers);
    assert forall|i: int| 0 <= i < kept.len() implies lower((#[trigger] kept[i]).name)
        != "host"@ by {
        filtered_is_from(headers, pred, i);
    }
    reveal_strlit("host");
    assert(lower("host"@) =~= "host"@);
    last_host_is_found(kept, HeaderView { name: "host"@, value: encode_utf8(host) });
}

} // verus!
