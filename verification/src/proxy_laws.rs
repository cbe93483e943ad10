//! What becomes of requests and responses that pass through the proxy, for every
//! message.
use vstd::prelude::*;
use vstd::utf8::encode_utf8;
use crate::proxy::{
    address_text, forwarded_headers, header_value, https_location, message_reply, named_host,
    redirection, relayed_headers, request_header_skipped, requested_host,
    response_header_skipped, target_of, target_path, visible, visible_text, HeaderView,
    TargetView,
};
use crate::text::{decimal, lower, split};
use crate::text_laws::a_text_without_separator_is_one_piece;

verus! {

// ---------------------------------------------------------------------------
// Header fields
// ---------------------------------------------------------------------------
/// The header fields of a response that the proxy keeps for itself are those for one
/// connection alone, and no others: not the cookies, not what the content is, and not
/// where it moved to.
pub proof fn a_response_keeps_all_but_connection_headers(headers: Seq<HeaderView>)
    ensures
        relayed_headers(headers) == headers.filter(
            |h: HeaderView|
                lower(h.name) != "connection"@ && lower(h.name) != "keep-alive"@ && lower(h.name)
                    != "proxy-authenticate"@ && lower(h.name) != "proxy-authorization"@ && lower(
                    h.name,
                ) != "te"@ && lower(h.name) != "trailers"@ && lower(h.name)
                    != "transfer-encoding"@ && lower(h.name) != "upgrade"@,
        ),
    decreases headers.len(),
{
    reveal(Seq::filter);
    if headers.len() > 0 {
        a_response_keeps_all_but_connection_headers(headers.drop_last());
    }
}

/// A header field of a response is dropped if and only if it is for one connection
/// alone.
pub proof fn a_response_header_is_dropped(name: Seq<char>)
    ensures
        response_header_skipped(name) <==> lower(name) == "connection"@ || lower(name)
            == "keep-alive"@ || lower(name) == "proxy-authenticate"@ || lower(name)
            == "proxy-authorization"@ || lower(name) == "te"@ || lower(name) == "trailers"@
            || lower(name) == "transfer-encoding"@ || lower(name) == "upgrade"@,
{
}

/// What a response says to the browser is relayed, however its name is written.
pub proof fn what_a_response_says_is_relayed(name: Seq<char>)
    requires
        lower(name) == "set-cookie"@ || lower(name) == "content-type"@ || lower(name)
            == "content-encoding"@ || lower(name) == "content-length"@ || lower(name)
            == "location"@ || lower(name) == "cache-control"@ || lower(name) == "etag"@ || lower(
            name,
        ) == "date"@ || lower(name) == "vary"@,
    ensures
        !response_header_skipped(name),
        !request_header_skipped(name),
{
    reveal_strlit("connection");
    reveal_strlit("keep-alive");
    reveal_strlit("proxy-authenticate");
    reveal_strlit("proxy-authorization");
    reveal_strlit("proxy-connection");
    reveal_strlit("te");
    reveal_strlit("host");
    reveal_strlit("trailers");
    reveal_strlit("transfer-encoding");
    reveal_strlit("upgrade");
    reveal_strlit("set-cookie");
    reveal_strlit("content-type");
    reveal_strlit("content-encoding");
    reveal_strlit("content-length");
    reveal_strlit("location");
    reveal_strlit("cache-control");
    reveal_strlit("etag");
    reveal_strlit("date");
    reveal_strlit("vary");
    assert("set-cookie"@[0] == 's');
    assert("content-type"@.len() == 12);
    assert("content-encoding"@.len() == 16);
    assert("content-length"@.len() == 14);
    assert("location"@[0] == 'l');
    assert("cache-control"@.len() == 13);
    assert("etag"@[0] == 'e');
    assert("date"@[0] == 'd');
    assert("vary"@[0] == 'v');
    assert("connection"@.len() == 10 && "connection"@[0] == 'c');
    assert("keep-alive"@.len() == 10 && "keep-alive"@[0] == 'k');
    assert("proxy-authenticate"@.len() == 18);
    assert("proxy-authorization"@.len() == 19);
    assert("proxy-connection"@.len() == 16 && "proxy-connection"@[0] == 'p');
    assert("te"@.len() == 2);
    assert("host"@.len() == 4 && "host"@[0] == 'h');
    assert("trailers"@.len() == 8 && "trailers"@[0] == 't');
    assert("transfer-encoding"@.len() == 17);
    assert("upgrade"@.len() == 7);
}

/// The header fields of a request that the proxy keeps for itself are those for one
/// connection alone and `Host`, and no others: not the cookies and not what the
/// browser accepts.
pub proof fn a_request_keeps_all_but_connection_headers(headers: Seq<HeaderView>)
    ensures
        forwarded_headers(headers) == headers.filter(
            |h: HeaderView|
                lower(h.name) != "connection"@ && lower(h.name) != "host"@ && lower(h.name)
                    != "keep-alive"@ && lower(h.name) != "proxy-authenticate"@ && lower(h.name)
                    != "proxy-authorization"@ && lower(h.name) != "proxy-connection"@ && lower(
                    h.name,
                ) != "te"@ && lower(h.name) != "trailers"@ && lower(h.name)
                    != "transfer-encoding"@ && lower(h.name) != "upgrade"@,
        ),
    decreases headers.len(),
{
    reveal(Seq::filter);
    if headers.len() > 0 {
        a_request_keeps_all_but_connection_headers(headers.drop_last());
    }
}

/// A header field of a request is not forwarded if and only if it is for one
/// connection alone, or `Host`.
pub proof fn a_request_header_is_dropped(name: Seq<char>)
    ensures
        request_header_skipped(name) <==> lower(name) == "connection"@ || lower(name) == "host"@
            || lower(name) == "keep-alive"@ || lower(name) == "proxy-authenticate"@ || lower(name)
            == "proxy-authorization"@ || lower(name) == "proxy-connection"@ || lower(name)
            == "te"@ || lower(name) == "trailers"@ || lower(name) == "transfer-encoding"@ || lower(
            name,
        ) == "upgrade"@,
{
}

/// Header fields are passed on in their order, and as often as they occur.
pub proof fn headers_keep_their_order(first: Seq<HeaderView>, second: Seq<HeaderView>)
    ensures
        relayed_headers(first + second) == relayed_headers(first) + relayed_headers(second),
        forwarded_headers(first + second) == forwarded_headers(first) + forwarded_headers(second),
    decreases second.len(),
{
    reveal(Seq::filter);
    let both = first + second;
    if second.len() == 0 {
        assert(both =~= first);
        assert(relayed_headers(first) + relayed_headers(second) =~= relayed_headers(first));
        assert(forwarded_headers(first) + forwarded_headers(second) =~= forwarded_headers(first));
    } else {
        headers_keep_their_order(first, second.drop_last());
        assert(both.drop_last() =~= first + second.drop_last());
        assert(both.last() == second.last());
        assert(relayed_headers(both) =~= relayed_headers(first) + relayed_headers(second));
        assert(forwarded_headers(both) =~= forwarded_headers(first) + forwarded_headers(second));
    }
}

// ---------------------------------------------------------------------------
// Which host a request is for
// ---------------------------------------------------------------------------
/// The value of a header field is that of the first field of that name, however it is
/// written; there is none exactly if no field has that name.
pub proof fn the_first_header_of_a_name_counts(headers: Seq<HeaderView>, name: Seq<char>)
    ensures
        header_value(headers, name) is None <==> forall|i: int|
            0 <= i < headers.len() ==> lower((#[trigger] headers[i]).name) != name,
        header_value(headers, name) matches Some(value) ==> exists|i: int|
            0 <= i < headers.len() && lower((#[trigger] headers[i]).name) == name
                && headers[i].value == value && (forall|j: int|
                0 <= j < i ==> lower((#[trigger] headers[j]).name) != name),
    decreases headers.len(),
{
    if headers.len() > 0 && lower(headers[0].name) != name {
        let fewer = headers.drop_first();
        the_first_header_of_a_name_counts(fewer, name);
        assert(forall|i: int| 0 <= i < fewer.len() ==> #[trigger] fewer[i] == headers[i + 1]);
        if header_value(headers, name) is None {
            assert forall|i: int| 0 <= i < headers.len() implies lower(
                (#[trigger] headers[i]).name,
            ) != name by {
                if i > 0 {
                    assert(headers[i] == fewer[i - 1]);
                }
            }
        } else {
            let value = header_value(headers, name)->0;
            let i = choose|i: int|
                0 <= i < fewer.len() && lower((#[trigger] fewer[i]).name) == name
                    && fewer[i].value == value && (forall|j: int|
                    0 <= j < i ==> lower((#[trigger] fewer[j]).name) != name);
            assert(headers[i + 1] == fewer[i]);
            assert forall|j: int| 0 <= j < i + 1 implies lower((#[trigger] headers[j]).name)
                != name by {
                if j > 0 {
                    assert(headers[j] == fewer[j - 1]);
                }
            }
        }
        if forall|i: int| 0 <= i < headers.len() ==> lower((#[trigger] headers[i]).name) != name {
            assert forall|i: int| 0 <= i < fewer.len() implies lower((#[trigger] fewer[i]).name)
                != name by {
                assert(fewer[i] == headers[i + 1]);
            }
        }
    } else if headers.len() > 0 {
        assert(lower(headers[0].name) == name);
    }
}

/// A header value is read as text exactly if each octet is a visible ASCII character, a
/// space or a tab, and then the text has these characters.
pub proof fn a_visible_value_is_text(value: Seq<u8>)
    ensures
        visible(value) <==> forall|i: int|
            0 <= i < value.len() ==> #[trigger] value[i] == 0x9 || (0x20 <= value[i] && value[i]
                <= 0x7e),
        visible_text(value).len() == value.len(),
        forall|i: int| 0 <= i < value.len()
            ==> visible_text(value)[i] as u32 == #[trigger] value[i],
{
    if forall|i: int|
        0 <= i < value.len() ==> #[trigger] value[i] == 0x9 || (0x20 <= value[i] && value[i]
            <= 0x7e) {
        assert(visible(value));
    }
}

/// The host that a `Host` header names is what stands before the first colon, in lower
/// case.
pub proof fn a_host_header_names_its_host(
    headers: Seq<HeaderView>,
    value: Seq<u8>,
    host: Seq<char>,
    rest: Seq<char>,
)
    requires
        header_value(headers, "host"@) == Some(value),
        forall|i: int|
            0 <= i < value.len() ==> #[trigger] value[i] == 0x9 || (0x20 <= value[i] && value[i]
                <= 0x7e),
        !host.contains(':'),
        visible_text(value) == host || visible_text(value) == host.push(':') + rest,
    ensures
        named_host(headers) == Some(lower(host)),
{
    a_visible_value_is_text(value);
    a_text_without_separator_is_one_piece(host, ':');
    if visible_text(value) == host.push(':') + rest {
        crate::text_laws::a_separator_parts_the_pieces(host, ':', rest);
        assert(split(visible_text(value), ':')[0] == host);
    }
}

/// Without a `Host` header, or with one that is no text, no host is named.
pub proof fn no_host_header_names_no_host(headers: Seq<HeaderView>)
    requires
        header_value(headers, "host"@) matches Some(value) ==> exists|i: int|
            0 <= i < value.len() && (#[trigger] value[i] > 0x7e || (value[i] < 0x20 && value[i]
                != 0x9)),
    ensures
        named_host(headers) is None,
{
    if let Some(value) = header_value(headers, "host"@) {
        a_visible_value_is_text(value);
    }
}

/// A request is for the host in its target, in lower case; or else for the one that its
/// header names; or else for the first that is forwarded; and for none if none is.
pub proof fn whom_a_request_is_for(
    authority_host: Option<Seq<char>>,
    headers: Seq<HeaderView>,
    proxy_domains: Seq<Seq<char>>,
)
    ensures
        authority_host matches Some(host) ==> requested_host(
            authority_host,
            headers,
            proxy_domains,
        ) == Some(lower(host)),
        authority_host is None && named_host(headers) is Some ==> requested_host(
            authority_host,
            headers,
            proxy_domains,
        ) == named_host(headers),
        authority_host is None && named_host(headers) is None && proxy_domains.len() > 0
            ==> requested_host(authority_host, headers, proxy_domains) == Some(proxy_domains[0]),
        requested_host(authority_host, headers, proxy_domains) is None <==> authority_host is None
            && named_host(headers) is None && proxy_domains.len() == 0,
{
}

// ---------------------------------------------------------------------------
// Answers of the proxy's own
// ---------------------------------------------------------------------------
/// A redirection is permanent, goes to the same host and path by HTTPS, and names the
/// port only if it is not the usual one. It has no other header and no body.
pub proof fn a_redirection_goes_to_https(host: Seq<char>, port: u16, path: Seq<char>)
    ensures
        port == 443 ==> https_location(host, port, path) == "https://"@ + host + path,
        port != 443 ==> https_location(host, port, path) == "https://"@ + host + ":"@ + decimal(
            port as nat,
        ) + path,
        ({
            let reply = redirection(https_location(host, port, path));
            &&& reply.status == 301
            &&& reply.headers.len() == 1
            &&& reply.headers[0].name == "location"@
            &&& reply.headers[0].value == encode_utf8(https_location(host, port, path))
            &&& reply.body.len() == 0
        }),
{
    reveal_strlit("");
    assert("https://"@ + host + ""@ + path =~= "https://"@ + host + path);
    assert("https://"@ + host + (":"@ + decimal(port as nat)) + path =~= "https://"@ + host + ":"@
        + decimal(port as nat) + path);
}

/// A message to the user is plain text in UTF-8, with the status that it is given.
pub proof fn a_message_is_plain_text(status: u16, message: Seq<char>)
    ensures
        ({
            let reply = message_reply(status, message);
            &&& reply.status == status
            &&& reply.headers.len() == 1
            &&& reply.headers[0].name == "content-type"@
            &&& reply.headers[0].value == encode_utf8("text/plain; charset=utf-8"@)
            &&& reply.body == encode_utf8(message)
        }),
{
}

/// A request is forwarded with its own path and query, or to the root if it has none.
pub proof fn a_request_keeps_its_path(path: Seq<char>)
    ensures
        target_path(Some(path)) == path,
        target_path(None) == "/"@,
{
}

/// A request is forwarded by the scheme and to the port of the upstream; without either
/// it is not forwarded.
pub proof fn a_request_goes_to_the_upstream(
    upstream: Seq<char>,
    scheme: Seq<char>,
    port: u16,
    error: Seq<char>,
    path: Seq<char>,
)
    ensures
        target_of(upstream, Ok((scheme, Some(port))), path) == Ok::<TargetView, Seq<char>>(
            TargetView { scheme, port, path_and_query: path },
        ),
        target_of(upstream, Ok((scheme, None)), path) == Err::<TargetView, Seq<char>>(
            "upstream URL is missing port"@,
        ),
        target_of(upstream, Err(error), path) == Err::<TargetView, Seq<char>>(
            "failed to parse upstream URL "@ + upstream + ": "@ + error,
        ),
{
}

/// An address to listen on is the host and the port, with a colon between.
pub proof fn an_address_has_a_host_and_a_port(host: Seq<char>, port: u16)
    ensures
        address_text(host, port) == host + ":"@ + decimal(port as nat),
{
}

} // verus!
