//! How a request is sent to its upstream, for every host and whatever happens.
use vstd::prelude::*;
use crate::net::{socket_text, SocketAddress};
use crate::text::lower;
use crate::upstream::{
    dispatch_step, next_send, socket_texts, traced, Attempt, DispatchStep, Protocol, SendEvent,
    SendState,
};

verus! {

/// A request for a host that offers no ECH fails, and the host is named, however many
/// addresses it has.
pub proof fn without_ech_the_host_is_named(
    host: Seq<char>,
    addrs: Seq<SocketAddress>,
    attempts: Seq<Attempt<Seq<char>>>,
)
    ensures
        dispatch_step(host, addrs, None, attempts) == DispatchStep::<Seq<char>, Seq<u8>>::Fail(
            "ECH 强制模式："@ + host + " 未提供可用的 ECH 配置"@,
        ),
{
}

/// A request for a host without addresses fails, and the host is named.
pub proof fn without_addresses_the_host_is_named(host: Seq<char>, ech_config: Seq<u8>)
    ensures
        dispatch_step(
            host,
            Seq::<SocketAddress>::empty(),
            Some(ech_config),
            Seq::<Attempt<Seq<char>>>::empty(),
        ) == DispatchStep::<Seq<char>, Seq<u8>>::Fail(
            "ECH 强制模式："@ + host + " 所有上游地址都握手失败"@,
        ),
{
}

/// A failure at one address leads to the next, with the same list of configurations; at
/// the last address it is what the request fails with.
pub proof fn a_failure_leads_to_the_next_address(
    host: Seq<char>,
    addrs: Seq<SocketAddress>,
    ech_config: Seq<u8>,
    before: Seq<Attempt<Seq<char>>>,
    error: Seq<char>,
)
    requires
        before.len() < addrs.len(),
    ensures
        before.len() + 1 < addrs.len() ==> dispatch_step(
            host,
            addrs,
            Some(ech_config),
            before.push(Attempt::Failed(error)),
        ) == (DispatchStep::<Seq<char>, Seq<u8>>::Try {
            addr: addrs[before.len() as int + 1],
            ech_config,
        }),
        before.len() + 1 == addrs.len() ==> dispatch_step(
            host,
            addrs,
            Some(ech_config),
            before.push(Attempt::Failed(error)),
        ) == DispatchStep::<Seq<char>, Seq<u8>>::Fail(error),
{
    assert(before.push(Attempt::Failed(error)).last() == Attempt::Failed(error));
}

/// A response is given only after a success, and the address is the one that it came from.
pub proof fn only_a_success_is_delivered(
    host: Seq<char>,
    addrs: Seq<SocketAddress>,
    ech_config: Option<Seq<u8>>,
    attempts: Seq<Attempt<Seq<char>>>,
    addr: SocketAddress,
)
    requires
        dispatch_step(host, addrs, ech_config, attempts) == (DispatchStep::<
            Seq<char>,
            Seq<u8>,
        >::Deliver { addr }),
    ensures
        ech_config is Some,
        attempts.len() > 0,
        attempts[attempts.len() - 1] is Succeeded,
        addr == addrs[attempts.len() - 1],
{
}

/// Without TLS the request is sent by HTTP/1.1 at once: it is done if that works, and
/// fails with the error if not.
pub proof fn a_plain_request_takes_one_step(answer: bool, error: Seq<char>)
    ensures
        next_send(SendState::SendPlain, SendEvent::Answered(answer)) == SendState::<
            Seq<char>,
        >::Done(Protocol::Http1),
        next_send(SendState::SendPlain, SendEvent::Failed(error)) == SendState::<
            Seq<char>,
        >::Failed(error),
        next_send(SendState::SendPlain, SendEvent::Invalid(error)) == SendState::<
            Seq<char>,
        >::Failed(error),
{
}

/// An open connection that is ready is used before a new one is made, and what comes by it
/// came by HTTP/2.
pub proof fn an_open_connection_is_used(answer: bool)
    ensures
        next_send(SendState::FindPooled, SendEvent::Answered(true)) is AwaitPooled,
        next_send(SendState::AwaitPooled, SendEvent::Answered(true)) is SendPooled,
        next_send(SendState::SendPooled, SendEvent::Answered(answer)) == SendState::<
            Seq<char>,
        >::Done(Protocol::Http2),
{
}

/// Where no connection is open a new one is made, without forgetting any.
pub proof fn without_a_connection_one_is_made(error: Seq<char>)
    ensures
        next_send(SendState::FindPooled, SendEvent::Answered(false)) is Connect,
        next_send(SendState::FindPooled, SendEvent::Failed(error)) is Connect,
        next_send(SendState::FindPooled, SendEvent::Invalid(error)) is Connect,
{
}

/// An open connection that is not ready is forgotten, and then a new one is made.
pub proof fn a_busy_connection_is_replaced(any: SendEvent<Seq<char>>)
    ensures
        any != SendEvent::<Seq<char>>::Answered(true) ==> next_send(SendState::AwaitPooled, any)
            is EvictPooled,
        next_send(SendState::EvictPooled, any) is Connect,
{
}

/// A request that cannot be put together is not sent again by another connection: it
/// fails, whichever connection it was for.
pub proof fn an_invalid_request_is_not_repeated(state: SendState<Seq<char>>, error: Seq<char>)
    requires
        state is SendPlain || state is SendPooled || state is SendHttp2 || state is SendHttp1
            || state is Connect,
    ensures
        next_send(state, SendEvent::Invalid(error)) == SendState::<Seq<char>>::Failed(error),
{
}

/// By a new connection the request is sent as was agreed on: by HTTP/2 if the host wants
/// it, and by HTTP/1.1 if not.
pub proof fn a_new_connection_speaks_what_was_agreed_on(answer: bool)
    ensures
        next_send(SendState::Connect, SendEvent::Answered(true)) is SendHttp2,
        next_send(SendState::Connect, SendEvent::Answered(false)) is SendHttp1,
        next_send(SendState::SendHttp1, SendEvent::Answered(answer)) == SendState::<
            Seq<char>,
        >::Done(Protocol::Http1),
        next_send(SendState::SendHttp2, SendEvent::Answered(answer)) is StorePooled,
{
}

/// A new connection that cannot be made, or fails, is a failure of the attempt, with its
/// error.
pub proof fn a_new_connection_can_fail(state: SendState<Seq<char>>, error: Seq<char>)
    requires
        state is Connect || state is SendHttp2 || state is SendHttp1,
    ensures
        next_send(state, SendEvent::Failed(error)) == SendState::<Seq<char>>::Failed(error),
{
}

/// Only an HTTP/2 connection is kept open.
pub proof fn only_http2_is_kept_open(state: SendState<Seq<char>>, event: SendEvent<Seq<char>>)
    ensures
        next_send(state, event) is StorePooled <==> state is SendHttp2 && event is Answered,
        next_send(state, event) == SendState::<Seq<char>>::Done(Protocol::Http1) ==> state
            is SendPlain || state is SendHttp1 || state == SendState::<Seq<char>>::Done(
            Protocol::Http1,
        ),
{
}

/// Exactly two hosts are traced, however their names are written.
pub proof fn which_hosts_are_traced(host: Seq<char>)
    ensures
        lower(host) == "linux.do"@ ==> traced(host),
        lower(host) == "cdn3.linux.do"@ ==> traced(host),
        traced(host) ==> lower(host) == "linux.do"@ || lower(host) == "cdn3.linux.do"@,
{
}

/// A list of addresses names each of them, in order.
pub proof fn every_address_is_named(addrs: Seq<SocketAddress>, i: int)
    requires
        0 <= i < addrs.len(),
    ensures
        socket_texts(addrs).len() == addrs.len(),
        socket_texts(addrs)[i] == socket_text(addrs[i]),
{
}

} // verus!
