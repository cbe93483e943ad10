//! Sending a request to the upstream: which address is tried next, and by
//! which connection.
use vstd::prelude::*;
use crate::cache::Key;
use crate::https_rr::octets_of;
use crate::net::{show_socket, socket_text, SocketAddress};
use crate::resolver::ResolvedUpstream;
use crate::text::{
    equal_ignoring_case, join, join_texts, joined3, joined4, lower, lowered, same_ignoring_case,
    same_text, texts,
};

verus! {

// ---------------------------------------------------------------------------
// One address after the other
// ---------------------------------------------------------------------------
/// How an attempt at an address ended.
pub enum Attempt<S> {
    Succeeded,
    Failed(S),
}

/// What some attempts were.
pub open spec fn attempt_views(attempts: Seq<Attempt<String>>) -> Seq<Attempt<Seq<char>>> {
    attempts.map_values(
        |a: Attempt<String>|
            match a {
                Attempt::Succeeded => Attempt::Succeeded,
                Attempt::Failed(error) => Attempt::Failed(error@),
            },
    )
}

/// What to do next about a request.
pub enum DispatchStep<S, O> {
    /// Try the address, with this list of ECH configurations.
    Try { addr: SocketAddress, ech_config: O },
    /// The address worked: remember it, and give its response.
    Deliver { addr: SocketAddress },
    /// The request failed.
    Fail(S),
}

impl View for DispatchStep<String, Vec<u8>> {
    type V = DispatchStep<Seq<char>, Seq<u8>>;

    open spec fn view(&self) -> DispatchStep<Seq<char>, Seq<u8>> {
        match *self {
            DispatchStep::Try { addr, ech_config } => DispatchStep::Try {
                addr,
                ech_config: ech_config@,
            },
            DispatchStep::Deliver { addr } => DispatchStep::Deliver { addr },
            DispatchStep::Fail(error) => DispatchStep::Fail(error@),
        }
    }
}

/// The next step of a request, after these attempts at the first addresses: an
/// upstream without ECH is not tried at all, and the addresses of any other
/// are tried in order until one works. If none does, the last error counts.
pub open spec fn dispatch_step(
    host: Seq<char>,
    addrs: Seq<SocketAddress>,
    ech_config: Option<Seq<u8>>,
    attempts: Seq<Attempt<Seq<char>>>,
) -> DispatchStep<Seq<char>, Seq<u8>> {
    let n = attempts.len();
    match ech_config {
        None => DispatchStep::Fail("ECH 强制模式："@ + host + " 未提供可用的 ECH 配置"@),
        Some(ech_config) => if n > 0 && attempts.last() is Succeeded {
            DispatchStep::Deliver { addr: addrs[n - 1] }
        } else if n < addrs.len() {
            DispatchStep::Try { addr: addrs[n as int], ech_config }
        } else if n > 0 {
            DispatchStep::Fail(attempts.last()->Failed_0)
        } else {
            DispatchStep::Fail("ECH 强制模式："@ + host + " 所有上游地址都握手失败"@)
        },
    }
}

/// The next step of a request, after these attempts at the first addresses.
pub fn dispatch_upstream_request(
    request_host: &str,
    upstream: &ResolvedUpstream,
    attempts: &Vec<Attempt<String>>,
) -> (step: DispatchStep<String, Vec<u8>>)
    requires
        attempts@.len() <= upstream.addrs@.len(),
    ensures
        step@ == dispatch_step(
            request_host@,
            upstream@.addrs,
            upstream@.ech_config,
            attempt_views(attempts@),
        ),
{
    let n: usize = attempts.len();
    let ghost views = attempt_views(attempts@);
    match &upstream.ech_config {
        None => DispatchStep::Fail(
            joined3("ECH 强制模式：", request_host, " 未提供可用的 ECH 配置"),
        ),
        Some(ech_config) => {
            if n > 0 {
                assert(views.last() == views[n - 1]);
                match &attempts[n - 1] {
                    Attempt::Succeeded => {
                        return DispatchStep::Deliver { addr: upstream.addrs[n - 1] };
                    },
                    Attempt::Failed(error) => {
                        if n >= upstream.addrs.len() {
                            return DispatchStep::Fail(error.clone());
                        }
                    },
                }
            }
            if n < upstream.addrs.len() {
                DispatchStep::Try {
                    addr: upstream.addrs[n],
                    ech_config: octets_of(ech_config.as_slice()),
                }
            } else {
                DispatchStep::Fail(
                    joined3("ECH 强制模式：", request_host, " 所有上游地址都握手失败"),
                )
            }
        },
    }
}

/// An upstream without ECH is not tried: the request fails at once. Each attempt
/// at one that has it is given its list of configurations.
pub proof fn no_upstream_is_tried_without_ech(
    host: Seq<char>,
    addrs: Seq<SocketAddress>,
    ech_config: Option<Seq<u8>>,
    attempts: Seq<Attempt<Seq<char>>>,
)
    ensures
        ech_config is None ==> dispatch_step(host, addrs, ech_config, attempts) is Fail,
        dispatch_step(host, addrs, ech_config, attempts) matches DispatchStep::Try {
            addr,
            ech_config: used,
        } ==> ech_config == Some(used),
{
}

/// As long as every attempt fails, the addresses are tried in order and each
/// once; the request fails only after the last, with the last error.
pub proof fn every_address_is_tried(
    host: Seq<char>,
    addrs: Seq<SocketAddress>,
    ech_config: Seq<u8>,
    attempts: Seq<Attempt<Seq<char>>>,
)
    requires
        attempts.len() <= addrs.len(),
        forall|i: int| 0 <= i < attempts.len() ==> (#[trigger] attempts[i]) is Failed,
    ensures
        attempts.len() < addrs.len() ==> dispatch_step(host, addrs, Some(ech_config), attempts)
            == (DispatchStep::<Seq<char>, Seq<u8>>::Try {
            addr: addrs[attempts.len() as int],
            ech_config,
        }),
        0 < attempts.len() == addrs.len() ==> dispatch_step(
            host,
            addrs,
            Some(ech_config),
            attempts,
        ) == DispatchStep::<Seq<char>, Seq<u8>>::Fail(attempts.last()->Failed_0),
{
    if attempts.len() > 0 {
        assert(attempts[attempts.len() - 1] is Failed);
    }
}

/// The first success ends the attempts, and the address that worked is the one
/// that is remembered.
pub proof fn a_success_is_delivered(
    host: Seq<char>,
    addrs: Seq<SocketAddress>,
    ech_config: Seq<u8>,
    attempts: Seq<Attempt<Seq<char>>>,
)
    requires
        attempts.len() < addrs.len(),
    ensures
        dispatch_step(
            host,
            addrs,
            Some(ech_config),
            attempts.push(Attempt::Succeeded),
        ) == (DispatchStep::<Seq<char>, Seq<u8>>::Deliver {
            addr: addrs[attempts.len() as int],
        }),
{
}

// ---------------------------------------------------------------------------
// One connection or another
// ---------------------------------------------------------------------------
/// By what a connection is kept open: the host in lower case, and the address.
pub struct H2PoolKey {
    host: String,
    addr: SocketAddress,
}

impl View for H2PoolKey {
    type V = (Seq<char>, SocketAddress);

    closed spec fn view(&self) -> (Seq<char>, SocketAddress) {
        (self.host@, self.addr)
    }
}

impl Key for H2PoolKey {
    fn same(&self, other: &Self) -> (same: bool) {
        same_text(self.host.as_str(), other.host.as_str()) && self.addr == other.addr
    }
}

impl H2PoolKey {
    /// The key for a host and an address.
    pub fn new(host: &str, addr: SocketAddress) -> (key: Self)
        ensures
            key@ == (lower(host@), addr),
    {
        H2PoolKey { host: lowered(host), addr }
    }
}

/// The protocol that a response came by.
#[derive(Clone, Copy, Debug, PartialEq, Eq, Structural)]
pub enum Protocol {
    Http1,
    Http2,
}

impl Protocol {
    /// The name of the protocol.
    pub fn name(self) -> (name: &'static str)
        ensures
            name@ == match self {
                Protocol::Http1 => "http/1.1"@,
                Protocol::Http2 => "h2"@,
            },
    {
        match self {
            Protocol::Http1 => "http/1.1",
            Protocol::Http2 => "h2",
        }
    }
}

/// What is to be done about a request at one address.
pub enum SendState<S> {
    /// Connect without TLS, and send the request by HTTP/1.1.
    SendPlain,
    /// Is there an open HTTP/2 connection?
    FindPooled,
    /// Is that connection ready?
    AwaitPooled,
    /// Send the request by that connection.
    SendPooled,
    /// Forget that connection.
    EvictPooled,
    /// Connect with TLS. Was HTTP/2 agreed on?
    Connect,
    /// Send the request by the new HTTP/2 connection.
    SendHttp2,
    /// Keep the new HTTP/2 connection open.
    StorePooled,
    /// Send the request by the new HTTP/1.1 connection.
    SendHttp1,
    /// The response came by this protocol.
    Done(Protocol),
    /// The attempt failed.
    Failed(S),
}

/// What came of it: an answer, where there was a question, or an error.
pub enum SendEvent<S> {
    /// It was done, and this is the answer.
    Answered(bool),
    /// It failed.
    Failed(S),
    /// The request could not be put together.
    Invalid(S),
}

impl View for SendState<String> {
    type V = SendState<Seq<char>>;

    open spec fn view(&self) -> SendState<Seq<char>> {
        match *self {
            SendState::SendPlain => SendState::SendPlain,
            SendState::FindPooled => SendState::FindPooled,
            SendState::AwaitPooled => SendState::AwaitPooled,
            SendState::SendPooled => SendState::SendPooled,
            SendState::EvictPooled => SendState::EvictPooled,
            SendState::Connect => SendState::Connect,
            SendState::SendHttp2 => SendState::SendHttp2,
            SendState::StorePooled => SendState::StorePooled,
            SendState::SendHttp1 => SendState::SendHttp1,
            SendState::Done(protocol) => SendState::Done(protocol),
            SendState::Failed(error) => SendState::Failed(error@),
        }
    }
}

impl View for SendEvent<String> {
    type V = SendEvent<Seq<char>>;

    open spec fn view(&self) -> SendEvent<Seq<char>> {
        match *self {
            SendEvent::Answered(answer) => SendEvent::Answered(answer),
            SendEvent::Failed(error) => SendEvent::Failed(error@),
            SendEvent::Invalid(error) => SendEvent::Invalid(error@),
        }
    }
}

/// What comes after `done` if the event is no error, and the error else.
pub open spec fn then_or_fail(
    event: SendEvent<Seq<char>>,
    done: SendState<Seq<char>>,
) -> SendState<Seq<char>> {
    match event {
        SendEvent::Answered(_) => done,
        SendEvent::Failed(error) => SendState::Failed(error),
        SendEvent::Invalid(error) => SendState::Failed(error),
    }
}

/// What is done next. An open connection that is not ready, or fails, is
/// forgotten, and a new one takes its place; a failure of that is a failure of
/// the attempt.
pub open spec fn next_send(
    state: SendState<Seq<char>>,
    event: SendEvent<Seq<char>>,
) -> SendState<Seq<char>> {
    match state {
        SendState::SendPlain => then_or_fail(event, SendState::Done(Protocol::Http1)),
        SendState::FindPooled => if event == SendEvent::<Seq<char>>::Answered(true) {
            SendState::AwaitPooled
        } else {
            SendState::Connect
        },
        SendState::AwaitPooled => if event == SendEvent::<Seq<char>>::Answered(true) {
            SendState::SendPooled
        } else {
            SendState::EvictPooled
        },
        SendState::SendPooled => if event is Failed {
            SendState::EvictPooled
        } else {
            then_or_fail(event, SendState::Done(Protocol::Http2))
        },
        SendState::EvictPooled => SendState::Connect,
        SendState::Connect => then_or_fail(
            event,
            if event == SendEvent::<Seq<char>>::Answered(true) {
                SendState::SendHttp2
            } else {
                SendState::SendHttp1
            },
        ),
        SendState::SendHttp2 => then_or_fail(event, SendState::StorePooled),
        SendState::StorePooled => SendState::Done(Protocol::Http2),
        SendState::SendHttp1 => then_or_fail(event, SendState::Done(Protocol::Http1)),
        SendState::Done(protocol) => SendState::Done(protocol),
        SendState::Failed(error) => SendState::Failed(error),
    }
}

/// What is done first about a request at an address: only an upstream whose
/// scheme is `http` is spoken to without TLS.
pub fn send_start(upstream_scheme: &str) -> (state: SendState<String>)
    ensures
        state@ == if same_ignoring_case(upstream_scheme@, "http"@) {
            SendState::<Seq<char>>::SendPlain
        } else {
            SendState::<Seq<char>>::FindPooled
        },
{
    if equal_ignoring_case(upstream_scheme, "http") {
        SendState::SendPlain
    } else {
        SendState::FindPooled
    }
}

fn go_on(event: SendEvent<String>, done: SendState<String>) -> (next: SendState<String>)
    ensures
        next@ == then_or_fail(event@, done@),
{
    match event {
        SendEvent::Answered(_) => done,
        SendEvent::Failed(error) => SendState::Failed(error),
        SendEvent::Invalid(error) => SendState::Failed(error),
    }
}

/// What is done next about a request at an address.
pub fn send_once(state: SendState<String>, event: SendEvent<String>) -> (next: SendState<String>)
    ensures
        next@ == next_send(state@, event@),
{
    let yes = match &event {
        SendEvent::Answered(answer) => *answer,
        _ => false,
    };
    match state {
        SendState::SendPlain => go_on(event, SendState::Done(Protocol::Http1)),
        SendState::FindPooled => if yes {
            SendState::AwaitPooled
        } else {
            SendState::Connect
        },
        SendState::AwaitPooled => if yes {
            SendState::SendPooled
        } else {
            SendState::EvictPooled
        },
        SendState::SendPooled => match event {
            SendEvent::Failed(_) => SendState::EvictPooled,
            other => go_on(other, SendState::Done(Protocol::Http2)),
        },
        SendState::EvictPooled => SendState::Connect,
        SendState::Connect => go_on(
            event,
            if yes {
                SendState::SendHttp2
            } else {
                SendState::SendHttp1
            },
        ),
        SendState::SendHttp2 => go_on(event, SendState::StorePooled),
        SendState::StorePooled => SendState::Done(Protocol::Http2),
        SendState::SendHttp1 => go_on(event, SendState::Done(Protocol::Http1)),
        SendState::Done(protocol) => SendState::Done(protocol),
        SendState::Failed(error) => SendState::Failed(error),
    }
}

/// How many steps an attempt can still take.
pub open spec fn steps_left(state: SendState<Seq<char>>) -> nat {
    match state {
        SendState::Done(_) | SendState::Failed(_) => 0,
        SendState::SendPlain | SendState::StorePooled | SendState::SendHttp1 => 1,
        SendState::SendHttp2 => 2,
        SendState::Connect => 3,
        SendState::EvictPooled => 4,
        SendState::SendPooled => 5,
        SendState::AwaitPooled => 6,
        SendState::FindPooled => 7,
    }
}

/// Every attempt ends, whatever happens.
pub proof fn an_attempt_ends(state: SendState<Seq<char>>, event: SendEvent<Seq<char>>)
    ensures
        steps_left(state) > 0 ==> steps_left(next_send(state, event)) < steps_left(state),
        steps_left(state) == 0 ==> next_send(state, event) == state,
{
}

/// An open connection that fails does not fail the request: it is forgotten,
/// and then a new one is made.
pub proof fn a_stale_connection_is_replaced(
    state: SendState<Seq<char>>,
    error: Seq<char>,
    any: SendEvent<Seq<char>>,
)
    requires
        state is AwaitPooled || state is SendPooled,
    ensures
        next_send(state, SendEvent::Failed(error)) is EvictPooled,
        next_send(next_send(state, SendEvent::Failed(error)), any) is Connect,
{
}

/// A new HTTP/2 connection that served a request is kept open.
pub proof fn a_good_connection_is_kept(answer: bool, any: SendEvent<Seq<char>>)
    ensures
        next_send(SendState::SendHttp2, SendEvent::Answered(answer)) is StorePooled,
        next_send(SendState::StorePooled, any) == SendState::<Seq<char>>::Done(Protocol::Http2),
{
}

// ---------------------------------------------------------------------------
// Tracing
// ---------------------------------------------------------------------------
/// The hosts whose requests are traced.
pub open spec fn traced(host: Seq<char>) -> bool {
    lower(host) == "cdn3.linux.do"@ || lower(host) == "linux.do"@
}

/// Whether requests for the host are traced.
pub fn should_trace_upstream(host: &str) -> (trace: bool)
    ensures
        trace == traced(host@),
{
    let host = lowered(host);
    same_text(host.as_str(), "cdn3.linux.do") || same_text(host.as_str(), "linux.do")
}

/// The line that is logged about a request, if it is traced.
pub fn log_upstream_debug(host: &str, path_and_query: &str, message: &str) -> (line: Option<
    String,
>)
    ensures
        line is Some <==> traced(host@),
        line matches Some(text) ==> text@ == "host="@ + host@ + " path="@ + path_and_query@ + " "@
            + message@,
{
    if !should_trace_upstream(host) {
        return None;
    }
    let mut line = joined4("host=", host, " path=", path_and_query);
    line.append(" ");
    line.append(message);
    Some(line)
}

/// The texts of some addresses.
pub open spec fn socket_texts(addrs: Seq<SocketAddress>) -> Seq<Seq<char>> {
    addrs.map_values(|a: SocketAddress| socket_text(a))
}

/// The texts of some addresses, with commas between.
pub fn format_socket_addrs(addrs: &Vec<SocketAddress>) -> (text: String)
    ensures
        text@ == join(socket_texts(addrs@), ","@),
{
    let mut parts: Vec<String> = Vec::new();
    let mut i: usize = 0;
    while i < addrs.len()
        invariant
            i <= addrs@.len(),
            texts(parts@) == socket_texts(addrs@).take(i as int),
        decreases addrs@.len() - i,
    {
        let ghost before = parts@;
        parts.push(show_socket(addrs[i]));
        assert(texts(parts@) =~= texts(before).push(socket_text(addrs@[i as int])));
        assert(socket_texts(addrs@).take(i as int + 1) =~= socket_texts(addrs@).take(
            i as int,
        ).push(socket_text(addrs@[i as int])));
        i = i + 1;
    }
    assert(socket_texts(addrs@).take(i as int) =~= socket_texts(addrs@));
    join_texts(&parts, ",")
}

} // verus!
