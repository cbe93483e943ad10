//! Asking DNS over HTTPS servers: which server is asked what, what is kept of
//! the answers, and what the answers say of a host.
use vstd::prelude::*;
use crate::cache::{current, stored, Key, Timed, TimedTable, LAST_MOMENT};
use crate::dns::{
    answer_views, build_dns_wire_query, dns_record_type_code, duplicate_answers, encodable_name,
    min_duration_options, min_ttl_duration, query_wire, record_type_code, shorter, shortest_ttl,
    AnswerView, DnsError, DohAnswer,
};
use crate::https_rr::{
    parse_https_answer, plain_binding, record_binding, BindingView, HttpsError,
    HttpsErrorView, HttpsServiceBinding,
};
use crate::net::{ipv4_value, ipv6_value, parse_ipv4, parse_ipv6, IpAddress};
use crate::radix64::{base64_text, encode_url};
use crate::text::{
    decimal, decimal_text, joined3, joined4, lower, lowered, same_text, texts,
};

verus! {

// ---------------------------------------------------------------------------
// Kept answers
// ---------------------------------------------------------------------------
/// By what answers are kept: the host in lower case, and the record type.
pub struct DohCacheKey {
    host: String,
    record_type: String,
}

impl View for DohCacheKey {
    type V = (Seq<char>, Seq<char>);

    closed spec fn view(&self) -> (Seq<char>, Seq<char>) {
        (self.host@, self.record_type@)
    }
}

impl Key for DohCacheKey {
    fn same(&self, other: &Self) -> (same: bool) {
        same_text(self.host.as_str(), other.host.as_str()) && same_text(
            self.record_type.as_str(),
            other.record_type.as_str(),
        )
    }
}

impl DohCacheKey {
    /// The key for a host and a record type.
    pub fn new(host: &str, record_type: &str) -> (key: Self)
        ensures
            key@ == (lower(host@), record_type@),
    {
        DohCacheKey { host: lowered(host), record_type: record_type.to_owned() }
    }
}

/// Answers that are kept.
pub struct CachedDohAnswers {
    pub answers: Vec<DohAnswer>,
}

impl View for CachedDohAnswers {
    type V = Seq<AnswerView>;

    open spec fn view(&self) -> Seq<AnswerView> {
        answer_views(self.answers@)
    }
}

/// What is kept of earlier answers.
pub type DohCache = TimedTable<DohCacheKey, CachedDohAnswers>;

/// What the model of a [`DohCache`] maps to what.
pub type DohMemory = Map<(Seq<char>, Seq<char>), Timed<Seq<AnswerView>>>;

/// The memory once some answers arrived: they are kept for the shortest
/// lifetime among them, and not at all if none is known or it is zero.
pub open spec fn remembered(
    memory: DohMemory,
    key: (Seq<char>, Seq<char>),
    answers: Seq<AnswerView>,
    now: u64,
) -> DohMemory {
    match shortest_ttl(answers) {
        Some(ttl) => stored(memory, key, answers, ttl, now),
        None => memory,
    }
}

/// The answers that are kept for the key and have not expired.
pub fn read_cached_doh_answers(cache: &DohCache, key: &DohCacheKey, now: u64) -> (answers: Option<
    Vec<DohAnswer>,
>)
    requires
        cache.wf(),
    ensures
        match answers {
            Some(a) => current(cache@, key@, now) == Some(answer_views(a@)),
            None => current(cache@, key@, now) is None,
        },
{
    match cache.read(key, now) {
        Some(cached) => Some(duplicate_answers(&cached.answers)),
        None => None,
    }
}

/// Keeps some answers for as long as all of them live.
pub fn write_cached_doh_answers(
    cache: &mut DohCache,
    key: DohCacheKey,
    answers: Vec<DohAnswer>,
    now: u64,
)
    requires
        old(cache).wf(),
        now <= LAST_MOMENT,
    ensures
        final(cache).wf(),
        final(cache)@ == remembered(old(cache)@, key@, answer_views(answers@), now),
{
    match min_ttl_duration(&answers) {
        Some(ttl) => {
            cache.write(key, CachedDohAnswers { answers }, ttl, now);
        },
        None => {},
    }
}

// ---------------------------------------------------------------------------
// Queries
// ---------------------------------------------------------------------------
/// What to do next about a query. An endpoint is given by its place among the
/// configured ones.
pub enum DohStep {
    /// The answers are known.
    Answered(Vec<DohAnswer>),
    /// Ask the endpoint in JSON.
    AskJson(usize),
    /// Ask the endpoint with a DNS message.
    AskMessage(usize),
    /// Nobody is left to be asked.
    Unavailable(String),
}

/// What a [`DohStep`] says.
pub enum DohStepView {
    Answered(Seq<AnswerView>),
    AskJson(int),
    AskMessage(int),
    Unavailable(Seq<char>),
}

impl View for DohStep {
    type V = DohStepView;

    open spec fn view(&self) -> DohStepView {
        match *self {
            DohStep::Answered(answers) => DohStepView::Answered(answer_views(answers@)),
            DohStep::AskJson(i) => DohStepView::AskJson(i as int),
            DohStep::AskMessage(i) => DohStepView::AskMessage(i as int),
            DohStep::Unavailable(text) => DohStepView::Unavailable(text@),
        }
    }
}

/// The error of an endpoint that failed in both ways.
pub open spec fn endpoint_failure(
    endpoint: Seq<char>,
    json_error: Seq<char>,
    message_error: Seq<char>,
) -> Seq<char> {
    "DoH 不可用，请在配置中自行更换 DoH："@ + endpoint + ": JSON DoH failed first: "@ + json_error
        + ": "@ + message_error
}

/// The next step of a query for which `cached` is kept, once the attempts made
/// so far failed with `failures`: each endpoint is asked in JSON first and with
/// a DNS message then, and the endpoints are asked in order.
pub open spec fn query_step(
    endpoints: Seq<Seq<char>>,
    cached: Option<Seq<AnswerView>>,
    failures: Seq<Seq<char>>,
) -> DohStepView {
    let n = failures.len() as int;
    if n == 0 && cached is Some {
        DohStepView::Answered(cached->0)
    } else if endpoints.len() == 0 {
        DohStepView::Unavailable("DoH 不可用，请在配置中自行更换 DoH：未配置 DoH 端点"@)
    } else if n / 2 < endpoints.len() {
        if n % 2 == 0 {
            DohStepView::AskJson(n / 2)
        } else {
            DohStepView::AskMessage(n / 2)
        }
    } else {
        let last = endpoints.len() - 1;
        DohStepView::Unavailable(
            endpoint_failure(endpoints[last], failures[2 * last], failures[2 * last + 1]),
        )
    }
}

/// The next step of a query, once the attempts made so far failed with
/// `failures`.
pub fn doh_query(
    endpoints: &Vec<String>,
    cache: &DohCache,
    host: &str,
    record_type: &str,
    failures: &Vec<String>,
    now: u64,
) -> (step: DohStep)
    requires
        cache.wf(),
    ensures
        step@ == query_step(
            texts(endpoints@),
            current(cache@, (lower(host@), record_type@), now),
            texts(failures@),
        ),
{
    let n: usize = failures.len();
    let ghost names = texts(endpoints@);
    let ghost errors = texts(failures@);
    if n == 0 {
        let key = DohCacheKey::new(host, record_type);
        match read_cached_doh_answers(cache, &key, now) {
            Some(answers) => {
                return DohStep::Answered(answers);
            },
            None => {},
        }
    }
    if endpoints.len() == 0 {
        return DohStep::Unavailable(
            "DoH 不可用，请在配置中自行更换 DoH：未配置 DoH 端点".to_owned(),
        );
    }
    let at: usize = n / 2;
    if at < endpoints.len() {
        if n % 2 == 0 {
            DohStep::AskJson(at)
        } else {
            DohStep::AskMessage(at)
        }
    } else {
        let last: usize = endpoints.len() - 1;
        assert(names[last as int] == endpoints@[last as int]@);
        assert(2 * last + 1 < n);
        assert(errors[2 * last] == failures@[2 * last]@);
        assert(errors[2 * last + 1] == failures@[2 * last + 1]@);
        let mut text = joined3(
            "DoH 不可用，请在配置中自行更换 DoH：",
            endpoints[last].as_str(),
            ": JSON DoH failed first: ",
        );
        text.append(failures[2 * last].as_str());
        text.append(": ");
        text.append(failures[2 * last + 1].as_str());
        DohStep::Unavailable(text)
    }
}

/// Ends a query with the answers that an endpoint gave: they are the answers to
/// the query, and are kept for the next time.
pub fn conclude_doh_query(
    cache: &mut DohCache,
    host: &str,
    record_type: &str,
    answers: Vec<DohAnswer>,
    now: u64,
) -> (given: Vec<DohAnswer>)
    requires
        old(cache).wf(),
        now <= LAST_MOMENT,
    ensures
        final(cache).wf(),
        final(cache)@ == remembered(
            old(cache)@,
            (lower(host@), record_type@),
            answer_views(answers@),
            now,
        ),
        answer_views(given@) == answer_views(answers@),
{
    let kept = duplicate_answers(&answers);
    write_cached_doh_answers(cache, DohCacheKey::new(host, record_type), kept, now);
    answers
}

/// An answer in JSON.
pub struct DohJsonResponse {
    pub status: Option<u32>,
    pub answers: Option<Vec<DohAnswer>>,
}

/// The error of a JSON response whose status is not zero.
pub open spec fn status_error(
    endpoint: Seq<char>,
    host: Seq<char>,
    record_type: Seq<char>,
    status: u32,
) -> Seq<char> {
    "DoH query "@ + record_type + " "@ + host + " via "@ + endpoint + " returned status "@
        + decimal(status as nat)
}

/// The answers in a JSON response: an absent status counts as success, and
/// absent answers as none. Any other status is an error.
pub fn doh_query_json(
    endpoint: &str,
    host: &str,
    record_type: &str,
    payload: DohJsonResponse,
) -> (r: Result<Vec<DohAnswer>, String>)
    ensures
        match r {
            Ok(answers) => {
                &&& payload.status is None || payload.status == Some(0u32)
                &&& answer_views(answers@) == match payload.answers {
                    Some(a) => answer_views(a@),
                    None => Seq::empty(),
                }
            },
            Err(error) => payload.status matches Some(status) && status != 0 && error@
                == status_error(endpoint@, host@, record_type@, status),
        },
{
    let status: u32 = match payload.status {
        Some(status) => status,
        None => 0,
    };
    if status != 0 {
        let mut error = joined4("DoH query ", record_type, " ", host);
        error.append(" via ");
        error.append(endpoint);
        error.append(" returned status ");
        error.append(decimal_text(status as u64).as_str());
        return Err(error);
    }
    match payload.answers {
        Some(answers) => Ok(answers),
        None => {
            let none: Vec<DohAnswer> = Vec::new();
            assert(answer_views(none@) =~= Seq::empty());
            Ok(none)
        },
    }
}

/// What to ask an endpoint with a DNS message: the number of the record type,
/// and the query in the URL form of base64.
pub fn doh_query_dns_message(host: &str, record_type: &str) -> (r: Result<(u16, String), DnsError>)
    requires
        record_type_code(record_type@) matches Some(code) ==> query_wire(host@, code).len()
            <= usize::MAX / 4,
    ensures
        match r {
            Ok((code, text)) => {
                &&& record_type_code(record_type@) == Some(code)
                &&& encodable_name(host@)
                &&& text@ == base64_text(query_wire(host@, code), true, false)
            },
            Err(DnsError::UnsupportedRecordType) => record_type_code(record_type@) is None,
            Err(e) => e == DnsError::InvalidLabel && record_type_code(record_type@) is Some
                && !encodable_name(host@),
        },
{
    match dns_record_type_code(record_type) {
        Err(e) => Err(e),
        Ok(code) => match build_dns_wire_query(host, code) {
            Err(e) => Err(e),
            Ok(query) => Ok((code, encode_url(&query))),
        },
    }
}

// ---------------------------------------------------------------------------
// What answers say
// ---------------------------------------------------------------------------
/// The IPv4 addresses in some answers, in order.
pub open spec fn ipv4_addresses(answers: Seq<AnswerView>) -> Seq<IpAddress>
    decreases answers.len(),
{
    if answers.len() == 0 {
        Seq::empty()
    } else {
        let before = ipv4_addresses(answers.drop_last());
        match ipv4_value(answers.last().data) {
            Some(bits) => if answers.last().record_type == 1 {
                before.push(IpAddress::V4(bits as u32))
            } else {
                before
            },
            None => before,
        }
    }
}

/// The IPv6 addresses in some answers, in order.
pub open spec fn ipv6_addresses(answers: Seq<AnswerView>) -> Seq<IpAddress>
    decreases answers.len(),
{
    if answers.len() == 0 {
        Seq::empty()
    } else {
        let before = ipv6_addresses(answers.drop_last());
        match ipv6_value(answers.last().data) {
            Some(bits) => if answers.last().record_type == 28 {
                before.push(IpAddress::V6(bits))
            } else {
                before
            },
            None => before,
        }
    }
}

fn add_ipv4(answers: &Vec<DohAnswer>, addresses: &mut Vec<IpAddress>)
    ensures
        final(addresses)@ == old(addresses)@ + ipv4_addresses(answer_views(answers@)),
{
    let ghost all = answer_views(answers@);
    let ghost before = addresses@;
    let mut i: usize = 0;
    assert(all.take(0) =~= Seq::empty());
    assert(before + ipv4_addresses(all.take(0)) =~= before);
    while i < answers.len()
        invariant
            i <= answers@.len(),
            all == answer_views(answers@),
            addresses@ == before + ipv4_addresses(all.take(i as int)),
        decreases answers@.len() - i,
    {
        let ghost upto = all.take(i as int + 1);
        assert(upto.drop_last() =~= all.take(i as int));
        assert(upto.last() == answers@[i as int]@);
        if answers[i].record_type == 1 {
            if let Some(bits) = parse_ipv4(answers[i].data.as_str()) {
                addresses.push(IpAddress::V4(bits));
            }
        }
        assert(addresses@ =~= before + ipv4_addresses(upto));
        i = i + 1;
    }
    assert(all.take(i as int) =~= all);
}

fn add_ipv6(answers: &Vec<DohAnswer>, addresses: &mut Vec<IpAddress>)
    ensures
        final(addresses)@ == old(addresses)@ + ipv6_addresses(answer_views(answers@)),
{
    let ghost all = answer_views(answers@);
    let ghost before = addresses@;
    let mut i: usize = 0;
    assert(all.take(0) =~= Seq::empty());
    assert(before + ipv6_addresses(all.take(0)) =~= before);
    while i < answers.len()
        invariant
            i <= answers@.len(),
            all == answer_views(answers@),
            addresses@ == before + ipv6_addresses(all.take(i as int)),
        decreases answers@.len() - i,
    {
        let ghost upto = all.take(i as int + 1);
        assert(upto.drop_last() =~= all.take(i as int));
        assert(upto.last() == answers@[i as int]@);
        if answers[i].record_type == 28 {
            if let Some(bits) = parse_ipv6(answers[i].data.as_str()) {
                addresses.push(IpAddress::V6(bits));
            }
        }
        assert(addresses@ =~= before + ipv6_addresses(upto));
        i = i + 1;
    }
    assert(all.take(i as int) =~= all);
}

/// The addresses in the answers of both families, those of the preferred one
/// first, and how long they may be kept, in seconds.
pub fn doh_lookup_ip_addrs(
    ipv4_answers: &Vec<DohAnswer>,
    ipv6_answers: &Vec<DohAnswer>,
    prefer_ipv6: bool,
) -> (found: (Vec<IpAddress>, Option<u32>))
    ensures
        found.0@ == if prefer_ipv6 {
            ipv6_addresses(answer_views(ipv6_answers@)) + ipv4_addresses(
                answer_views(ipv4_answers@),
            )
        } else {
            ipv4_addresses(answer_views(ipv4_answers@)) + ipv6_addresses(
                answer_views(ipv6_answers@),
            )
        },
        found.1 == shorter(
            shortest_ttl(answer_views(ipv6_answers@)),
            shortest_ttl(answer_views(ipv4_answers@)),
        ),
{
    let mut addresses: Vec<IpAddress> = Vec::new();
    if prefer_ipv6 {
        add_ipv6(ipv6_answers, &mut addresses);
        assert(addresses@ =~= ipv6_addresses(answer_views(ipv6_answers@)));
        add_ipv4(ipv4_answers, &mut addresses);
    } else {
        add_ipv4(ipv4_answers, &mut addresses);
        assert(addresses@ =~= ipv4_addresses(answer_views(ipv4_answers@)));
        add_ipv6(ipv6_answers, &mut addresses);
    }
    let ttl: Option<u32> = min_duration_options(
        min_ttl_duration(ipv6_answers),
        min_ttl_duration(ipv4_answers),
    );
    (addresses, ttl)
}

/// The bindings that the HTTPS records among some answers announce, in order.
/// A record that cannot be read does not count.
pub open spec fn announced(answers: Seq<AnswerView>) -> Seq<BindingView>
    decreases answers.len(),
{
    if answers.len() == 0 {
        Seq::empty()
    } else {
        let before = announced(answers.drop_last());
        match record_binding(answers.last().data) {
            Ok(binding) => if answers.last().record_type == 65 {
                before.push(binding)
            } else {
                before
            },
            Err(_) => before,
        }
    }
}

/// What some bindings hold.
pub open spec fn binding_views(bindings: Seq<HttpsServiceBinding>) -> Seq<BindingView> {
    bindings.map_values(|b: HttpsServiceBinding| b@)
}

/// The bindings that some answers announce, and how long they may be kept, in
/// seconds.
pub fn doh_lookup_https_bindings(answers: &Vec<DohAnswer>) -> (found: (
    Vec<HttpsServiceBinding>,
    Option<u32>,
))
    ensures
        binding_views(found.0@) == announced(answer_views(answers@)),
        found.1 == shortest_ttl(answer_views(answers@)),
{
    let mut bindings: Vec<HttpsServiceBinding> = Vec::new();
    let ghost all = answer_views(answers@);
    let mut i: usize = 0;
    assert(all.take(0) =~= Seq::empty());
    assert(binding_views(bindings@) =~= announced(all.take(0)));
    while i < answers.len()
        invariant
            i <= answers@.len(),
            all == answer_views(answers@),
            binding_views(bindings@) == announced(all.take(i as int)),
        decreases answers@.len() - i,
    {
        let ghost upto = all.take(i as int + 1);
        let ghost before = bindings@;
        assert(upto.drop_last() =~= all.take(i as int));
        assert(upto.last() == answers@[i as int]@);
        if answers[i].record_type == 65 {
            match parse_https_answer(answers[i].data.as_str()) {
                Ok(binding) => {
                    bindings.push(binding);
                    assert(binding_views(bindings@) =~= binding_views(before).push(binding@));
                },
                Err(_) => {},
            }
        }
        assert(binding_views(bindings@) =~= announced(upto));
        i = i + 1;
    }
    assert(all.take(i as int) =~= all);
    (bindings, min_ttl_duration(answers))
}

/// What is wrong with the HTTPS records among some answers that cannot be read,
/// in order.
pub open spec fn unreadable(answers: Seq<AnswerView>) -> Seq<HttpsErrorView>
    decreases answers.len(),
{
    if answers.len() == 0 {
        Seq::empty()
    } else {
        let before = unreadable(answers.drop_last());
        match record_binding(answers.last().data) {
            Ok(_) => before,
            Err(error) => if answers.last().record_type == 65 {
                before.push(error)
            } else {
                before
            },
        }
    }
}

/// What some errors say.
pub open spec fn error_views(errors: Seq<HttpsError>) -> Seq<HttpsErrorView> {
    errors.map_values(|e: HttpsError| e@)
}

/// What is wrong with the HTTPS records that do not count.
pub fn unreadable_https_answers(answers: &Vec<DohAnswer>) -> (errors: Vec<HttpsError>)
    ensures
        error_views(errors@) == unreadable(answer_views(answers@)),
{
    let mut errors: Vec<HttpsError> = Vec::new();
    let ghost all = answer_views(answers@);
    let mut i: usize = 0;
    assert(all.take(0) =~= Seq::empty());
    assert(error_views(errors@) =~= unreadable(all.take(0)));
    while i < answers.len()
        invariant
            i <= answers@.len(),
            all == answer_views(answers@),
            error_views(errors@) == unreadable(all.take(i as int)),
        decreases answers@.len() - i,
    {
        let ghost upto = all.take(i as int + 1);
        let ghost before = errors@;
        assert(upto.drop_last() =~= all.take(i as int));
        assert(upto.last() == answers@[i as int]@);
        if answers[i].record_type == 65 {
            if let Err(error) = parse_https_answer(answers[i].data.as_str()) {
                errors.push(error);
                assert(error_views(errors@) =~= error_views(before).push(error@));
            }
        }
        i = i + 1;
    }
    assert(all.take(i as int) =~= all);
    errors
}

/// The `i`th binding has the lowest priority number, and no earlier one has
/// the same.
pub open spec fn leads(bindings: Seq<BindingView>, i: int) -> bool {
    &&& 0 <= i < bindings.len()
    &&& forall|j: int|
        0 <= j < bindings.len() ==> bindings[i].priority <= (#[trigger] bindings[j]).priority
    &&& forall|j: int| 0 <= j < i ==> bindings[i].priority < (#[trigger] bindings[j]).priority
}

/// The binding to use of those that the answers announce: the leading one, or
/// a plain one if there is none. With it comes how long it may be kept.
pub fn resolve_https_binding(answers: &Vec<DohAnswer>) -> (found: (
    HttpsServiceBinding,
    Option<u32>,
))
    ensures
        announced(answer_views(answers@)).len() == 0 ==> found.0@ == plain_binding(0),
        announced(answer_views(answers@)).len() > 0 ==> exists|i: int|
            #[trigger] leads(announced(answer_views(answers@)), i) && found.0@ == announced(
                answer_views(answers@),
            )[i],
        found.1 == shortest_ttl(answer_views(answers@)),
{
    let (bindings, ttl) = doh_lookup_https_bindings(answers);
    let mut bindings = bindings;
    let ghost all = announced(answer_views(answers@));
    assert(binding_views(bindings@).len() == bindings@.len());
    if bindings.len() == 0 {
        return (HttpsServiceBinding::default(), ttl);
    }
    let mut best: usize = 0;
    let mut i: usize = 1;
    while i < bindings.len()
        invariant
            best < i <= bindings@.len(),
            forall|j: int|
                0 <= j < i ==> bindings@[best as int].priority <= (
                #[trigger] bindings@[j]).priority,
            forall|j: int|
                0 <= j < best ==> bindings@[best as int].priority < (
                #[trigger] bindings@[j]).priority,
        decreases bindings@.len() - i,
    {
        if bindings[i].priority < bindings[best].priority {
            best = i;
        }
        i = i + 1;
    }
    proof {
        let views = binding_views(bindings@);
        assert(forall|j: int| 0 <= j < views.len() ==> (#[trigger] views[j]) == bindings@[j]@);
        assert(leads(views, best as int));
    }
    let binding = bindings.remove(best);
    (binding, ttl)
}

// ---------------------------------------------------------------------------
// Laws
// ---------------------------------------------------------------------------
/// At most one binding leads.
pub proof fn the_leading_binding_is_unique(bindings: Seq<BindingView>, i: int, j: int)
    requires
        leads(bindings, i),
        leads(bindings, j),
    ensures
        i == j,
{
    if i < j {
        assert(bindings[j].priority < bindings[i].priority);
    } else if j < i {
        assert(bindings[i].priority < bindings[j].priority);
    }
}

/// A repeated query is answered without asking anybody, for as long as the
/// answers live.
pub proof fn kept_answers_are_used(
    memory: DohMemory,
    key: (Seq<char>, Seq<char>),
    answers: Seq<AnswerView>,
    ttl: u32,
    now: u64,
    later: u64,
    endpoints: Seq<Seq<char>>,
)
    requires
        shortest_ttl(answers) == Some(ttl),
        ttl > 0,
        now <= LAST_MOMENT,
        later < now + ttl * crate::cache::SECOND,
    ensures
        query_step(
            endpoints,
            current(remembered(memory, key, answers, now), key, later),
            Seq::empty(),
        ) == DohStepView::Answered(answers),
{
}

/// Every endpoint is asked in both ways, in order, before a query is given up:
/// after `n` failures the next attempt goes to endpoint `n / 2`.
pub proof fn every_endpoint_is_asked(
    endpoints: Seq<Seq<char>>,
    cached: Option<Seq<AnswerView>>,
    failures: Seq<Seq<char>>,
)
    requires
        endpoints.len() > 0,
        failures.len() > 0 || cached is None,
    ensures
        query_step(endpoints, cached, failures) is Unavailable <==> failures.len() >= 2
            * endpoints.len(),
        failures.len() < 2 * endpoints.len() ==> query_step(endpoints, cached, failures)
            == if failures.len() % 2 == 0 {
            DohStepView::AskJson(failures.len() as int / 2)
        } else {
            DohStepView::AskMessage(failures.len() as int / 2)
        },
{
}

} // verus!
