//! A model holds all that its value holds, for every value.
use vstd::prelude::*;
use crate::cache::{stored, Timed};
use crate::certs::octet_views;
use crate::dns::{answer_views, DohAnswer};
use crate::doh::{binding_views, error_views};
use crate::https_rr::{HttpsError, HttpsServiceBinding};
use crate::net::IpAddress;
use crate::paths::{layout_views, LayoutStep};
use crate::plan::{outcome_views, step_views, Outcome, Step, Task};
use crate::proxy::{header_views, Header, Reply};
use crate::resolver::{with_port, DnsHostOverride, OverrideView, ResolvedUpstream};
use crate::service::task_views;
use crate::state::ServiceState;
use crate::text::{option_str, option_text, texts};
use crate::upstream::{attempt_views, Attempt};

verus! {

/// Some texts are as many as there are, each what it is.
pub proof fn no_text_is_lost(parts: Seq<String>, part: String, i: int)
    requires
        0 <= i < parts.len(),
    ensures
        texts(parts).len() == parts.len(),
        texts(parts)[i] == parts[i]@,
        option_text(Some(part)) == Some(part@),
        option_text(None) is None,
        option_str(None) is None,
{
}

/// An answer has its type, its lifetime and its data, and so has each of many.
pub proof fn no_answer_is_lost(answers: Seq<DohAnswer>, i: int)
    requires
        0 <= i < answers.len(),
    ensures
        answer_views(answers).len() == answers.len(),
        answer_views(answers)[i].record_type == answers[i].record_type,
        answer_views(answers)[i].ttl == answers[i].ttl,
        answer_views(answers)[i].data == answers[i].data@,
{
}

/// A binding has its priority, its target and what it announces of ECH, and so has each of
/// many.
pub proof fn no_binding_is_lost(bindings: Seq<HttpsServiceBinding>, i: int)
    requires
        0 <= i < bindings.len(),
    ensures
        binding_views(bindings).len() == bindings.len(),
        binding_views(bindings)[i].priority == bindings[i].priority,
        bindings[i].target_name matches Some(name) ==> binding_views(bindings)[i].target_name
            == Some(name@),
        bindings[i].target_name is None ==> binding_views(bindings)[i].target_name is None,
        bindings[i].ech_config_list matches Some(list) ==> binding_views(
            bindings,
        )[i].ech_config_list == Some(list@),
        bindings[i].ech_config_list is None ==> binding_views(bindings)[i].ech_config_list is None,
        bindings[i].ech_public_name matches Some(name) ==> binding_views(
            bindings,
        )[i].ech_public_name == Some(name@),
        bindings[i].ech_public_name is None ==> binding_views(bindings)[i].ech_public_name is None,
{
}

/// No error of a record is lost.
pub proof fn no_error_is_lost(errors: Seq<HttpsError>, i: int)
    requires
        0 <= i < errors.len(),
    ensures
        error_views(errors).len() == errors.len(),
        error_views(errors)[i] == errors[i]@,
{
}

/// No part of a list of octets is lost.
pub proof fn no_octets_are_lost(parts: Seq<Vec<u8>>, i: int)
    requires
        0 <= i < parts.len(),
    ensures
        octet_views(parts).len() == parts.len(),
        octet_views(parts)[i] == parts[i]@,
{
}

/// A header field has its name and its value, and so has each of many.
pub proof fn no_header_is_lost(headers: Seq<Header>, i: int)
    requires
        0 <= i < headers.len(),
    ensures
        header_views(headers).len() == headers.len(),
        header_views(headers)[i].name == headers[i].name@,
        header_views(headers)[i].value == headers[i].value@,
{
}

/// A response has its status, its header fields and its body.
pub proof fn no_part_of_a_response_is_lost(reply: Reply)
    ensures
        reply@.status == reply.status,
        reply@.headers == header_views(reply.headers@),
        reply@.body == reply.body@,
{
}

/// An upstream has all of its addresses and its ECH configuration.
pub proof fn no_part_of_an_upstream_is_lost(upstream: ResolvedUpstream)
    ensures
        upstream@.addrs == upstream.addrs@,
        upstream.ech_config matches Some(list) ==> upstream@.ech_config == Some(list@),
        upstream.ech_config is None ==> upstream@.ech_config is None,
{
}

/// An override is to a host or to all of its addresses.
pub proof fn no_override_is_lost(host: String, ips: Vec<IpAddress>)
    ensures
        DnsHostOverride::Alias(host)@ == OverrideView::Alias(host@),
        DnsHostOverride::Addresses(ips)@ == OverrideView::Addresses(ips@),
{
}

/// Every address gets the port, in order.
pub proof fn every_address_gets_the_port(ips: Seq<IpAddress>, port: u16, i: int)
    requires
        0 <= i < ips.len(),
    ensures
        with_port(ips, port).len() == ips.len(),
        with_port(ips, port)[i].ip == ips[i],
        with_port(ips, port)[i].port == port,
{
}

/// A state has all that was noted.
pub proof fn no_part_of_a_state_is_lost(state: ServiceState)
    ensures
        state@.running == state.running,
        state@.pid == state.pid,
        state@.status_text == state.status_text@,
        state.last_error matches Some(error) ==> state@.last_error == Some(error@),
        state.last_error is None ==> state@.last_error is None,
        state@.updated_at == state.updated_at,
{
}

/// No step of a plan, no outcome and no task is lost.
pub proof fn no_step_is_lost(
    steps: Seq<Step<String>>,
    outcomes: Seq<Outcome<String>>,
    tasks: Seq<Task<String>>,
    i: int,
)
    ensures
        step_views(steps).len() == steps.len(),
        0 <= i < steps.len() ==> step_views(steps)[i] == steps[i]@,
        outcome_views(outcomes).len() == outcomes.len(),
        0 <= i < outcomes.len() ==> outcome_views(outcomes)[i] == outcomes[i]@,
        task_views(tasks).len() == tasks.len(),
        0 <= i < tasks.len() ==> task_views(tasks)[i] == tasks[i]@,
{
}

/// An outcome is what it is: a failure and an issue with its text, a note with its
/// warning, a state with its last error.
pub proof fn an_outcome_is_what_it_is(text: String, warning: String, running: bool)
    ensures
        Outcome::<String>::Done@ is Done,
        Outcome::Failed(text)@ == Outcome::Failed(text@),
        Outcome::Issue(text)@ == Outcome::Issue(text@),
        (Outcome::Noted { note: text, warning: Some(warning) })@ == (Outcome::Noted {
            note: text@,
            warning: Some(warning@),
        }),
        (Outcome::Noted { note: text, warning: None })@ == (Outcome::Noted {
            note: text@,
            warning: None,
        }),
        (Outcome::State { running, last_error: Some(text) })@ == (Outcome::State {
            running,
            last_error: Some(text@),
        }),
        (Outcome::<String>::State { running, last_error: None })@ == (Outcome::<
            Seq<char>,
        >::State { running, last_error: None }),
{
}

/// No step of preparing directories and no attempt is lost.
pub proof fn no_attempt_is_lost(
    steps: Seq<LayoutStep<String>>,
    attempts: Seq<Attempt<String>>,
    i: int,
)
    ensures
        layout_views(steps).len() == steps.len(),
        0 <= i < steps.len() ==> layout_views(steps)[i] == steps[i]@,
        attempt_views(attempts).len() == attempts.len(),
        0 <= i < attempts.len() ==> (attempts[i] is Succeeded <==> attempt_views(attempts)[i]
            is Succeeded),
        0 <= i < attempts.len() ==> (attempts[i] matches Attempt::Failed(error) ==> attempt_views(
            attempts,
        )[i] == Attempt::Failed(error@)),
{
}

/// Whatever is written, only what expired leaves the memory, and it does.
pub proof fn only_what_expired_leaves<X, V>(
    m: Map<X, Timed<V>>,
    key: X,
    value: V,
    ttl: u32,
    now: u64,
    other: X,
)
    requires
        ttl > 0,
        other != key,
    ensures
        stored(m, key, value, ttl, now).dom().contains(other) <==> m.dom().contains(other) && now
            < m[other].expires_at,
        stored(m, key, value, ttl, now).dom().contains(other) ==> stored(
            m,
            key,
            value,
            ttl,
            now,
        )[other] == m[other],
        stored(m, key, value, ttl, now).dom().contains(key),
        stored(m, key, value, ttl, now)[key].value == value,
{
}

} // verus!
