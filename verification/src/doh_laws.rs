//! What DNS answers say of a host, and how a query goes on, for all answers.
use vstd::prelude::*;
use crate::cache::{current, LAST_MOMENT};
use crate::dns::{shortest_ttl, AnswerView};
use crate::doh::{
    announced, ipv4_addresses, ipv6_addresses, leads, query_step, remembered, unreadable,
    DohMemory, DohStepView,
};
use crate::https_rr::{plain_binding, record_binding, BindingView, HttpsErrorView};
use crate::net::{ipv4_value, ipv6_value, IpAddress};

verus! {

// ---------------------------------------------------------------------------
// Bindings
// ---------------------------------------------------------------------------
/// Each HTTPS record that can be read announces its binding, in order; no other
/// answer announces any, and no record more than one.
pub proof fn bindings_are_those_of_the_answers(answers: Seq<AnswerView>)
    ensures
        ({
            let good = answers.filter(|a: AnswerView| a.record_type == 65
                && record_binding(a.data) is Ok);
            &&& announced(answers).len() == good.len()
            &&& forall|i: int|
                0 <= i < good.len()
                    ==> (#[trigger] announced(answers)[i]) == record_binding(good[i].data)->Ok_0
        }),
    decreases answers.len(),
{
    reveal(Seq::filter);
    if answers.len() > 0 {
        bindings_are_those_of_the_answers(answers.drop_last());
    }
}

/// No HTTPS record that can be read is left out.
pub proof fn bindings_leave_none_out(answers: Seq<AnswerView>, i: int)
    requires
        0 <= i < answers.len(),
        answers[i].record_type == 65 && record_binding(answers[i].data) is Ok,
    ensures
        announced(answers).contains(record_binding(answers[i].data)->Ok_0),
    decreases answers.len(),
{
    let fewer = answers.drop_last();
    let before = announced(fewer);
    let found = record_binding(answers[i].data)->Ok_0;
    if i < fewer.len() {
        assert(fewer[i] == answers[i]);
        bindings_leave_none_out(fewer, i);
        let k = choose|k: int| 0 <= k < before.len() && before[k] == found;
        assert(announced(answers)[k] == found);
    } else {
        assert(announced(answers)[before.len() as int] == found);
    }
}

/// Every binding that is announced is that of an HTTPS record.
pub proof fn bindings_are_made_up_by_none(answers: Seq<AnswerView>, k: int)
    requires
        0 <= k < announced(answers).len(),
    ensures
        exists|i: int|
            0 <= i < answers.len() && (#[trigger] answers[i]).record_type == 65
                && record_binding((#[trigger] answers[i]).data) is Ok && announced(answers)[k]
                == record_binding(answers[i].data)->Ok_0,
    decreases answers.len(),
{
    let fewer = answers.drop_last();
    let last = answers.len() - 1;
    if k < announced(fewer).len() {
        bindings_are_made_up_by_none(fewer, k);
        let i = choose|i: int|
            0 <= i < fewer.len() && (#[trigger] fewer[i]).record_type == 65
                && record_binding((#[trigger] fewer[i]).data) is Ok && announced(fewer)[k]
                == record_binding(fewer[i].data)->Ok_0;
        assert(answers[i] == fewer[i]);
    } else {
        assert(answers[last].record_type == 65 && record_binding(answers[last].data) is Ok);
    }
}

/// The bindings of earlier answers come before those of later ones.
pub proof fn bindings_come_in_order(first: Seq<AnswerView>, second: Seq<AnswerView>)
    ensures
        announced(first + second) == announced(first) + announced(second),
    decreases second.len(),
{
    let both = first + second;
    if second.len() == 0 {
        assert(both =~= first);
        assert(announced(first) + announced(second) =~= announced(first));
    } else {
        bindings_come_in_order(first, second.drop_last());
        assert(both.drop_last() =~= first + second.drop_last());
        assert(both.last() == second.last());
        assert(announced(both) =~= announced(first) + announced(second));
    }
}

// ---------------------------------------------------------------------------
// Records that cannot be read
// ---------------------------------------------------------------------------
/// Each HTTPS record that cannot be read is told, in order, with what is wrong with it;
/// no other answer is.
pub proof fn faults_are_those_of_the_answers(answers: Seq<AnswerView>)
    ensures
        ({
            let good = answers.filter(|a: AnswerView| a.record_type == 65
                && record_binding(a.data) is Err);
            &&& unreadable(answers).len() == good.len()
            &&& forall|i: int|
                0 <= i < good.len()
                    ==> (#[trigger] unreadable(answers)[i]) == record_binding(good[i].data)->Err_0
        }),
    decreases answers.len(),
{
    reveal(Seq::filter);
    if answers.len() > 0 {
        faults_are_those_of_the_answers(answers.drop_last());
    }
}

/// No HTTPS record that cannot be read is passed over.
pub proof fn faults_leave_none_out(answers: Seq<AnswerView>, i: int)
    requires
        0 <= i < answers.len(),
        answers[i].record_type == 65 && record_binding(answers[i].data) is Err,
    ensures
        unreadable(answers).contains(record_binding(answers[i].data)->Err_0),
    decreases answers.len(),
{
    let fewer = answers.drop_last();
    let before = unreadable(fewer);
    let found = record_binding(answers[i].data)->Err_0;
    if i < fewer.len() {
        assert(fewer[i] == answers[i]);
        faults_leave_none_out(fewer, i);
        let k = choose|k: int| 0 <= k < before.len() && before[k] == found;
        assert(unreadable(answers)[k] == found);
    } else {
        assert(unreadable(answers)[before.len() as int] == found);
    }
}

/// Everything that is told is wrong with some HTTPS record.
pub proof fn faults_are_made_up_by_none(answers: Seq<AnswerView>, k: int)
    requires
        0 <= k < unreadable(answers).len(),
    ensures
        exists|i: int|
            0 <= i < answers.len() && (#[trigger] answers[i]).record_type == 65
                && record_binding((#[trigger] answers[i]).data) is Err && unreadable(answers)[k]
                == record_binding(answers[i].data)->Err_0,
    decreases answers.len(),
{
    let fewer = answers.drop_last();
    let last = answers.len() - 1;
    if k < unreadable(fewer).len() {
        faults_are_made_up_by_none(fewer, k);
        let i = choose|i: int|
            0 <= i < fewer.len() && (#[trigger] fewer[i]).record_type == 65
                && record_binding((#[trigger] fewer[i]).data) is Err && unreadable(fewer)[k]
                == record_binding(fewer[i].data)->Err_0;
        assert(answers[i] == fewer[i]);
    } else {
        assert(answers[last].record_type == 65 && record_binding(answers[last].data) is Err);
    }
}

/// What is wrong with earlier answers comes before what is wrong with later ones.
pub proof fn faults_come_in_order(first: Seq<AnswerView>, second: Seq<AnswerView>)
    ensures
        unreadable(first + second) == unreadable(first) + unreadable(second),
    decreases second.len(),
{
    let both = first + second;
    if second.len() == 0 {
        assert(both =~= first);
        assert(unreadable(first) + unreadable(second) =~= unreadable(first));
    } else {
        faults_come_in_order(first, second.drop_last());
        assert(both.drop_last() =~= first + second.drop_last());
        assert(both.last() == second.last());
        assert(unreadable(both) =~= unreadable(first) + unreadable(second));
    }
}

// ---------------------------------------------------------------------------
// Addresses
// ---------------------------------------------------------------------------
/// Each address record of the fourth version whose data is an address gives that
/// address, in order; no other answer gives any.
pub proof fn ipv4_are_those_of_the_answers(answers: Seq<AnswerView>)
    ensures
        ({
            let good = answers.filter(|a: AnswerView| a.record_type == 1
                && ipv4_value(a.data) is Some);
            &&& ipv4_addresses(answers).len() == good.len()
            &&& forall|i: int|
                0 <= i < good.len()
                    ==> (#[trigger] ipv4_addresses(answers)[i])
                    == IpAddress::V4(ipv4_value(good[i].data)->0 as u32)
        }),
    decreases answers.len(),
{
    reveal(Seq::filter);
    if answers.len() > 0 {
        ipv4_are_those_of_the_answers(answers.drop_last());
    }
}

/// No such address is left out, so that each can be tried.
pub proof fn ipv4_leave_none_out(answers: Seq<AnswerView>, i: int)
    requires
        0 <= i < answers.len(),
        answers[i].record_type == 1 && ipv4_value(answers[i].data) is Some,
    ensures
        ipv4_addresses(answers).contains(IpAddress::V4(ipv4_value(answers[i].data)->0 as u32)),
    decreases answers.len(),
{
    let fewer = answers.drop_last();
    let before = ipv4_addresses(fewer);
    let found = IpAddress::V4(ipv4_value(answers[i].data)->0 as u32);
    if i < fewer.len() {
        assert(fewer[i] == answers[i]);
        ipv4_leave_none_out(fewer, i);
        let k = choose|k: int| 0 <= k < before.len() && before[k] == found;
        assert(ipv4_addresses(answers)[k] == found);
    } else {
        assert(ipv4_addresses(answers)[before.len() as int] == found);
    }
}

/// Every address is from such a record.
pub proof fn ipv4_are_made_up_by_none(answers: Seq<AnswerView>, k: int)
    requires
        0 <= k < ipv4_addresses(answers).len(),
    ensures
        exists|i: int|
            0 <= i < answers.len() && (#[trigger] answers[i]).record_type == 1
                && ipv4_value((#[trigger] answers[i]).data) is Some && ipv4_addresses(answers)[k]
                == IpAddress::V4(ipv4_value(answers[i].data)->0 as u32),
    decreases answers.len(),
{
    let fewer = answers.drop_last();
    let last = answers.len() - 1;
    if k < ipv4_addresses(fewer).len() {
        ipv4_are_made_up_by_none(fewer, k);
        let i = choose|i: int|
            0 <= i < fewer.len() && (#[trigger] fewer[i]).record_type == 1
                && ipv4_value((#[trigger] fewer[i]).data) is Some && ipv4_addresses(fewer)[k]
                == IpAddress::V4(ipv4_value(fewer[i].data)->0 as u32);
        assert(answers[i] == fewer[i]);
    } else {
        assert(answers[last].record_type == 1 && ipv4_value(answers[last].data) is Some);
    }
}

/// The addresses of earlier answers come before those of later ones.
pub proof fn ipv4_come_in_order(first: Seq<AnswerView>, second: Seq<AnswerView>)
    ensures
        ipv4_addresses(first + second) == ipv4_addresses(first) + ipv4_addresses(second),
    decreases second.len(),
{
    let both = first + second;
    if second.len() == 0 {
        assert(both =~= first);
        assert(ipv4_addresses(first) + ipv4_addresses(second) =~= ipv4_addresses(first));
    } else {
        ipv4_come_in_order(first, second.drop_last());
        assert(both.drop_last() =~= first + second.drop_last());
        assert(both.last() == second.last());
        assert(ipv4_addresses(both) =~= ipv4_addresses(first) + ipv4_addresses(second));
    }
}

// ---------------------------------------------------------------------------
// Addresses of the sixth version
// ---------------------------------------------------------------------------
/// Each address record of the sixth version whose data is an address gives that
/// address, in order; no other answer gives any.
pub proof fn ipv6_are_those_of_the_answers(answers: Seq<AnswerView>)
    ensures
        ({
            let good = answers.filter(|a: AnswerView| a.record_type == 28
                && ipv6_value(a.data) is Some);
            &&& ipv6_addresses(answers).len() == good.len()
            &&& forall|i: int|
                0 <= i < good.len()
                    ==> (#[trigger] ipv6_addresses(answers)[i])
                    == IpAddress::V6(ipv6_value(good[i].data)->0)
        }),
    decreases answers.len(),
{
    reveal(Seq::filter);
    if answers.len() > 0 {
        ipv6_are_those_of_the_answers(answers.drop_last());
    }
}

/// No such address is left out, so that each can be tried.
pub proof fn ipv6_leave_none_out(answers: Seq<AnswerView>, i: int)
    requires
        0 <= i < answers.len(),
        answers[i].record_type == 28 && ipv6_value(answers[i].data) is Some,
    ensures
        ipv6_addresses(answers).contains(IpAddress::V6(ipv6_value(answers[i].data)->0)),
    decreases answers.len(),
{
    let fewer = answers.drop_last();
    let before = ipv6_addresses(fewer);
    let found = IpAddress::V6(ipv6_value(answers[i].data)->0);
    if i < fewer.len() {
        assert(fewer[i] == answers[i]);
        ipv6_leave_none_out(fewer, i);
        let k = choose|k: int| 0 <= k < before.len() && before[k] == found;
        assert(ipv6_addresses(answers)[k] == found);
    } else {
        assert(ipv6_addresses(answers)[before.len() as int] == found);
    }
}

/// Every address is from such a record.
pub proof fn ipv6_are_made_up_by_none(answers: Seq<AnswerView>, k: int)
    requires
        0 <= k < ipv6_addresses(answers).len(),
    ensures
        exists|i: int|
            0 <= i < answers.len() && (#[trigger] answers[i]).record_type == 28
                && ipv6_value((#[trigger] answers[i]).data) is Some && ipv6_addresses(answers)[k]
                == IpAddress::V6(ipv6_value(answers[i].data)->0),
    decreases answers.len(),
{
    let fewer = answers.drop_last();
    let last = answers.len() - 1;
    if k < ipv6_addresses(fewer).len() {
        ipv6_are_made_up_by_none(fewer, k);
        let i = choose|i: int|
            0 <= i < fewer.len() && (#[trigger] fewer[i]).record_type == 28
                && ipv6_value((#[trigger] fewer[i]).data) is Some && ipv6_addresses(fewer)[k]
                == IpAddress::V6(ipv6_value(fewer[i].data)->0);
        assert(answers[i] == fewer[i]);
    } else {
        assert(answers[last].record_type == 28 && ipv6_value(answers[last].data) is Some);
    }
}

/// The addresses of earlier answers come before those of later ones.
pub proof fn ipv6_come_in_order(first: Seq<AnswerView>, second: Seq<AnswerView>)
    ensures
        ipv6_addresses(first + second) == ipv6_addresses(first) + ipv6_addresses(second),
    decreases second.len(),
{
    let both = first + second;
    if second.len() == 0 {
        assert(both =~= first);
        assert(ipv6_addresses(first) + ipv6_addresses(second) =~= ipv6_addresses(first));
    } else {
        ipv6_come_in_order(first, second.drop_last());
        assert(both.drop_last() =~= first + second.drop_last());
        assert(both.last() == second.last());
        assert(ipv6_addresses(both) =~= ipv6_addresses(first) + ipv6_addresses(second));
    }
}

// ---------------------------------------------------------------------------
// The binding to use
// ---------------------------------------------------------------------------
/// A single HTTPS record that can be read announces exactly its binding.
pub proof fn one_record_announces_its_binding(answer: AnswerView, binding: BindingView)
    requires
        answer.record_type == 65,
        record_binding(answer.data) == Ok::<BindingView, HttpsErrorView>(binding),
    ensures
        announced(seq![answer]) == seq![binding],
{
    let answers = seq![answer];
    assert(answers.drop_last() =~= Seq::empty());
    assert(announced(answers.drop_last()) =~= Seq::empty());
    assert(answers.last() == answer);
    assert(announced(answers) =~= seq![binding]);
}

/// Of the bindings that are announced one leads if there is any: none has a lower
/// priority number, and of those with the same it is the first.
pub proof fn a_binding_leads(bindings: Seq<BindingView>)
    requires
        bindings.len() > 0,
    ensures
        exists|i: int| #[trigger] leads(bindings, i),
        forall|i: int|
            #[trigger] leads(bindings, i) ==> 0 <= i < bindings.len() && (forall|j: int|
                0 <= j < bindings.len() ==> bindings[i].priority <= (
                #[trigger] bindings[j]).priority) && (forall|j: int|
                0 <= j < i ==> (#[trigger] bindings[j]).priority != bindings[i].priority),
    decreases bindings.len(),
{
    if bindings.len() == 1 {
        assert(leads(bindings, 0));
    } else {
        let fewer = bindings.drop_last();
        let last = bindings.len() - 1;
        a_binding_leads(fewer);
        let i = choose|i: int| #[trigger] leads(fewer, i);
        assert(forall|j: int| 0 <= j < fewer.len() ==> #[trigger] bindings[j] == fewer[j]);
        if bindings[last].priority < bindings[i].priority {
            assert forall|j: int| 0 <= j < last implies bindings[last].priority < (
            #[trigger] bindings[j]).priority by {
                assert(fewer[i].priority <= fewer[j].priority);
            }
            assert(leads(bindings, last));
        } else {
            assert forall|j: int| 0 <= j < i implies bindings[i].priority < (
            #[trigger] bindings[j]).priority by {
                assert(fewer[i].priority < fewer[j].priority);
            }
            assert forall|j: int| 0 <= j < bindings.len() implies bindings[i].priority <= (
            #[trigger] bindings[j]).priority by {
                if j < last {
                    assert(fewer[i].priority <= fewer[j].priority);
                }
            }
            assert(leads(bindings, i));
        }
    }
}

/// A binding that announces nothing has neither a target nor ECH.
pub proof fn a_plain_binding_announces_nothing(priority: u16)
    ensures
        plain_binding(priority).priority == priority,
        plain_binding(priority).target_name is None,
        plain_binding(priority).ech_config_list is None,
        plain_binding(priority).ech_public_name is None,
{
}

// ---------------------------------------------------------------------------
// Queries
// ---------------------------------------------------------------------------
/// A query is answered from memory exactly if something is kept and nobody was asked
/// yet, and then with what is kept.
pub proof fn a_query_is_answered_from_memory(
    endpoints: Seq<Seq<char>>,
    cached: Option<Seq<AnswerView>>,
    failures: Seq<Seq<char>>,
)
    ensures
        query_step(endpoints, cached, failures) is Answered <==> cached is Some && failures.len()
            == 0,
        cached matches Some(answers) ==> failures.len() == 0 ==> query_step(
            endpoints,
            cached,
            failures,
        ) == DohStepView::Answered(answers),
{
}

/// Without an endpoint, and without kept answers, there is nobody to ask.
pub proof fn without_endpoints_nobody_is_asked(failures: Seq<Seq<char>>)
    ensures
        query_step(Seq::empty(), None, failures) == DohStepView::Unavailable(
            "DoH 不可用，请在配置中自行更换 DoH：未配置 DoH 端点"@,
        ),
{
}

/// A query that nobody answered fails with both errors of the endpoint that was asked
/// last, and names it.
pub proof fn a_query_that_nobody_answers_fails(
    endpoints: Seq<Seq<char>>,
    failures: Seq<Seq<char>>,
)
    requires
        endpoints.len() > 0,
        failures.len() == 2 * endpoints.len(),
    ensures
        query_step(endpoints, None, failures) == DohStepView::Unavailable(
            "DoH 不可用，请在配置中自行更换 DoH："@ + endpoints.last() + ": JSON DoH failed first: "@
                + failures[failures.len() - 2] + ": "@ + failures.last(),
        ),
{
}

/// Answers that live for no time, or of which it is not known for how long, are not
/// kept.
pub proof fn answers_of_no_lifetime_are_not_kept(
    memory: DohMemory,
    key: (Seq<char>, Seq<char>),
    answers: Seq<AnswerView>,
    now: u64,
)
    requires
        shortest_ttl(answers) is None || shortest_ttl(answers) == Some(0u32),
    ensures
        remembered(memory, key, answers, now) == memory,
{
}

/// Answers are kept under their key for exactly as many seconds as all of them live,
/// and what is kept under another key stays.
pub proof fn answers_are_kept_while_all_live(
    memory: DohMemory,
    key: (Seq<char>, Seq<char>),
    answers: Seq<AnswerView>,
    ttl: u32,
    now: u64,
    other: (Seq<char>, Seq<char>),
    later: u64,
)
    requires
        shortest_ttl(answers) == Some(ttl),
        ttl > 0,
        now <= LAST_MOMENT,
        now <= later,
    ensures
        current(remembered(memory, key, answers, now), key, later) == (if later < now + ttl
            * 1_000_000_000 {
            Some(answers)
        } else {
            None
        }),
        other != key ==> current(remembered(memory, key, answers, now), other, later) == current(
            memory,
            other,
            later,
        ),
{
}

} // verus!
