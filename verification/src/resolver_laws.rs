//! How a host is resolved, and how its addresses are written, for every host and every
//! memory.
use vstd::prelude::*;
use crate::cache::{current, stored, LAST_MOMENT};
use crate::https_rr::BindingView;
use crate::net::{
    ip_value, ipv4_octets, ipv4_text, ipv4_value, ipv6_text, ipv6_value, number_octets, octet,
    socket_text, IpAddress, SocketAddress,
};
use crate::record_laws::ipv4_is_read_back;
use crate::resolver::{
    concluded, ech_supported, first_step, kept_for, memory_after_first_step, optional_override,
    override_value, prioritized, serving_host, usable_ech, with_port, without_repeats,
    OverrideError, OverrideView, ResolveMemory, ResolveStepView, UpstreamView,
};
use crate::text::{decimal, lower, number, split, starts_with, trim};

verus! {

// ---------------------------------------------------------------------------
// Overrides
// ---------------------------------------------------------------------------
/// An override is an address, or else another host, which may stand behind `domain:`;
/// white space around either does not count, and nothing is no override.
pub proof fn what_an_override_says(raw: Seq<char>)
    ensures
        ({
            let value = trim(raw);
            let marked = starts_with(value, "domain:"@);
            let alias = trim(value.skip(7));
            &&& value.len() == 0 ==> override_value(raw) == Err::<OverrideView, OverrideError>(
                OverrideError::Empty,
            )
            &&& value.len() > 0 && marked && alias.len() == 0 ==> override_value(raw) == Err::<
                OverrideView,
                OverrideError,
            >(OverrideError::EmptyDomain)
            &&& value.len() > 0 && marked && alias.len() > 0 ==> override_value(raw) == Ok::<
                OverrideView,
                OverrideError,
            >(OverrideView::Alias(alias))
            &&& value.len() > 0 && !marked && ip_value(value) is Some ==> override_value(raw)
                == Ok::<OverrideView, OverrideError>(
                OverrideView::Addresses(seq![ip_value(value)->0]),
            )
            &&& value.len() > 0 && !marked && ip_value(value) is None ==> override_value(raw)
                == Ok::<OverrideView, OverrideError>(OverrideView::Alias(value))
        }),
{
    reveal_strlit("domain:");
}

/// What is not configured overrides nothing.
pub proof fn no_override_says_nothing(raw: Seq<char>)
    ensures
        optional_override(None) == Ok::<Option<OverrideView>, OverrideError>(None),
        override_value(raw) matches Ok(value) ==> optional_override(Some(raw)) == Ok::<
            Option<OverrideView>,
            OverrideError,
        >(Some(value)),
        override_value(raw) matches Err(e) ==> optional_override(Some(raw)) == Err::<
            Option<OverrideView>,
            OverrideError,
        >(e),
{
}

// ---------------------------------------------------------------------------
// The first step
// ---------------------------------------------------------------------------
/// An address is its own upstream, whatever is configured or kept; ECH has no part in it.
pub proof fn an_address_is_its_own_upstream(
    host: Seq<char>,
    port: u16,
    ip: IpAddress,
    dns_host: Option<Seq<char>>,
    edge_node: Option<Seq<char>>,
    cached: Option<UpstreamView>,
    preferred: Option<SocketAddress>,
    memory: ResolveMemory,
    now: u64,
)
    requires
        ip_value(host) == Some(ip),
    ensures
        first_step(host, port, dns_host, edge_node, cached, preferred) == Ok::<
            ResolveStepView,
            OverrideError,
        >(
            ResolveStepView::Resolved(
                UpstreamView { addrs: seq![SocketAddress { ip, port }], ech_config: None },
            ),
        ),
        memory_after_first_step(memory, host, port, dns_host, edge_node, now) == memory,
{
    assert(with_port(seq![ip], port) =~= seq![SocketAddress { ip, port }]);
}

/// An override for all hosts that is wrong is an error, whatever is kept.
pub proof fn a_wrong_edge_is_an_error(
    host: Seq<char>,
    port: u16,
    dns_host: Option<Seq<char>>,
    edge_node: Seq<char>,
    error: OverrideError,
    cached: Option<UpstreamView>,
    preferred: Option<SocketAddress>,
)
    requires
        ip_value(host) is None,
        override_value(edge_node) == Err::<OverrideView, OverrideError>(error),
    ensures
        first_step(host, port, dns_host, Some(edge_node), cached, preferred) == Err::<
            ResolveStepView,
            OverrideError,
        >(error),
{
}

/// An override for the host that is wrong is an error, unless the host is an address or
/// something is kept for it, and nothing is kept then.
pub proof fn a_wrong_override_is_an_error(
    host: Seq<char>,
    port: u16,
    dns_host: Seq<char>,
    edge_node: Option<Seq<char>>,
    error: OverrideError,
    preferred: Option<SocketAddress>,
    memory: ResolveMemory,
    now: u64,
)
    requires
        ip_value(host) is None,
        optional_override(edge_node) is Ok,
        override_value(dns_host) == Err::<OverrideView, OverrideError>(error),
    ensures
        first_step(host, port, Some(dns_host), edge_node, None, preferred) == Err::<
            ResolveStepView,
            OverrideError,
        >(error),
        memory_after_first_step(memory, host, port, Some(dns_host), edge_node, now) == memory,
{
}

/// What is kept for a host stays as it is for as long as it lives, and a wrong override
/// for all hosts changes nothing of it.
pub proof fn what_is_kept_stays(
    host: Seq<char>,
    port: u16,
    dns_host: Option<Seq<char>>,
    edge_node: Option<Seq<char>>,
    memory: ResolveMemory,
    now: u64,
)
    requires
        current(memory, (lower(host), port), now) is Some || optional_override(edge_node) is Err,
    ensures
        memory_after_first_step(memory, host, port, dns_host, edge_node, now) == memory,
{
}

/// What is kept is used: the same addresses, with the preferred one in front, and the same
/// ECH configuration. Nothing is asked.
pub proof fn what_is_kept_is_used(
    host: Seq<char>,
    port: u16,
    dns_host: Option<Seq<char>>,
    edge_node: Option<Seq<char>>,
    cached: UpstreamView,
    preferred: Option<SocketAddress>,
)
    requires
        ip_value(host) is None,
        optional_override(edge_node) is Ok,
    ensures
        first_step(host, port, dns_host, edge_node, Some(cached), preferred) matches Ok(
            ResolveStepView::Resolved(upstream),
        ) && upstream.ech_config == cached.ech_config && upstream.addrs.to_multiset()
            == cached.addrs.to_multiset() && (preferred matches Some(p) ==> cached.addrs.contains(p)
            ==> upstream.addrs[0] == p) && (preferred is None ==> upstream.addrs == cached.addrs),
{
    crate::resolver::prioritizing_only_reorders(cached.addrs, preferred);
}

/// A host that is overridden by an address has that address, without ECH, and it is kept
/// for five minutes.
pub proof fn an_overridden_host_has_that_address(
    host: Seq<char>,
    port: u16,
    dns_host: Seq<char>,
    ip: IpAddress,
    edge_node: Option<Seq<char>>,
    preferred: Option<SocketAddress>,
    memory: ResolveMemory,
    now: u64,
    later: u64,
)
    requires
        ip_value(host) is None,
        optional_override(edge_node) is Ok,
        override_value(dns_host) == Ok::<OverrideView, OverrideError>(
            OverrideView::Addresses(seq![ip]),
        ),
        current(memory, (lower(host), port), now) is None,
        now <= LAST_MOMENT,
    ensures
        ({
            let upstream = UpstreamView {
                addrs: seq![SocketAddress { ip, port }],
                ech_config: None,
            };
            let after = memory_after_first_step(
                memory,
                host,
                port,
                Some(dns_host),
                edge_node,
                now,
            );
            &&& first_step(host, port, Some(dns_host), edge_node, None, preferred) == Ok::<
                ResolveStepView,
                OverrideError,
            >(ResolveStepView::Resolved(upstream))
            &&& current(after, (lower(host), port), later) == (if later < now + 300
                * 1_000_000_000 {
                Some(upstream)
            } else {
                None
            })
        }),
{
    assert(with_port(seq![ip], port) =~= seq![SocketAddress { ip, port }]);
}

/// For any other host its HTTPS records are asked for, or those of the host that takes its
/// place; the override for all hosts is handed on. Nothing is kept yet.
pub proof fn any_other_host_is_asked_about(
    host: Seq<char>,
    port: u16,
    alias: Seq<char>,
    dns_host: Seq<char>,
    edge_node: Option<Seq<char>>,
    edge: Option<OverrideView>,
    preferred: Option<SocketAddress>,
    memory: ResolveMemory,
    now: u64,
)
    requires
        ip_value(host) is None,
        optional_override(edge_node) == Ok::<Option<OverrideView>, OverrideError>(edge),
        override_value(dns_host) == Ok::<OverrideView, OverrideError>(OverrideView::Alias(alias)),
    ensures
        first_step(host, port, None, edge_node, None, preferred) == Ok::<
            ResolveStepView,
            OverrideError,
        >(ResolveStepView::AskBinding { binding_host: host, edge }),
        first_step(host, port, Some(dns_host), edge_node, None, preferred) == Ok::<
            ResolveStepView,
            OverrideError,
        >(ResolveStepView::AskBinding { binding_host: alias, edge }),
        memory_after_first_step(memory, host, port, None, edge_node, now) == memory,
        memory_after_first_step(memory, host, port, Some(dns_host), edge_node, now) == memory,
{
}

// ---------------------------------------------------------------------------
// The end of a resolution
// ---------------------------------------------------------------------------
/// The target of a binding serves, if it names one, and else the host itself.
pub proof fn the_target_serves(host: Seq<char>, binding: BindingView)
    ensures
        binding.target_name matches Some(name) ==> name.len() > 0 ==> serving_host(host, binding)
            == name,
        binding.target_name matches Some(name) ==> name.len() == 0 ==> serving_host(host, binding)
            == host,
        binding.target_name is None ==> serving_host(host, binding) == host,
{
}

/// Every address that was found is in the upstream, with the port, and no other; those
/// that were found first come first, and none is there twice.
pub proof fn every_address_found_can_be_tried(
    binding: BindingView,
    ips: Seq<IpAddress>,
    extra_ips: Seq<IpAddress>,
    port: u16,
    ip: IpAddress,
)
    ensures
        ({
            let addrs = concluded(binding, ips, extra_ips, port).addrs;
            &&& addrs.contains(SocketAddress { ip, port }) <==> ips.contains(ip)
                || extra_ips.contains(ip)
            &&& addrs.no_duplicates()
            &&& forall|i: int| 0 <= i < addrs.len() ==> (#[trigger] addrs[i]).port == port
            &&& ips.len() > 0 ==> addrs.len() > 0 && addrs[0] == (SocketAddress {
                ip: ips[0],
                port,
            })
        }),
{
    let all = ips + extra_ips;
    let distinct = without_repeats(all);
    let addrs = with_port(distinct, port);
    crate::resolver::resolved_addresses_are_distinct(all);
    assert(all.contains(ip) <==> ips.contains(ip) || extra_ips.contains(ip)) by {
        if ips.contains(ip) {
            let k = choose|k: int| 0 <= k < ips.len() && ips[k] == ip;
            assert(all[k] == ip);
        }
        if extra_ips.contains(ip) {
            let k = choose|k: int| 0 <= k < extra_ips.len() && extra_ips[k] == ip;
            assert(all[ips.len() + k] == ip);
        }
    }
    if distinct.contains(ip) {
        let k = choose|k: int| 0 <= k < distinct.len() && distinct[k] == ip;
        assert(addrs[k] == SocketAddress { ip, port });
    }
    if addrs.contains(SocketAddress { ip, port }) {
        let k = choose|k: int| 0 <= k < addrs.len() && addrs[k] == SocketAddress { ip, port };
        assert(distinct[k] == ip);
    }
    assert forall|i: int, j: int|
        0 <= i < addrs.len() && 0 <= j < addrs.len() && i != j implies addrs[i] != addrs[j] by {
        assert(addrs[i].ip == distinct[i]);
        assert(addrs[j].ip == distinct[j]);
    }
    if ips.len() > 0 {
        earlier_addresses_come_first(seq![ips[0]], all.skip(1));
        assert(seq![ips[0]] + all.skip(1) =~= all);
        assert(seq![ips[0]].drop_last() =~= Seq::empty());
        assert(without_repeats(Seq::<IpAddress>::empty()) =~= Seq::empty());
        assert(seq![ips[0]].last() == ips[0]);
        assert(without_repeats(seq![ips[0]]) =~= seq![ips[0]]);
        assert(distinct[0] == distinct.take(1)[0]);
    }
}

/// What is found later changes nothing of what was found before: it only comes behind it.
pub proof fn earlier_addresses_come_first(first: Seq<IpAddress>, second: Seq<IpAddress>)
    ensures
        without_repeats(first + second).len() >= without_repeats(first).len(),
        without_repeats(first + second).take(without_repeats(first).len() as int)
            == without_repeats(first),
    decreases second.len(),
{
    let both = first + second;
    if second.len() == 0 {
        assert(both =~= first);
        assert(without_repeats(first).take(without_repeats(first).len() as int)
            =~= without_repeats(first));
    } else {
        earlier_addresses_come_first(first, second.drop_last());
        assert(both.drop_last() =~= first + second.drop_last());
        let n = without_repeats(first).len() as int;
        assert(without_repeats(both).take(n) =~= without_repeats(both.drop_last()).take(n));
    }
}

/// The upstream has exactly the ECH configuration that the binding announces, if that can
/// be used, and else none.
pub proof fn the_announced_ech_is_used(
    binding: BindingView,
    ips: Seq<IpAddress>,
    extra_ips: Seq<IpAddress>,
    port: u16,
)
    ensures
        binding.ech_config_list matches Some(list) ==> ech_supported(list) ==> concluded(
            binding,
            ips,
            extra_ips,
            port,
        ).ech_config == Some(list),
        concluded(binding, ips, extra_ips, port).ech_config is Some ==> binding.ech_config_list
            is Some && ech_supported(binding.ech_config_list->0) && concluded(
            binding,
            ips,
            extra_ips,
            port,
        ).ech_config == binding.ech_config_list,
{
    assert(concluded(binding, ips, extra_ips, port).ech_config == usable_ech(binding));
}

/// A resolution is kept for as long as everything that went into it lives, and for five
/// minutes if nothing is known of that.
pub proof fn a_resolution_is_kept_while_all_lives(
    binding_ttl: Option<u32>,
    addr_ttl: Option<u32>,
    extra_ttl: Option<u32>,
)
    ensures
        ({
            let kept = kept_for(binding_ttl, addr_ttl, extra_ttl);
            &&& binding_ttl matches Some(t) ==> kept <= t
            &&& addr_ttl matches Some(t) ==> kept <= t
            &&& extra_ttl matches Some(t) ==> kept <= t
            &&& Some(kept) == binding_ttl || Some(kept) == addr_ttl || Some(kept) == extra_ttl || (
            binding_ttl is None && addr_ttl is None && extra_ttl is None && kept == 300)
        }),
{
}

/// Putting an address in front exchanges it with the first, and moves no other.
pub proof fn preferring_exchanges_two_addresses(
    addrs: Seq<SocketAddress>,
    preferred: SocketAddress,
    i: int,
)
    requires
        0 <= i < addrs.len(),
        addrs[i] == preferred,
        addrs.no_duplicates(),
    ensures
        ({
            let after = prioritized(addrs, Some(preferred));
            &&& after.len() == addrs.len()
            &&& after[0] == preferred
            &&& after[i] == addrs[0]
            &&& forall|j: int|
                0 < j < addrs.len() && j != i ==> #[trigger] after[j] == addrs[j]
        }),
{
    assert(addrs.contains(preferred));
    assert(crate::resolver::first_place(addrs, preferred, i));
    let k = choose|k: int| crate::resolver::first_place(addrs, preferred, k);
    assert(k == i);
}

/// An address that is not there is not put in front, and neither is none.
pub proof fn preferring_adds_no_address(addrs: Seq<SocketAddress>, preferred: SocketAddress)
    ensures
        prioritized(addrs, None) == addrs,
        !addrs.contains(preferred) ==> prioritized(addrs, Some(preferred)) == addrs,
{
}

/// What is kept is read under its own key for exactly as many seconds as it lives.
pub proof fn what_is_kept_lives_for_seconds(
    memory: ResolveMemory,
    key: (Seq<char>, u16),
    upstream: UpstreamView,
    ttl: u32,
    now: u64,
    other: (Seq<char>, u16),
    later: u64,
)
    requires
        now <= LAST_MOMENT,
        now <= later,
    ensures
        ttl > 0 ==> current(stored(memory, key, upstream, ttl, now), key, later) == (if later < now
            + ttl * 1_000_000_000 {
            Some(upstream)
        } else {
            None
        }),
        ttl == 0 ==> stored(memory, key, upstream, ttl, now) == memory,
        other != key ==> current(stored(memory, key, upstream, ttl, now), other, later) == current(
            memory,
            other,
            later,
        ),
        current(memory, key, later) matches Some(u) ==> memory.dom().contains(key) && later
            < memory[key].expires_at && memory[key].value == u,
{
}

// ---------------------------------------------------------------------------
// Addresses
// ---------------------------------------------------------------------------
/// The address that is written `a.b.c.d` has these octets, the first in the highest place.
pub proof fn an_address_has_its_octets(a: u8, b: u8, c: u8, d: u8)
    ensures
        ipv4_value(
            decimal(a as nat) + seq!['.'] + decimal(b as nat) + seq!['.'] + decimal(c as nat)
                + seq!['.'] + decimal(d as nat),
        ) == Some((a * 0x100_0000 + b * 0x1_0000 + c * 0x100 + d) as nat),
        ipv4_text(a, b, c, d) == decimal(a as nat) + seq!['.'] + decimal(b as nat) + seq!['.']
            + decimal(c as nat) + seq!['.'] + decimal(d as nat),
{
    ipv4_is_read_back(a, b, c, d);
}

/// An address has four parts with full stops between, each a number up to 255 without a
/// sign and without a superfluous zero; nothing else is one.
pub proof fn what_is_an_address(s: Seq<char>)
    ensures
        ({
            let parts = split(s, '.');
            &&& ipv4_value(s) is Some <==> parts.len() == 4 && forall|i: int|
                0 <= i < 4 ==> (#[trigger] parts[i]).len() > 0 && parts[i][0] != '+' && (
                parts[i].len() > 1 ==> parts[i][0] != '0') && number(parts[i], 10, 255) is Some
            &&& ipv4_value(s) matches Some(bits) ==> bits == number(parts[0], 10, 255)->0
                * 0x100_0000 + number(parts[1], 10, 255)->0 * 0x1_0000 + number(
                parts[2],
                10,
                255,
            )->0 * 0x100 + number(parts[3], 10, 255)->0
        }),
{
    let parts = split(s, '.');
    if parts.len() == 4 {
        assert(octet(parts[0]) is Some <==> parts[0].len() > 0 && parts[0][0] != '+' && (
        parts[0].len() > 1 ==> parts[0][0] != '0') && number(parts[0], 10, 255) is Some);
        assert(octet(parts[1]) is Some <==> parts[1].len() > 0 && parts[1][0] != '+' && (
        parts[1].len() > 1 ==> parts[1][0] != '0') && number(parts[1], 10, 255) is Some);
        assert(octet(parts[2]) is Some <==> parts[2].len() > 0 && parts[2][0] != '+' && (
        parts[2].len() > 1 ==> parts[2][0] != '0') && number(parts[2], 10, 255) is Some);
        assert(octet(parts[3]) is Some <==> parts[3].len() > 0 && parts[3][0] != '+' && (
        parts[3].len() > 1 ==> parts[3][0] != '0') && number(parts[3], 10, 255) is Some);
        if ipv4_value(s) is None {
            assert(octet(parts[0]) is None || octet(parts[1]) is None || octet(parts[2]) is None
                || octet(parts[3]) is None);
        }
    }
}

/// A text is an address of the fourth version if it is one, and else of the sixth if it is
/// one of those.
pub proof fn which_version_an_address_has(s: Seq<char>)
    ensures
        ipv4_value(s) matches Some(bits) ==> ip_value(s) == Some(IpAddress::V4(bits as u32)),
        ipv4_value(s) is None && ipv6_value(s) is Some ==> ip_value(s) == Some(
            IpAddress::V6(ipv6_value(s)->0),
        ),
        ipv4_value(s) is None && ipv6_value(s) is None ==> ip_value(s) is None,
{
}

/// The four octets of an address stand in the order in which they are written.
pub proof fn octets_stand_in_order(a: u8, b: u8, c: u8, d: u8)
    ensures
        ipv4_octets((a * 0x100_0000 + b * 0x1_0000 + c * 0x100 + d) as u32) == seq![a, b, c, d],
{
    let all: int = a * 0x100_0000 + b * 0x1_0000 + c * 0x100 + d;
    assert(all / 0x100_0000 == a);
    assert(all / 0x1_0000 == a * 0x100 + b);
    assert(all / 0x100 == a * 0x1_0000 + b * 0x100 + c);
    assert((a * 0x100 + b) % 0x100 == b);
    assert((a * 0x1_0000 + b * 0x100 + c) % 0x100 == c);
    assert(all % 0x100 == d);
    assert(ipv4_octets(all as u32) =~= seq![a, b, c, d]);
}

/// A transport address of the fourth version is written as its octets, with full stops
/// between, a colon and the port.
pub proof fn how_a_v4_address_is_written(a: u8, b: u8, c: u8, d: u8, port: u16)
    ensures
        socket_text(
            SocketAddress {
                ip: IpAddress::V4((a * 0x100_0000 + b * 0x1_0000 + c * 0x100 + d) as u32),
                port,
            },
        ) == decimal(a as nat) + seq!['.'] + decimal(b as nat) + seq!['.'] + decimal(c as nat)
            + seq!['.'] + decimal(d as nat) + ":"@ + decimal(port as nat),
{
    octets_stand_in_order(a, b, c, d);
}

/// A transport address of the sixth version stands in square brackets, all sixteen octets
/// of it, before a colon and the port.
pub proof fn how_a_v6_address_is_written(bits: u128, port: u16)
    ensures
        socket_text(SocketAddress { ip: IpAddress::V6(bits), port }) == "["@ + ipv6_text(
            number_octets(bits as nat, 16),
        ) + "]:"@ + decimal(port as nat),
        number_octets(bits as nat, 16).len() == 16,
{
    octets_are_counted(bits as nat, 16);
}

/// The octets of a number are as many as wanted; the last is its remainder by 256, and the
/// others are those of the quotient.
pub proof fn octets_are_counted(value: nat, n: nat)
    ensures
        number_octets(value, n).len() == n,
        n > 0 ==> number_octets(value, n).last() == value % 256 && number_octets(
            value,
            n,
        ).drop_last() == number_octets(value / 256, (n - 1) as nat),
    decreases n,
{
    if n > 0 {
        octets_are_counted(value / 0x100, (n - 1) as nat);
        assert(number_octets(value, n).drop_last() =~= number_octets(
            value / 256,
            (n - 1) as nat,
        ));
    }
}

} // verus!
