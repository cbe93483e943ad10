//! Finding the addresses of an upstream host, with the configuration for
//! Encrypted Client Hello (ECH) that its HTTPS record announces.
use rustls::client::EchConfig;
use rustls::crypto::aws_lc_rs::hpke::ALL_SUPPORTED_SUITES;
use rustls::pki_types::EchConfigListBytes;
use vstd::prelude::*;
use crate::cache::{current, stored, Key, Table, Timed, TimedTable, LAST_MOMENT};
use crate::dns::{min_duration_options, shorter};
use crate::https_rr::{octets_of, option_octets, BindingView, HttpsServiceBinding};
use crate::net::{ip_value, parse_ip, IpAddress, SocketAddress};
use crate::text::{
    chars_of, has_prefix, joined3, lower, lowered, option_str, option_text, same_text,
    starts_with, text_of, trim, trimmed,
};
use vstd::slice::slice_subrange;

verus! {

// ---------------------------------------------------------------------------
// Overrides
// ---------------------------------------------------------------------------
/// What a configured override puts in the place of a host.
pub enum DnsHostOverride {
    /// Another host.
    Alias(String),
    /// Fixed addresses.
    Addresses(Vec<IpAddress>),
}

/// What a [`DnsHostOverride`] says.
pub enum OverrideView {
    Alias(Seq<char>),
    Addresses(Seq<IpAddress>),
}

impl View for DnsHostOverride {
    type V = OverrideView;

    open spec fn view(&self) -> OverrideView {
        match *self {
            DnsHostOverride::Alias(host) => OverrideView::Alias(host@),
            DnsHostOverride::Addresses(ips) => OverrideView::Addresses(ips@),
        }
    }
}

/// Why an override was refused.
#[derive(Clone, Copy, Debug, PartialEq, Eq, Structural)]
pub enum OverrideError {
    Empty,
    EmptyDomain,
}

impl OverrideError {
    /// What is wrong, in words.
    pub fn message(self) -> (text: &'static str)
        ensures
            text@ == match self {
                OverrideError::Empty => "dns_hosts override cannot be empty"@,
                OverrideError::EmptyDomain => "dns_hosts domain override cannot be empty"@,
            },
    {
        match self {
            OverrideError::Empty => "dns_hosts override cannot be empty",
            OverrideError::EmptyDomain => "dns_hosts domain override cannot be empty",
        }
    }
}

/// The meaning of an override: a host after `domain:`, an address, or else a
/// host. White space around either does not count.
pub open spec fn override_value(raw: Seq<char>) -> Result<OverrideView, OverrideError> {
    let value = trim(raw);
    if value.len() == 0 {
        Err(OverrideError::Empty)
    } else if starts_with(value, "domain:"@) {
        let alias = trim(value.skip("domain:"@.len() as int));
        if alias.len() == 0 {
            Err(OverrideError::EmptyDomain)
        } else {
            Ok(OverrideView::Alias(alias))
        }
    } else {
        match ip_value(value) {
            Some(ip) => Ok(OverrideView::Addresses(seq![ip])),
            None => Ok(OverrideView::Alias(value)),
        }
    }
}

/// The meaning of an override, if there is one.
pub open spec fn optional_override(raw: Option<Seq<char>>) -> Result<
    Option<OverrideView>,
    OverrideError,
> {
    match raw {
        None => Ok(None),
        Some(text) => match override_value(text) {
            Ok(value) => Ok(Some(value)),
            Err(e) => Err(e),
        },
    }
}

/// Reads an override.
pub fn parse_dns_host_override(raw: &str) -> (r: Result<DnsHostOverride, OverrideError>)
    ensures
        match r {
            Ok(target) => override_value(raw@) == Ok::<OverrideView, OverrideError>(target@),
            Err(e) => override_value(raw@) == Err::<OverrideView, OverrideError>(e),
        },
{
    let chars = chars_of(raw);
    let value = trimmed(chars.as_slice());
    if value.len() == 0 {
        return Err(OverrideError::Empty);
    }
    let mark = chars_of("domain:");
    if has_prefix(value, mark.as_slice()) {
        let rest = slice_subrange(value, mark.len(), value.len());
        assert(rest@ =~= value@.skip("domain:"@.len() as int));
        let alias = trimmed(rest);
        if alias.len() == 0 {
            return Err(OverrideError::EmptyDomain);
        }
        return Ok(DnsHostOverride::Alias(text_of(alias)));
    }
    let text = text_of(value);
    match parse_ip(text.as_str()) {
        Some(ip) => {
            let mut ips: Vec<IpAddress> = Vec::new();
            ips.push(ip);
            assert(ips@ =~= seq![ip]);
            Ok(DnsHostOverride::Addresses(ips))
        },
        None => Ok(DnsHostOverride::Alias(text)),
    }
}

/// What an optional override says.
pub open spec fn option_override(target: Option<DnsHostOverride>) -> Option<OverrideView> {
    match target {
        Some(t) => Some(t@),
        None => None,
    }
}

fn parse_optional_override(raw: Option<&str>) -> (r: Result<
    Option<DnsHostOverride>,
    OverrideError,
>)
    ensures
        match r {
            Ok(target) => optional_override(option_str(raw)) == Ok::<
                Option<OverrideView>,
                OverrideError,
            >(option_override(target)),
            Err(e) => optional_override(option_str(raw)) == Err::<
                Option<OverrideView>,
                OverrideError,
            >(e),
        },
{
    match raw {
        None => Ok(None),
        Some(text) => match parse_dns_host_override(text) {
            Ok(target) => Ok(Some(target)),
            Err(e) => Err(e),
        },
    }
}

// ---------------------------------------------------------------------------
// Upstreams
// ---------------------------------------------------------------------------
/// Where an upstream host is reached, and its list of ECH configurations, if
/// there is a usable one.
pub struct ResolvedUpstream {
    pub addrs: Vec<SocketAddress>,
    pub ech_config: Option<Vec<u8>>,
}

/// What a [`ResolvedUpstream`] holds.
#[verifier::ext_equal]
pub struct UpstreamView {
    pub addrs: Seq<SocketAddress>,
    pub ech_config: Option<Seq<u8>>,
}

impl View for ResolvedUpstream {
    type V = UpstreamView;

    open spec fn view(&self) -> UpstreamView {
        UpstreamView { addrs: self.addrs@, ech_config: option_octets(self.ech_config) }
    }
}

fn duplicate_octets(octets: &Option<Vec<u8>>) -> (copy: Option<Vec<u8>>)
    ensures
        option_octets(copy) == option_octets(*octets),
{
    match octets {
        Some(o) => Some(octets_of(o.as_slice())),
        None => None,
    }
}

impl ResolvedUpstream {
    /// A copy of the upstream.
    pub fn duplicate(&self) -> (copy: ResolvedUpstream)
        ensures
            copy@ == self@,
    {
        let mut addrs: Vec<SocketAddress> = Vec::new();
        let mut i: usize = 0;
        while i < self.addrs.len()
            invariant
                i <= self.addrs@.len(),
                addrs@ == self.addrs@.take(i as int),
            decreases self.addrs@.len() - i,
        {
            addrs.push(self.addrs[i]);
            assert(self.addrs@.take(i as int + 1) =~= self.addrs@.take(i as int).push(
                self.addrs@[i as int],
            ));
            i = i + 1;
        }
        assert(self.addrs@.take(i as int) =~= self.addrs@);
        ResolvedUpstream { addrs, ech_config: duplicate_octets(&self.ech_config) }
    }
}

/// By what upstreams are kept: the host in lower case, and the port.
pub struct ResolveCacheKey {
    host: String,
    port: u16,
}

impl View for ResolveCacheKey {
    type V = (Seq<char>, u16);

    closed spec fn view(&self) -> (Seq<char>, u16) {
        (self.host@, self.port)
    }
}

impl Key for ResolveCacheKey {
    fn same(&self, other: &Self) -> (same: bool) {
        same_text(self.host.as_str(), other.host.as_str()) && self.port == other.port
    }
}

impl ResolveCacheKey {
    /// The key for a host and a port.
    pub fn new(host: &str, port: u16) -> (key: Self)
        ensures
            key@ == (lower(host@), port),
    {
        ResolveCacheKey { host: lowered(host), port }
    }
}

/// What is kept of earlier resolutions.
pub type ResolveCache = TimedTable<ResolveCacheKey, ResolvedUpstream>;

/// What the model of a [`ResolveCache`] maps to what.
pub type ResolveMemory = Map<(Seq<char>, u16), Timed<UpstreamView>>;

/// The address that last worked, for each host and port.
pub type PreferredUpstreams = Table<ResolveCacheKey, SocketAddress>;

/// The upstream that is kept for the key and has not expired.
pub fn read_cached_upstream(cache: &ResolveCache, key: &ResolveCacheKey, now: u64) -> (
    upstream: Option<ResolvedUpstream>)
    requires
        cache.wf(),
    ensures
        match upstream {
            Some(u) => current(cache@, key@, now) == Some(u@),
            None => current(cache@, key@, now) is None,
        },
{
    match cache.read(key, now) {
        Some(upstream) => Some(upstream.duplicate()),
        None => None,
    }
}

/// Keeps an upstream for `ttl` seconds.
pub fn write_cached_upstream(
    cache: &mut ResolveCache,
    key: ResolveCacheKey,
    upstream: ResolvedUpstream,
    ttl: u32,
    now: u64,
)
    requires
        old(cache).wf(),
        now <= LAST_MOMENT,
    ensures
        final(cache).wf(),
        final(cache)@ == stored(old(cache)@, key@, upstream@, ttl, now),
{
    cache.write(key, upstream, ttl, now);
}

/// `i` is the first place of `x` in `s`.
pub open spec fn first_place(s: Seq<SocketAddress>, x: SocketAddress, i: int) -> bool {
    &&& 0 <= i < s.len()
    &&& s[i] == x
    &&& forall|j: int| 0 <= j < i ==> #[trigger] s[j] != x
}

/// `addrs` with the preferred address and the first one in each other's
/// place.
pub open spec fn prioritized(
    addrs: Seq<SocketAddress>,
    preferred: Option<SocketAddress>,
) -> Seq<SocketAddress> {
    match preferred {
        Some(p) => if addrs.contains(p) {
            let i = choose|i: int| first_place(addrs, p, i);
            addrs.update(0, p).update(i, addrs[0])
        } else {
            addrs
        },
        None => addrs,
    }
}

/// The upstream with its preferred address in front.
pub open spec fn prioritized_upstream(
    upstream: UpstreamView,
    preferred: Option<SocketAddress>,
) -> UpstreamView {
    UpstreamView { addrs: prioritized(upstream.addrs, preferred), ..upstream }
}

/// Puts the address that last worked in front.
pub fn prioritize_preferred_upstream(
    preferred: &PreferredUpstreams,
    key: &ResolveCacheKey,
    addrs: &mut Vec<SocketAddress>,
)
    requires
        preferred.wf(),
    ensures
        final(addrs)@ == prioritized(old(addrs)@, preferred@.get(key@)),
{
    let wanted: SocketAddress = match preferred.get(key) {
        Some(address) => *address,
        None => {
            return ;
        },
    };
    let ghost before = addrs@;
    let mut i: usize = 0;
    while i < addrs.len()
        invariant
            i <= addrs@.len(),
            addrs@ == before,
            preferred@.get(key@) == Some(wanted),
            before == old(addrs)@,
            forall|j: int| 0 <= j < i ==> #[trigger] before[j] != wanted,
        decreases addrs@.len() - i,
    {
        if addrs[i] == wanted {
            let first = addrs[0];
            addrs.set(0, wanted);
            addrs.set(i, first);
            proof {
                assert(first_place(before, wanted, i as int));
                let k = choose|k: int| first_place(before, wanted, k);
                assert(k == i) by {
                    if k < i {
                        assert(before[k] != wanted);
                    } else if i < k {
                        assert(before[i as int] != wanted);
                    }
                }
                assert(before.contains(wanted));
            }
            return ;
        }
        i = i + 1;
    }
    assert(!before.contains(wanted));
}

/// Notes that an address worked.
pub fn remember_successful_upstream(
    preferred: &mut PreferredUpstreams,
    host: &str,
    port: u16,
    addr: SocketAddress,
)
    requires
        old(preferred).wf(),
    ensures
        final(preferred).wf(),
        final(preferred)@ == old(preferred)@.insert((lower(host@), port), addr),
{
    preferred.insert(ResolveCacheKey::new(host, port), addr);
}

// ---------------------------------------------------------------------------
// Resolution
// ---------------------------------------------------------------------------
/// How long a resolution is kept if no lifetime is known, in seconds.
pub const FALLBACK_RESOLVE_CACHE_TTL: u32 = 300;

/// What to do next about a resolution.
pub enum ResolveStep {
    /// The upstream is known.
    Resolved(ResolvedUpstream),
    /// Ask for the HTTPS records of this host; what the edge override says
    /// goes into the step after that.
    AskBinding { binding_host: String, edge: Option<DnsHostOverride> },
}

/// What a [`ResolveStep`] says.
pub enum ResolveStepView {
    Resolved(UpstreamView),
    AskBinding { binding_host: Seq<char>, edge: Option<OverrideView> },
}

impl View for ResolveStep {
    type V = ResolveStepView;

    open spec fn view(&self) -> ResolveStepView {
        match *self {
            ResolveStep::Resolved(upstream) => ResolveStepView::Resolved(upstream@),
            ResolveStep::AskBinding { binding_host, edge } => ResolveStepView::AskBinding {
                binding_host: binding_host@,
                edge: option_override(edge),
            },
        }
    }
}

/// The addresses with the port, in order.
pub open spec fn with_port(ips: Seq<IpAddress>, port: u16) -> Seq<SocketAddress> {
    ips.map_values(|ip: IpAddress| SocketAddress { ip, port })
}

/// An upstream at fixed addresses, without ECH.
pub open spec fn fixed_upstream(ips: Seq<IpAddress>, port: u16) -> UpstreamView {
    UpstreamView { addrs: with_port(ips, port), ech_config: None }
}

/// The first step: an address stands for itself; a kept resolution is used,
/// the preferred address in front; a host that is overridden by addresses has
/// those. For any other the HTTPS records are asked for, of the alias if it is
/// overridden by one.
pub open spec fn first_step(
    host: Seq<char>,
    port: u16,
    dns_host: Option<Seq<char>>,
    edge_node: Option<Seq<char>>,
    cached: Option<UpstreamView>,
    preferred: Option<SocketAddress>,
) -> Result<ResolveStepView, OverrideError> {
    match ip_value(host) {
        Some(ip) => Ok(ResolveStepView::Resolved(fixed_upstream(seq![ip], port))),
        None => match optional_override(edge_node) {
            Err(e) => Err(e),
            Ok(edge) => match cached {
                Some(upstream) => Ok(
                    ResolveStepView::Resolved(prioritized_upstream(upstream, preferred)),
                ),
                None => match optional_override(dns_host) {
                    Err(e) => Err(e),
                    Ok(Some(OverrideView::Addresses(ips))) => Ok(
                        ResolveStepView::Resolved(fixed_upstream(ips, port)),
                    ),
                    Ok(Some(OverrideView::Alias(alias))) => Ok(
                        ResolveStepView::AskBinding { binding_host: alias, edge },
                    ),
                    Ok(None) => Ok(ResolveStepView::AskBinding { binding_host: host, edge }),
                },
            },
        },
    }
}

/// The memory after the first step: addresses from an override are kept for
/// the fallback lifetime.
pub open spec fn memory_after_first_step(
    memory: ResolveMemory,
    host: Seq<char>,
    port: u16,
    dns_host: Option<Seq<char>>,
    edge_node: Option<Seq<char>>,
    now: u64,
) -> ResolveMemory {
    let key = (lower(host), port);
    if ip_value(host) is None && optional_override(edge_node) is Ok && current(memory, key, now)
        is None {
        match optional_override(dns_host) {
            Ok(Some(OverrideView::Addresses(ips))) => stored(
                memory,
                key,
                fixed_upstream(ips, port),
                FALLBACK_RESOLVE_CACHE_TTL,
                now,
            ),
            _ => memory,
        }
    } else {
        memory
    }
}

fn add_port(ips: &Vec<IpAddress>, port: u16) -> (addrs: Vec<SocketAddress>)
    ensures
        addrs@ == with_port(ips@, port),
{
    let mut addrs: Vec<SocketAddress> = Vec::new();
    let mut i: usize = 0;
    while i < ips.len()
        invariant
            i <= ips@.len(),
            addrs@ == with_port(ips@, port).take(i as int),
        decreases ips@.len() - i,
    {
        addrs.push(SocketAddress { ip: ips[i], port });
        assert(with_port(ips@, port).take(i as int + 1) =~= with_port(ips@, port).take(
            i as int,
        ).push(SocketAddress { ip: ips@[i as int], port }));
        i = i + 1;
    }
    assert(with_port(ips@, port).take(i as int) =~= with_port(ips@, port));
    addrs
}

/// Starts the resolution of a host. `dns_host` is the override that is
/// configured for it, and `edge_node` the one for the addresses of all hosts.
pub fn resolve_upstream(
    host: &str,
    port: u16,
    dns_host: Option<&str>,
    edge_node: Option<&str>,
    cache: &mut ResolveCache,
    preferred: &PreferredUpstreams,
    now: u64,
) -> (r: Result<ResolveStep, OverrideError>)
    requires
        old(cache).wf(),
        preferred.wf(),
        now <= LAST_MOMENT,
    ensures
        final(cache).wf(),
        match r {
            Ok(step) => first_step(
                host@,
                port,
                option_str(dns_host),
                option_str(edge_node),
                current(old(cache)@, (lower(host@), port), now),
                preferred@.get((lower(host@), port)),
            ) == Ok::<ResolveStepView, OverrideError>(step@),
            Err(e) => first_step(
                host@,
                port,
                option_str(dns_host),
                option_str(edge_node),
                current(old(cache)@, (lower(host@), port), now),
                preferred@.get((lower(host@), port)),
            ) == Err::<ResolveStepView, OverrideError>(e),
        },
        final(cache)@ == memory_after_first_step(
            old(cache)@,
            host@,
            port,
            option_str(dns_host),
            option_str(edge_node),
            now,
        ),
{
    match parse_ip(host) {
        Some(ip) => {
            let mut addrs: Vec<SocketAddress> = Vec::new();
            addrs.push(SocketAddress { ip, port });
            assert(addrs@ =~= with_port(seq![ip], port));
            return Ok(ResolveStep::Resolved(ResolvedUpstream { addrs, ech_config: None }));
        },
        None => {},
    }
    let edge = match parse_optional_override(edge_node) {
        Ok(edge) => edge,
        Err(e) => {
            return Err(e);
        },
    };
    let key = ResolveCacheKey::new(host, port);
    match read_cached_upstream(cache, &key, now) {
        Some(upstream) => {
            let mut upstream = upstream;
            prioritize_preferred_upstream(preferred, &key, &mut upstream.addrs);
            return Ok(ResolveStep::Resolved(upstream));
        },
        None => {},
    }
    let target = match parse_optional_override(dns_host) {
        Ok(target) => target,
        Err(e) => {
            return Err(e);
        },
    };
    match target {
        Some(DnsHostOverride::Addresses(ips)) => {
            let upstream = ResolvedUpstream { addrs: add_port(&ips, port), ech_config: None };
            write_cached_upstream(
                cache,
                key,
                upstream.duplicate(),
                FALLBACK_RESOLVE_CACHE_TTL,
                now,
            );
            Ok(ResolveStep::Resolved(upstream))
        },
        Some(DnsHostOverride::Alias(alias)) => Ok(
            ResolveStep::AskBinding { binding_host: alias, edge },
        ),
        None => Ok(ResolveStep::AskBinding { binding_host: host.to_owned(), edge }),
    }
}

/// Whose addresses to ask for: those of the first, and those of the public
/// name of the ECH configuration, if that is another host.
pub struct AddressLookups {
    pub target_host: String,
    pub primary: DnsHostOverride,
    pub public_name: Option<String>,
}

/// The host that serves: the target of the binding, if it names one.
pub open spec fn serving_host(binding_host: Seq<char>, binding: BindingView) -> Seq<char> {
    match binding.target_name {
        Some(name) => if name.len() > 0 {
            name
        } else {
            binding_host
        },
        None => binding_host,
    }
}

/// Says whose addresses to ask for, once the binding is known: what the edge
/// override names, or else the host that serves.
pub fn plan_address_lookups(
    binding_host: &str,
    binding: &HttpsServiceBinding,
    edge: Option<DnsHostOverride>,
) -> (lookups: AddressLookups)
    ensures
        lookups.target_host@ == serving_host(binding_host@, binding@),
        lookups.primary@ == match edge {
            Some(target) => target@,
            None => OverrideView::Alias(serving_host(binding_host@, binding@)),
        },
        option_text(lookups.public_name) == match binding@.ech_public_name {
            Some(name) => if name != serving_host(binding_host@, binding@) {
                Some(name)
            } else {
                None
            },
            None => None,
        },
{
    let target_host = match &binding.target_name {
        Some(name) => if name.as_str().is_empty() {
            binding_host.to_owned()
        } else {
            name.clone()
        },
        None => binding_host.to_owned(),
    };
    let public_name = match &binding.ech_public_name {
        Some(name) => if same_text(name.as_str(), target_host.as_str()) {
            None
        } else {
            Some(name.clone())
        },
        None => None,
    };
    let primary = match edge {
        Some(target) => target,
        None => DnsHostOverride::Alias(target_host.clone()),
    };
    AddressLookups { target_host, primary, public_name }
}

/// `EchConfig::new` accepts this list of ECH configurations: one of them has a
/// version, extensions and a cipher suite that rustls supports.
pub uninterp spec fn ech_supported(list: Seq<u8>) -> bool;

/// `rustls::client::EchConfig::new`, with every suite of the aws-lc-rs
/// provider. It picks a configuration from the list, or fails. Nothing more is
/// claimed of whether it fails than that the list determines it.
#[verifier::external_body]
fn accepts_ech(list: &Vec<u8>) -> (supported: bool)
    ensures
        supported == ech_supported(list@),
{
    EchConfig::new(EchConfigListBytes::from(list.as_slice()), ALL_SUPPORTED_SUITES).is_ok()
}

/// The addresses without those that occur earlier.
pub open spec fn without_repeats(ips: Seq<IpAddress>) -> Seq<IpAddress>
    decreases ips.len(),
{
    if ips.len() == 0 {
        Seq::empty()
    } else {
        let before = without_repeats(ips.drop_last());
        if before.contains(ips.last()) {
            before
        } else {
            before.push(ips.last())
        }
    }
}

fn drop_repeats(ips: &Vec<IpAddress>) -> (distinct: Vec<IpAddress>)
    ensures
        distinct@ == without_repeats(ips@),
{
    let mut distinct: Vec<IpAddress> = Vec::new();
    let mut i: usize = 0;
    assert(ips@.take(0) =~= Seq::empty());
    while i < ips.len()
        invariant
            i <= ips@.len(),
            distinct@ == without_repeats(ips@.take(i as int)),
        decreases ips@.len() - i,
    {
        let ghost upto = ips@.take(i as int + 1);
        assert(upto.drop_last() =~= ips@.take(i as int));
        let mut seen = false;
        let mut j: usize = 0;
        while j < distinct.len()
            invariant
                j <= distinct@.len(),
                i < ips@.len(),
                seen == distinct@.take(j as int).contains(ips@[i as int]),
            decreases distinct@.len() - j,
        {
            let ghost shorter = distinct@.take(j as int);
            assert(distinct@.take(j as int + 1) =~= shorter.push(distinct@[j as int]));
            if distinct[j] == ips[i] {
                assert(shorter.push(distinct@[j as int])[j as int] == ips@[i as int]);
                seen = true;
            } else {
                proof {
                    let longer = shorter.push(distinct@[j as int]);
                    assert(longer.contains(ips@[i as int]) ==> shorter.contains(ips@[i as int]));
                    if seen {
                        let k = choose|k: int|
                            0 <= k < shorter.len() && shorter[k] == ips@[i as int];
                        assert(longer[k] == ips@[i as int]);
                    }
                }
            }
            j = j + 1;
        }
        assert(distinct@.take(j as int) =~= distinct@);
        if !seen {
            distinct.push(ips[i]);
        }
        i = i + 1;
    }
    assert(ips@.take(i as int) =~= ips@);
    distinct
}

/// The usable list of ECH configurations of a binding.
pub open spec fn usable_ech(binding: BindingView) -> Option<Seq<u8>> {
    match binding.ech_config_list {
        Some(list) => if ech_supported(list) {
            Some(list)
        } else {
            None
        },
        None => None,
    }
}

/// The upstream that the binding and the addresses make, those of the public
/// name behind the others.
pub open spec fn concluded(
    binding: BindingView,
    ips: Seq<IpAddress>,
    extra_ips: Seq<IpAddress>,
    port: u16,
) -> UpstreamView {
    UpstreamView {
        addrs: with_port(without_repeats(ips + extra_ips), port),
        ech_config: usable_ech(binding),
    }
}

/// How long a resolution is kept: the shortest known lifetime of what went
/// into it.
pub open spec fn kept_for(
    binding_ttl: Option<u32>,
    addr_ttl: Option<u32>,
    extra_ttl: Option<u32>,
) -> u32 {
    match shorter(binding_ttl, shorter(addr_ttl, extra_ttl)) {
        Some(ttl) => ttl,
        None => FALLBACK_RESOLVE_CACHE_TTL,
    }
}

/// Ends the resolution of a host, once the binding and the addresses are
/// known. Without any address there is no upstream; else it is kept, and given
/// with the preferred address in front. `target_host` is the host that serves.
pub fn conclude_resolution(
    host: &str,
    port: u16,
    target_host: &str,
    binding: HttpsServiceBinding,
    binding_ttl: Option<u32>,
    found: (Vec<IpAddress>, Option<u32>),
    extra: (Vec<IpAddress>, Option<u32>),
    cache: &mut ResolveCache,
    preferred: &PreferredUpstreams,
    now: u64,
) -> (r: Result<ResolvedUpstream, String>)
    requires
        old(cache).wf(),
        preferred.wf(),
        now <= LAST_MOMENT,
    ensures
        final(cache).wf(),
        r is Err <==> found.0@.len() + extra.0@.len() == 0,
        match r {
            Ok(upstream) => {
                &&& upstream@ == prioritized_upstream(
                    concluded(binding@, found.0@, extra.0@, port),
                    preferred@.get((lower(host@), port)),
                )
                &&& final(cache)@ == stored(
                    old(cache)@,
                    (lower(host@), port),
                    concluded(binding@, found.0@, extra.0@, port),
                    kept_for(binding_ttl, found.1, extra.1),
                    now,
                )
            },
            Err(error) => {
                &&& error@ == "upstream host "@ + target_host@ + " resolved to no addresses"@
                &&& final(cache)@ == old(cache)@
            },
        },
{
    let (ips, addr_ttl) = found;
    let (extra_ips, extra_ttl) = extra;
    let mut ips = ips;
    let mut extra_ips = extra_ips;
    ips.append(&mut extra_ips);
    if ips.len() == 0 {
        return Err(joined3("upstream host ", target_host, " resolved to no addresses"));
    }
    let ips = drop_repeats(&ips);
    let ech_config = match binding.ech_config_list {
        Some(list) => if accepts_ech(&list) {
            Some(list)
        } else {
            None
        },
        None => None,
    };
    let upstream = ResolvedUpstream { addrs: add_port(&ips, port), ech_config };
    let ttl: u32 = match min_duration_options(
        binding_ttl,
        min_duration_options(addr_ttl, extra_ttl),
    ) {
        Some(ttl) => ttl,
        None => FALLBACK_RESOLVE_CACHE_TTL,
    };
    let key = ResolveCacheKey::new(host, port);
    write_cached_upstream(cache, ResolveCacheKey::new(host, port), upstream.duplicate(), ttl, now);
    let mut upstream = upstream;
    prioritize_preferred_upstream(preferred, &key, &mut upstream.addrs);
    Ok(upstream)
}

// ---------------------------------------------------------------------------
// Laws
// ---------------------------------------------------------------------------
/// Putting an address in front loses none and adds none, and it is in front
/// if it was there.
pub proof fn prioritizing_only_reorders(
    addrs: Seq<SocketAddress>,
    preferred: Option<SocketAddress>,
)
    ensures
        prioritized(addrs, preferred).to_multiset() == addrs.to_multiset(),
        preferred matches Some(p) ==> addrs.contains(p) ==> prioritized(addrs, preferred)[0] == p,
{
    broadcast use vstd::seq_lib::group_to_multiset_ensures;

    if let Some(p) = preferred {
        if addrs.contains(p) {
            let some = choose|i: int| 0 <= i < addrs.len() && addrs[i] == p;
            a_first_place_exists(addrs, p, some);
            let i = choose|i: int| first_place(addrs, p, i);
            assert(first_place(addrs, p, i));
            let once = addrs.update(0, p);
            vstd::seq_lib::to_multiset_update(addrs, 0, p);
            vstd::seq_lib::to_multiset_update(once, i, addrs[0]);
            assert(once.update(i, addrs[0]).to_multiset() =~= addrs.to_multiset());
        }
    }
}

proof fn a_first_place_exists(s: Seq<SocketAddress>, x: SocketAddress, i: int)
    requires
        0 <= i < s.len(),
        s[i] == x,
    ensures
        exists|k: int| first_place(s, x, k),
    decreases i,
{
    if exists|j: int| 0 <= j < i && #[trigger] s[j] == x {
        let j = choose|j: int| 0 <= j < i && #[trigger] s[j] == x;
        a_first_place_exists(s, x, j);
    } else {
        assert(first_place(s, x, i));
    }
}

/// No address is tried twice, and none is left out.
pub proof fn resolved_addresses_are_distinct(ips: Seq<IpAddress>)
    ensures
        without_repeats(ips).no_duplicates(),
        forall|ip: IpAddress| without_repeats(ips).contains(ip) <==> #[trigger] ips.contains(ip),
    decreases ips.len(),
{
    if ips.len() > 0 {
        let fewer = ips.drop_last();
        let before = without_repeats(fewer);
        resolved_addresses_are_distinct(fewer);
        assert forall|ip: IpAddress|
            without_repeats(ips).contains(ip) <==> #[trigger] ips.contains(ip) by {
            assert(before.contains(ip) <==> fewer.contains(ip));
            assert(ips =~= fewer.push(ips.last()));
            assert(ips.contains(ip) <==> (fewer.contains(ip) || ip == ips.last())) by {
                if fewer.contains(ip) {
                    let k = choose|k: int| 0 <= k < fewer.len() && fewer[k] == ip;
                    assert(ips[k] == ip);
                }
                if ip == ips.last() {
                    assert(ips[ips.len() - 1] == ip);
                }
            }
            if !before.contains(ips.last()) {
                let after = before.push(ips.last());
                assert(after.contains(ip) <==> (before.contains(ip) || ip == ips.last())) by {
                    if before.contains(ip) {
                        let k = choose|k: int| 0 <= k < before.len() && before[k] == ip;
                        assert(after[k] == ip);
                    }
                    if ip == ips.last() {
                        assert(after[before.len() as int] == ip);
                    }
                }
            }
        }
    }
}

/// While a resolution is kept, the same host and port are resolved to the same
/// upstream without asking anybody.
pub proof fn a_kept_resolution_is_used(
    memory: ResolveMemory,
    host: Seq<char>,
    port: u16,
    upstream: UpstreamView,
    ttl: u32,
    now: u64,
    later: u64,
    dns_host: Option<Seq<char>>,
    edge_node: Option<Seq<char>>,
    preferred: Option<SocketAddress>,
)
    requires
        ttl > 0,
        now <= LAST_MOMENT,
        later < now + ttl * crate::cache::SECOND,
        ip_value(host) is None,
        optional_override(edge_node) is Ok,
    ensures
        first_step(
            host,
            port,
            dns_host,
            edge_node,
            current(
                stored(memory, (lower(host), port), upstream, ttl, now),
                (lower(host), port),
                later,
            ),
            preferred,
        ) == Ok::<ResolveStepView, OverrideError>(
            ResolveStepView::Resolved(prioritized_upstream(upstream, preferred)),
        ),
{
}

/// An address that worked is the first to be tried the next time.
pub proof fn what_worked_is_tried_first(
    preferred: Map<(Seq<char>, u16), SocketAddress>,
    key: (Seq<char>, u16),
    addr: SocketAddress,
    upstream: UpstreamView,
)
    requires
        upstream.addrs.contains(addr),
    ensures
        prioritized_upstream(upstream, preferred.insert(key, addr).get(key)).addrs[0] == addr,
{
    prioritizing_only_reorders(upstream.addrs, Some(addr));
}

/// There is an address to try, none is there twice, and all have the port.
pub open spec fn sound_upstream(upstream: UpstreamView, port: u16) -> bool {
    &&& upstream.addrs.len() > 0
    &&& upstream.addrs.no_duplicates()
    &&& forall|i: int| 0 <= i < upstream.addrs.len() ==> (#[trigger] upstream.addrs[i]).port == port
}

/// Every upstream that is kept is sound, for the port that it is kept by.
pub open spec fn sound_memory(memory: ResolveMemory) -> bool {
    forall|key: (Seq<char>, u16)| #[trigger]
        memory.dom().contains(key) ==> sound_upstream(memory[key].value, key.1)
}

/// The preferred address, if it is among the addresses of the upstream, is the
/// first of them.
pub open spec fn preferred_first(
    upstream: UpstreamView,
    preferred: Option<SocketAddress>,
) -> bool {
    preferred matches Some(p) ==> upstream.addrs.contains(p) ==> upstream.addrs[0] == p
}

proof fn prioritizing_keeps_sound(
    upstream: UpstreamView,
    port: u16,
    preferred: Option<SocketAddress>,
)
    requires
        sound_upstream(upstream, port),
    ensures
        sound_upstream(prioritized_upstream(upstream, preferred), port),
        preferred_first(prioritized_upstream(upstream, preferred), preferred),
{
    if let Some(p) = preferred {
        if upstream.addrs.contains(p) {
            let some = choose|i: int| 0 <= i < upstream.addrs.len() && upstream.addrs[i] == p;
            a_first_place_exists(upstream.addrs, p, some);
            prioritizing_only_reorders(upstream.addrs, preferred);
        }
    }
}

proof fn fixed_upstream_is_sound(ip: IpAddress, port: u16, preferred: Option<SocketAddress>)
    ensures
        sound_upstream(fixed_upstream(seq![ip], port), port),
        preferred_first(fixed_upstream(seq![ip], port), preferred),
{
}

proof fn concluded_is_sound(
    binding: BindingView,
    ips: Seq<IpAddress>,
    extra_ips: Seq<IpAddress>,
    port: u16,
)
    requires
        ips.len() + extra_ips.len() > 0,
    ensures
        sound_upstream(concluded(binding, ips, extra_ips, port), port),
{
    let all = ips + extra_ips;
    let distinct = without_repeats(all);
    let addrs = with_port(distinct, port);
    resolved_addresses_are_distinct(all);
    assert(all.contains(all[0]));
    assert(distinct.contains(all[0]));
    assert(addrs.no_duplicates()) by {
        assert forall|i: int, j: int|
            0 <= i < addrs.len() && 0 <= j < addrs.len() && i != j implies addrs[i]
            != addrs[j] by {
            assert(addrs[i].ip == distinct[i]);
            assert(addrs[j].ip == distinct[j]);
        }
    }
}

proof fn storing_keeps_sound(
    memory: ResolveMemory,
    key: (Seq<char>, u16),
    upstream: UpstreamView,
    ttl: u32,
    now: u64,
)
    requires
        sound_memory(memory),
        sound_upstream(upstream, key.1),
    ensures
        sound_memory(stored(memory, key, upstream, ttl, now)),
{
    let after = stored(memory, key, upstream, ttl, now);
    assert forall|k: (Seq<char>, u16)| #[trigger] after.dom().contains(k) implies sound_upstream(
        after[k].value,
        k.1,
    ) by {
        if ttl != 0 && k == key {
            assert(after[k].value == upstream);
        } else {
            assert(memory.dom().contains(k));
            assert(after[k] == memory[k]);
        }
    }
}

/// A resolver that has kept nothing yet has nothing wrong in its memory.
pub proof fn an_empty_memory_is_sound()
    ensures
        sound_memory(Map::empty()),
{
}

/// The first step keeps the memory sound, and an upstream that it finds has an
/// address, none twice, all with the port that was asked for, and the preferred
/// one in front if it is among them.
pub proof fn the_first_step_is_sound(
    memory: ResolveMemory,
    host: Seq<char>,
    port: u16,
    dns_host: Option<Seq<char>>,
    edge_node: Option<Seq<char>>,
    preferred: Option<SocketAddress>,
    now: u64,
)
    requires
        sound_memory(memory),
    ensures
        sound_memory(memory_after_first_step(memory, host, port, dns_host, edge_node, now)),
        first_step(
            host,
            port,
            dns_host,
            edge_node,
            current(memory, (lower(host), port), now),
            preferred,
        ) matches Ok(ResolveStepView::Resolved(upstream)) ==> sound_upstream(upstream, port)
            && preferred_first(upstream, preferred),
{
    let key = (lower(host), port);
    if let Some(ip) = ip_value(host) {
        fixed_upstream_is_sound(ip, port, preferred);
    }
    if let Some(upstream) = current(memory, key, now) {
        assert(memory.dom().contains(key));
        prioritizing_keeps_sound(upstream, port, preferred);
    }
    if let Ok(Some(OverrideView::Addresses(ips))) = optional_override(dns_host) {
        assert(ips == seq![ips[0]]);
        fixed_upstream_is_sound(ips[0], port, preferred);
        storing_keeps_sound(
            memory,
            key,
            fixed_upstream(ips, port),
            FALLBACK_RESOLVE_CACHE_TTL,
            now,
        );
    }
}

/// Ending a resolution keeps the memory sound, and the upstream that it gives
/// has an address, none twice, all with the port that was asked for, and the
/// preferred one in front if it is among them.
pub proof fn a_concluded_resolution_is_sound(
    memory: ResolveMemory,
    host: Seq<char>,
    port: u16,
    binding: BindingView,
    ips: Seq<IpAddress>,
    extra_ips: Seq<IpAddress>,
    preferred: Option<SocketAddress>,
    ttl: u32,
    now: u64,
)
    requires
        sound_memory(memory),
        ips.len() + extra_ips.len() > 0,
    ensures
        sound_memory(
            stored(
                memory,
                (lower(host), port),
                concluded(binding, ips, extra_ips, port),
                ttl,
                now,
            ),
        ),
        sound_upstream(
            prioritized_upstream(concluded(binding, ips, extra_ips, port), preferred),
            port,
        ),
        preferred_first(
            prioritized_upstream(concluded(binding, ips, extra_ips, port), preferred),
            preferred,
        ),
{
    let upstream = concluded(binding, ips, extra_ips, port);
    concluded_is_sound(binding, ips, extra_ips, port);
    storing_keeps_sound(memory, (lower(host), port), upstream, ttl, now);
    prioritizing_keeps_sound(upstream, port, preferred);
}

} // verus!
