use linuxdo_accelerator::cache::{Table, TimedTable, SECOND};
use linuxdo_accelerator::dns::{DnsError, DohAnswer};
use linuxdo_accelerator::doh::{
    conclude_doh_query, doh_lookup_https_bindings, doh_lookup_ip_addrs, doh_query,
    doh_query_dns_message, doh_query_json, read_cached_doh_answers, resolve_https_binding,
    unreadable_https_answers, write_cached_doh_answers, DohCache, DohCacheKey, DohJsonResponse,
    DohStep,
};
use linuxdo_accelerator::https_rr::{parse_https_answer, HttpsError, HttpsServiceBinding};
use linuxdo_accelerator::net::{IpAddress, SocketAddress};
use linuxdo_accelerator::resolver::{
    conclude_resolution, parse_dns_host_override, plan_address_lookups,
    prioritize_preferred_upstream, remember_successful_upstream, resolve_upstream,
    write_cached_upstream, DnsHostOverride, OverrideError, PreferredUpstreams, ResolveCache,
    ResolveCacheKey, ResolveStep, ResolvedUpstream,
};

const ECH_RECORD: &str = "1 . alpn=h3,h2 ech=AEX+DQBBUgAgACApX7zJGzc2YT6igXiXwkBCe+2AqFgEbRjVaSzuvIIPbgAEAAEAAQASY2xvdWRmbGFyZS1lY2guY29tAAA=";

fn answer(record_type: u16, ttl: u32, data: &str) -> DohAnswer {
    DohAnswer { record_type, ttl: Some(ttl), data: data.to_string() }
}

fn v4(bits: u32) -> IpAddress {
    IpAddress::V4(bits)
}

fn at(ip: IpAddress, port: u16) -> SocketAddress {
    SocketAddress { ip, port }
}

#[test]
fn a_table_keeps_one_value_for_a_key() {
    let mut table: Table<ResolveCacheKey, u32> = Table::new();
    table.insert(ResolveCacheKey::new("Linux.do", 443), 1);
    table.insert(ResolveCacheKey::new("linux.do", 80), 2);
    table.insert(ResolveCacheKey::new("linux.DO", 443), 3);
    assert_eq!(table.get(&ResolveCacheKey::new("linux.do", 443)), Some(&3));
    assert_eq!(table.get(&ResolveCacheKey::new("linux.do", 80)), Some(&2));
    table.remove(&ResolveCacheKey::new("linux.do", 443));
    assert_eq!(table.get(&ResolveCacheKey::new("linux.do", 443)), None);
    assert!(table.pop().is_some());
    assert!(table.pop().is_none());
}

#[test]
fn what_was_written_is_read_until_it_expires() {
    let mut cache: DohCache = TimedTable::new();
    let key = || DohCacheKey::new("Linux.do", "A");
    write_cached_doh_answers(&mut cache, key(), vec![answer(1, 10, "1.2.3.4")], SECOND);
    assert!(read_cached_doh_answers(&cache, &key(), 11 * SECOND - 1).is_some());
    assert!(read_cached_doh_answers(&cache, &key(), 11 * SECOND).is_none());
    let other = DohCacheKey::new("linux.do", "AAAA");
    assert!(read_cached_doh_answers(&cache, &other, SECOND).is_none());
    // Another entry leaves the first one alone.
    write_cached_doh_answers(&mut cache, other, vec![answer(28, 5, "::1")], 2 * SECOND);
    let kept = read_cached_doh_answers(&cache, &DohCacheKey::new("linux.DO", "A"), 3 * SECOND);
    assert_eq!(kept.unwrap()[0].data, "1.2.3.4");
}

#[test]
fn a_fleeting_answer_is_not_kept() {
    let mut cache: DohCache = TimedTable::new();
    let key = || DohCacheKey::new("linux.do", "A");
    write_cached_doh_answers(&mut cache, key(), vec![answer(1, 0, "1.2.3.4")], 0);
    assert!(read_cached_doh_answers(&cache, &key(), 0).is_none());
    let unknown = DohAnswer { record_type: 1, ttl: None, data: "1.2.3.4".to_string() };
    write_cached_doh_answers(&mut cache, key(), vec![unknown], 0);
    assert!(read_cached_doh_answers(&cache, &key(), 0).is_none());
}

#[test]
fn endpoints_are_asked_in_order() {
    let cache: DohCache = TimedTable::new();
    let endpoints = vec!["https://a/dns".to_string(), "https://b/dns".to_string()];
    let step = |failures: &[&str]| {
        let failures = failures.iter().map(|f| f.to_string()).collect();
        doh_query(&endpoints, &cache, "linux.do", "A", &failures, 0)
    };
    assert!(matches!(step(&[]), DohStep::AskJson(0)));
    assert!(matches!(step(&["1"]), DohStep::AskMessage(0)));
    assert!(matches!(step(&["1", "2"]), DohStep::AskJson(1)));
    assert!(matches!(step(&["1", "2", "3"]), DohStep::AskMessage(1)));
    match step(&["1", "2", "3", "4"]) {
        DohStep::Unavailable(text) => assert_eq!(
            text,
            "DoH 不可用，请在配置中自行更换 DoH：https://b/dns: JSON DoH failed first: 3: 4"
        ),
        _ => panic!("expected the end"),
    }
    match doh_query(&vec![], &cache, "linux.do", "A", &vec![], 0) {
        DohStep::Unavailable(text) => {
            assert_eq!(text, "DoH 不可用，请在配置中自行更换 DoH：未配置 DoH 端点")
        }
        _ => panic!("expected the end"),
    }
}

#[test]
fn kept_answers_spare_a_query() {
    let mut cache: DohCache = TimedTable::new();
    let key = DohCacheKey::new("linux.do", "A");
    write_cached_doh_answers(&mut cache, key, vec![answer(1, 10, "1.2.3.4")], 0);
    match doh_query(&vec![], &cache, "LINUX.do", "A", &vec![], 9 * SECOND) {
        DohStep::Answered(answers) => assert_eq!(answers[0].data, "1.2.3.4"),
        _ => panic!("expected the kept answers"),
    }
    let step = doh_query(&vec![], &cache, "linux.do", "A", &vec![], 10 * SECOND);
    assert!(matches!(step, DohStep::Unavailable(_)));
}

#[test]
fn a_json_status_is_an_error() {
    let payload = |status| DohJsonResponse { status, answers: Some(vec![answer(1, 1, "x")]) };
    assert_eq!(doh_query_json("e", "h", "A", payload(None)).unwrap().len(), 1);
    assert_eq!(doh_query_json("e", "h", "A", payload(Some(0))).unwrap().len(), 1);
    assert_eq!(
        doh_query_json("https://a/dns", "linux.do", "A", payload(Some(2))).unwrap_err(),
        "DoH query A linux.do via https://a/dns returned status 2"
    );
    let empty = DohJsonResponse { status: None, answers: None };
    assert!(doh_query_json("e", "h", "A", empty).unwrap().is_empty());
}

#[test]
fn a_query_is_sent_in_base64() {
    let (code, text) = doh_query_dns_message("linux.do", "HTTPS").unwrap();
    assert_eq!(code, 65);
    assert_eq!(text, "TEQBAAABAAAAAAAABWxpbnV4AmRvAABBAAE");
    assert_eq!(
        doh_query_dns_message("linux.do", "MX").unwrap_err(),
        DnsError::UnsupportedRecordType
    );
    assert_eq!(doh_query_dns_message("a..b", "A").unwrap_err(), DnsError::InvalidLabel);
}

#[test]
fn addresses_come_in_the_preferred_order() {
    let four = vec![answer(1, 60, "1.2.3.4"), answer(5, 9, "5.6.7.8"), answer(1, 60, "x")];
    let six = vec![answer(28, 30, "::1"), answer(28, 30, "1.2.3.4")];
    let (addresses, ttl) = doh_lookup_ip_addrs(&four, &six, false);
    assert_eq!(addresses, vec![v4(0x0102_0304), IpAddress::V6(1)]);
    assert_eq!(ttl, Some(9));
    let (addresses, _) = doh_lookup_ip_addrs(&four, &six, true);
    assert_eq!(addresses, vec![IpAddress::V6(1), v4(0x0102_0304)]);
}

#[test]
fn the_first_of_the_lowest_priority_leads() {
    let answers = vec![
        answer(65, 9, "3 c."),
        answer(65, 9, "broken"),
        answer(1, 9, "0 z."),
        answer(65, 4, "2 a."),
        answer(65, 9, "2 b."),
    ];
    assert_eq!(doh_lookup_https_bindings(&answers).0.len(), 3);
    let (binding, ttl) = resolve_https_binding(&answers);
    assert_eq!(binding.target_name.as_deref(), Some("a"));
    assert_eq!(ttl, Some(4));
    let (binding, ttl) = resolve_https_binding(&vec![]);
    assert_eq!(binding.priority, 0);
    assert_eq!(binding.target_name, None);
    assert_eq!(ttl, None);
}

#[test]
fn reads_overrides() {
    let alias = |text: &str| match parse_dns_host_override(text) {
        Ok(DnsHostOverride::Alias(alias)) => alias,
        _ => panic!("expected an alias"),
    };
    assert_eq!(alias(" domain: Example.com "), "Example.com");
    assert_eq!(alias("example.com"), "example.com");
    assert_eq!(alias("domain:1.2.3.4"), "1.2.3.4");
    match parse_dns_host_override(" 1.2.3.4 ") {
        Ok(DnsHostOverride::Addresses(ips)) => assert_eq!(ips, vec![v4(0x0102_0304)]),
        _ => panic!("expected an address"),
    }
    assert_eq!(parse_dns_host_override("  ").err(), Some(OverrideError::Empty));
    assert_eq!(parse_dns_host_override("domain: ").err(), Some(OverrideError::EmptyDomain));
    assert_eq!(OverrideError::Empty.message(), "dns_hosts override cannot be empty");
    assert_eq!(
        OverrideError::EmptyDomain.message(),
        "dns_hosts domain override cannot be empty"
    );
}

fn caches() -> (ResolveCache, PreferredUpstreams) {
    (TimedTable::new(), Table::new())
}

#[test]
fn an_address_stands_for_itself() {
    let (mut cache, preferred) = caches();
    match resolve_upstream("1.2.3.4", 443, Some(""), Some(""), &mut cache, &preferred, 0) {
        Ok(ResolveStep::Resolved(upstream)) => {
            assert_eq!(upstream.addrs, vec![at(v4(0x0102_0304), 443)]);
            assert_eq!(upstream.ech_config, None);
        }
        _ => panic!("expected the address"),
    }
}

#[test]
fn overrides_are_heeded() {
    let (mut cache, preferred) = caches();
    let error = resolve_upstream("a.do", 1, None, Some(" "), &mut cache, &preferred, 0).err();
    assert_eq!(error, Some(OverrideError::Empty));
    let error = resolve_upstream("a.do", 1, Some("domain:"), None, &mut cache, &preferred, 0).err();
    assert_eq!(error, Some(OverrideError::EmptyDomain));
    match resolve_upstream("a.do", 1, Some("b.do"), Some("c.do"), &mut cache, &preferred, 0) {
        Ok(ResolveStep::AskBinding { binding_host, edge }) => {
            assert_eq!(binding_host, "b.do");
            assert!(matches!(edge, Some(DnsHostOverride::Alias(host)) if host == "c.do"));
        }
        _ => panic!("expected a question"),
    }
    match resolve_upstream("A.do", 1, None, None, &mut cache, &preferred, 0) {
        Ok(ResolveStep::AskBinding { binding_host, edge }) => {
            assert_eq!(binding_host, "A.do");
            assert!(edge.is_none());
        }
        _ => panic!("expected a question"),
    }
    match resolve_upstream("a.do", 7, Some("::1"), None, &mut cache, &preferred, 0) {
        Ok(ResolveStep::Resolved(upstream)) => {
            assert_eq!(upstream.addrs, vec![at(IpAddress::V6(1), 7)])
        }
        _ => panic!("expected the address"),
    }
    // The address is kept for five minutes, whatever the override says then.
    let later = resolve_upstream("a.do", 7, Some(""), None, &mut cache, &preferred, 299 * SECOND);
    assert!(matches!(later, Ok(ResolveStep::Resolved(_))));
    let later = resolve_upstream("a.do", 7, None, None, &mut cache, &preferred, 300 * SECOND);
    assert!(matches!(later, Ok(ResolveStep::AskBinding { .. })));
}

#[test]
fn says_whose_addresses_to_ask_for() {
    let binding = parse_https_answer(ECH_RECORD).unwrap();
    let lookups = plan_address_lookups("linux.do", &binding, None);
    assert_eq!(lookups.target_host, "linux.do");
    assert!(matches!(lookups.primary, DnsHostOverride::Alias(host) if host == "linux.do"));
    assert_eq!(lookups.public_name.as_deref(), Some("cloudflare-ech.com"));
    let lookups = plan_address_lookups("cloudflare-ech.com", &binding, None);
    assert_eq!(lookups.public_name, None);
    let other = parse_https_answer("1 svc.do.").unwrap();
    let edge = parse_dns_host_override("1.1.1.1").ok();
    let lookups = plan_address_lookups("linux.do", &other, edge);
    assert_eq!(lookups.target_host, "svc.do");
    assert!(matches!(lookups.primary, DnsHostOverride::Addresses(_)));
}

#[test]
fn a_resolution_is_concluded_and_kept() {
    let (mut cache, mut preferred) = caches();
    let binding = parse_https_answer(ECH_RECORD).unwrap();
    let list = binding.ech_config_list.clone();
    let found = (vec![v4(1), v4(2), v4(1)], Some(60));
    let extra = (vec![v4(2), v4(3)], Some(90));
    let upstream = conclude_resolution(
        "Linux.do", 443, "linux.do", binding, Some(70), found, extra, &mut cache, &preferred, 0,
    )
    .unwrap();
    assert_eq!(upstream.addrs, vec![at(v4(1), 443), at(v4(2), 443), at(v4(3), 443)]);
    assert_eq!(upstream.ech_config, list);
    assert!(list.is_some());
    remember_successful_upstream(&mut preferred, "LINUX.do", 443, at(v4(3), 443));
    match resolve_upstream("linux.do", 443, None, None, &mut cache, &preferred, 59 * SECOND) {
        Ok(ResolveStep::Resolved(upstream)) => {
            assert_eq!(upstream.addrs, vec![at(v4(3), 443), at(v4(2), 443), at(v4(1), 443)]);
            assert_eq!(upstream.ech_config, list);
        }
        _ => panic!("expected the kept upstream"),
    }
    let step = resolve_upstream("linux.do", 443, None, None, &mut cache, &preferred, 60 * SECOND);
    assert!(matches!(step, Ok(ResolveStep::AskBinding { .. })));
}

#[test]
fn an_unusable_ech_list_is_dropped() {
    let (mut cache, preferred) = caches();
    let binding = HttpsServiceBinding {
        priority: 1,
        target_name: None,
        ech_config_list: Some(vec![0, 4, 0xfe, 0x0a, 0, 0]),
        ech_public_name: None,
    };
    let upstream = conclude_resolution(
        "a.do", 443, "a.do", binding, None, (vec![v4(1)], None), (vec![], None), &mut cache,
        &preferred, 0,
    )
    .unwrap();
    assert_eq!(upstream.ech_config, None);
    let kept = resolve_upstream("a.do", 443, None, None, &mut cache, &preferred, 299 * SECOND);
    assert!(matches!(kept, Ok(ResolveStep::Resolved(_))));
}

#[test]
fn without_addresses_there_is_no_upstream() {
    let (mut cache, preferred) = caches();
    let error = conclude_resolution(
        "a.do", 443, "svc.do", HttpsServiceBinding::default(), None, (vec![], None),
        (vec![], None), &mut cache, &preferred, 0,
    )
    .err();
    assert_eq!(error.as_deref(), Some("upstream host svc.do resolved to no addresses"));
}

#[test]
fn the_preferred_address_goes_to_the_front() {
    let mut preferred: PreferredUpstreams = Table::new();
    let key = ResolveCacheKey::new("a.do", 1);
    let mut addrs = vec![at(v4(1), 1), at(v4(2), 1), at(v4(3), 1)];
    prioritize_preferred_upstream(&preferred, &key, &mut addrs);
    assert_eq!(addrs[0], at(v4(1), 1));
    remember_successful_upstream(&mut preferred, "a.do", 1, at(v4(2), 1));
    prioritize_preferred_upstream(&preferred, &key, &mut addrs);
    assert_eq!(addrs, vec![at(v4(2), 1), at(v4(1), 1), at(v4(3), 1)]);
    remember_successful_upstream(&mut preferred, "a.do", 1, at(v4(9), 1));
    prioritize_preferred_upstream(&preferred, &key, &mut addrs);
    assert_eq!(addrs[0], at(v4(2), 1));
}

#[test]
fn a_kept_upstream_of_no_lifetime_is_none() {
    let (mut cache, preferred) = caches();
    let upstream = ResolvedUpstream { addrs: vec![at(v4(1), 1)], ech_config: None };
    write_cached_upstream(&mut cache, ResolveCacheKey::new("a.do", 1), upstream, 0, 0);
    let step = resolve_upstream("a.do", 1, None, None, &mut cache, &preferred, 0);
    assert!(matches!(step, Ok(ResolveStep::AskBinding { .. })));
}

#[test]
fn records_that_cannot_be_read_are_told() {
    let answers = vec![
        answer(65, 60, "x ."),
        answer(65, 60, ECH_RECORD),
        answer(1, 60, "x ."),
        answer(65, 60, "1"),
    ];
    let errors = unreadable_https_answers(&answers);
    assert_eq!(errors.len(), 2);
    assert!(unreadable_https_answers(&vec![]).is_empty());
    let texts: Vec<String> = errors.into_iter().map(HttpsError::message).collect();
    assert_eq!(
        texts,
        [
            "invalid HTTPS RR priority: invalid digit found in string",
            "missing HTTPS RR target name"
        ]
    );
    assert_eq!(
        HttpsError::LengthMismatch { expected: 12, actual: 3 }.message(),
        "HTTPS RR length mismatch, expected 12 bytes, got 3"
    );
    assert_eq!(
        HttpsError::EchLengthMismatch { declared: 70, actual: 69 }.message(),
        "ECH config length mismatch, declared 70, actual 69"
    );
}

#[test]
fn a_good_answer_is_given_and_kept() {
    let mut cache: DohCache = TimedTable::new();
    let answers = vec![answer(1, 10, "1.2.3.4"), answer(1, 20, "5.6.7.8")];
    let given = conclude_doh_query(&mut cache, "Linux.do", "A", answers, 0);
    assert_eq!(given.len(), 2);
    assert_eq!(given[1].data, "5.6.7.8");
    let kept = |host: &str, record_type: &str, now: u64| {
        read_cached_doh_answers(&cache, &DohCacheKey::new(host, record_type), now)
    };
    assert_eq!(kept("linux.DO", "A", 9 * SECOND).unwrap()[1].data, "5.6.7.8");
    assert!(kept("linux.do", "A", 10 * SECOND).is_none());
    assert!(kept("linux.do", "AAAA", 0).is_none());
    // Answers that live for no time are given all the same.
    let mut cache: DohCache = TimedTable::new();
    let given = conclude_doh_query(&mut cache, "h", "A", vec![answer(1, 0, "1.2.3.4")], 0);
    assert_eq!(given.len(), 1);
    assert!(read_cached_doh_answers(&cache, &DohCacheKey::new("h", "A"), 0).is_none());
}

#[test]
fn what_is_resolved_is_sound() {
    let mut cache: ResolveCache = TimedTable::new();
    let mut preferred: PreferredUpstreams = Table::new();
    let sound = |upstream: &ResolvedUpstream, port: u16| {
        !upstream.addrs.is_empty()
            && upstream.addrs.iter().all(|addr| addr.port == port)
            && (1..upstream.addrs.len())
                .all(|i| !upstream.addrs[..i].contains(&upstream.addrs[i]))
    };
    let concluded = conclude_resolution(
        "linux.do",
        443,
        "linux.do",
        HttpsServiceBinding::default(),
        None,
        (vec![v4(1), v4(2), v4(1)], None),
        (vec![v4(2), v4(3)], None),
        &mut cache,
        &preferred,
        0,
    )
    .unwrap();
    assert!(sound(&concluded, 443));
    assert_eq!(concluded.addrs.len(), 3);
    remember_successful_upstream(&mut preferred, "LINUX.do", 443, at(v4(3), 443));
    let steps = [
        resolve_upstream("linux.do", 443, None, None, &mut cache, &preferred, 1),
        resolve_upstream("other.do", 80, Some("9.9.9.9"), None, &mut cache, &preferred, 1),
        resolve_upstream("other.do", 80, None, None, &mut cache, &preferred, 2),
        resolve_upstream("10.0.0.1", 7, None, None, &mut cache, &preferred, 2),
    ];
    for (step, port) in steps.into_iter().zip([443, 80, 80, 7]) {
        match step {
            Ok(ResolveStep::Resolved(upstream)) => {
                assert!(sound(&upstream, port));
                if port == 443 {
                    assert_eq!(upstream.addrs[0], at(v4(3), 443));
                }
            }
            _ => panic!("expected an upstream"),
        }
    }
}
