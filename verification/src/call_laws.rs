//! What a call gives back, whatever it is given.
use rcgen::Certificate;
use vstd::prelude::*;
use vstd::utf8::encode_utf8;
use crate::certs::{
    bundle_below, bundle_steps, certified, certifies, certifies_itself, default_hash, der_of_pem,
    domains_hash, ensure_bundle, generate_ca, generate_server_cert, hex_digits, key_pem,
    load_bundle, BundlePresence, BundleStep, CertificateBundle,
};
use crate::config::AppConfig;
use crate::dns::{answer_views, DohAnswer};
use crate::doh::{
    announced, doh_lookup_ip_addrs, doh_query_json, ipv4_addresses, ipv6_addresses,
    resolve_https_binding, DohJsonResponse,
};
use crate::helper_ipc::{
    frame_message, invalid_request, message_of_line, refuse_peer, HelperResponse,
};
use crate::https_rr::HttpsServiceBinding;
use crate::net::IpAddress;
use crate::paths::{effective_linux_home_dir, layout_error, path_join, path_name, LayoutStep};
use crate::plan::{next_in_plan, outcome_views, Next, Outcome, Task};
use crate::process::{
    current_cli_binary, daemon_arguments, wait_until_running, wait_until_stopped, WaitStep,
};
use crate::proxy::{
    build_upstream_request, failed_forwarding, header_views, proxy_handler, redirect_handler,
    relay_response, requested_host, Header, Reply, RequestHead, UpstreamRequest,
};
use crate::resolver::{
    plan_address_lookups, AddressLookups, DnsHostOverride, OverrideError, OverrideView,
};
use crate::service::{
    apply_hosts_only, apply_hosts_only_plan, backup_hosts, backup_hosts_plan, clean_hosts,
    clean_hosts_plan, cleanup, cleanup_after_ui_disconnect, cleanup_after_ui_disconnect_plan,
    cleanup_plan, daemon_exit, helper_start, helper_stop, helper_stop_plan, init_config,
    init_config_plan, next_start, prepare_certificate, prepare_certificate_plan, restore_hosts,
    restore_hosts_plan, run_foreground, run_foreground_plan, setup, setup_plan, status,
    status_plan, stop_running_daemon, stop_running_daemon_plan, task_views, uninstall_certificate,
    uninstall_certificate_plan, DaemonExit, ProxyEnd,
};
use crate::state::ServiceState;
use crate::text::{decimal, lower, option_str, option_text, texts, trim};
use crate::upstream::{log_upstream_debug, send_start, SendState};
use crate::watchdog::missing_message;

verus! {

// ---------------------------------------------------------------------------
// The service
// ---------------------------------------------------------------------------
/// Each command follows its own plan.
pub proof fn each_command_follows_its_plan(outcomes: Vec<Outcome<String>>, next: Next<String>)
    ensures
        call_ensures(init_config, (&outcomes,), next) ==> next@ == next_in_plan(
            init_config_plan(),
            outcome_views(outcomes@),
        ),
        call_ensures(setup, (&outcomes,), next) ==> next@ == next_in_plan(
            setup_plan(),
            outcome_views(outcomes@),
        ),
        call_ensures(prepare_certificate, (&outcomes,), next) ==> next@ == next_in_plan(
            prepare_certificate_plan(),
            outcome_views(outcomes@),
        ),
        call_ensures(helper_stop, (&outcomes,), next) ==> next@ == next_in_plan(
            helper_stop_plan(),
            outcome_views(outcomes@),
        ),
        call_ensures(cleanup, (&outcomes,), next) ==> next@ == next_in_plan(
            cleanup_plan(),
            outcome_views(outcomes@),
        ),
        call_ensures(clean_hosts, (&outcomes,), next) ==> next@ == next_in_plan(
            clean_hosts_plan(),
            outcome_views(outcomes@),
        ),
        call_ensures(apply_hosts_only, (&outcomes,), next) ==> next@ == next_in_plan(
            apply_hosts_only_plan(),
            outcome_views(outcomes@),
        ),
        call_ensures(backup_hosts, (&outcomes,), next) ==> next@ == next_in_plan(
            backup_hosts_plan(),
            outcome_views(outcomes@),
        ),
        call_ensures(restore_hosts, (&outcomes,), next) ==> next@ == next_in_plan(
            restore_hosts_plan(),
            outcome_views(outcomes@),
        ),
        call_ensures(uninstall_certificate, (&outcomes,), next) ==> next@ == next_in_plan(
            uninstall_certificate_plan(),
            outcome_views(outcomes@),
        ),
        call_ensures(status, (&outcomes,), next) ==> next@ == next_in_plan(
            status_plan(),
            outcome_views(outcomes@),
        ),
        call_ensures(cleanup_after_ui_disconnect, (&outcomes,), next) ==> next@ == next_in_plan(
            cleanup_after_ui_disconnect_plan(),
            outcome_views(outcomes@),
        ),
        call_ensures(stop_running_daemon, (&outcomes,), next) ==> next@ == next_in_plan(
            stop_running_daemon_plan(),
            outcome_views(outcomes@),
        ),
        call_ensures(run_foreground, (true, &outcomes), next) ==> next@ == next_in_plan(
            run_foreground_plan(true),
            outcome_views(outcomes@),
        ),
        call_ensures(run_foreground, (false, &outcomes), next) ==> next@ == next_in_plan(
            run_foreground_plan(false),
            outcome_views(outcomes@),
        ),
        call_ensures(helper_start, (true, &outcomes), next) ==> next@ == next_start(
            true,
            outcome_views(outcomes@),
        ),
        call_ensures(helper_start, (false, &outcomes), next) ==> next@ == next_start(
            false,
            outcome_views(outcomes@),
        ),
{
}

/// A service whose user interface is gone forgets its process and cleans up, however its
/// proxy ended, and that is no error.
pub proof fn an_end_for_want_of_a_ui_is_no_error(end: ProxyEnd<String>, exit: DaemonExit<String>)
    requires
        call_ensures(daemon_exit, (true, end), exit),
    ensures
        task_views(exit.tasks@) == seq![
            Task::<Seq<char>>::ClearOwnPid,
            Task::<Seq<char>>::CleanUpAfterUi,
        ],
        exit.error is None,
{
}

/// A service that was asked to end forgets its process and notes that it ended.
pub proof fn an_end_on_request_is_noted(exit: DaemonExit<String>)
    requires
        call_ensures(daemon_exit, (false, ProxyEnd::Stopped), exit),
    ensures
        task_views(exit.tasks@) == seq![
            Task::<Seq<char>>::ClearOwnPid,
            Task::<Seq<char>>::MarkStopped("加速服务已退出"@),
        ],
        exit.error is None,
{
}

/// A service whose proxy failed forgets its process, notes the error in brief, and reports
/// it with its causes.
pub proof fn a_failure_is_noted_and_reported(
    brief: String,
    full: String,
    exit: DaemonExit<String>,
)
    requires
        call_ensures(daemon_exit, (false, ProxyEnd::Failed { brief, full }), exit),
    ensures
        task_views(exit.tasks@) == seq![
            Task::<Seq<char>>::ClearOwnPid,
            Task::<Seq<char>>::MarkError(brief@),
        ],
        exit.error matches Some(error) && error@ == full@,
{
}

/// Waiting for the service ends if it runs, if it noted an error, and if the time is up;
/// a service that runs is not held to an old error.
pub proof fn how_long_a_start_is_waited_for(
    state: ServiceState,
    found: WaitStep<String>,
    late: WaitStep<String>,
)
    requires
        call_ensures(wait_until_running, (Some(&state),), found),
        call_ensures(wait_until_running, (None,), late),
    ensures
        state.running ==> found@ is Ready,
        !state.running && state.last_error is None ==> found@ is Wait,
        !state.running && state.last_error is Some ==> found@ == WaitStep::Failed(
            state.last_error->0@,
        ),
        late@ == WaitStep::Failed("daemon start timed out"@),
{
}

/// Waiting for a process to end goes on while it runs; if the time is up, it is told which
/// process did not end and in how many seconds.
pub proof fn how_long_an_end_is_waited_for(
    pid: u32,
    seconds: u64,
    runs: WaitStep<String>,
    gone: WaitStep<String>,
    late: WaitStep<String>,
)
    requires
        call_ensures(wait_until_stopped, (pid, seconds, Some(true)), runs),
        call_ensures(wait_until_stopped, (pid, seconds, Some(false)), gone),
        call_ensures(wait_until_stopped, (pid, seconds, None), late),
    ensures
        runs@ is Wait,
        gone@ is Ready,
        late@ == WaitStep::Failed(
            "process "@ + decimal(pid as nat) + " did not stop within "@ + decimal(seconds as nat)
                + "s"@,
        ),
{
}

/// The running program is used only if there is none beside it and it has the right name;
/// if it is not known, or has another name, there is none.
pub proof fn which_program_is_used(
    exe: &str,
    windows: bool,
    alone: Result<String, String>,
    unknown: Result<String, String>,
)
    requires
        call_ensures(current_cli_binary, (Some(exe), false, windows), alone),
        call_ensures(current_cli_binary, (None, true, windows), unknown),
    ensures
        path_name(exe@) == Some(
            if windows {
                "linuxdo-accelerator.exe"@
            } else {
                "linuxdo-accelerator"@
            },
        ) ==> (alone matches Ok(path) && path@ == exe@),
        path_name(exe@) != Some(
            if windows {
                "linuxdo-accelerator.exe"@
            } else {
                "linuxdo-accelerator"@
            },
        ) ==> alone is Err,
        unknown matches Err(error) && error@ == "failed to locate CLI binary"@,
{
}

/// The process of the service is started with its configuration.
pub proof fn how_the_service_is_started(config_path: &str, arguments: Vec<String>)
    requires
        call_ensures(daemon_arguments, (config_path,), arguments),
    ensures
        texts(arguments@).len() == 3,
        texts(arguments@)[0] == "--config"@,
        texts(arguments@)[1] == config_path@,
        texts(arguments@)[2] == "daemon"@,
{
}

/// What is logged about a missing user interface tells for how long it was missing.
pub proof fn a_missing_ui_is_logged(seconds: u64, text: String)
    requires
        call_ensures(missing_message, (seconds,), text),
    ensures
        text@ == "ui lease missing for "@ + decimal(seconds as nat)
            + "s while daemon is ui-managed; requesting shutdown"@,
{
}

/// A directory that could not be created is named.
pub proof fn a_missing_directory_is_named(dir: String, error: &str, text: String, given: String)
    requires
        call_ensures(layout_error, (&LayoutStep::CreateDir(dir), error), text),
        call_ensures(layout_error, (&LayoutStep::GiveToUser(dir), error), given),
    ensures
        text@ == "failed to create "@ + dir@ + ": "@ + error@,
        given@ == error@,
{
}

/// The home directory of the acting user counts before the one in the environment.
pub proof fn whose_home_directory_counts(
    user_home: String,
    env_home: Option<String>,
    known: Option<String>,
    unknown: Option<String>,
)
    requires
        call_ensures(effective_linux_home_dir, (Some(user_home), env_home), known),
        call_ensures(effective_linux_home_dir, (None, env_home), unknown),
    ensures
        known matches Some(home) && home@ == user_home@,
        env_home is None ==> unknown is None,
        env_home matches Some(e) ==> (unknown matches Some(home) && home@ == e@),
{
}

// ---------------------------------------------------------------------------
// Certificates
// ---------------------------------------------------------------------------
/// The root certificate is an authority of the configured name, valid from a day ago and
/// for a year to come, and its text is that of a certificate that it signed itself.
pub proof fn how_long_the_root_is_valid(
    config: AppConfig,
    now: i64,
    certificate: Certificate,
    pem: String,
)
    requires
        call_ensures(
            generate_ca,
            (&config, now),
            Ok::<(Certificate, String), String>((certificate, pem)),
        ),
    ensures
        certified(certificate).common_name == config.ca_common_name@,
        certified(certificate).role is Authority,
        certified(certificate).not_before == now - 86_400,
        certified(certificate).not_after == now + 365 * 86_400,
        der_of_pem(pem@) matches Ok(der) && certifies_itself(der, certificate),
{
}

/// The server certificate is for all of the configured hosts, valid from a day ago and for
/// a year to come, signed by the root, and goes with the key that comes with it.
pub proof fn how_long_the_server_is_valid(
    config: AppConfig,
    root: Certificate,
    now: i64,
    pem: String,
    key: String,
)
    requires
        call_ensures(
            generate_server_cert,
            (&config, &root, now),
            Ok::<(String, String), String>((pem, key)),
        ),
    ensures
        der_of_pem(pem@) is Ok,
        exists|c: Certificate|
            #[trigger] certifies(der_of_pem(pem@)->Ok_0, c, root) && key_pem(c) == key@
                && certified(c).common_name == config.server_common_name@ && certified(c).domains
                == texts(config.certificate_domains@) && certified(c).role is Server && certified(
                c,
            ).not_before == now - 86_400 && certified(c).not_after == now + 365 * 86_400,
{
}

/// A bundle is loaded exactly if all of its three files are there; else it is told where
/// they are missing.
pub proof fn which_bundles_are_loaded(
    root: &str,
    presence: BundlePresence,
    r: Result<CertificateBundle, String>,
)
    requires
        call_ensures(load_bundle, (root, presence), r),
    ensures
        r is Ok <==> presence.ca_cert && presence.server_cert && presence.server_key,
        r matches Ok(bundle) ==> bundle.ca_cert_path@ == path_join(
            root@,
            "linuxdo-accelerator-root-ca.crt"@,
        ) && bundle.server_cert_path@ == path_join(root@, "linuxdo-accelerator-server.crt"@)
            && bundle.server_key_path@ == path_join(root@, "linuxdo-accelerator-server.key"@),
        r matches Err(error) ==> error@ == "certificate files not found in "@ + root@
            + "; run setup first"@,
{
    if let Ok(bundle) = r {
        assert(bundle@.ca_cert_path == bundle.ca_cert_path@);
        assert(bundle@.server_cert_path == bundle.server_cert_path@);
        assert(bundle@.server_key_path == bundle.server_key_path@);
    }
}

/// The fingerprint that decides about a bundle is that of all the hosts that its
/// certificate is for, in order.
pub proof fn what_decides_about_a_bundle(
    config: AppConfig,
    root: &str,
    presence: BundlePresence,
    saved: Option<&str>,
    hash: String,
    r: (CertificateBundle, Vec<BundleStep<String>>),
)
    requires
        call_ensures(domains_hash, (&config.certificate_domains,), hash),
        call_ensures(ensure_bundle, (&config, root, presence, saved), r),
    ensures
        hash@ == hex_digits(default_hash(texts(config.certificate_domains@)) as nat, 16),
        crate::certs::step_views(r.1@) == bundle_steps(root@, presence, option_str(saved), hash@),
        r.0@ == bundle_below(root@),
{
}

// ---------------------------------------------------------------------------
// The helper
// ---------------------------------------------------------------------------
/// Somebody whom the helper does not serve is told both numbers, their own first; nobody
/// else is refused.
pub proof fn a_refusal_tells_both_users(
    peer: u32,
    served: u32,
    answer: Option<HelperResponse>,
    unknown: Option<HelperResponse>,
)
    requires
        call_ensures(refuse_peer, (Some(peer), served), answer),
        call_ensures(refuse_peer, (None, served), unknown),
    ensures
        unknown is None,
        peer == served || served == 0 ==> answer is None,
        peer != served && served != 0 ==> answer is Some && !answer->0.success
            && answer->0.status is None && answer->0.message@ == "rejected: peer uid "@ + decimal(
            peer as nat,
        ) + " != expected "@ + decimal(served as nat),
{
    if answer is Some {
        assert(answer->0@.success == answer->0.success);
        assert(answer->0@.message == answer->0.message@);
    }
}

/// A request that cannot be read is refused with the reason.
pub proof fn an_unreadable_request_is_refused(error: &str, response: HelperResponse)
    requires
        call_ensures(invalid_request, (error,), response),
    ensures
        !response.success,
        response.message@ == "invalid request: "@ + error@,
        response.status is None,
{
    assert(response@.success == response.success);
    assert(response@.message == response.message@);
}

/// A message without white space around it survives being sent as a line.
pub proof fn a_sent_message_is_received(
    payload: &str,
    line: String,
    sent: &str,
    received: String,
)
    requires
        trim(payload@) == payload@,
        call_ensures(frame_message, (payload,), line),
        sent@ == line@,
        call_ensures(message_of_line, (sent,), received),
    ensures
        received@ == payload@,
        line@.last() == '\n',
{
    crate::helper_ipc::a_framed_message_is_read_back(payload@);
}

// ---------------------------------------------------------------------------
// Looking up
// ---------------------------------------------------------------------------
/// A response in JSON gives all of its answers, or none if it holds none, unless its
/// status is an error.
pub proof fn a_json_response_gives_its_answers(
    endpoint: &str,
    host: &str,
    record_type: &str,
    payload: DohJsonResponse,
    r: Result<Vec<DohAnswer>, String>,
)
    requires
        call_ensures(doh_query_json, (endpoint, host, record_type, payload), r),
    ensures
        r is Ok <==> payload.status is None || payload.status == Some(0u32),
        r matches Ok(answers) ==> (payload.answers matches Some(given) ==> answer_views(answers@)
            == answer_views(given@)),
        r matches Ok(answers) ==> payload.answers is None ==> answers@.len() == 0,
        r matches Err(error) ==> error@ == "DoH query "@ + record_type@ + " "@ + host@ + " via "@
            + endpoint@ + " returned status "@ + decimal(payload.status->0 as nat),
{
    if let Ok(answers) = r {
        assert(answer_views(answers@).len() == answers@.len());
    }
}

/// Addresses of both versions are found, those of the preferred one first; the lifetime is
/// the same either way.
pub proof fn addresses_of_both_versions_are_found(
    v4: Vec<DohAnswer>,
    v6: Vec<DohAnswer>,
    first_v6: (Vec<IpAddress>, Option<u32>),
    first_v4: (Vec<IpAddress>, Option<u32>),
)
    requires
        call_ensures(doh_lookup_ip_addrs, (&v4, &v6, true), first_v6),
        call_ensures(doh_lookup_ip_addrs, (&v4, &v6, false), first_v4),
    ensures
        first_v6.0@ == ipv6_addresses(answer_views(v6@)) + ipv4_addresses(answer_views(v4@)),
        first_v4.0@ == ipv4_addresses(answer_views(v4@)) + ipv6_addresses(answer_views(v6@)),
        first_v6.1 == first_v4.1,
{
}

/// The binding that counts is one of those announced, and none has a smaller priority; if
/// none is announced, it announces nothing itself.
pub proof fn the_binding_with_the_least_priority_counts(
    answers: Vec<DohAnswer>,
    found: (HttpsServiceBinding, Option<u32>),
    i: int,
)
    requires
        call_ensures(resolve_https_binding, (&answers,), found),
    ensures
        ({
            let all = announced(answer_views(answers@));
            &&& all.len() > 0 ==> all.contains(found.0@)
            &&& 0 <= i < all.len() ==> found.0@.priority <= all[i].priority
            &&& all.len() == 0 ==> found.0@.priority == 0 && found.0@.target_name is None
                && found.0@.ech_config_list is None && found.0@.ech_public_name is None
        }),
{
}

/// The addresses of an override for all hosts take the place of those of the serving host;
/// the public name is looked up as well if it is another host.
pub proof fn whose_addresses_are_looked_up(
    host: &str,
    binding: HttpsServiceBinding,
    edge: DnsHostOverride,
    overridden: AddressLookups,
    plain: AddressLookups,
)
    requires
        binding@.target_name is None,
        call_ensures(plan_address_lookups, (host, &binding, Some(edge)), overridden),
        call_ensures(plan_address_lookups, (host, &binding, None), plain),
    ensures
        overridden.target_host@ == host@,
        plain.target_host@ == host@,
        overridden.primary@ == edge@,
        plain.primary@ == OverrideView::Alias(host@),
        binding@.ech_public_name is None ==> plain.public_name is None,
        binding@.ech_public_name == Some(host@) ==> plain.public_name is None,
        binding@.ech_public_name is Some && binding@.ech_public_name != Some(host@) ==> (
        plain.public_name matches Some(name) && Some(name@) == binding@.ech_public_name),
{
}

/// What is wrong with an override is told.
pub proof fn what_is_wrong_with_an_override(empty: &'static str, domain: &'static str)
    requires
        call_ensures(OverrideError::message, (OverrideError::Empty,), empty),
        call_ensures(OverrideError::message, (OverrideError::EmptyDomain,), domain),
    ensures
        empty@ == "dns_hosts override cannot be empty"@,
        domain@ == "dns_hosts domain override cannot be empty"@,
{
}

// ---------------------------------------------------------------------------
// The proxy
// ---------------------------------------------------------------------------
/// A request is forwarded exactly if its host is known and managed; else the client is
/// told what is wrong with it.
pub proof fn which_requests_are_forwarded(
    host: &str,
    managed: bool,
    nameless: Option<Reply>,
    foreign: Option<Reply>,
    ours: Option<Reply>,
)
    requires
        call_ensures(proxy_handler, (None, managed), nameless),
        call_ensures(proxy_handler, (Some(host), false), foreign),
        call_ensures(proxy_handler, (Some(host), true), ours),
    ensures
        ours is None,
        nameless matches Some(reply) && reply@.status == 400 && reply@.body == encode_utf8(
            "missing Host header"@,
        ),
        foreign matches Some(reply) && reply@.status == 502 && reply@.body == encode_utf8(
            "host is not managed by linuxdo-accelerator"@,
        ),
{
}

/// A plain request is redirected to its own host by HTTPS, with its path; one without a
/// host to the first managed one, and to the name of the server if there is none.
pub proof fn where_a_plain_request_is_redirected(
    head: RequestHead,
    config: AppConfig,
    host: Seq<char>,
    path: Seq<char>,
    reply: Reply,
)
    requires
        call_ensures(redirect_handler, (&head, &config), reply),
        option_text(head.path_and_query) == Some(path),
        requested_host(
            option_text(head.authority_host),
            header_views(head.headers@),
            texts(config.proxy_domains@),
        ) == Some(host) || (requested_host(
            option_text(head.authority_host),
            header_views(head.headers@),
            texts(config.proxy_domains@),
        ) is None && host == config.server_common_name@),
    ensures
        reply@.status == 301,
        reply@.headers.len() == 1,
        reply@.headers[0].name == "location"@,
        config.https_port != 443 ==> reply@.headers[0].value == encode_utf8(
            "https://"@ + host + (":"@ + decimal(config.https_port as nat)) + path,
        ),
        config.https_port == 443 ==> reply@.headers[0].value == encode_utf8(
            "https://"@ + host + path,
        ),
{
    reveal_strlit("");
    assert("https://"@ + host + ""@ =~= "https://"@ + host);
}

/// A request that could not be forwarded is answered with the reason.
pub proof fn a_failed_request_is_answered(error: &str, reply: Reply)
    requires
        call_ensures(failed_forwarding, (error,), reply),
    ensures
        reply@.status == 502,
        reply@.body == encode_utf8("upstream request failed: "@ + error@),
{
}

/// What the client sends reaches the upstream: the method, the path and the body as they
/// are, and the host that it is for.
pub proof fn a_request_reaches_the_upstream(
    host: &str,
    method: &str,
    headers: Vec<Header>,
    body: Vec<u8>,
    path: &str,
    request: UpstreamRequest,
)
    requires
        call_ensures(build_upstream_request, (host, method, &headers, body, path), request),
    ensures
        request.method@ == method@,
        request.uri@ == path@,
        request.body@ == body@,
        request.headers@.len() > 0,
        header_views(request.headers@).last().name == "host"@,
        header_views(request.headers@).last().value == encode_utf8(host@),
        forall|i: int|
            0 <= i < request.headers@.len() - 1 ==> lower(
                (#[trigger] header_views(request.headers@)[i]).name,
            ) != "host"@,
{
    let views = header_views(request.headers@);
    assert(views.len() == request.headers@.len());
    crate::proxy::the_upstream_is_told_the_host(header_views(headers@), host@);
}

/// What the upstream answers reaches the client: the status and the body as they are.
pub proof fn a_response_reaches_the_client(
    status: u16,
    headers: Vec<Header>,
    body: Vec<u8>,
    reply: Reply,
)
    requires
        call_ensures(relay_response, (status, &headers, body), reply),
    ensures
        reply.status == status,
        reply.body@ == body@,
{
    assert(reply@.status == reply.status);
    assert(reply@.body == reply.body@);
}

/// Only an upstream whose scheme is `http`, in whatever case, is spoken to without TLS.
pub proof fn which_upstreams_are_spoken_to_without_tls(scheme: &str, state: SendState<String>)
    requires
        call_ensures(send_start, (scheme,), state),
    ensures
        lower(scheme@) == lower("http"@) ==> state@ is SendPlain,
        lower(scheme@) != lower("http"@) ==> state@ is FindPooled,
{
}

/// What is logged about a request that is traced names the host and the path; nothing is
/// logged about any other.
pub proof fn what_is_logged_about_a_request(
    host: &str,
    path: &str,
    message: &str,
    line: Option<String>,
)
    requires
        call_ensures(log_upstream_debug, (host, path, message), line),
    ensures
        line is Some <==> lower(host@) == "linux.do"@ || lower(host@) == "cdn3.linux.do"@,
        line matches Some(text) ==> text@ == "host="@ + host@ + " path="@ + path@ + " "@
            + message@,
{
}

} // verus!
