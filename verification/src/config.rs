//! The part of the configuration that the library reads.
use vstd::prelude::*;

verus! {

/// The configuration of the accelerator.
pub struct AppConfig {
    /// The address to listen on.
    pub listen_host: String,
    /// The port for plain requests, which are redirected.
    pub http_port: u16,
    /// The port for requests that are forwarded.
    pub https_port: u16,
    /// The URL of the upstream.
    pub upstream: String,
    /// The hosts whose requests are forwarded.
    pub proxy_domains: Vec<String>,
    /// The hosts that the server certificate is for.
    pub certificate_domains: Vec<String>,
    /// The common name of the root certificate.
    pub ca_common_name: String,
    /// The common name of the server certificate.
    pub server_common_name: String,
    /// The DNS over HTTPS servers, in the order in which they are asked.
    pub doh_endpoints: Vec<String>,
    /// Whether IPv6 addresses are tried before IPv4 ones.
    pub managed_prefer_ipv6: bool,
}

} // verus!
