pub mod binding_laws;
pub mod cache;
pub mod call_laws;
pub mod cert_laws;
pub mod certs;
pub mod command_laws;
pub mod config;
pub mod dns;
pub mod dns_laws;
pub mod doh;
pub mod doh_laws;
pub mod error_laws;
pub mod helper_ipc;
pub mod helper_laws;
pub mod hosts;
pub mod hosts_laws;
pub mod https_rr;
pub mod net;
pub mod paths;
pub mod paths_laws;
pub mod plan;
pub mod plan_laws;
pub mod process;
pub mod process_laws;
pub mod proxy;
pub mod proxy_laws;
pub mod radix64;
pub mod record_laws;
pub mod resolver;
pub mod resolver_laws;
pub mod service;
pub mod service_laws;
pub mod state;
pub mod text;
pub mod text_laws;
pub mod upstream;
pub mod upstream_laws;
pub mod view_laws;
pub mod watch_laws;
pub mod watchdog;
