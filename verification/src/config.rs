//! Settings of the proxy and of its control plane.

use vstd::prelude::*;
use vstd::string::StringExecFns;

verus! {

/// What the process is configured with.
#[derive(Debug)]
pub struct Config {
    /// Port on which the proxy listens.
    pub proxy_port: u16,
    /// Address of the server that sessions are forwarded to, as `host:port`.
    pub redis_address: String,
    /// Whether the upstream connection is wrapped in TLS.
    pub is_redis_tls_conn: bool,
    /// Port on which the control plane listens.
    pub fault_config_server_port: u16,
    /// Verbosity filter of the log.
    pub log_level: String,
}

/// The port the proxy listens on when none is configured.
pub fn default_proxy_port() -> (port: u16)
    ensures
        port == 6350,
{
    6350
}

/// The port the control plane listens on when none is configured.
pub fn default_fault_config_server_port() -> (port: u16)
    ensures
        port == 8000,
{
    8000
}

/// The log level used when none is configured.
pub fn default_log_level() -> (level: String)
    ensures
        level@ == "INFO"@,
{
    String::from_str("INFO")
}

impl Config {
    /// The settings as a reader sees them: each field in its own terms.
    pub open spec fn resolved(
        redis_address: Seq<char>,
        proxy_port: Option<u16>,
        is_redis_tls_conn: Option<bool>,
        fault_config_server_port: Option<u16>,
        log_level: Option<Seq<char>>,
    ) -> (u16, Seq<char>, bool, u16, Seq<char>) {
        (
            match proxy_port {
                Some(p) => p,
                None => 6350u16,
            },
            redis_address,
            match is_redis_tls_conn {
                Some(b) => b,
                None => false,
            },
            match fault_config_server_port {
                Some(p) => p,
                None => 8000u16,
            },
            match log_level {
                Some(l) => l,
                None => "INFO"@,
            },
        )
    }

    /// This configuration as the tuple that [`Config::resolved`] speaks of.
    pub open spec fn as_tuple(&self) -> (u16, Seq<char>, bool, u16, Seq<char>) {
        (
            self.proxy_port,
            self.redis_address@,
            self.is_redis_tls_conn,
            self.fault_config_server_port,
            self.log_level@,
        )
    }

    /// Builds the configuration from the upstream address, which has no
    /// default, and from the settings that were given; each one that was not
    /// given takes its default.
    pub fn with_defaults(
        redis_address: String,
        proxy_port: Option<u16>,
        is_redis_tls_conn: Option<bool>,
        fault_config_server_port: Option<u16>,
        log_level: Option<String>,
    ) -> (config: Config)
        ensures
            config.as_tuple() == Config::resolved(
                redis_address@,
                proxy_port,
                is_redis_tls_conn,
                fault_config_server_port,
                match log_level {
                    Some(l) => Some(l@),
                    None => None,
                },
            ),
    {
        Config {
            proxy_port: match proxy_port {
                Some(p) => p,
                None => default_proxy_port(),
            },
            redis_address,
            is_redis_tls_conn: match is_redis_tls_conn {
                Some(b) => b,
                None => false,
            },
            fault_config_server_port: match fault_config_server_port {
                Some(p) => p,
                None => default_fault_config_server_port(),
            },
            log_level: match log_level {
                Some(l) => l,
                None => default_log_level(),
            },
        }
    }
}

} // verus!
