//! The configuration of the gateway, as plain data.

use crate::text::{decimal_digits, decimal_text, join, join3};
use std::collections::HashMap;
use vstd::prelude::*;

verus! {

/// The whole configuration.
#[derive(Debug)]
pub struct Config {
    pub server: ServerConfig,
    pub registration: Option<RegistrationConfig>,
    pub federation: FederationConfig,
}

/// Where the gateway listens.
#[derive(Debug)]
pub struct ServerConfig {
    pub bind: String,
    pub port: u16,
}

/// The orchestrator that the node registers with.
#[derive(Debug)]
pub struct RegistrationConfig {
    /// Base URL of the orchestrator.
    pub cortexd_url: String,
    /// The node's persistent identity.
    pub node_id: String,
    /// Seconds between two heartbeats.
    pub heartbeat_interval_secs: u64,
}

/// The downstream servers that the gateway aggregates.
#[derive(Debug)]
pub struct FederationConfig {
    pub servers: Vec<DownstreamServer>,
}

/// One downstream server.
#[derive(Debug, Clone)]
pub struct DownstreamServer {
    /// The namespace that its tools are put under.
    pub namespace: String,
    /// How it is reached.
    pub transport: DownstreamTransport,
    /// The tools to expose upstream; empty for all.
    pub expose: Vec<String>,
    /// Seconds between two health checks.
    pub healthcheck_interval_secs: u64,
}

/// How a downstream server is reached.
#[derive(Debug, Clone)]
pub enum DownstreamTransport {
    /// A server that listens on a URL of this host.
    Localhost { url: String },
    /// A child process, spoken to over its standard streams.
    Stdio { command: String, args: Vec<String>, env: HashMap<String, String> },
}

impl Default for FederationConfig {
    fn default() -> (r: Self)
        ensures
            r.servers@.len() == 0,
    {
        FederationConfig { servers: Vec::new() }
    }
}

/// The address that the gateway binds to where none is configured: this host
/// only.
pub fn default_bind() -> (r: String)
    ensures
        r@ == "127.0.0.1"@,
{
    "127.0.0.1".to_owned()
}

/// The port that the gateway listens on where none is configured.
pub fn default_port() -> (r: u16)
    ensures
        r == 8443,
{
    8443
}

/// The seconds between two heartbeats where none are configured.
pub fn default_heartbeat_interval() -> (r: u64)
    ensures
        r == 30,
{
    30
}

/// The seconds between two health checks where none are configured.
pub fn default_healthcheck() -> (r: u64)
    ensures
        r == 30,
{
    30
}

/// The path of the configuration file of an installed gateway.
pub const DEFAULT_CONFIG_PATH: &'static str = "/etc/neurond/neurond.toml";

/// The path that is tried next, for development.
pub const DEV_CONFIG_PATH: &'static str = "neurond.toml";

/// The path that the configuration is loaded from, given which of the two
/// paths exist: the installed one first, then the development one. Where
/// neither exists, the error says which paths were expected.
pub fn load_config(default_exists: bool, dev_exists: bool) -> (r: Result<&'static str, String>)
    ensures
        default_exists ==> r == Ok::<&'static str, String>(DEFAULT_CONFIG_PATH),
        !default_exists && dev_exists ==> r == Ok::<&'static str, String>(DEV_CONFIG_PATH),
        !default_exists && !dev_exists ==> r is Err && r->Err_0@
            == "No config file found. Expected "@ + DEFAULT_CONFIG_PATH@ + " or "@ + DEV_CONFIG_PATH@,
{
    if default_exists {
        Ok(DEFAULT_CONFIG_PATH)
    } else if dev_exists {
        Ok(DEV_CONFIG_PATH)
    } else {
        let mut message = join("No config file found. Expected ", DEFAULT_CONFIG_PATH);
        message.append(" or ");
        message.append(DEV_CONFIG_PATH);
        Err(message)
    }
}

impl ServerConfig {
    /// The address that the gateway listens on: where it binds, a colon, and
    /// the port.
    pub fn bind_address(&self) -> (r: String)
        ensures
            r@ == self.bind@ + ":"@ + decimal_digits(self.port as nat),
    {
        join3(self.bind.as_str(), ":", decimal_text(self.port as u64).as_str())
    }
}

} // verus!
