use vstd::prelude::*;

verus! {

/// How the supervised process listens and whether it reaches the network
/// through bridges.
#[derive(Debug, Clone, PartialEq, Eq)]
pub struct TorConfig {
    pub socks_port: u16,
    pub dns_port: u16,
    pub control_port: u16,
    pub use_bridges: bool,
    pub bridges: Vec<String>,
    pub client_transport_plugin: Option<String>,
    pub tor_path_hint: Option<String>,
}

/// The status and control endpoint.
#[derive(Debug, Clone, PartialEq, Eq)]
pub struct StatusConfig {
    pub enabled: bool,
    pub listen: String,
}

/// One segment of the hop plan.
#[derive(Debug, Clone, PartialEq, Eq)]
pub struct HopItem {
    pub duration: u64,
    pub exit_countries: Vec<String>,
    pub proxy: Option<String>,
}

/// The configured sequence of hops.
#[derive(Debug, Clone, PartialEq, Eq)]
pub struct HopConfig {
    pub sequence: Vec<HopItem>,
}

/// The exit countries allowed at startup.
#[derive(Debug, Clone, PartialEq, Eq)]
pub struct ExitConfig {
    pub countries: Vec<String>,
    pub strict: bool,
}

/// Whether traffic is forwarded through a proxy before it enters the network.
#[derive(Debug, Clone, PartialEq, Eq)]
pub struct ProxyConfig {
    pub enabled: bool,
}

/// The tunnel adapter.
#[derive(Debug, Clone, PartialEq, Eq)]
pub struct TunConfig {
    pub interface: String,
}

/// Everything that is configured.
#[derive(Debug, Clone, PartialEq, Eq)]
pub struct Config {
    pub tor: TorConfig,
    pub status: StatusConfig,
    pub hop: HopConfig,
    pub exit: ExitConfig,
    pub proxy: ProxyConfig,
    pub tun: TunConfig,
}

/// A forwarding proxy, as the proxy manager hands it out.
#[derive(Debug, Clone, PartialEq, Eq)]
pub struct ProxyHop {
    pub typ: String,
    pub addr: String,
    pub username: Option<String>,
    pub password: Option<String>,
}

} // verus!
