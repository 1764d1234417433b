//! Configuration sections that the core consumes.
use vstd::prelude::*;

use crate::discovery::DEFAULT_POLL_INTERVAL_SECS;
use crate::router::Route;

verus! {

/// Source discovery settings.
#[derive(Debug, Clone, PartialEq)]
pub struct NdiConfig {
    /// Whether to discover sources automatically.
    pub auto_discovery: bool,
    /// The interval between discovery polls, in seconds.
    pub discovery_interval: u64,
    /// Sources known without discovery.
    pub static_sources: Vec<StaticSource>,
}

/// A source known without discovery.
#[derive(Debug, Clone, PartialEq)]
pub struct StaticSource {
    pub name: String,
    pub url: String,
}

/// The routing table's outputs and saved routes.
#[derive(Debug, Clone, PartialEq)]
pub struct MatrixConfig {
    /// The outputs, in order.
    pub outputs: Vec<String>,
    /// The saved routes, applied in order at startup.
    pub routes: Vec<Route>,
}

/// The cameras under pan-tilt-zoom control.
#[derive(Debug, Clone, PartialEq)]
pub struct BirdDogConfig {
    pub cameras: Vec<CameraConfig>,
}

/// One camera under pan-tilt-zoom control.
#[derive(Debug, Clone, PartialEq)]
pub struct CameraConfig {
    pub name: String,
    pub ip_address: String,
    pub ndi_name: String,
}

/// Settings of the control-surface integration.
#[derive(Debug, Clone, PartialEq)]
pub struct CompanionConfig {
    /// Whether the integration is on.
    pub enabled: bool,
    /// The server's host.
    pub host: String,
    /// The server's port.
    pub port: u16,
}

/// The default control-surface host.
pub fn default_companion_host() -> (r: String)
    ensures
        r@ == "localhost"@,
{
    String::from_str("localhost")
}

/// The default control-surface port.
pub fn default_companion_port() -> (r: u16)
    ensures
        r == 8888,
{
    8888
}

impl Default for CompanionConfig {
    fn default() -> (r: CompanionConfig)
        ensures
            !r.enabled,
            r.host@ == "localhost"@,
            r.port == 8888,
    {
        CompanionConfig {
            enabled: false,
            host: default_companion_host(),
            port: default_companion_port(),
        }
    }
}

impl Default for NdiConfig {
    fn default() -> (r: NdiConfig)
        ensures
            r.auto_discovery,
            r.discovery_interval == DEFAULT_POLL_INTERVAL_SECS,
            r.static_sources@.len() == 0,
    {
        NdiConfig {
            auto_discovery: true,
            discovery_interval: DEFAULT_POLL_INTERVAL_SECS,
            static_sources: Vec::new(),
        }
    }
}

impl Default for MatrixConfig {
    fn default() -> (r: MatrixConfig)
        ensures
            r.outputs@.map_values(|o: String| o@) == seq![
                "Monitor 1"@,
                "Monitor 2"@,
                "Monitor 3"@,
                "Monitor 4"@,
            ],
            r.routes@.len() == 0,
    {
        let outputs = vec![
            String::from_str("Monitor 1"),
            String::from_str("Monitor 2"),
            String::from_str("Monitor 3"),
            String::from_str("Monitor 4"),
        ];
        let r = MatrixConfig { outputs, routes: Vec::new() };
        assert(r.outputs@.map_values(|o: String| o@) =~= seq![
            "Monitor 1"@,
            "Monitor 2"@,
            "Monitor 3"@,
            "Monitor 4"@,
        ]);
        r
    }
}

impl Default for BirdDogConfig {
    fn default() -> (r: BirdDogConfig)
        ensures
            r.cameras@.len() == 0,
    {
        BirdDogConfig { cameras: Vec::new() }
    }
}

} // verus!
