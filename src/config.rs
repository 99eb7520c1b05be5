//! Process configuration and the runtime record derived from it.

use vstd::prelude::*;
use vstd::string::StringExecFns;
use crate::layout::{SidecarConfig, MAX_TARGET_PORTS};

verus! {

/// Sidecar configuration, as read from a configuration file.
#[derive(Clone, Debug)]
pub struct Config {
    /// What to trace.
    pub target: TargetConfig,
    /// How metrics are collected and exported.
    pub metrics: MetricsConfig,
    /// Logging switches.
    pub logging: LoggingConfig,
}

/// What to trace.
#[derive(Clone, Debug)]
pub struct TargetConfig {
    /// Process to trace (0 = all).
    pub pid: u32,
    /// Process name to trace, as an alternative to the pid.
    pub process_name: Option<String>,
    /// Control-group path to trace.
    pub cgroup: Option<String>,
    /// Ports to trace (empty = all).
    pub ports: Vec<u16>,
}

/// How metrics are collected and exported.
#[derive(Clone, Debug)]
pub struct MetricsConfig {
    /// Port of the export endpoint.
    pub port: u16,
    /// Seconds between two collection cycles.
    pub interval_secs: u64,
    /// Layer-7 inspection switch.
    pub enable_http: bool,
}

/// Logging switches.
#[derive(Clone, Debug)]
pub struct LoggingConfig {
    /// Log level: trace, debug, info, warn or error.
    pub level: String,
    /// Probe-side debug logging.
    pub ebpf_debug: bool,
}

/// Default port of the export endpoint.
pub fn default_metrics_port() -> (r: u16)
    ensures
        r == 9090,
{
    9090
}

/// Default collection interval, in seconds.
pub fn default_interval() -> (r: u64)
    ensures
        r == 5,
{
    5
}

/// Default log level.
pub fn default_log_level() -> (r: String)
    ensures
        r@ == "info"@,
{
    String::from_str("info")
}

impl Default for TargetConfig {
    fn default() -> (r: Self)
        ensures
            r.pid == 0,
            r.process_name is None,
            r.cgroup is None,
            r.ports@ == Seq::<u16>::empty(),
    {
        TargetConfig { pid: 0, process_name: None, cgroup: None, ports: Vec::new() }
    }
}

impl Default for MetricsConfig {
    fn default() -> (r: Self)
        ensures
            r.port == 9090,
            r.interval_secs == 5,
            !r.enable_http,
    {
        MetricsConfig { port: default_metrics_port(), interval_secs: default_interval(), enable_http: false }
    }
}

impl Default for LoggingConfig {
    fn default() -> (r: Self)
        ensures
            r.level@ == "info"@,
            !r.ebpf_debug,
    {
        LoggingConfig { level: default_log_level(), ebpf_debug: false }
    }
}

impl Config {
    /// The configuration in effect when no file is given: trace every
    /// process on every port, export on port 9090 every 5 seconds, log at
    /// `info`.
    pub open spec fn is_default(&self) -> bool {
        &&& self.target.pid == 0
        &&& self.target.process_name is None
        &&& self.target.cgroup is None
        &&& self.target.ports@ == Seq::<u16>::empty()
        &&& self.metrics.port == 9090
        &&& self.metrics.interval_secs == 5
        &&& !self.metrics.enable_http
        &&& self.logging.level@ == "info"@
        &&& !self.logging.ebpf_debug
    }

    /// The default configuration.
    pub fn default_config() -> (r: Config)
        ensures
            r.is_default(),
    {
        Config {
            target: TargetConfig::default(),
            metrics: MetricsConfig::default(),
            logging: LoggingConfig::default(),
        }
    }
}

impl Default for Config {
    fn default() -> (r: Self)
        ensures
            r.is_default(),
    {
        Config::default_config()
    }
}

/// Number of ports of `ports` that a runtime record can carry.
pub open spec fn kept_ports(ports: Seq<u16>) -> nat {
    if ports.len() < 8 {
        ports.len()
    } else {
        8
    }
}

/// The runtime record pushed to the probes: the pid filter, the first
/// eight ports (when a list is given), the debug switch; everything else
/// zero.
pub fn build_sidecar_config(pid: u32, ports: Option<&Vec<u16>>, debug: bool) -> (r: SidecarConfig)
    ensures
        r.target_pid == pid,
        r.target_cgroup == 0,
        r.debug_mode == (if debug {
            1u8
        } else {
            0u8
        }),
        r.enable_http == 0,
        r._padding == 0,
        match ports {
            None => r.num_target_ports == 0 && r.target_ports@ == seq![0u16; 8],
            Some(p) => {
                &&& r.num_target_ports == kept_ports(p@)
                &&& forall|i: int| 0 <= i < kept_ports(p@) ==> r.target_ports@[i] == p@[i]
                &&& forall|i: int| kept_ports(p@) <= i < 8 ==> r.target_ports@[i] == 0
            },
        },
{
    let mut config = SidecarConfig::default();
    config.target_pid = pid;
    config.debug_mode = if debug {
        1
    } else {
        0
    };
    if let Some(p) = ports {
        let n: usize = if p.len() < MAX_TARGET_PORTS {
            p.len()
        } else {
            MAX_TARGET_PORTS
        };
        let mut i: usize = 0;
        while i < n
            invariant
                n == kept_ports(p@),
                n <= 8,
                i <= n,
                config.target_pid == pid,
                config.target_cgroup == 0,
                config.enable_http == 0,
                config._padding == 0,
                config.num_target_ports == 0,
                config.debug_mode == (if debug {
                    1u8
                } else {
                    0u8
                }),
                forall|j: int| 0 <= j < i ==> config.target_ports@[j] == p@[j],
                forall|j: int| i <= j < 8 ==> config.target_ports@[j] == 0,
            decreases n - i,
        {
            config.target_ports.set(i, p[i]);
            i = i + 1;
        }
        config.num_target_ports = n as u8;
    }
    config
}

} // verus!
