use sidecar::config::{
    build_sidecar_config, default_interval, default_log_level, default_metrics_port, Config,
};
use sidecar::layout::{HttpEvent, ProcessInfo, SidecarConfig};
use sidecar::http_method;

#[test]
fn default_configuration() {
    let c = Config::default_config();
    assert_eq!(c.target.pid, 0);
    assert!(c.target.ports.is_empty());
    assert!(c.target.process_name.is_none());
    assert_eq!(c.metrics.port, 9090);
    assert_eq!(c.metrics.interval_secs, 5);
    assert!(!c.metrics.enable_http);
    assert_eq!(c.logging.level, "info");
    assert!(!c.logging.ebpf_debug);
    assert_eq!(default_metrics_port(), 9090);
    assert_eq!(default_interval(), 5);
    assert_eq!(default_log_level(), "info");
}

#[test]
fn runtime_config_keeps_first_eight_ports() {
    let ports: Vec<u16> = (1..=10).collect();
    let c = build_sidecar_config(1234, Some(&ports), true);
    assert_eq!(c.target_pid, 1234);
    assert_eq!(c.num_target_ports, 8);
    assert_eq!(c.target_ports, [1, 2, 3, 4, 5, 6, 7, 8]);
    assert_eq!(c.debug_mode, 1);
    let c = build_sidecar_config(0, Some(&vec![80, 443]), false);
    assert_eq!(c.num_target_ports, 2);
    assert_eq!(c.target_ports, [80, 443, 0, 0, 0, 0, 0, 0]);
    assert_eq!(c.debug_mode, 0);
    let c = build_sidecar_config(5, None, false);
    assert_eq!(c.num_target_ports, 0);
    assert_eq!(c.target_ports, [0; 8]);
}

#[test]
fn record_defaults_are_zero() {
    let c = SidecarConfig::default();
    assert_eq!((c.target_pid, c.target_cgroup, c.num_target_ports, c.enable_http), (0, 0, 0, 0));
    let p = ProcessInfo::default();
    assert_eq!((p.pid, p.tgid, p.uid, p.gid, p.cgroup_id), (0, 0, 0, 0, 0));
    let e = HttpEvent::default();
    assert_eq!((e.latency_ns, e.status_code, e.method, e.path_hash), (0, 0, 0, 0));
    assert_eq!(http_method::GET, 0);
    assert_eq!(http_method::OPTIONS, 6);
    assert_eq!(http_method::UNKNOWN, 255);
}
