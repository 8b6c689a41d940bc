use microsandbox::config::{PortPair, SandboxConfig};
use microsandbox::error::ServerError;
use microsandbox::lifecycle::{snapshot_running, PollStep, ReadinessPoll, ServerState,
    MAX_POLL_ATTEMPTS};
use microsandbox::payload::RawStatus;
use microsandbox::ports::PortAllocator;
use microsandbox::PORTAL_GUEST_PORT;

fn request_with_image(image: &str) -> SandboxConfig {
    let mut c = SandboxConfig::empty();
    c.image = Some(image.to_string());
    c
}

#[test]
fn allocator_reuses_port_for_same_key() {
    let mut a = PortAllocator::new(6000, 6002);
    let p1 = a.assign("ns/a").unwrap();
    let p2 = a.assign("ns/a").unwrap();
    assert_eq!(p1, p2);
}

#[test]
fn allocator_pool_of_one_exhausts_and_recovers() {
    // Pool size 1: the first start succeeds, the second is resource-exhausted,
    // and a stop releases the port for the next start.
    let mut a = PortAllocator::new(6000, 6000);
    let p1 = a.assign("ns/a").unwrap();
    assert_eq!(p1, 6000);
    let denied = a.assign("ns/b");
    assert!(matches!(denied, Err(ServerError::ResourceExhausted(_))));
    a.release("ns/a");
    let p2 = a.assign("ns/b").unwrap();
    assert_eq!(p2, 6000);
}

#[test]
fn allocator_release_is_idempotent() {
    let mut a = PortAllocator::new(6000, 6001);
    let _ = a.assign("ns/a").unwrap();
    a.release("ns/a");
    a.release("ns/a");
    let p = a.assign("ns/b").unwrap();
    let q = a.assign("ns/a").unwrap();
    assert_ne!(p, q);
    assert!(a.assign("ns/c").is_err());
}

#[test]
fn start_assigns_port_and_persists_mapping() {
    let mut s = ServerState::new(6000, 6010);
    let plan = s
        .start_sandbox("ns1", "sb1", request_with_image("alpine:latest"))
        .unwrap();
    assert!(6000 <= plan.port && plan.port <= 6010);
    assert_eq!(plan.config.image.as_deref(), Some("alpine:latest"));
    let portal_mappings: Vec<&PortPair> = plan
        .config
        .ports
        .iter()
        .filter(|p| p.guest == PORTAL_GUEST_PORT)
        .collect();
    assert_eq!(portal_mappings.len(), 1);
    assert_eq!(portal_mappings[0].host, plan.port);
    // The request carried an image, so the longer readiness timeout applies.
    assert_eq!(plan.poll_timeout_secs, 180);
}

#[test]
fn start_without_any_image_is_invalid_input() {
    let mut s = ServerState::new(6000, 6010);
    let r = s.start_sandbox("ns1", "sb1", SandboxConfig::empty());
    assert!(matches!(r, Err(ServerError::InvalidInput(_))));
}

#[test]
fn start_rejects_bad_names() {
    let mut s = ServerState::new(6000, 6010);
    let r = s.start_sandbox("ns1", "*", request_with_image("alpine:latest"));
    assert!(matches!(r, Err(ServerError::InvalidInput(_))));
    let r2 = s.start_sandbox("*", "sb1", request_with_image("alpine:latest"));
    assert!(matches!(r2, Err(ServerError::InvalidInput(_))));
}

#[test]
fn stop_on_unknown_namespace_is_not_found() {
    let mut s = ServerState::new(6000, 6010);
    let r = s.stop_sandbox("nowhere", "sb1", true);
    assert!(matches!(r, Err(ServerError::NotFound(_))));
}

#[test]
fn stop_twice_succeeds_and_releases_once() {
    // The second stop must not fail nor release any additional port.
    let mut s = ServerState::new(6000, 6000);
    let _ = s
        .start_sandbox("ns1", "sb1", request_with_image("alpine:latest"))
        .unwrap();
    assert!(s.stop_sandbox("ns1", "sb1", true).is_ok());
    assert!(s.stop_sandbox("ns1", "sb1", true).is_ok());
    // Exactly one port exists; it must be free exactly once afterwards.
    let p = s.allocator.assign("ns1/other").unwrap();
    assert_eq!(p, 6000);
    assert!(s.allocator.assign("ns1/more").is_err());
}

#[test]
fn stop_releases_port_even_when_vmm_fails() {
    let mut s = ServerState::new(6000, 6000);
    let _ = s
        .start_sandbox("ns1", "sb1", request_with_image("alpine:latest"))
        .unwrap();
    let r = s.stop_sandbox("ns1", "sb1", false);
    assert!(matches!(r, Err(ServerError::Backend(_))));
    // The port must be back in the pool regardless.
    let p = s.allocator.assign("ns1/fresh").unwrap();
    assert_eq!(p, 6000);
}

#[test]
fn start_stop_start_matches_single_start() {
    // `start(x); stop(x); start(x)` must end like `start(x)`: the persisted
    // configuration is identical except possibly for the portal host port.
    let mut req = request_with_image("alpine:latest");
    req.ports.push(PortPair { host: 8080, guest: 80 });

    let mut twice = ServerState::new(6000, 6010);
    let _ = twice.start_sandbox("ns1", "sb1", req.duplicate()).unwrap();
    twice.stop_sandbox("ns1", "sb1", true).unwrap();
    let plan_restart = twice.start_sandbox("ns1", "sb1", req.duplicate()).unwrap();

    let mut once = ServerState::new(6000, 6010);
    let plan_single = once.start_sandbox("ns1", "sb1", req.duplicate()).unwrap();

    let a = &plan_restart.config;
    let b = &plan_single.config;
    assert_eq!(a.image, b.image);
    assert_eq!(a.volumes, b.volumes);
    assert_eq!(a.envs, b.envs);
    // Port lists agree on everything but the portal host port.
    let strip = |ports: &Vec<PortPair>| -> Vec<PortPair> {
        ports.iter().cloned().filter(|p| p.guest != PORTAL_GUEST_PORT).collect()
    };
    assert_eq!(strip(&a.ports), strip(&b.ports));
    assert_eq!(strip(&a.ports), vec![PortPair { host: 8080, guest: 80 }]);
    let portal = |ports: &Vec<PortPair>| -> Vec<PortPair> {
        ports.iter().cloned().filter(|p| p.guest == PORTAL_GUEST_PORT).collect()
    };
    assert_eq!(portal(&a.ports).len(), 1);
    assert_eq!(portal(&b.ports).len(), 1);
}

#[test]
fn port_can_be_reused_after_stop() {
    // Start one sandbox, record its port, stop it, start again: the new
    // assignment may reuse the port and must not exhaust a pool of one.
    let mut s = ServerState::new(6000, 6000);
    let plan = s
        .start_sandbox("ns1", "sb1", request_with_image("alpine:latest"))
        .unwrap();
    let first_port = plan.port;
    s.stop_sandbox("ns1", "sb1", true).unwrap();
    let plan2 = s
        .start_sandbox("ns1", "sb1", request_with_image("alpine:latest"))
        .unwrap();
    assert_eq!(plan2.port, first_port);
}

#[test]
fn metrics_wildcard_queries_every_namespace() {
    let mut s = ServerState::new(6000, 6010);
    let mut req1 = SandboxConfig::empty();
    req1.image = Some("alpine:latest".to_string());
    let mut req2 = SandboxConfig::empty();
    req2.image = Some("alpine:latest".to_string());
    s.start_sandbox("ns1", "sb1", req1).unwrap();
    s.start_sandbox("ns2", "sb2", req2).unwrap();
    let all = s.metrics_namespaces("*", &None).unwrap();
    assert_eq!(all, vec!["ns1".to_string(), "ns2".to_string()]);
    let one = s.metrics_namespaces("ns2", &None).unwrap();
    assert_eq!(one, vec!["ns2".to_string()]);
    assert!(matches!(
        s.metrics_namespaces("ns3", &None),
        Err(ServerError::NotFound(_))
    ));
}

#[test]
fn readiness_poll_sees_running_snapshot() {
    let statuses = vec![
        RawStatus {
            name: "other".to_string(),
            running: true,
            cpu_usage: 0,
            memory_usage: 0,
            disk_usage: 0,
        },
        RawStatus {
            name: "sb1".to_string(),
            running: false,
            cpu_usage: 0,
            memory_usage: 0,
            disk_usage: 0,
        },
    ];
    assert!(!snapshot_running(&statuses, "sb1"));
    assert!(snapshot_running(&statuses, "other"));

    let mut poll = ReadinessPoll::new();
    assert_eq!(poll.observe(snapshot_running(&statuses, "sb1")), PollStep::Retry);
    assert_eq!(poll.observe(snapshot_running(&statuses, "other")), PollStep::Running);
}

#[test]
fn readiness_poll_gives_up_after_the_bound() {
    let mut poll = ReadinessPoll::new();
    for _ in 0..MAX_POLL_ATTEMPTS - 1 {
        assert_eq!(poll.observe(false), PollStep::Retry);
    }
    // Giving up is non-fatal: the caller reports success with a warning.
    assert_eq!(poll.observe(false), PollStep::GaveUp);
}
