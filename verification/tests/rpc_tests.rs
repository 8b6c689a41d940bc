use microsandbox::cli::{parse_duration_string, parse_key_val};
use microsandbox::config::{
    format_port_pair, merge_config, parse_port_pair, rewrite_portal_ports, NetworkScope,
    PortPair, SandboxConfig,
};
use microsandbox::error::{ServerError, CODE_INVALID_PARAMS, CODE_SERVER_ERROR};
use microsandbox::payload::{assemble_metrics, filter_metrics, metrics_target, MetricsTarget,
    NamespaceStatuses, RawStatus};
use microsandbox::rpc::{
    envelope_error, forward_params, parse_method, portal_error, portal_rpc_url, route_request,
    Method, PortalProbe, ProbeStep, RpcRoute,
};
use microsandbox::sdk::{CommandExecution, SandboxError, SdkSession};
use microsandbox::PORTAL_GUEST_PORT;

#[test]
fn route_rejects_wrong_jsonrpc_version() {
    assert!(matches!(route_request("1.0", "sandbox.start"), RpcRoute::InvalidRequest));
    assert!(matches!(route_request("", "sandbox.start"), RpcRoute::InvalidRequest));
}

#[test]
fn route_rejects_unknown_method() {
    assert!(matches!(route_request("2.0", "sandbox.reboot"), RpcRoute::MethodNotFound));
}

#[test]
fn route_sends_lifecycle_methods_to_lifecycle() {
    assert!(matches!(
        route_request("2.0", "sandbox.start"),
        RpcRoute::Lifecycle(Method::SandboxStart)
    ));
    assert!(matches!(
        route_request("2.0", "sandbox.stop"),
        RpcRoute::Lifecycle(Method::SandboxStop)
    ));
    assert!(matches!(
        route_request("2.0", "sandbox.metrics.get"),
        RpcRoute::Lifecycle(Method::SandboxMetricsGet)
    ));
}

#[test]
fn route_forwards_repl_and_command_methods() {
    assert!(matches!(
        route_request("2.0", "sandbox.repl.run"),
        RpcRoute::Forward(Method::SandboxReplRun)
    ));
    assert!(matches!(
        route_request("2.0", "sandbox.command.run"),
        RpcRoute::Forward(Method::SandboxCommandRun)
    ));
}

#[test]
fn parse_method_covers_the_surface() {
    assert_eq!(parse_method("sandbox.start"), Some(Method::SandboxStart));
    assert_eq!(parse_method("sandbox.metrics.get"), Some(Method::SandboxMetricsGet));
    assert_eq!(parse_method("sandbox.command.run"), Some(Method::SandboxCommandRun));
    assert_eq!(parse_method("health"), None);
}

#[test]
fn error_codes_follow_the_taxonomy() {
    assert_eq!(ServerError::InvalidInput("x".to_string()).code(), CODE_INVALID_PARAMS);
    assert_eq!(ServerError::InvalidInput("x".to_string()).code(), -32602);
    assert_eq!(ServerError::NotFound("x".to_string()).code(), CODE_SERVER_ERROR);
    assert_eq!(ServerError::ResourceExhausted("x".to_string()).code(), -32000);
    assert_eq!(ServerError::Backend("x".to_string()).code(), -32000);
    assert_eq!(ServerError::Internal("x".to_string()).code(), -32000);
}

#[test]
fn forward_params_requires_both_names() {
    let ok = forward_params(Some("sb".to_string()), Some("ns".to_string())).unwrap();
    assert_eq!(ok.0, "sb");
    assert_eq!(ok.1, "ns");
    assert!(forward_params(None, Some("ns".to_string())).is_err());
    assert!(forward_params(Some("sb".to_string()), None).is_err());
}

#[test]
fn portal_url_names_loopback_and_port() {
    assert_eq!(portal_rpc_url(6123), "http://127.0.0.1:6123/api/v1/rpc");
}

#[test]
fn portal_probe_counts_to_the_bound() {
    let mut p = PortalProbe::new();
    assert_eq!(p.observe(false), ProbeStep::Retry);
    assert_eq!(p.observe(true), ProbeStep::Reachable);
    // Any response counts as reachable, even an error status.
    let mut q = PortalProbe::new();
    for _ in 0..9999 {
        assert_eq!(q.observe(false), ProbeStep::Retry);
    }
    assert_eq!(q.observe(false), ProbeStep::Unreachable);
}

#[test]
fn portal_error_inlines_status_and_body() {
    let e = portal_error(502, "bad gateway");
    match e {
        ServerError::Internal(m) => {
            assert_eq!(m, "portal returned error status 502: bad gateway");
        }
        _ => panic!("expected an internal error"),
    }
}

#[test]
fn port_pair_round_trip() {
    let p = PortPair { host: 6100, guest: 4444 };
    let text = format_port_pair(&p);
    assert_eq!(text, "6100:4444");
    assert_eq!(parse_port_pair(&text), Some(p));
    assert_eq!(parse_port_pair("8080:80"), Some(PortPair { host: 8080, guest: 80 }));
    assert_eq!(parse_port_pair("noport"), None);
    assert_eq!(parse_port_pair("70000:80"), None);
    assert_eq!(parse_port_pair(":80"), None);
}

#[test]
fn merge_prefers_request_fields() {
    let mut request = SandboxConfig::empty();
    request.image = Some("alpine:edge".to_string());
    request.memory = Some(2048);
    let mut existing = SandboxConfig::empty();
    existing.image = Some("alpine:latest".to_string());
    existing.cpus = Some(2);
    existing.workdir = Some("/app".to_string());
    let m = merge_config(request, existing).unwrap();
    assert_eq!(m.image.as_deref(), Some("alpine:edge"));
    assert_eq!(m.memory, Some(2048));
    assert_eq!(m.cpus, Some(2));
    assert_eq!(m.workdir.as_deref(), Some("/app"));
}

#[test]
fn merge_without_image_anywhere_fails() {
    let r = merge_config(SandboxConfig::empty(), SandboxConfig::empty());
    assert!(matches!(r, Err(ServerError::InvalidInput(_))));
}

#[test]
fn portal_rewrite_is_idempotent_on_port_list() {
    let ports = vec![
        PortPair { host: 8080, guest: 80 },
        PortPair { host: 6500, guest: PORTAL_GUEST_PORT },
    ];
    let once = rewrite_portal_ports(ports, 6200);
    assert_eq!(
        once,
        vec![
            PortPair { host: 8080, guest: 80 },
            PortPair { host: 6200, guest: PORTAL_GUEST_PORT },
        ]
    );
    let twice = rewrite_portal_ports(once.clone(), 6200);
    assert_eq!(twice, once);
}

#[test]
fn network_scope_round_trips_and_defaults() {
    assert_eq!(NetworkScope::default_scope(), NetworkScope::Public);
    assert_eq!(NetworkScope::try_from(0).unwrap(), NetworkScope::Closed);
    assert_eq!(NetworkScope::try_from(2).unwrap(), NetworkScope::Public);
    assert_eq!(NetworkScope::try_from(3).unwrap().as_u8(), 3);
    assert!(NetworkScope::try_from(9).is_err());
}

#[test]
fn metrics_wildcard_spans_namespaces() {
    // Two namespaces with one running sandbox each: the wildcard query
    // yields two records, both running.
    let target = metrics_target("*", &None).unwrap();
    assert_eq!(target, MetricsTarget::AllNamespaces);
    let groups = vec![
        NamespaceStatuses {
            namespace: "ns1".to_string(),
            statuses: vec![RawStatus {
                name: "sb1".to_string(),
                running: true,
                cpu_usage: 125,
                memory_usage: 64 << 20,
                disk_usage: 1 << 30,
            }],
        },
        NamespaceStatuses {
            namespace: "ns2".to_string(),
            statuses: vec![RawStatus {
                name: "sb2".to_string(),
                running: true,
                cpu_usage: 250,
                memory_usage: 128 << 20,
                disk_usage: 2 << 30,
            }],
        },
    ];
    let response = assemble_metrics(groups);
    assert_eq!(response.sandboxes.len(), 2);
    assert!(response.sandboxes.iter().all(|s| s.running));
    assert_eq!(response.sandboxes[0].namespace, "ns1");
    assert_eq!(response.sandboxes[0].name, "sb1");
    assert_eq!(response.sandboxes[1].namespace, "ns2");
    assert_eq!(response.sandboxes[1].name, "sb2");
}

#[test]
fn metrics_target_validates_names() {
    assert_eq!(metrics_target("ns1", &None).unwrap(), MetricsTarget::OneNamespace);
    assert!(metrics_target("bad name", &None).is_err());
    assert!(metrics_target("ns1", &Some("*".to_string())).is_err());
    assert_eq!(
        metrics_target("*", &Some("sb1".to_string())).unwrap(),
        MetricsTarget::AllNamespaces
    );
}

#[test]
fn durations_parse_with_units() {
    assert_eq!(parse_duration_string("30s").unwrap(), 30);
    assert_eq!(parse_duration_string("5m").unwrap(), 300);
    assert_eq!(parse_duration_string("2h").unwrap(), 7200);
    assert_eq!(parse_duration_string("1d").unwrap(), 86400);
    assert_eq!(parse_duration_string("1w").unwrap(), 604800);
    assert_eq!(parse_duration_string("1mo").unwrap(), 2592000);
    assert_eq!(parse_duration_string("1y").unwrap(), 31536000);
    // No unit defaults to hours; surrounding whitespace is trimmed.
    assert_eq!(parse_duration_string(" 2 ").unwrap(), 7200);
    assert!(parse_duration_string("").is_err());
    assert!(parse_duration_string("xs").is_err());
    assert!(parse_duration_string("5q").is_err());
}

#[test]
fn key_val_splits_at_first_equals() {
    let (k, v) = parse_key_val("DEBUG=true").unwrap();
    assert_eq!(k, "DEBUG");
    assert_eq!(v, "true");
    let (k2, v2) = parse_key_val("A=b=c").unwrap();
    assert_eq!(k2, "A");
    assert_eq!(v2, "b=c");
    assert!(parse_key_val("novalue").is_err());
}

#[test]
fn command_execution_reports_success_by_exit_code() {
    // An echo that wrote its argument and exited cleanly.
    let exec = CommandExecution::new(
        "echo".to_string(),
        vec!["hi".to_string()],
        0,
        "hi\n".to_string(),
        "".to_string(),
    );
    assert_eq!(exec.command(), "echo");
    assert_eq!(exec.args(), &vec!["hi".to_string()]);
    assert_eq!(exec.exit_code(), 0);
    assert!(exec.is_success());
    assert_eq!(exec.output(), "hi\n");
    assert_eq!(exec.error(), "");
    let failed = CommandExecution::new(
        "false".to_string(),
        vec![],
        1,
        "".to_string(),
        "".to_string(),
    );
    assert!(!failed.is_success());
}

#[test]
fn sdk_session_guards_evaluation() {
    let mut s = SdkSession::new();
    assert!(matches!(s.check_started(), Err(SandboxError::NotStarted)));
    assert!(s.needs_start());
    s.mark_started();
    assert!(!s.needs_start());
    assert!(s.check_started().is_ok());
    s.mark_stopped();
    assert!(matches!(s.check_started(), Err(SandboxError::NotStarted)));
}

#[test]
fn not_started_error_has_fixed_wording() {
    let e = SandboxError::NotStarted;
    assert_eq!(e.message(), "Sandbox is not started. Call start() first.");
}

#[test]
fn envelope_errors_carry_jsonrpc_codes() {
    let bad_version = route_request("1.0", "sandbox.start");
    let (code, message) = envelope_error(&bad_version, "sandbox.start").unwrap();
    assert_eq!(code, -32600);
    assert_eq!(message, "Invalid or missing jsonrpc version field");

    let unknown = route_request("2.0", "sandbox.reboot");
    let (code2, message2) = envelope_error(&unknown, "sandbox.reboot").unwrap();
    assert_eq!(code2, -32601);
    assert_eq!(message2, "Method not found: sandbox.reboot");

    let routed = route_request("2.0", "sandbox.start");
    assert!(envelope_error(&routed, "sandbox.start").is_none());
}

#[test]
fn metrics_filter_keeps_only_the_named_sandbox() {
    let groups = vec![NamespaceStatuses {
        namespace: "ns1".to_string(),
        statuses: vec![
            RawStatus {
                name: "sb1".to_string(),
                running: true,
                cpu_usage: 1,
                memory_usage: 2,
                disk_usage: 3,
            },
            RawStatus {
                name: "sb2".to_string(),
                running: false,
                cpu_usage: 4,
                memory_usage: 5,
                disk_usage: 6,
            },
        ],
    }];
    let filtered = filter_metrics(groups, &Some("sb2".to_string()));
    assert_eq!(filtered.len(), 1);
    assert_eq!(filtered[0].namespace, "ns1");
    assert_eq!(filtered[0].statuses.len(), 1);
    assert_eq!(filtered[0].statuses[0].name, "sb2");
    assert!(!filtered[0].statuses[0].running);
}

#[test]
fn metrics_filter_on_missing_sandbox_yields_empty_list() {
    // A missing sandbox produces an empty list, not an error.
    let groups = vec![NamespaceStatuses {
        namespace: "ns1".to_string(),
        statuses: vec![RawStatus {
            name: "sb1".to_string(),
            running: true,
            cpu_usage: 1,
            memory_usage: 2,
            disk_usage: 3,
        }],
    }];
    let filtered = filter_metrics(groups, &Some("absent".to_string()));
    assert_eq!(filtered.len(), 1);
    assert!(filtered[0].statuses.is_empty());
    let response = assemble_metrics(filtered);
    assert!(response.sandboxes.is_empty());
}

#[test]
fn metrics_filter_without_name_passes_through() {
    let groups = vec![NamespaceStatuses {
        namespace: "ns1".to_string(),
        statuses: vec![RawStatus {
            name: "sb1".to_string(),
            running: true,
            cpu_usage: 1,
            memory_usage: 2,
            disk_usage: 3,
        }],
    }];
    let passed = filter_metrics(groups, &None);
    assert_eq!(passed[0].statuses.len(), 1);
}

#[test]
fn sdk_builders_fill_the_payloads() {
    let mut config = SandboxConfig::empty();
    config.image = Some("alpine:latest".to_string());
    let start = microsandbox::sdk::start_request("ns1", "sb1", config);
    assert_eq!(start.namespace, "ns1");
    assert_eq!(start.sandbox_name, "sb1");
    assert_eq!(start.config.unwrap().image.as_deref(), Some("alpine:latest"));

    let stop = microsandbox::sdk::stop_request("ns1", "sb1");
    assert_eq!(stop.namespace, "ns1");
    assert_eq!(stop.sandbox_name, "sb1");

    let run = microsandbox::sdk::run_code_request("ns1", "sb1", "print(1)");
    assert_eq!(run.namespace, "ns1");
    assert_eq!(run.sandbox_name, "sb1");
    assert_eq!(run.code, "print(1)");
}

#[test]
fn command_execution_defaults_missing_fields() {
    let exec = CommandExecution::from_parts(None, None, None, None, None);
    assert_eq!(exec.command(), "");
    assert!(exec.args().is_empty());
    assert_eq!(exec.exit_code(), 0);
    assert!(exec.is_success());
    assert_eq!(exec.output(), "");
    assert_eq!(exec.error(), "");

    let partial = CommandExecution::from_parts(
        Some("echo".to_string()),
        None,
        Some(2),
        Some("out".to_string()),
        None,
    );
    assert_eq!(partial.command(), "echo");
    assert_eq!(partial.exit_code(), 2);
    assert!(!partial.is_success());
    assert_eq!(partial.output(), "out");
}
