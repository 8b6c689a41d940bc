use microsandbox::config::{resolve_entrypoint, script_guest_path, Entrypoint, SandboxConfig};
use microsandbox::error::ServerError;
use microsandbox::payload::RegularMessageResponse;
use microsandbox::supervisor::{invalidate_stale, SupervisorRecord};

#[test]
fn entrypoint_prefers_start_script() {
    let mut c = SandboxConfig::empty();
    c.scripts.push(("start".to_string(), "./run.sh".to_string()));
    c.exec_cmd = Some("/bin/server".to_string());
    c.shell = Some("/bin/sh".to_string());
    match resolve_entrypoint(&c).unwrap() {
        Entrypoint::StartScript(cmd) => assert_eq!(cmd, "./run.sh"),
        _ => panic!("the start script must win"),
    }
}

#[test]
fn entrypoint_falls_back_to_exec_then_shell() {
    let mut c = SandboxConfig::empty();
    c.exec_cmd = Some("/bin/server".to_string());
    c.shell = Some("/bin/sh".to_string());
    assert!(matches!(resolve_entrypoint(&c).unwrap(), Entrypoint::Exec(_)));
    c.exec_cmd = None;
    match resolve_entrypoint(&c).unwrap() {
        Entrypoint::Shell(sh) => assert_eq!(sh, "/bin/sh"),
        _ => panic!("the shell is the last fallback"),
    }
}

#[test]
fn missing_entrypoint_is_rejected() {
    let c = SandboxConfig::empty();
    assert!(matches!(resolve_entrypoint(&c), Err(ServerError::InvalidInput(_))));
}

#[test]
fn full_scripts_gain_start_from_shell() {
    let mut c = SandboxConfig::empty();
    c.shell = Some("/bin/bash".to_string());
    c.scripts.push(("build".to_string(), "make".to_string()));
    let full = c.get_full_scripts();
    assert_eq!(full.len(), 2);
    assert!(full.iter().any(|(n, cmd)| n == "start" && cmd == "/bin/bash"));
    // An existing start script is left alone.
    c.scripts.push(("start".to_string(), "./run.sh".to_string()));
    let full2 = c.get_full_scripts();
    assert_eq!(full2.len(), 2);
    assert!(full2.iter().any(|(n, cmd)| n == "start" && cmd == "./run.sh"));
}

#[test]
fn script_path_uses_the_conventional_directory() {
    assert_eq!(script_guest_path("start"), "/.sandbox_scripts/start");
}

#[test]
fn health_reply_is_fixed() {
    assert_eq!(RegularMessageResponse::healthy().message, "Service is healthy");
}

#[test]
fn stale_supervisor_records_are_invalidated() {
    let records = vec![
        SupervisorRecord {
            pid: 100,
            config_path: "/ns1/Sandboxfile".to_string(),
            config_mtime: 10,
        },
        SupervisorRecord {
            pid: 101,
            config_path: "/ns1/Sandboxfile".to_string(),
            config_mtime: 20,
        },
        SupervisorRecord {
            pid: 102,
            config_path: "/ns2/Sandboxfile".to_string(),
            config_mtime: 10,
        },
    ];
    let kept = invalidate_stale(records, "/ns1/Sandboxfile", 20);
    let pids: Vec<u32> = kept.iter().map(|r| r.pid).collect();
    assert_eq!(pids, vec![101, 102]);
}
