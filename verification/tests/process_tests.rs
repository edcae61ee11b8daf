//! Single-entry behaviour: lifecycle transitions, the restart policy and
//! its cool-down, the log ring, and the command-line parsing.

use rpm::cli::ProcessConfig;
use rpm::error::RpmError;
use rpm::process::{ManagedProcess, ProcessStatus, MAX_LOG_LINES};

fn cfg(name: &str, autorestart: bool) -> ProcessConfig {
    ProcessConfig {
        name: name.to_string(),
        command: "sleep 100".to_string(),
        cwd: None,
        instances: 1,
        autorestart,
        max_memory: None,
        env: vec![],
    }
}

#[test]
fn running_entry_has_pid_and_handle_stopped_has_neither() {
    let mut e = ManagedProcess::new(cfg("a", true), 0, 50);
    assert_eq!(e.info.status, ProcessStatus::Stopped);
    assert_eq!(e.info.pid, None);
    assert!(!e.has_child);

    e.on_spawned(77, 100);
    assert_eq!(e.info.status, ProcessStatus::Running);
    assert_eq!(e.info.pid, Some(77));
    assert!(e.has_child);
    assert_eq!(e.info.started_at, 100);

    e.mark_stopped();
    assert_eq!(e.info.status, ProcessStatus::Stopped);
    assert_eq!(e.info.pid, None);
    assert!(!e.has_child);
}

#[test]
fn exit_codes_pick_stopped_or_errored() {
    let mut e = ManagedProcess::new(cfg("a", true), 0, 0);
    e.on_spawned(1, 0);
    e.on_exit(true);
    assert_eq!(e.info.status, ProcessStatus::Stopped);
    assert_eq!(e.info.pid, None);

    e.on_spawned(2, 0);
    e.on_exit(false);
    assert_eq!(e.info.status, ProcessStatus::Errored);
    assert_eq!(e.info.pid, None);
    assert!(!e.has_child);
}

#[test]
fn should_restart_requires_policy_state_and_cooldown() {
    let mut e = ManagedProcess::new(cfg("a", true), 0, 0);
    // stopped, autorestart on, never restarted: due
    assert!(e.should_restart(0));
    // running: not due
    e.on_spawned(1, 0);
    assert!(!e.should_restart(10_000));
    // errored: due again
    e.on_exit(false);
    assert!(e.should_restart(10_000));
    // autorestart off: never due
    let e2 = ManagedProcess::new(cfg("b", false), 1, 0);
    assert!(!e2.should_restart(10_000));
}

#[test]
fn restart_cooldown_holds_for_five_seconds() {
    let mut e = ManagedProcess::new(cfg("a", true), 0, 0);
    e.on_spawned(1, 0);
    e.begin_restart(10_000);
    e.on_spawn_failed();
    assert_eq!(e.info.restarts, 1);
    // within the window: quiet, even though the entry is errored
    assert!(!e.should_restart(10_001));
    assert!(!e.should_restart(14_999));
    // at the boundary and past it: due again
    assert!(e.should_restart(15_000));
    assert!(e.should_restart(20_000));
}

#[test]
fn log_ring_keeps_only_the_newest_lines() {
    let mut e = ManagedProcess::new(cfg("a", true), 0, 0);
    for i in 0..(MAX_LOG_LINES + 5) {
        e.push_log(format!("l{}", i));
    }
    assert_eq!(e.log_buffer.len(), MAX_LOG_LINES);
    assert_eq!(e.log_buffer[0], "l5");
    let tail = e.tail_logs(2);
    assert_eq!(
        tail,
        vec![
            format!("l{}", MAX_LOG_LINES + 3),
            format!("l{}", MAX_LOG_LINES + 4)
        ]
    );
}

#[test]
fn from_args_takes_explicit_name() {
    let c = ProcessConfig::from_args(
        "node app.js".to_string(),
        Some("api".to_string()),
        Some("/srv".to_string()),
        2,
        false,
        Some(128),
        vec!["A=1".to_string(), "B=two=parts".to_string()],
    )
    .unwrap();
    assert_eq!(c.name, "api");
    assert_eq!(c.command, "node app.js");
    assert_eq!(c.cwd, Some("/srv".to_string()));
    assert_eq!(c.instances, 2);
    assert!(!c.autorestart);
    assert_eq!(c.max_memory, Some(128));
    assert_eq!(
        c.env,
        vec![
            ("A".to_string(), "1".to_string()),
            ("B".to_string(), "two=parts".to_string())
        ]
    );
}

#[test]
fn from_args_derives_name_from_first_token() {
    let c = ProcessConfig::from_args(
        "  node server.js --port 80".to_string(),
        None,
        None,
        1,
        true,
        None,
        vec![],
    )
    .unwrap();
    assert_eq!(c.name, "node");

    let blank = ProcessConfig::from_args("   ".to_string(), None, None, 1, true, None, vec![])
        .unwrap();
    assert_eq!(blank.name, "unknown");
}

#[test]
fn from_args_rejects_env_without_equals() {
    let r = ProcessConfig::from_args(
        "x".to_string(),
        None,
        None,
        1,
        true,
        None,
        vec!["GOOD=1".to_string(), "BROKEN".to_string()],
    );
    assert_eq!(
        r,
        Err(RpmError::Config("Invalid env format: BROKEN".to_string()))
    );
}

#[test]
fn error_messages_render_by_kind() {
    assert_eq!(RpmError::Io("x".to_string()).message(), "IO error: x");
    assert_eq!(
        RpmError::Serde("y".to_string()).message(),
        "Serialization error: y"
    );
    assert_eq!(RpmError::Process("p".to_string()).message(), "Process error: p");
    assert_eq!(RpmError::Daemon("d".to_string()).message(), "Daemon error: d");
    assert_eq!(RpmError::Ipc("i".to_string()).message(), "IPC error: i");
    assert_eq!(
        RpmError::Config("c".to_string()).message(),
        "Configuration error: c"
    );
    assert_eq!(
        RpmError::ProcessNotFound("n".to_string()).message(),
        "Process not found: n"
    );
}
