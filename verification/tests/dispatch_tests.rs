//! Request dispatch behaviour: responses, side effects, and the rendering
//! helpers the terminal layer leans on.

use rpm::cli::ProcessConfig;
use rpm::config::Config;
use rpm::dispatch::now_unix_ms;
use rpm::format::{count_by_status, format_duration, format_uptime, memory_band, split_log_line};
use rpm::ipc::{IpcRequest, IpcResponse};
use rpm::ipc::{expect_info, expect_list, expect_logs, expect_success};
use rpm::error::RpmError;
use rpm::manager::ProcessManager;
use rpm::process::ProcessStatus;

fn cfg(name: &str) -> ProcessConfig {
    ProcessConfig {
        name: name.to_string(),
        command: format!("run {}", name),
        cwd: None,
        instances: 1,
        autorestart: true,
        max_memory: None,
        env: vec![],
    }
}

#[test]
fn start_request_answers_with_id_and_saves() {
    let mut m = ProcessManager::new(Config::default());
    let (resp, eff) = m.handle_request(
        IpcRequest::StartProcess(cfg("a")),
        Some(Ok(7)),
        None,
        100,
    );
    assert_eq!(resp, IpcResponse::Success("Process started with id: 0".to_string()));
    assert_eq!(eff.kill_pid, None);
    assert!(eff.save.is_some());
    assert!(!eff.shutdown);
}

#[test]
fn start_request_with_failed_spawn_answers_error() {
    let mut m = ProcessManager::new(Config::default());
    let (resp, eff) = m.handle_request(
        IpcRequest::StartProcess(cfg("a")),
        Some(Err("boom".to_string())),
        None,
        100,
    );
    assert_eq!(
        resp,
        IpcResponse::Error("Process error: Failed to start process 'a': boom".to_string())
    );
    assert_eq!(eff.save, None);
    assert_eq!(eff.kill_pid, None);
}

#[test]
fn replacing_start_asks_for_the_old_pid_to_be_killed() {
    let mut m = ProcessManager::new(Config::default());
    m.handle_request(IpcRequest::StartProcess(cfg("a")), Some(Ok(7)), None, 0);
    let (resp, eff) = m.handle_request(
        IpcRequest::StartProcess(cfg("a")),
        Some(Ok(8)),
        None,
        1,
    );
    assert_eq!(resp, IpcResponse::Success("Process started with id: 1".to_string()));
    assert_eq!(eff.kill_pid, Some(7));
}

#[test]
fn stop_request_reports_pid_and_saves() {
    let mut m = ProcessManager::new(Config::default());
    m.handle_request(IpcRequest::StartProcess(cfg("a")), Some(Ok(7)), None, 0);
    let (resp, eff) = m.handle_request(IpcRequest::StopProcess("a".to_string()), None, None, 1);
    assert_eq!(resp, IpcResponse::Success("Process 'a' stopped".to_string()));
    assert_eq!(eff.kill_pid, Some(7));
    assert!(eff.save.is_some());
}

#[test]
fn stop_absent_answers_error_without_effects() {
    let mut m = ProcessManager::new(Config::default());
    let (resp, eff) = m.handle_request(IpcRequest::StopProcess("nope".to_string()), None, None, 1);
    assert_eq!(
        resp,
        IpcResponse::Error("Process not found: nope".to_string())
    );
    assert_eq!(eff.kill_pid, None);
    assert_eq!(eff.save, None);
    assert!(!eff.shutdown);
}

#[test]
fn kill_daemon_requests_shutdown() {
    let mut m = ProcessManager::new(Config::default());
    let (resp, eff) = m.handle_request(IpcRequest::KillDaemon, None, None, 0);
    assert_eq!(resp, IpcResponse::Success("Daemon shutdown requested".to_string()));
    assert!(eff.shutdown);
    assert_eq!(eff.save, None);
}

#[test]
fn save_and_resurrect_round_trip_through_dispatch() {
    let mut m = ProcessManager::new(Config::default());
    m.handle_request(IpcRequest::StartProcess(cfg("a")), Some(Ok(7)), None, 0);
    let (resp, eff) = m.handle_request(IpcRequest::SaveProcesses, None, None, 1);
    assert_eq!(resp, IpcResponse::Success("Processes saved".to_string()));
    let text = eff.save.expect("save payload");

    let mut fresh = ProcessManager::new(Config::default());
    let (resp2, eff2) =
        fresh.handle_request(IpcRequest::ResurrectProcesses, None, Some(text), 2);
    assert_eq!(resp2, IpcResponse::Success("Processes resurrected".to_string()));
    assert_eq!(eff2.save, None);
    let list = fresh.list_processes();
    assert_eq!(list.len(), 1);
    assert_eq!(list[0].config, cfg("a"));
}

#[test]
fn list_and_info_and_logs_answer_snapshots() {
    let mut m = ProcessManager::new(Config::default());
    m.handle_request(IpcRequest::StartProcess(cfg("a")), Some(Ok(7)), None, 0);
    m.append_log("a", "[10:00:00] hello".to_string());

    let (resp, _) = m.handle_request(IpcRequest::ListProcesses, None, None, 1);
    match resp {
        IpcResponse::ProcessList(list) => {
            assert_eq!(list.len(), 1);
            assert_eq!(list[0].name, "a");
        }
        other => panic!("unexpected response: {:?}", other),
    }

    let (resp, _) = m.handle_request(IpcRequest::GetProcessInfo("a".to_string()), None, None, 1);
    match resp {
        IpcResponse::ProcessInfo(info) => assert_eq!(info.pid, Some(7)),
        other => panic!("unexpected response: {:?}", other),
    }

    let (resp, _) = m.handle_request(
        IpcRequest::GetLogs { name: "a".to_string(), lines: 10, follow: false },
        None,
        None,
        1,
    );
    assert_eq!(resp, IpcResponse::Logs(vec!["[10:00:00] hello".to_string()]));
}

#[test]
fn client_side_interpretation_of_responses() {
    assert_eq!(expect_success(IpcResponse::Success("ok".to_string())), Ok(()));
    assert_eq!(
        expect_success(IpcResponse::Error("bad".to_string())),
        Err(RpmError::Ipc("bad".to_string()))
    );
    assert_eq!(
        expect_success(IpcResponse::Logs(vec![])),
        Err(RpmError::Ipc("Unexpected response".to_string()))
    );
    assert_eq!(
        expect_list(IpcResponse::Logs(vec![])).unwrap_err(),
        RpmError::Ipc("Unexpected response".to_string())
    );
    assert!(expect_list(IpcResponse::ProcessList(vec![])).is_ok());
    assert!(expect_list(IpcResponse::Success("x".to_string())).is_err());
    assert!(expect_logs(IpcResponse::Logs(vec!["a".to_string()])).is_ok());
    assert!(expect_info(IpcResponse::Success("x".to_string())).is_err());
}

#[test]
fn durations_render_with_two_units() {
    assert_eq!(format_duration(0), "0s");
    assert_eq!(format_duration(59), "59s");
    assert_eq!(format_duration(60), "1m 0s");
    assert_eq!(format_duration(61), "1m 1s");
    assert_eq!(format_duration(3600), "1h 0m");
    assert_eq!(format_duration(3725), "1h 2m");
    assert_eq!(format_duration(90_061), "1d 1h");
    assert_eq!(format_uptime(61_000, 1_000), "1m 0s");
    assert_eq!(format_uptime(0, 1_000), "N/A");
}

#[test]
fn log_lines_split_at_the_bracketed_timestamp() {
    assert_eq!(
        split_log_line("[10:00:01] started up"),
        Some(("10:00:01".to_string(), "started up".to_string()))
    );
    assert_eq!(split_log_line("no brackets here"), None);
    assert_eq!(split_log_line("[unclosed"), None);
    assert_eq!(
        split_log_line("[t]   spaced"),
        Some(("t".to_string(), "spaced".to_string()))
    );
}

#[test]
fn memory_bands_follow_the_megabyte_thresholds() {
    assert_eq!(memory_band(0), 0);
    assert_eq!(memory_band(100 * 1024 * 1024), 0);
    assert_eq!(memory_band(101 * 1024 * 1024), 1);
    assert_eq!(memory_band(501 * 1024 * 1024), 2);
    assert_eq!(memory_band(1001 * 1024 * 1024), 3);
}

#[test]
fn status_counts_partition_the_list() {
    let mut m = ProcessManager::new(Config::default());
    m.handle_request(IpcRequest::StartProcess(cfg("a")), Some(Ok(1)), None, 0);
    m.handle_request(IpcRequest::StartProcess(cfg("b")), Some(Ok(2)), None, 0);
    m.handle_request(IpcRequest::StopProcess("b".to_string()), None, None, 1);
    let list = m.list_processes();
    assert_eq!(count_by_status(&list, ProcessStatus::Running), 1);
    assert_eq!(count_by_status(&list, ProcessStatus::Stopped), 1);
    assert_eq!(count_by_status(&list, ProcessStatus::Errored), 0);
}

#[test]
fn the_clock_moves_forward() {
    let a = now_unix_ms();
    let b = now_unix_ms();
    assert!(b >= a);
    // the daemon was certainly started after 2020
    assert!(a > 1_577_836_800_000);
}
