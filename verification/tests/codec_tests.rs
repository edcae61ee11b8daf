//! Wire codec behaviour: exact frames, round trips, and rejection of
//! malformed input.

use rpm::cli::ProcessConfig;
use rpm::decode::{decode_request, decode_response, decode_state};
use rpm::encode::{encode_request, encode_response};
use rpm::ipc::{IpcRequest, IpcResponse};
use rpm::process::{ProcessInfo, ProcessStatus};

fn sample_config() -> ProcessConfig {
    ProcessConfig {
        name: "web".to_string(),
        command: "node server.js".to_string(),
        cwd: Some("/srv/web".to_string()),
        instances: 1,
        autorestart: true,
        max_memory: Some(256),
        env: vec![("PORT".to_string(), "8080".to_string())],
    }
}

fn sample_info() -> ProcessInfo {
    ProcessInfo {
        id: "7".to_string(),
        name: "web".to_string(),
        command: "node server.js".to_string(),
        status: ProcessStatus::Running,
        pid: Some(4242),
        cpu_usage: 0,
        memory_usage: 1048576,
        started_at: 1700000000000,
        restarts: 2,
        config: sample_config(),
    }
}

#[test]
fn stop_request_exact_frame() {
    let s = encode_request(&IpcRequest::StopProcess("web".to_string()));
    assert_eq!(s, "{\"StopProcess\":\"web\"}");
}

#[test]
fn list_request_exact_frame() {
    let s = encode_request(&IpcRequest::ListProcesses);
    assert_eq!(s, "{\"ListProcesses\":null}");
}

#[test]
fn config_exact_frame() {
    let s = encode_request(&IpcRequest::StartProcess(sample_config()));
    assert_eq!(
        s,
        "{\"StartProcess\":{\"name\":\"web\",\"command\":\"node server.js\",\
         \"cwd\":\"/srv/web\",\"instances\":1,\"autorestart\":true,\
         \"max_memory\":256,\"env\":[[\"PORT\",\"8080\"]]}}"
    );
}

#[test]
fn getlogs_exact_frame() {
    let s = encode_request(&IpcRequest::GetLogs {
        name: "web".to_string(),
        lines: 20,
        follow: false,
    });
    assert_eq!(s, "{\"GetLogs\":{\"name\":\"web\",\"lines\":20,\"follow\":false}}");
}

#[test]
fn every_request_round_trips() {
    let reqs = vec![
        IpcRequest::StartProcess(sample_config()),
        IpcRequest::StopProcess("a".to_string()),
        IpcRequest::RestartProcess("b".to_string()),
        IpcRequest::DeleteProcess("c".to_string()),
        IpcRequest::ListProcesses,
        IpcRequest::GetProcessInfo("d".to_string()),
        IpcRequest::GetLogs { name: "e".to_string(), lines: 50, follow: true },
        IpcRequest::Monitor,
        IpcRequest::KillDaemon,
        IpcRequest::ReloadProcess("f".to_string()),
        IpcRequest::SaveProcesses,
        IpcRequest::ResurrectProcesses,
    ];
    for r in reqs {
        let line = encode_request(&r);
        let back = decode_request(&line).expect("frame should decode");
        assert_eq!(back, r);
    }
}

#[test]
fn every_response_round_trips() {
    let resps = vec![
        IpcResponse::Success("ok".to_string()),
        IpcResponse::ProcessList(vec![sample_info(), sample_info()]),
        IpcResponse::ProcessInfo(sample_info()),
        IpcResponse::Logs(vec!["one".to_string(), "two".to_string()]),
        IpcResponse::Error("nope".to_string()),
    ];
    for r in resps {
        let line = encode_response(&r);
        let back = decode_response(&line).expect("frame should decode");
        assert_eq!(back, r);
    }
}

#[test]
fn escaped_strings_round_trip() {
    let tricky = "quote \" backslash \\ newline \n cr \r done";
    let r = IpcRequest::StopProcess(tricky.to_string());
    let line = encode_request(&r);
    assert!(!line.contains('\n'), "frames must stay on one line");
    let back = decode_request(&line).expect("frame should decode");
    assert_eq!(back, r);
}

#[test]
fn empty_and_unicode_strings_round_trip() {
    for name in ["", "caf\u{e9} \u{1F980}", "[]{},:"] {
        let r = IpcRequest::DeleteProcess(name.to_string());
        let back = decode_request(&encode_request(&r)).expect("frame should decode");
        assert_eq!(back, r);
    }
}

#[test]
fn malformed_frames_are_refused() {
    assert_eq!(decode_request(""), None);
    assert_eq!(decode_request("{\"NoSuchThing\":null}"), None);
    assert_eq!(decode_request("{\"StopProcess\":\"web\""), None);
    assert_eq!(decode_request("{\"StopProcess\":web}"), None);
    assert_eq!(decode_request("{\"StopProcess\":\"web\"}trailing"), None);
    assert_eq!(decode_response("{\"Success\":}"), None);
}

#[test]
fn state_round_trips() {
    let mut second = sample_config();
    second.name = "worker".to_string();
    second.cwd = None;
    second.max_memory = None;
    second.env = vec![];
    let m = {
        let mut m = rpm::manager::ProcessManager::new(rpm::config::Config::default());
        m.start_process(sample_config(), Ok(100), 5).unwrap();
        m.start_process(second.clone(), Ok(101), 6).unwrap();
        m
    };
    let text = m.save_state();
    let cs = decode_state(&text).expect("state should decode");
    assert_eq!(cs.len(), 2);
    assert_eq!(cs[0], sample_config());
    assert_eq!(cs[1], second);
    assert_eq!(decode_state("not json"), None);
    assert_eq!(decode_state("["), None);
    assert_eq!(decode_state("[]").unwrap(), Vec::<ProcessConfig>::new());
}

#[test]
fn numbers_round_trip_at_bounds() {
    let mut c = sample_config();
    c.max_memory = Some(u64::MAX);
    c.instances = u32::MAX;
    let r = IpcRequest::StartProcess(c);
    let back = decode_request(&encode_request(&r)).expect("frame should decode");
    assert_eq!(back, r);
}

#[test]
fn settings_round_trip_and_exact_frame() {
    let c = rpm::config::Config::default();
    let text = rpm::encode::encode_settings(&c);
    assert_eq!(
        text,
        "{\"daemon_port\":9999,\"max_processes\":1000,\"log_max_size\":104857600,\
         \"log_retention_days\":30,\"auto_restart_delay\":5,\"health_check_interval\":5}"
    );
    assert_eq!(rpm::decode::decode_settings(&text), Some(c));
    assert_eq!(rpm::decode::decode_settings("{}"), None);
}
