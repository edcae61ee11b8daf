//! Roster behaviour: the manager operations, the monitor pass, and the
//! persistence round trip.

use rpm::cli::ProcessConfig;
use rpm::config::Config;
use rpm::error::RpmError;
use rpm::manager::{ProcessManager, ReapOutcome};
use rpm::process::ProcessStatus;

fn cfg(name: &str) -> ProcessConfig {
    ProcessConfig {
        name: name.to_string(),
        command: format!("run {}", name),
        cwd: None,
        instances: 1,
        autorestart: true,
        max_memory: None,
        env: vec![],
    }
}

#[test]
fn start_then_list_shows_running_entry() {
    let mut m = ProcessManager::new(Config::default());
    let id = m.start_process(cfg("s1"), Ok(321), 1000).unwrap();
    let list = m.list_processes();
    assert_eq!(list.len(), 1);
    assert_eq!(list[0].name, "s1");
    assert_eq!(list[0].status, ProcessStatus::Running);
    assert_eq!(list[0].pid, Some(321));
    assert_eq!(list[0].restarts, 0);
    assert_eq!(list[0].id, id);
    assert_eq!(list[0].started_at, 1000);
}

#[test]
fn stop_keeps_entry_without_pid() {
    let mut m = ProcessManager::new(Config::default());
    m.start_process(cfg("s1"), Ok(321), 1000).unwrap();
    m.stop_process("s1").unwrap();
    let list = m.list_processes();
    assert_eq!(list.len(), 1);
    assert_eq!(list[0].status, ProcessStatus::Stopped);
    assert_eq!(list[0].pid, None);
}

#[test]
fn stop_absent_name_reports_not_found_and_changes_nothing() {
    let mut m = ProcessManager::new(Config::default());
    m.start_process(cfg("a"), Ok(1), 0).unwrap();
    let before = m.save_state();
    let r = m.stop_process("ghost");
    assert_eq!(r, Err(RpmError::ProcessNotFound("ghost".to_string())));
    assert_eq!(m.save_state(), before);
    assert_eq!(m.list_processes().len(), 1);
}

#[test]
fn start_replaces_entry_and_hides_old_id() {
    let mut m = ProcessManager::new(Config::default());
    let old_id = m.start_process(cfg("web"), Ok(10), 0).unwrap();
    let new_id = m.start_process(cfg("web"), Ok(11), 5).unwrap();
    assert_ne!(old_id, new_id);
    let list = m.list_processes();
    assert_eq!(list.len(), 1);
    assert_eq!(list[0].id, new_id);
    assert!(list.iter().all(|p| p.id != old_id));
    assert_eq!(list[0].pid, Some(11));
}

#[test]
fn failed_spawn_leaves_roster_untouched() {
    let mut m = ProcessManager::new(Config::default());
    let r = m.start_process(cfg("bad"), Err("no such shell".to_string()), 0);
    assert_eq!(
        r,
        Err(RpmError::Process(
            "Failed to start process 'bad': no such shell".to_string()
        ))
    );
    assert!(m.list_processes().is_empty());
}

#[test]
fn delete_removes_entry() {
    let mut m = ProcessManager::new(Config::default());
    m.start_process(cfg("a"), Ok(1), 0).unwrap();
    m.start_process(cfg("b"), Ok(2), 0).unwrap();
    m.delete_process("a").unwrap();
    let list = m.list_processes();
    assert_eq!(list.len(), 1);
    assert_eq!(list[0].name, "b");
    assert_eq!(
        m.delete_process("a"),
        Err(RpmError::ProcessNotFound("a".to_string()))
    );
}

#[test]
fn restart_increments_counter_and_records_instant() {
    let mut m = ProcessManager::new(Config::default());
    m.start_process(cfg("a"), Ok(1), 0).unwrap();
    m.restart_process("a", Ok(2), 7000).unwrap();
    let info = m.get_process_info("a").unwrap();
    assert_eq!(info.restarts, 1);
    assert_eq!(info.status, ProcessStatus::Running);
    assert_eq!(info.pid, Some(2));
    assert_eq!(info.started_at, 7000);
}

#[test]
fn restart_failure_leaves_entry_errored_with_stepped_counter() {
    let mut m = ProcessManager::new(Config::default());
    m.start_process(cfg("a"), Ok(1), 0).unwrap();
    let r = m.restart_process("a", Err("gone".to_string()), 7000);
    assert_eq!(
        r,
        Err(RpmError::Process("Failed to start process 'a': gone".to_string()))
    );
    let info = m.get_process_info("a").unwrap();
    assert_eq!(info.status, ProcessStatus::Errored);
    assert_eq!(info.restarts, 1);
    assert_eq!(info.pid, None);
}

#[test]
fn restarts_stay_monotone_across_operations() {
    let mut m = ProcessManager::new(Config::default());
    m.start_process(cfg("a"), Ok(1), 0).unwrap();
    let mut last = 0u32;
    m.restart_process("a", Ok(2), 6000).unwrap();
    let r1 = m.get_process_info("a").unwrap().restarts;
    assert!(r1 >= last);
    last = r1;
    m.stop_process("a").unwrap();
    let r2 = m.get_process_info("a").unwrap().restarts;
    assert!(r2 >= last);
    last = r2;
    m.restart_process("a", Err("x".to_string()), 20000).ok();
    let r3 = m.get_process_info("a").unwrap().restarts;
    assert!(r3 >= last);
}

#[test]
fn monitor_pass_on_empty_roster_owes_nothing() {
    let mut m = ProcessManager::new(Config::default());
    let before = m.save_state();
    let queue = m.monitor_processes(vec![], 1_000_000);
    assert!(queue.is_empty());
    assert_eq!(m.save_state(), before);
}

#[test]
fn monitor_enqueues_errored_exit_for_restart() {
    let mut m = ProcessManager::new(Config::default());
    m.start_process(cfg("a"), Ok(1), 0).unwrap();
    let queue = m.monitor_processes(
        vec![("a".to_string(), ReapOutcome::Exited(false))],
        1_000_000,
    );
    assert_eq!(queue, vec!["a".to_string()]);
    assert_eq!(m.get_process_info("a").unwrap().status, ProcessStatus::Errored);
}

#[test]
fn monitor_leaves_clean_exit_without_autorestart_alone() {
    let mut m = ProcessManager::new(Config::default());
    let mut c = cfg("ok");
    c.autorestart = false;
    m.start_process(c, Ok(1), 0).unwrap();
    let queue = m.monitor_processes(
        vec![("ok".to_string(), ReapOutcome::Exited(true))],
        1_000_000,
    );
    assert!(queue.is_empty());
    let info = m.get_process_info("ok").unwrap();
    assert_eq!(info.status, ProcessStatus::Stopped);
    assert_eq!(info.restarts, 0);
}

#[test]
fn memory_cap_met_exactly_does_not_trip_but_over_does() {
    let mut m = ProcessManager::new(Config::default());
    let mut c = cfg("fat");
    c.autorestart = false;
    c.max_memory = Some(10);
    m.start_process(c, Ok(1), 0).unwrap();
    // exactly 10 MiB observed: not over the cap
    let q1 = m.monitor_processes(
        vec![(
            "fat".to_string(),
            ReapOutcome::StillRunning(Some((0, 10 * 1024 * 1024))),
        )],
        0,
    );
    assert!(q1.is_empty());
    // one byte past 11 MiB - 1: strictly greater in whole MiB trips it
    let q2 = m.monitor_processes(
        vec![(
            "fat".to_string(),
            ReapOutcome::StillRunning(Some((0, 11 * 1024 * 1024))),
        )],
        0,
    );
    assert_eq!(q2, vec!["fat".to_string()]);
}

#[test]
fn save_then_load_restores_configs_in_order() {
    let mut m = ProcessManager::new(Config::default());
    let mut a = cfg("a");
    a.env = vec![("K".to_string(), "V".to_string())];
    a.max_memory = Some(64);
    let b = cfg("b");
    m.start_process(a.clone(), Ok(1), 0).unwrap();
    m.start_process(b.clone(), Ok(2), 0).unwrap();
    let text = m.save_state();

    let mut fresh = ProcessManager::new(Config::default());
    fresh.load_state(&text, 999).unwrap();
    let list = fresh.list_processes();
    assert_eq!(list.len(), 2);
    assert_eq!(list[0].config, a);
    assert_eq!(list[1].config, b);
    assert_eq!(list[0].status, ProcessStatus::Stopped);
    assert_eq!(list[0].pid, None);
    assert_eq!(list[0].restarts, 0);
}

#[test]
fn load_rejects_malformed_text_and_keeps_roster() {
    let mut m = ProcessManager::new(Config::default());
    m.start_process(cfg("keep"), Ok(1), 0).unwrap();
    let r = m.load_state("{broken", 0);
    assert_eq!(
        r,
        Err(RpmError::Config("Failed to parse processes file".to_string()))
    );
    assert_eq!(m.list_processes().len(), 1);
    assert_eq!(m.list_processes()[0].name, "keep");
}

#[test]
fn load_collapses_duplicate_names_keeping_the_last() {
    let mut m = ProcessManager::new(Config::default());
    let text = "[{\"name\":\"a\",\"command\":\"one\",\"cwd\":null,\"instances\":1,\
                \"autorestart\":true,\"max_memory\":null,\"env\":[]},\
                {\"name\":\"a\",\"command\":\"two\",\"cwd\":null,\"instances\":1,\
                \"autorestart\":true,\"max_memory\":null,\"env\":[]}]";
    m.load_state(text, 0).unwrap();
    let list = m.list_processes();
    assert_eq!(list.len(), 1);
    assert_eq!(list[0].config.command, "two");
}

#[test]
fn logs_are_tailed_and_bounded() {
    let mut m = ProcessManager::new(Config::default());
    m.start_process(cfg("a"), Ok(1), 0).unwrap();
    for i in 0..5 {
        assert!(m.append_log("a", format!("line {}", i)));
    }
    assert!(!m.append_log("ghost", "x".to_string()));
    let logs = m.get_logs("a", 2).unwrap();
    assert_eq!(logs, vec!["line 3".to_string(), "line 4".to_string()]);
    let all = m.get_logs("a", 100).unwrap();
    assert_eq!(all.len(), 5);
    assert_eq!(
        m.get_logs("ghost", 1),
        Err(RpmError::ProcessNotFound("ghost".to_string()))
    );
}

#[test]
fn two_entries_coexist() {
    let mut m = ProcessManager::new(Config::default());
    m.start_process(cfg("a"), Ok(1), 0).unwrap();
    m.start_process(cfg("b"), Ok(2), 0).unwrap();
    let list = m.list_processes();
    assert_eq!(list.len(), 2);
    let names: Vec<_> = list.iter().map(|p| p.name.clone()).collect();
    assert_eq!(names, vec!["a".to_string(), "b".to_string()]);
    assert_ne!(list[0].id, list[1].id);
}
