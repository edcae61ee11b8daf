//! One managed child: its observable snapshot, its lifecycle transitions,
//! its bounded log buffer, and the restart policy predicate.

use vstd::prelude::*;

use crate::cli::{ProcessConfig, ProcessConfigV};
use crate::RESTART_COOLDOWN_MS;

verus! {

/// Upper bound on retained log lines per process.
pub const MAX_LOG_LINES: usize = 1000;

/// The closed set of lifecycle states of a managed child.
#[derive(Debug, Clone, Copy, PartialEq, Eq, Structural)]
pub enum ProcessStatus {
    Running,
    Stopped,
    Errored,
    Restarting,
}

/// The mathematical shape of a `ProcessInfo`.
pub ghost struct ProcessInfoV {
    pub id: Seq<char>,
    pub name: Seq<char>,
    pub command: Seq<char>,
    pub status: ProcessStatus,
    pub pid: Option<u32>,
    pub cpu_usage: u64,
    pub memory_usage: u64,
    pub started_at: u64,
    pub restarts: u32,
    pub config: ProcessConfigV,
}

/// The observable snapshot of one managed child.
#[derive(Debug, Clone, PartialEq)]
pub struct ProcessInfo {
    /// Opaque handle, unique within the roster, assigned at creation.
    pub id: String,
    /// Roster key; echoes `config.name`.
    pub name: String,
    /// Echo of `config.command`.
    pub command: String,
    pub status: ProcessStatus,
    /// Operating-system process id, populated only while running.
    pub pid: Option<u32>,
    /// CPU usage in hundredths of a percent.
    pub cpu_usage: u64,
    /// Resident memory in bytes.
    pub memory_usage: u64,
    /// Wall clock of the most recent successful spawn, in Unix milliseconds.
    pub started_at: u64,
    /// Monotonic restart counter across the lifetime of the entry.
    pub restarts: u32,
    /// The originating declarative specification.
    pub config: ProcessConfig,
}

impl View for ProcessInfo {
    type V = ProcessInfoV;

    open spec fn view(&self) -> ProcessInfoV {
        ProcessInfoV {
            id: self.id@,
            name: self.name@,
            command: self.command@,
            status: self.status,
            pid: self.pid,
            cpu_usage: self.cpu_usage,
            memory_usage: self.memory_usage,
            started_at: self.started_at,
            restarts: self.restarts,
            config: self.config@,
        }
    }
}

/// The mathematical shape of a `ManagedProcess`.
pub ghost struct ManagedProcessV {
    pub info: ProcessInfoV,
    /// The numeric key behind the entry's opaque id string.
    pub id_key: u64,
    pub has_child: bool,
    pub last_restart: Option<u64>,
    pub logs: Seq<Seq<char>>,
}

impl ManagedProcessV {
    /// Lifecycle well-formedness: the child handle is held exactly while the
    /// entry is `Running`, and so is the operating-system pid; the snapshot
    /// echoes its configuration; the log buffer respects its bound.
    pub open spec fn wf(self) -> bool {
        &&& (self.info.status == ProcessStatus::Running <==> self.has_child)
        &&& (self.info.status == ProcessStatus::Running <==> self.info.pid is Some)
        &&& self.info.name == self.info.config.name
        &&& self.info.command == self.info.config.command
        &&& self.info.id == crate::wire::enc_u64(self.id_key as nat)
        &&& self.logs.len() <= MAX_LOG_LINES
    }
}

/// The restart policy: restart exactly when the entry asks for automatic
/// restart, sits in a restartable state, and is out of the cool-down window
/// after its last restart attempt.
pub open spec fn spec_should_restart(e: ManagedProcessV, now_ms: u64) -> bool {
    &&& e.info.config.autorestart
    &&& (e.info.status == ProcessStatus::Errored || e.info.status == ProcessStatus::Stopped)
    &&& match e.last_restart {
        None => true,
        Some(t) => now_ms >= t + RESTART_COOLDOWN_MS,
    }
}

/// A deep copy of a `ProcessConfig`, with the same view as the original.
pub fn copy_config(c: &ProcessConfig) -> (r: ProcessConfig)
    ensures
        r@ == c@,
{
    let mut env: Vec<(String, String)> = Vec::new();
    let mut i: usize = 0;
    while i < c.env.len()
        invariant
            0 <= i <= c.env@.len(),
            env@ == c.env@.take(i as int),
        decreases c.env@.len() - i,
    {
        let k = c.env[i].0.clone();
        let v = c.env[i].1.clone();
        env.push((k, v));
        assert(env@ =~= c.env@.take(i + 1 as int));
        i = i + 1;
    }
    assert(env@ =~= c.env@);
    let cwd = match &c.cwd {
        Some(d) => Some(d.clone()),
        None => None,
    };
    ProcessConfig {
        name: c.name.clone(),
        command: c.command.clone(),
        cwd,
        instances: c.instances,
        autorestart: c.autorestart,
        max_memory: c.max_memory,
        env,
    }
}

/// A deep copy of a `ProcessInfo`, with the same view as the original.
pub fn copy_info(info: &ProcessInfo) -> (r: ProcessInfo)
    ensures
        r@ == info@,
{
    ProcessInfo {
        id: info.id.clone(),
        name: info.name.clone(),
        command: info.command.clone(),
        status: info.status,
        pid: info.pid,
        cpu_usage: info.cpu_usage,
        memory_usage: info.memory_usage,
        started_at: info.started_at,
        restarts: info.restarts,
        config: copy_config(&info.config),
    }
}

/// One child under supervision: its snapshot, whether the daemon holds an
/// OS handle for it, the instant of the last restart attempt, and the
/// bounded log buffer. The OS handle itself lives with the harness that
/// performs process I/O; `has_child` mirrors its presence.
pub struct ManagedProcess {
    pub info: ProcessInfo,
    /// The numeric key the id string was formatted from.
    pub id_key: u64,
    pub has_child: bool,
    /// Unix milliseconds of the last restart attempt.
    pub last_restart: Option<u64>,
    pub log_buffer: Vec<String>,
}

impl View for ManagedProcess {
    type V = ManagedProcessV;

    open spec fn view(&self) -> ManagedProcessV {
        ManagedProcessV {
            info: self.info@,
            id_key: self.id_key,
            has_child: self.has_child,
            last_restart: self.last_restart,
            logs: Seq::new(self.log_buffer@.len(), |i: int| self.log_buffer@[i]@),
        }
    }
}

impl ManagedProcess {
    /// A fresh entry for `config` under the numeric handle `id_key`:
    /// stopped, no pid, no restarts, empty logs.
    pub fn new(config: ProcessConfig, id_key: u64, now_ms: u64) -> (r: Self)
        ensures
            r@.wf(),
            r@.id_key == id_key,
            r@.info.id == crate::wire::enc_u64(id_key as nat),
            r@.info.name == config@.name,
            r@.info.command == config@.command,
            r@.info.status == ProcessStatus::Stopped,
            r@.info.pid is None,
            r@.info.cpu_usage == 0,
            r@.info.memory_usage == 0,
            r@.info.started_at == now_ms,
            r@.info.restarts == 0,
            r@.info.config == config@,
            r@.has_child == false,
            r@.last_restart is None,
            r@.logs == Seq::<Seq<char>>::empty(),
    {
        let name = config.name.clone();
        let command = config.command.clone();
        let id = crate::text::u64_to_string(id_key);
        let info = ProcessInfo {
            id,
            name,
            command,
            status: ProcessStatus::Stopped,
            pid: None,
            cpu_usage: 0,
            memory_usage: 0,
            started_at: now_ms,
            restarts: 0,
            config,
        };
        let r = ManagedProcess { info, id_key, has_child: false, last_restart: None, log_buffer: Vec::new() };
        proof {
            assert(r@.logs =~= Seq::<Seq<char>>::empty());
        }
        r
    }

    /// A successful spawn: the entry becomes `Running`, records the pid and
    /// the spawn instant, and takes the child handle. Everything else is
    /// untouched.
    pub fn on_spawned(&mut self, pid: u32, now_ms: u64)
        requires
            old(self)@.wf(),
            old(self)@.info.status != ProcessStatus::Running,
        ensures
            final(self)@.wf(),
            final(self)@.info.status == ProcessStatus::Running,
            final(self)@.info.pid == Some(pid),
            final(self)@.info.started_at == now_ms,
            final(self)@.has_child,
            final(self)@.info.id == old(self)@.info.id,
            final(self)@.info.name == old(self)@.info.name,
            final(self)@.info.command == old(self)@.info.command,
            final(self)@.info.cpu_usage == old(self)@.info.cpu_usage,
            final(self)@.info.memory_usage == old(self)@.info.memory_usage,
            final(self)@.info.restarts == old(self)@.info.restarts,
            final(self)@.info.config == old(self)@.info.config,
            final(self)@.id_key == old(self)@.id_key,
            final(self)@.last_restart == old(self)@.last_restart,
            final(self)@.logs == old(self)@.logs,
    {
        self.info.status = ProcessStatus::Running;
        self.info.pid = Some(pid);
        self.info.started_at = now_ms;
        self.has_child = true;
    }

    /// A failed spawn: the entry becomes `Errored`; the spawn instant is not
    /// recorded and nothing else changes.
    pub fn on_spawn_failed(&mut self)
        requires
            old(self)@.wf(),
            old(self)@.info.status != ProcessStatus::Running,
        ensures
            final(self)@.wf(),
            final(self)@.info.status == ProcessStatus::Errored,
            final(self)@.info.pid is None,
            !final(self)@.has_child,
            final(self)@.info == (ProcessInfoV { status: ProcessStatus::Errored, ..old(self)@.info }),
            final(self)@.id_key == old(self)@.id_key,
            final(self)@.last_restart == old(self)@.last_restart,
            final(self)@.logs == old(self)@.logs,
    {
        self.info.status = ProcessStatus::Errored;
    }

    /// A stop: if a child is held, it is released and the entry becomes
    /// `Stopped` with no pid; without a child this is a no-op. The restart
    /// counter never moves here.
    pub fn mark_stopped(&mut self)
        requires
            old(self)@.wf(),
        ensures
            final(self)@.wf(),
            old(self)@.has_child ==> final(self)@.info == (ProcessInfoV {
                status: ProcessStatus::Stopped,
                pid: None,
                ..old(self)@.info
            }),
            !old(self)@.has_child ==> final(self)@.info == old(self)@.info,
            !final(self)@.has_child,
            final(self)@.id_key == old(self)@.id_key,
            final(self)@.last_restart == old(self)@.last_restart,
            final(self)@.logs == old(self)@.logs,
    {
        if self.has_child {
            self.has_child = false;
            self.info.status = ProcessStatus::Stopped;
            self.info.pid = None;
        }
    }

    /// A reaped exit: `Stopped` on a success exit code, `Errored` otherwise;
    /// the handle and pid are released.
    pub fn on_exit(&mut self, success: bool)
        requires
            old(self)@.wf(),
            old(self)@.has_child,
        ensures
            final(self)@.wf(),
            final(self)@.info == (ProcessInfoV {
                status: if success {
                    ProcessStatus::Stopped
                } else {
                    ProcessStatus::Errored
                },
                pid: None,
                ..old(self)@.info
            }),
            !final(self)@.has_child,
            final(self)@.id_key == old(self)@.id_key,
            final(self)@.last_restart == old(self)@.last_restart,
            final(self)@.logs == old(self)@.logs,
    {
        self.info.status = if success {
            ProcessStatus::Stopped
        } else {
            ProcessStatus::Errored
        };
        self.info.pid = None;
        self.has_child = false;
    }

    /// A failed reap attempt: the entry becomes `Errored` and the handle and
    /// pid are released.
    pub fn on_reap_error(&mut self)
        requires
            old(self)@.wf(),
            old(self)@.has_child,
        ensures
            final(self)@.wf(),
            final(self)@.info == (ProcessInfoV {
                status: ProcessStatus::Errored,
                pid: None,
                ..old(self)@.info
            }),
            !final(self)@.has_child,
            final(self)@.id_key == old(self)@.id_key,
            final(self)@.last_restart == old(self)@.last_restart,
            final(self)@.logs == old(self)@.logs,
    {
        self.info.status = ProcessStatus::Errored;
        self.info.pid = None;
        self.has_child = false;
    }

    /// A fresh resource sample. Sampling never touches the lifecycle state.
    pub fn record_usage(&mut self, cpu: u64, mem: u64)
        requires
            old(self)@.wf(),
        ensures
            final(self)@.wf(),
            final(self)@.info == (ProcessInfoV {
                cpu_usage: cpu,
                memory_usage: mem,
                ..old(self)@.info
            }),
            final(self)@.has_child == old(self)@.has_child,
            final(self)@.id_key == old(self)@.id_key,
            final(self)@.last_restart == old(self)@.last_restart,
            final(self)@.logs == old(self)@.logs,
    {
        self.info.cpu_usage = cpu;
        self.info.memory_usage = mem;
    }

    /// The bookkeeping half of a restart: the entry is stopped if needed,
    /// tagged `Restarting`, its restart counter stepped, and the attempt
    /// instant recorded. The spawn that completes the restart follows as
    /// `on_spawned` or `on_spawn_failed`.
    pub fn begin_restart(&mut self, now_ms: u64)
        requires
            old(self)@.wf(),
        ensures
            final(self)@.wf(),
            final(self)@.info == (ProcessInfoV {
                status: ProcessStatus::Restarting,
                pid: None,
                restarts: if old(self)@.info.restarts == u32::MAX {
                    u32::MAX
                } else {
                    (old(self)@.info.restarts + 1) as u32
                },
                ..old(self)@.info
            }),
            final(self)@.info.restarts >= old(self)@.info.restarts,
            !final(self)@.has_child,
            final(self)@.id_key == old(self)@.id_key,
            final(self)@.last_restart == Some(now_ms),
            final(self)@.logs == old(self)@.logs,
    {
        self.has_child = false;
        self.info.status = ProcessStatus::Restarting;
        self.info.pid = None;
        self.info.restarts = if self.info.restarts == u32::MAX {
            u32::MAX
        } else {
            self.info.restarts + 1
        };
        self.last_restart = Some(now_ms);
    }

    /// The restart policy predicate at wall clock `now_ms`.
    pub fn should_restart(&self, now_ms: u64) -> (r: bool)
        ensures
            r == spec_should_restart(self@, now_ms),
    {
        if !self.info.config.autorestart {
            return false;
        }
        if !(matches!(self.info.status, ProcessStatus::Errored) || matches!(
            self.info.status,
            ProcessStatus::Stopped,
        )) {
            return false;
        }
        match self.last_restart {
            None => true,
            Some(t) => now_ms >= t && now_ms - t >= RESTART_COOLDOWN_MS,
        }
    }

    /// Append one captured output line, dropping the oldest line once the
    /// buffer is full.
    pub fn push_log(&mut self, line: String)
        requires
            old(self)@.wf(),
        ensures
            final(self)@.wf(),
            final(self)@.info == old(self)@.info,
            final(self)@.id_key == old(self)@.id_key,
            final(self)@.has_child == old(self)@.has_child,
            final(self)@.last_restart == old(self)@.last_restart,
            old(self)@.logs.len() < MAX_LOG_LINES ==> final(self)@.logs == old(self)@.logs.push(
                line@,
            ),
            old(self)@.logs.len() >= MAX_LOG_LINES ==> final(self)@.logs == old(
                self,
            )@.logs.drop_first().push(line@),
    {
        if self.log_buffer.len() >= MAX_LOG_LINES {
            self.log_buffer.remove(0);
            proof {
                assert(self@.logs =~= old(self)@.logs.drop_first());
            }
        }
        let ghost mid = self@.logs;
        self.log_buffer.push(line);
        proof {
            assert(self@.logs =~= mid.push(line@));
        }
    }

    /// The last `lines` captured lines (all of them when the buffer is
    /// shorter).
    pub fn tail_logs(&self, lines: usize) -> (r: Vec<String>)
        ensures
            r@.len() == if self@.logs.len() > lines {
                lines as int
            } else {
                self@.logs.len() as int
            },
            Seq::new(r@.len(), |i: int| r@[i]@) == self@.logs.skip(
                if self@.logs.len() > lines {
                    self@.logs.len() - lines as int
                } else {
                    0
                },
            ),
    {
        let total = self.log_buffer.len();
        let start = if total > lines {
            total - lines
        } else {
            0
        };
        let mut r: Vec<String> = Vec::new();
        let mut i: usize = start;
        while i < total
            invariant
                start <= i <= total,
                total == self.log_buffer@.len(),
                r@.len() == i - start,
                forall|j: int| 0 <= j < i - start ==> #[trigger] r@[j]@ == self.log_buffer@[
                    start + j]@,
            decreases total - i,
        {
            let line = self.log_buffer[i].clone();
            r.push(line);
            i = i + 1;
        }
        proof {
            assert(Seq::new(r@.len(), |i: int| r@[i]@) =~= self@.logs.skip(
                if self@.logs.len() > lines {
                    self@.logs.len() - lines as int
                } else {
                    0
                },
            ));
        }
        r
    }
}

} // verus!
