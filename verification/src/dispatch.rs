//! Request dispatch: one IPC request maps to exactly one manager
//! operation, and the manager's typed result maps back to one response
//! frame plus the side effects the harness owes (a signal to send, state to
//! persist, a shutdown to begin).

use vstd::prelude::*;

use crate::codec::{enc_state, spec_decode_state};
use crate::error::{RpmError, RpmErrorV, spec_error_message};
use crate::ipc::{IpcRequest, IpcRequestV, IpcResponse, IpcResponseV};
use crate::manager::{
    spec_configs, spec_fresh_entry, spec_fresh_roster, spec_restarted, spec_spawned, spec_stopped,
    ProcessManager, ProcessManagerV,
};
use crate::text::{concat2, concat3};
use crate::wire::enc_u64;

verus! {

/// The side effects the harness performs after answering a request.
pub struct Effects {
    /// A pid the harness must signal and reap: set by stop, by delete, and
    /// by a start that replaced a running entry.
    pub kill_pid: Option<u32>,
    /// The serialized roster to persist, present after every successful
    /// mutation.
    pub save: Option<String>,
    /// Whether the daemon should shut down after answering.
    pub shutdown: bool,
}

/// The mathematical shape of `Effects`.
pub ghost struct EffectsV {
    pub kill_pid: Option<u32>,
    pub save: Option<Seq<char>>,
    pub shutdown: bool,
}

impl View for Effects {
    type V = EffectsV;

    open spec fn view(&self) -> EffectsV {
        EffectsV {
            kill_pid: self.kill_pid,
            save: match self.save {
                Some(ref s) => Some(s@),
                None => None,
            },
            shutdown: self.shutdown,
        }
    }
}

/// No side effects at all.
pub open spec fn no_effects(e: EffectsV) -> bool {
    e.kill_pid is None && e.save is None && !e.shutdown
}

/// The response `Error` carrying the rendering of `e`.
pub open spec fn error_resp(e: RpmErrorV) -> IpcResponseV {
    IpcResponseV::Error(spec_error_message(e))
}

/// What one dispatched request means: how the roster after the call
/// relates to the roster before it, which response frame is owed, and
/// which side effects. `spawnv` is the outcome of the spawn the harness
/// attempted beforehand (for the request shapes that need one), `savedv`
/// the persisted text it read beforehand (for resurrection).
pub open spec fn dispatch_post(
    pre: ProcessManagerV,
    post: ProcessManagerV,
    req: IpcRequestV,
    spawnv: Option<Result<u32, Seq<char>>>,
    savedv: Option<Seq<char>>,
    now_ms: u64,
    resp: IpcResponseV,
    eff: EffectsV,
) -> bool {
    match req {
        IpcRequestV::StartProcess(c) => spawnv matches Some(sp) && match sp {
            Ok(pid) => {
                let newe = spec_spawned(spec_fresh_entry(c, pre.next_id, now_ms), pid, now_ms);
                &&& post.next_id == pre.next_id + 1
                &&& if pre.has_name(c.name) {
                    exists|i: int|
                        {
                            &&& 0 <= i < pre.entries.len()
                            &&& (#[trigger] pre.entries[i]).info.name == c.name
                            &&& post.entries == pre.entries.remove(i).push(newe)
                            &&& eff.kill_pid == pre.entries[i].info.pid
                        }
                } else {
                    post.entries == pre.entries.push(newe) && eff.kill_pid is None
                }
                &&& resp == IpcResponseV::Success(
                    "Process started with id: "@ + enc_u64(pre.next_id as nat),
                )
                &&& eff.save == Some(enc_state(spec_configs(post.entries)))
                &&& !eff.shutdown
            },
            Err(m) => {
                &&& post == pre
                &&& resp == error_resp(
                    RpmErrorV::Process("Failed to start process '"@ + c.name + "': "@ + m),
                )
                &&& no_effects(eff)
            },
        },
        IpcRequestV::StopProcess(n) => if pre.has_name(n) {
            exists|i: int|
                {
                    &&& 0 <= i < pre.entries.len()
                    &&& (#[trigger] pre.entries[i]).info.name == n
                    &&& post.entries == pre.entries.update(i, spec_stopped(pre.entries[i]))
                    &&& eff.kill_pid == pre.entries[i].info.pid
                    &&& post.next_id == pre.next_id
                    &&& resp == IpcResponseV::Success("Process '"@ + n + "' stopped"@)
                    &&& eff.save == Some(enc_state(spec_configs(post.entries)))
                    &&& !eff.shutdown
                }
        } else {
            &&& post == pre
            &&& resp == error_resp(RpmErrorV::ProcessNotFound(n))
            &&& no_effects(eff)
        },
        IpcRequestV::RestartProcess(n) => restart_like(pre, post, n, spawnv, now_ms, resp, eff,
            "' restarted"@),
        IpcRequestV::ReloadProcess(n) => restart_like(pre, post, n, spawnv, now_ms, resp, eff,
            "' reloaded"@),
        IpcRequestV::DeleteProcess(n) => if pre.has_name(n) {
            exists|i: int|
                {
                    &&& 0 <= i < pre.entries.len()
                    &&& (#[trigger] pre.entries[i]).info.name == n
                    &&& post.entries == pre.entries.remove(i)
                    &&& eff.kill_pid == pre.entries[i].info.pid
                    &&& post.next_id == pre.next_id
                    &&& resp == IpcResponseV::Success("Process '"@ + n + "' deleted"@)
                    &&& eff.save == Some(enc_state(spec_configs(post.entries)))
                    &&& !eff.shutdown
                }
        } else {
            &&& post == pre
            &&& resp == error_resp(RpmErrorV::ProcessNotFound(n))
            &&& no_effects(eff)
        },
        IpcRequestV::ListProcesses => {
            &&& post == pre
            &&& resp == IpcResponseV::ProcessList(
                Seq::new(pre.entries.len(), |i: int| pre.entries[i].info),
            )
            &&& no_effects(eff)
        },
        IpcRequestV::GetProcessInfo(n) => {
            &&& post == pre
            &&& no_effects(eff)
            &&& if pre.has_name(n) {
                exists|i: int|
                    {
                        &&& 0 <= i < pre.entries.len()
                        &&& (#[trigger] pre.entries[i]).info.name == n
                        &&& resp == IpcResponseV::ProcessInfo(pre.entries[i].info)
                    }
            } else {
                resp == error_resp(RpmErrorV::ProcessNotFound(n))
            }
        },
        IpcRequestV::GetLogs { name, lines, follow } => {
            &&& post == pre
            &&& no_effects(eff)
            &&& if pre.has_name(name) {
                exists|i: int|
                    {
                        &&& 0 <= i < pre.entries.len()
                        &&& (#[trigger] pre.entries[i]).info.name == name
                        &&& resp == IpcResponseV::Logs(
                            pre.entries[i].logs.skip(
                                if pre.entries[i].logs.len() > lines {
                                    pre.entries[i].logs.len() - lines as int
                                } else {
                                    0
                                },
                            ),
                        )
                    }
            } else {
                resp == error_resp(RpmErrorV::ProcessNotFound(name))
            }
        },
        IpcRequestV::Monitor => {
            &&& post == pre
            &&& resp == IpcResponseV::Success("Monitor not implemented in this context"@)
            &&& no_effects(eff)
        },
        IpcRequestV::KillDaemon => {
            &&& post == pre
            &&& resp == IpcResponseV::Success("Daemon shutdown requested"@)
            &&& eff.kill_pid is None
            &&& eff.save is None
            &&& eff.shutdown
        },
        IpcRequestV::SaveProcesses => {
            &&& post == pre
            &&& resp == IpcResponseV::Success("Processes saved"@)
            &&& eff.kill_pid is None
            &&& eff.save == Some(enc_state(spec_configs(pre.entries)))
            &&& !eff.shutdown
        },
        IpcRequestV::ResurrectProcesses => savedv matches Some(text) && match spec_decode_state(
            text,
        ) {
            None => {
                &&& post == pre
                &&& resp == error_resp(RpmErrorV::Config("Failed to parse processes file"@))
                &&& no_effects(eff)
            },
            Some(cs) => if pre.next_id + cs.len() <= u64::MAX {
                &&& post.entries == spec_fresh_roster(cs, pre.next_id, now_ms)
                &&& post.next_id == pre.next_id + cs.len()
                &&& resp == IpcResponseV::Success("Processes resurrected"@)
                &&& no_effects(eff)
            } else {
                &&& post == pre
                &&& resp == error_resp(
                    RpmErrorV::Config("process identifier space exhausted"@),
                )
                &&& no_effects(eff)
            },
        },
    }
}

/// What restart and reload mean: the entry's counter steps and the
/// harness's spawn outcome is folded in; the suffix tells the two success
/// messages apart.
pub open spec fn restart_like(
    pre: ProcessManagerV,
    post: ProcessManagerV,
    n: Seq<char>,
    spawnv: Option<Result<u32, Seq<char>>>,
    now_ms: u64,
    resp: IpcResponseV,
    eff: EffectsV,
    suffix: Seq<char>,
) -> bool {
    spawnv matches Some(sp) && if pre.has_name(n) {
        exists|i: int|
            {
                &&& 0 <= i < pre.entries.len()
                &&& (#[trigger] pre.entries[i]).info.name == n
                &&& post.entries == pre.entries.update(
                    i,
                    spec_restarted(pre.entries[i], sp, now_ms),
                )
                &&& post.next_id == pre.next_id
                &&& eff.kill_pid is None
                &&& !eff.shutdown
                &&& match sp {
                    Ok(_) => {
                        &&& resp == IpcResponseV::Success("Process '"@ + n + suffix)
                        &&& eff.save == Some(enc_state(spec_configs(post.entries)))
                    },
                    Err(m) => {
                        &&& resp == error_resp(
                            RpmErrorV::Process("Failed to start process '"@ + n + "': "@ + m),
                        )
                        &&& eff.save is None
                    },
                }
            }
    } else {
        &&& post == pre
        &&& resp == error_resp(RpmErrorV::ProcessNotFound(n))
        &&& no_effects(eff)
    }
}

/// The view of a spawn outcome handed in by the harness.
pub open spec fn spawn_view(spawn: Option<Result<u32, String>>) -> Option<Result<u32, Seq<char>>> {
    match spawn {
        None => None,
        Some(Ok(p)) => Some(Ok(p)),
        Some(Err(ref m)) => Some(Err(m@)),
    }
}

/// The view of the persisted text handed in by the harness.
pub open spec fn saved_view(saved: Option<String>) -> Option<Seq<char>> {
    match saved {
        None => None,
        Some(ref t) => Some(t@),
    }
}

fn error_response(e: RpmError) -> (r: IpcResponse)
    ensures
        r@ == error_resp(e@),
{
    IpcResponse::Error(e.message())
}

fn quiet_effects() -> (r: Effects)
    ensures
        no_effects(r@),
{
    Effects { kill_pid: None, save: None, shutdown: false }
}

impl ProcessManager {
    /// Serve one request against this manager at wall clock `now_ms`. The
    /// harness attempts the spawn beforehand where the request calls for
    /// one (start, restart, reload — after signalling the old child for the
    /// latter two), and reads the persisted text beforehand for
    /// resurrection; the returned effects tell it what to do afterwards.
    pub fn handle_request(
        &mut self,
        req: IpcRequest,
        spawn: Option<Result<u32, String>>,
        saved: Option<String>,
        now_ms: u64,
    ) -> (r: (IpcResponse, Effects))
        requires
            old(self)@.wf(),
            old(self)@.next_id < u64::MAX,
            (req@ is StartProcess || req@ is RestartProcess || req@ is ReloadProcess) ==> spawn
                is Some,
            req@ is ResurrectProcesses ==> saved is Some,
        ensures
            final(self)@.wf(),
            final(self)@.config == old(self)@.config,
            dispatch_post(
                old(self)@,
                final(self)@,
                req@,
                spawn_view(spawn),
                saved_view(saved),
                now_ms,
                r.0@,
                r.1@,
            ),
    {
        match req {
            IpcRequest::StartProcess(config) => {
                let sp = spawn.unwrap();
                let kill_pid = match sp {
                    Ok(_) => self.pid_of(config.name.as_str()),
                    Err(_) => None,
                };
                match self.start_process(config, sp, now_ms) {
                    Ok(id) => {
                        let msg = concat2("Process started with id: ", id.as_str());
                        let save = self.save_state();
                        (
                            IpcResponse::Success(msg),
                            Effects { kill_pid, save: Some(save), shutdown: false },
                        )
                    },
                    Err(e) => (error_response(e), quiet_effects()),
                }
            },
            IpcRequest::StopProcess(name) => {
                let kill_pid = self.pid_of(name.as_str());
                match self.stop_process(name.as_str()) {
                    Ok(_) => {
                        let msg = concat3("Process '", name.as_str(), "' stopped");
                        let save = self.save_state();
                        (
                            IpcResponse::Success(msg),
                            Effects { kill_pid, save: Some(save), shutdown: false },
                        )
                    },
                    Err(e) => (error_response(e), quiet_effects()),
                }
            },
            IpcRequest::RestartProcess(name) => {
                let sp = spawn.unwrap();
                match self.restart_process(name.as_str(), sp, now_ms) {
                    Ok(_) => {
                        let msg = concat3("Process '", name.as_str(), "' restarted");
                        let save = self.save_state();
                        (
                            IpcResponse::Success(msg),
                            Effects { kill_pid: None, save: Some(save), shutdown: false },
                        )
                    },
                    Err(e) => (error_response(e), quiet_effects()),
                }
            },
            IpcRequest::ReloadProcess(name) => {
                let sp = spawn.unwrap();
                match self.restart_process(name.as_str(), sp, now_ms) {
                    Ok(_) => {
                        let msg = concat3("Process '", name.as_str(), "' reloaded");
                        let save = self.save_state();
                        (
                            IpcResponse::Success(msg),
                            Effects { kill_pid: None, save: Some(save), shutdown: false },
                        )
                    },
                    Err(e) => (error_response(e), quiet_effects()),
                }
            },
            IpcRequest::DeleteProcess(name) => {
                let kill_pid = self.pid_of(name.as_str());
                match self.delete_process(name.as_str()) {
                    Ok(_) => {
                        let msg = concat3("Process '", name.as_str(), "' deleted");
                        let save = self.save_state();
                        (
                            IpcResponse::Success(msg),
                            Effects { kill_pid, save: Some(save), shutdown: false },
                        )
                    },
                    Err(e) => (error_response(e), quiet_effects()),
                }
            },
            IpcRequest::ListProcesses => {
                let infos = self.list_processes();
                proof {
                    assert(Seq::new(infos@.len(), |i: int| infos@[i]@) =~= Seq::new(
                        self@.entries.len(),
                        |i: int| self@.entries[i].info,
                    ));
                }
                (IpcResponse::ProcessList(infos), quiet_effects())
            },
            IpcRequest::GetProcessInfo(name) => {
                match self.get_process_info(name.as_str()) {
                    Ok(info) => (IpcResponse::ProcessInfo(info), quiet_effects()),
                    Err(e) => (error_response(e), quiet_effects()),
                }
            },
            IpcRequest::GetLogs { name, lines, follow: _ } => {
                match self.get_logs(name.as_str(), lines) {
                    Ok(logs) => {
                        proof {
                            let i = choose|i: int|
                                0 <= i < self@.entries.len() && (
                                #[trigger] self@.entries[i]).info.name == name@ && Seq::new(
                                    logs@.len(),
                                    |j: int| logs@[j]@,
                                ) == self@.entries[i].logs.skip(
                                    if self@.entries[i].logs.len() > lines {
                                        self@.entries[i].logs.len() - lines as int
                                    } else {
                                        0
                                    },
                                );
                        }
                        (IpcResponse::Logs(logs), quiet_effects())
                    },
                    Err(e) => (error_response(e), quiet_effects()),
                }
            },
            IpcRequest::Monitor => {
                (
                    IpcResponse::Success(
                        String::from_str("Monitor not implemented in this context"),
                    ),
                    quiet_effects(),
                )
            },
            IpcRequest::KillDaemon => {
                (
                    IpcResponse::Success(String::from_str("Daemon shutdown requested")),
                    Effects { kill_pid: None, save: None, shutdown: true },
                )
            },
            IpcRequest::SaveProcesses => {
                let save = self.save_state();
                (
                    IpcResponse::Success(String::from_str("Processes saved")),
                    Effects { kill_pid: None, save: Some(save), shutdown: false },
                )
            },
            IpcRequest::ResurrectProcesses => {
                let text = saved.unwrap();
                match self.load_state(text.as_str(), now_ms) {
                    Ok(_) => {
                        (
                            IpcResponse::Success(String::from_str("Processes resurrected")),
                            quiet_effects(),
                        )
                    },
                    Err(e) => (error_response(e), quiet_effects()),
                }
            },
        }
    }
}

// ---------------------------------------------------------------------------
// The wall clock
// ---------------------------------------------------------------------------

/// Relies on chrono's `Utc::now` and `DateTime::timestamp_millis`: the
/// current wall-clock time as Unix milliseconds (negative before the
/// epoch). Nothing can be promised of the clock's value. (`Utc::now`
/// aborts only for clocks outside chrono's representable range of years.)
#[verifier::external_body]
fn now_millis_raw() -> i64 {
    chrono::Utc::now().timestamp_millis()
}

/// The current wall clock in Unix milliseconds, clamped below at the
/// epoch.
pub fn now_unix_ms() -> u64 {
    let t = now_millis_raw();
    if t < 0 {
        0
    } else {
        t as u64
    }
}

impl ProcessManager {
    /// Serve one request at the current wall clock. The roster stays well
    /// formed, and for some reading of the clock the request means exactly
    /// what `dispatch_post` says.
    pub fn handle_request_now(
        &mut self,
        req: IpcRequest,
        spawn: Option<Result<u32, String>>,
        saved: Option<String>,
    ) -> (r: (IpcResponse, Effects))
        requires
            old(self)@.wf(),
            old(self)@.next_id < u64::MAX,
            (req@ is StartProcess || req@ is RestartProcess || req@ is ReloadProcess) ==> spawn
                is Some,
            req@ is ResurrectProcesses ==> saved is Some,
        ensures
            final(self)@.wf(),
            final(self)@.config == old(self)@.config,
            exists|now_ms: u64|
                dispatch_post(
                    old(self)@,
                    final(self)@,
                    req@,
                    spawn_view(spawn),
                    saved_view(saved),
                    now_ms,
                    r.0@,
                    r.1@,
                ),
    {
        let now_ms = now_unix_ms();
        self.handle_request(req, spawn, saved, now_ms)
    }
}

} // verus!
