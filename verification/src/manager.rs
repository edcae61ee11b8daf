//! The `ProcessManager`: the roster of managed children and every mutation
//! to it — user operations, the monitor pass, and durable state.

use vstd::prelude::*;

use crate::cli::{ProcessConfig, ProcessConfigV};
use crate::config::Config;
use crate::error::{RpmError, RpmErrorV};
use crate::process::{
    copy_config, copy_info, ManagedProcess, ManagedProcessV, ProcessInfo, ProcessInfoV,
    ProcessStatus, spec_should_restart,
};
use crate::text::{concat2, concat3};
use crate::wire::enc_u64;

verus! {

// ---------------------------------------------------------------------------
// Spec-level entry transforms
// ---------------------------------------------------------------------------

/// What `stop` does to one entry: a held child is released and the entry
/// parks in `Stopped`; without a child nothing changes.
pub open spec fn spec_stopped(e: ManagedProcessV) -> ManagedProcessV {
    if e.has_child {
        ManagedProcessV {
            info: ProcessInfoV { status: ProcessStatus::Stopped, pid: None, ..e.info },
            has_child: false,
            ..e
        }
    } else {
        e
    }
}

/// The bookkeeping half of a restart: stopped, tagged `Restarting`, counter
/// stepped, attempt instant recorded.
pub open spec fn spec_begin_restart(e: ManagedProcessV, now_ms: u64) -> ManagedProcessV {
    ManagedProcessV {
        info: ProcessInfoV {
            status: ProcessStatus::Restarting,
            pid: None,
            restarts: if e.info.restarts == u32::MAX {
                u32::MAX
            } else {
                (e.info.restarts + 1) as u32
            },
            ..e.info
        },
        has_child: false,
        last_restart: Some(now_ms),
        ..e
    }
}

/// A successful spawn folded into one entry.
pub open spec fn spec_spawned(e: ManagedProcessV, pid: u32, now_ms: u64) -> ManagedProcessV {
    ManagedProcessV {
        info: ProcessInfoV {
            status: ProcessStatus::Running,
            pid: Some(pid),
            started_at: now_ms,
            ..e.info
        },
        has_child: true,
        ..e
    }
}

/// A failed spawn folded into one entry.
pub open spec fn spec_spawn_failed(e: ManagedProcessV) -> ManagedProcessV {
    ManagedProcessV {
        info: ProcessInfoV { status: ProcessStatus::Errored, ..e.info },
        ..e
    }
}

/// A whole restart: the bookkeeping half, then the spawn outcome.
pub open spec fn spec_restarted(
    e: ManagedProcessV,
    spawn: Result<u32, Seq<char>>,
    now_ms: u64,
) -> ManagedProcessV {
    match spawn {
        Ok(pid) => spec_spawned(spec_begin_restart(e, now_ms), pid, now_ms),
        Err(_) => spec_spawn_failed(spec_begin_restart(e, now_ms)),
    }
}

/// A fresh roster entry for `c` under numeric key `key` at wall clock
/// `now_ms`.
pub open spec fn spec_fresh_entry(c: ProcessConfigV, key: u64, now_ms: u64) -> ManagedProcessV {
    ManagedProcessV {
        info: ProcessInfoV {
            id: enc_u64(key as nat),
            name: c.name,
            command: c.command,
            status: ProcessStatus::Stopped,
            pid: None,
            cpu_usage: 0,
            memory_usage: 0,
            started_at: now_ms,
            restarts: 0,
            config: c,
        },
        id_key: key,
        has_child: false,
        last_restart: None,
        logs: Seq::empty(),
    }
}

/// Whether the entry's observed memory strictly exceeds its configured cap
/// (in MiB). An absent cap never trips; an exactly-met cap never trips.
pub open spec fn spec_over_cap(e: ManagedProcessV) -> bool {
    match e.info.config.max_memory {
        Some(cap) => e.info.memory_usage / 1024 / 1024 > cap,
        None => false,
    }
}

/// Whether the monitor pass owes this entry a restart at `now_ms`.
pub open spec fn spec_restart_due(e: ManagedProcessV, now_ms: u64) -> bool {
    spec_should_restart(e, now_ms) || spec_over_cap(e)
}

/// The names the monitor pass enqueues for restart, in roster order.
pub open spec fn spec_queue(entries: Seq<ManagedProcessV>, now_ms: u64) -> Seq<Seq<char>>
    decreases entries.len(),
{
    if entries.len() == 0 {
        Seq::empty()
    } else {
        let rest = spec_queue(entries.drop_first(), now_ms);
        if spec_restart_due(entries[0], now_ms) {
            seq![entries[0].info.name] + rest
        } else {
            rest
        }
    }
}

pub proof fn lemma_spec_queue_push(entries: Seq<ManagedProcessV>, e: ManagedProcessV, now_ms: u64)
    ensures
        spec_queue(entries.push(e), now_ms) == spec_queue(entries, now_ms) + (if spec_restart_due(
            e,
            now_ms,
        ) {
            seq![e.info.name]
        } else {
            Seq::<Seq<char>>::empty()
        }),
    decreases entries.len(),
{
    let t = entries.push(e);
    if entries.len() == 0 {
        assert(t[0] == e);
        assert(t.drop_first() =~= Seq::<ManagedProcessV>::empty());
        assert(spec_queue(Seq::<ManagedProcessV>::empty(), now_ms) == Seq::<Seq<char>>::empty());
        assert(entries =~= Seq::<ManagedProcessV>::empty());
        if spec_restart_due(e, now_ms) {
            assert(spec_queue(t, now_ms) =~= seq![e.info.name]);
            assert(spec_queue(entries, now_ms) + seq![e.info.name] =~= seq![e.info.name]);
        } else {
            assert(spec_queue(entries, now_ms) + Seq::<Seq<char>>::empty() =~= Seq::<
                Seq<char>,
            >::empty());
        }
    } else {
        lemma_spec_queue_push(entries.drop_first(), e, now_ms);
        assert(t[0] == entries[0]);
        assert(t.drop_first() =~= entries.drop_first().push(e));
        let tailq = spec_queue(entries.drop_first(), now_ms);
        let add = if spec_restart_due(e, now_ms) {
            seq![e.info.name]
        } else {
            Seq::<Seq<char>>::empty()
        };
        if spec_restart_due(entries[0], now_ms) {
            assert(seq![entries[0].info.name] + (tailq + add) =~= (seq![entries[0].info.name]
                + tailq) + add);
        }
    }
}

/// The declared configurations of a roster, in roster order.
pub open spec fn spec_configs(entries: Seq<ManagedProcessV>) -> Seq<ProcessConfigV> {
    Seq::new(entries.len(), |i: int| entries[i].info.config)
}

/// The mathematical shape of a `ProcessManager`.
pub ghost struct ProcessManagerV {
    pub entries: Seq<ManagedProcessV>,
    pub config: Config,
    pub next_id: u64,
}

impl ProcessManagerV {
    /// Roster well-formedness: every entry well formed, names unique, and
    /// every numeric id key below the counter and pairwise distinct.
    pub open spec fn wf(self) -> bool {
        &&& forall|i: int| 0 <= i < self.entries.len() ==> (#[trigger] self.entries[i]).wf()
        &&& forall|i: int, j: int|
            0 <= i < j < self.entries.len() ==> (#[trigger] self.entries[i]).info.name != (
            #[trigger] self.entries[j]).info.name
        &&& forall|i: int|
            0 <= i < self.entries.len() ==> (#[trigger] self.entries[i]).id_key < self.next_id
        &&& forall|i: int, j: int|
            0 <= i < j < self.entries.len() ==> (#[trigger] self.entries[i]).id_key != (
            #[trigger] self.entries[j]).id_key
    }

    /// Whether some entry carries this name.
    pub open spec fn has_name(self, name: Seq<char>) -> bool {
        exists|i: int| 0 <= i < self.entries.len() && (#[trigger] self.entries[i]).info.name == name
    }
}

/// The roster of managed children, the daemon settings, and the counter
/// behind the opaque entry ids.
pub struct ProcessManager {
    pub processes: Vec<ManagedProcess>,
    pub config: Config,
    pub next_id: u64,
}

impl View for ProcessManager {
    type V = ProcessManagerV;

    open spec fn view(&self) -> ProcessManagerV {
        ProcessManagerV {
            entries: Seq::new(self.processes@.len(), |i: int| self.processes@[i]@),
            config: self.config,
            next_id: self.next_id,
        }
    }
}

impl ProcessManager {
    /// An empty manager under the given daemon settings.
    pub fn new(config: Config) -> (r: Self)
        ensures
            r@.wf(),
            r@.entries == Seq::<ManagedProcessV>::empty(),
            r@.config == config,
            r@.next_id == 0,
    {
        let r = ProcessManager { processes: Vec::new(), config, next_id: 0 };
        proof {
            assert(r@.entries =~= Seq::<ManagedProcessV>::empty());
        }
        r
    }

    /// The index of the entry named `name`, if any.
    pub(crate) fn find_index(&self, name: &str) -> (r: Option<usize>)
        ensures
            match r {
                Some(i) => {
                    &&& i < self@.entries.len()
                    &&& self@.entries[i as int].info.name == name@
                },
                None => !self@.has_name(name@),
            },
    {
        let name_s = String::from_str(name);
        let mut i: usize = 0;
        while i < self.processes.len()
            invariant
                name_s@ == name@,
                0 <= i <= self@.entries.len(),
                self@.entries.len() == self.processes@.len(),
                forall|j: int|
                    0 <= j < i ==> (#[trigger] self@.entries[j]).info.name != name@,
            decreases self@.entries.len() - i,
        {
            if self.processes[i].info.name.eq(&name_s) {
                return Some(i);
            }
            assert(self@.entries[i as int].info.name != name@);
            i = i + 1;
        }
        None
    }

    /// A snapshot of every entry, in roster order.
    pub fn list_processes(&self) -> (r: Vec<ProcessInfo>)
        ensures
            r@.len() == self@.entries.len(),
            forall|i: int|
                0 <= i < r@.len() ==> (#[trigger] r@[i])@ == self@.entries[i].info,
    {
        let mut r: Vec<ProcessInfo> = Vec::new();
        let mut i: usize = 0;
        while i < self.processes.len()
            invariant
                0 <= i <= self@.entries.len(),
                self@.entries.len() == self.processes@.len(),
                r@.len() == i,
                forall|j: int|
                    0 <= j < i ==> (#[trigger] r@[j])@ == self@.entries[j].info,
            decreases self@.entries.len() - i,
        {
            let info = copy_info(&self.processes[i].info);
            r.push(info);
            i = i + 1;
        }
        r
    }

    /// The snapshot of the entry named `name`; `ProcessNotFound` when it is
    /// absent.
    pub fn get_process_info(&self, name: &str) -> (r: Result<ProcessInfo, RpmError>)
        ensures
            (r is Ok) <==> self@.has_name(name@),
            r matches Ok(info) ==> exists|i: int|
                {
                    &&& 0 <= i < self@.entries.len()
                    &&& (#[trigger] self@.entries[i]).info.name == name@
                    &&& info@ == self@.entries[i].info
                },
            r matches Err(e) ==> e@ == RpmErrorV::ProcessNotFound(name@),
    {
        match self.find_index(name) {
            Some(i) => Ok(copy_info(&self.processes[i].info)),
            None => Err(RpmError::ProcessNotFound(String::from_str(name))),
        }
    }

    /// The operating-system pid of the entry named `name`, exactly:
    /// present if and only if the entry exists and is running with one.
    /// The harness directs signals by this lookup.
    pub fn pid_of(&self, name: &str) -> (r: Option<u32>)
        ensures
            self@.has_name(name@) ==> exists|i: int|
                {
                    &&& 0 <= i < self@.entries.len()
                    &&& (#[trigger] self@.entries[i]).info.name == name@
                    &&& r == self@.entries[i].info.pid
                },
            !self@.has_name(name@) ==> r is None,
    {
        match self.find_index(name) {
            Some(i) => self.processes[i].info.pid,
            None => None,
        }
    }

    /// The last `lines` log lines of the entry named `name`;
    /// `ProcessNotFound` when it is absent.
    pub fn get_logs(&self, name: &str, lines: usize) -> (r: Result<Vec<String>, RpmError>)
        ensures
            (r is Ok) <==> self@.has_name(name@),
            r matches Ok(v) ==> exists|i: int|
                {
                    &&& 0 <= i < self@.entries.len()
                    &&& (#[trigger] self@.entries[i]).info.name == name@
                    &&& Seq::new(v@.len(), |j: int| v@[j]@) == self@.entries[i].logs.skip(
                        if self@.entries[i].logs.len() > lines {
                            self@.entries[i].logs.len() - lines as int
                        } else {
                            0
                        },
                    )
                },
            r matches Err(e) ==> e@ == RpmErrorV::ProcessNotFound(name@),
    {
        match self.find_index(name) {
            Some(i) => Ok(self.processes[i].tail_logs(lines)),
            None => Err(RpmError::ProcessNotFound(String::from_str(name))),
        }
    }

    /// Append one captured output line to the entry named `name`; reports
    /// whether the entry exists.
    pub fn append_log(&mut self, name: &str, line: String) -> (r: bool)
        requires
            old(self)@.wf(),
        ensures
            final(self)@.wf(),
            final(self)@.config == old(self)@.config,
            final(self)@.next_id == old(self)@.next_id,
            r == old(self)@.has_name(name@),
            !r ==> final(self)@ == old(self)@,
            r ==> exists|i: int|
                {
                    &&& 0 <= i < old(self)@.entries.len()
                    &&& (#[trigger] old(self)@.entries[i]).info.name == name@
                    &&& final(self)@.entries == old(self)@.entries.update(
                        i,
                        final(self)@.entries[i],
                    )
                    &&& final(self)@.entries[i].info == old(self)@.entries[i].info
                    &&& final(self)@.entries[i].has_child == old(self)@.entries[i].has_child
                    &&& final(self)@.entries[i].last_restart == old(self)@.entries[i].last_restart
                    &&& old(self)@.entries[i].logs.len() < crate::process::MAX_LOG_LINES
                        ==> final(self)@.entries[i].logs == old(self)@.entries[i].logs.push(line@)
                    &&& old(self)@.entries[i].logs.len() >= crate::process::MAX_LOG_LINES
                        ==> final(self)@.entries[i].logs == old(self)@.entries[
                        i].logs.drop_first().push(line@)
                },
    {
        match self.find_index(name) {
            Some(i) => {
                let ghost pre = self@.entries;
                let entry = &mut self.processes[i];
                proof {
                    assert(pre[i as int] == entry@);
                }
                entry.push_log(line);
                proof {
                    assert(self@.entries =~= pre.update(i as int, self@.entries[i as int]));
                }
                true
            },
            None => {
                proof {
                    assert(self@ == old(self)@);
                }
                false
            },
        }
    }

    /// Stop the entry named `name`: its child is released and it parks in
    /// `Stopped`, staying in the roster. Absent names leave the roster
    /// untouched and report `ProcessNotFound`.
    pub fn stop_process(&mut self, name: &str) -> (r: Result<(), RpmError>)
        requires
            old(self)@.wf(),
        ensures
            final(self)@.wf(),
            final(self)@.config == old(self)@.config,
            final(self)@.next_id == old(self)@.next_id,
            (r is Ok) <==> old(self)@.has_name(name@),
            r matches Ok(_) ==> exists|i: int|
                {
                    &&& 0 <= i < old(self)@.entries.len()
                    &&& (#[trigger] old(self)@.entries[i]).info.name == name@
                    &&& final(self)@.entries == old(self)@.entries.update(
                        i,
                        spec_stopped(old(self)@.entries[i]),
                    )
                },
            r matches Err(e) ==> {
                &&& e@ == RpmErrorV::ProcessNotFound(name@)
                &&& final(self)@ == old(self)@
            },
    {
        match self.find_index(name) {
            Some(i) => {
                let ghost pre = self@.entries;
                let entry = &mut self.processes[i];
                proof {
                    assert(pre[i as int] == entry@);
                }
                entry.mark_stopped();
                proof {
                    assert(self@.entries[i as int] == spec_stopped(pre[i as int]));
                    assert(self@.entries =~= pre.update(i as int, spec_stopped(pre[i as int])));
                }
                Ok(())
            },
            None => {
                proof {
                    assert(self@ == old(self)@);
                }
                Err(RpmError::ProcessNotFound(String::from_str(name)))
            },
        }
    }

    /// Remove the entry named `name` from the roster (the harness then stops
    /// its child). Absent names leave the roster untouched and report
    /// `ProcessNotFound`.
    pub fn delete_process(&mut self, name: &str) -> (r: Result<(), RpmError>)
        requires
            old(self)@.wf(),
        ensures
            final(self)@.wf(),
            final(self)@.config == old(self)@.config,
            final(self)@.next_id == old(self)@.next_id,
            (r is Ok) <==> old(self)@.has_name(name@),
            r matches Ok(_) ==> exists|i: int|
                {
                    &&& 0 <= i < old(self)@.entries.len()
                    &&& (#[trigger] old(self)@.entries[i]).info.name == name@
                    &&& final(self)@.entries == old(self)@.entries.remove(i)
                },
            r matches Err(e) ==> {
                &&& e@ == RpmErrorV::ProcessNotFound(name@)
                &&& final(self)@ == old(self)@
            },
    {
        match self.find_index(name) {
            Some(i) => {
                let ghost pre = self@.entries;
                self.processes.remove(i);
                proof {
                    assert(self@.entries =~= pre.remove(i as int));
                    assert forall|a: int, b: int|
                        0 <= a < b < self@.entries.len() implies (#[trigger] self@.entries[a]).info.name
                        != (#[trigger] self@.entries[b]).info.name by {
                        let pa = if a < i { a } else { a + 1 };
                        let pb = if b < i { b } else { b + 1 };
                        assert(self@.entries[a] == pre[pa]);
                        assert(self@.entries[b] == pre[pb]);
                    }
                    assert forall|a: int, b: int|
                        0 <= a < b < self@.entries.len() implies (#[trigger] self@.entries[a]).id_key
                        != (#[trigger] self@.entries[b]).id_key by {
                        let pa = if a < i { a } else { a + 1 };
                        let pb = if b < i { b } else { b + 1 };
                        assert(self@.entries[a] == pre[pa]);
                        assert(self@.entries[b] == pre[pb]);
                    }
                    assert forall|a: int| 0 <= a < self@.entries.len() implies (
                    #[trigger] self@.entries[a]).wf() && self@.entries[a].id_key
                        < self@.next_id by {
                        let pa = if a < i { a } else { a + 1 };
                        assert(self@.entries[a] == pre[pa]);
                    }
                }
                Ok(())
            },
            None => {
                proof {
                    assert(self@ == old(self)@);
                }
                Err(RpmError::ProcessNotFound(String::from_str(name)))
            },
        }
    }
}


// ---------------------------------------------------------------------------
// Starting and restarting
// ---------------------------------------------------------------------------

impl ProcessManager {
    /// Create and insert an entry for `config`, folding in the outcome of
    /// the spawn the harness attempted. On success the entry is keyed by
    /// `config.name` under a fresh id; a prior entry with that name has
    /// been stopped by the harness and is replaced. On spawn failure the
    /// roster is untouched and the spawn's message is surfaced as a
    /// `Process` error.
    pub fn start_process(
        &mut self,
        config: ProcessConfig,
        spawn: Result<u32, String>,
        now_ms: u64,
    ) -> (r: Result<String, RpmError>)
        requires
            old(self)@.wf(),
            old(self)@.next_id < u64::MAX,
        ensures
            final(self)@.wf(),
            final(self)@.config == old(self)@.config,
            (r is Ok) <==> (spawn is Ok),
            r matches Err(e) ==> {
                &&& final(self)@ == old(self)@
                &&& spawn matches Err(m) && e@ == RpmErrorV::Process(
                    "Failed to start process '"@ + config@.name + "': "@ + m@,
                )
            },
            r matches Ok(id) ==> (spawn matches Ok(pid) && {
                let newe = spec_spawned(
                    spec_fresh_entry(config@, old(self)@.next_id, now_ms),
                    pid,
                    now_ms,
                );
                &&& id@ == enc_u64(old(self)@.next_id as nat)
                &&& final(self)@.next_id == old(self)@.next_id + 1
                &&& if old(self)@.has_name(config@.name) {
                    exists|i: int|
                        {
                            &&& 0 <= i < old(self)@.entries.len()
                            &&& (#[trigger] old(self)@.entries[i]).info.name == config@.name
                            &&& final(self)@.entries == old(self)@.entries.remove(i).push(newe)
                        }
                } else {
                    final(self)@.entries == old(self)@.entries.push(newe)
                }
            }),
    {
        let pid = match spawn {
            Ok(pid) => pid,
            Err(m) => {
                let head = concat3("Failed to start process '", config.name.as_str(), "': ");
                let msg = concat2(head.as_str(), m.as_str());
                proof {
                    assert(self@ == old(self)@);
                }
                return Err(RpmError::Process(msg));
            },
        };
        let ghost pre = self@.entries;
        let found = self.find_index(config.name.as_str());
        if let Some(i) = found {
            self.processes.remove(i);
            proof {
                assert(self@.entries =~= pre.remove(i as int));
            }
        }
        let ghost mid = self@.entries;
        let key = self.next_id;
        self.next_id = self.next_id + 1;
        let ghost cv = config@;
        let mut entry = ManagedProcess::new(config, key, now_ms);
        entry.on_spawned(pid, now_ms);
        proof {
            assert(entry@ == spec_spawned(spec_fresh_entry(cv, key, now_ms), pid, now_ms));
        }
        let id = entry.info.id.clone();
        self.processes.push(entry);
        proof {
            let newe = spec_spawned(spec_fresh_entry(cv, key, now_ms), pid, now_ms);
            assert(self@.entries =~= mid.push(newe));
            let n = mid.len() as int;
            assert forall|a: int| 0 <= a < self@.entries.len() implies (
            #[trigger] self@.entries[a]).wf() && self@.entries[a].id_key < self@.next_id by {
                if a < n {
                    if found is Some {
                        let i = found->Some_0 as int;
                        let pa = if a < i { a } else { a + 1 };
                        assert(mid[a] == pre[pa]);
                    } else {
                        assert(mid[a] == pre[a]);
                    }
                }
            }
            assert forall|a: int, b: int| 0 <= a < b < self@.entries.len() implies (
            #[trigger] self@.entries[a]).info.name != (#[trigger] self@.entries[b]).info.name && (
            self@.entries[a]).id_key != (self@.entries[b]).id_key by {
                if found is Some {
                    let i = found->Some_0 as int;
                    if b < n {
                        let pa = if a < i { a } else { a + 1 };
                        let pb = if b < i { b } else { b + 1 };
                        assert(mid[a] == pre[pa]);
                        assert(mid[b] == pre[pb]);
                    } else {
                        let pa = if a < i { a } else { a + 1 };
                        assert(mid[a] == pre[pa]);
                        assert(pre[pa].info.name != pre[i as int].info.name);
                    }
                } else {
                    if b < n {
                        assert(mid[a] == pre[a]);
                        assert(mid[b] == pre[b]);
                    } else {
                        assert(mid[a] == pre[a]);
                        assert(!old(self)@.has_name(cv.name));
                    }
                }
            }
        }
        Ok(id)
    }

    /// Restart the entry named `name`: its restart counter steps, the
    /// attempt instant is recorded, and the outcome of the spawn the
    /// harness attempted is folded in. Absent names report
    /// `ProcessNotFound`; a failed spawn leaves the entry `Errored` and
    /// surfaces a `Process` error.
    pub fn restart_process(
        &mut self,
        name: &str,
        spawn: Result<u32, String>,
        now_ms: u64,
    ) -> (r: Result<(), RpmError>)
        requires
            old(self)@.wf(),
        ensures
            final(self)@.wf(),
            final(self)@.config == old(self)@.config,
            final(self)@.next_id == old(self)@.next_id,
            (r is Ok) <==> (old(self)@.has_name(name@) && spawn is Ok),
            !old(self)@.has_name(name@) ==> {
                &&& final(self)@ == old(self)@
                &&& r matches Err(e) && e@ == RpmErrorV::ProcessNotFound(name@)
            },
            old(self)@.has_name(name@) ==> exists|i: int|
                {
                    &&& 0 <= i < old(self)@.entries.len()
                    &&& (#[trigger] old(self)@.entries[i]).info.name == name@
                    &&& final(self)@.entries == old(self)@.entries.update(
                        i,
                        spec_restarted(
                            old(self)@.entries[i],
                            match spawn {
                                Ok(p) => Ok(p),
                                Err(ref m) => Err(m@),
                            },
                            now_ms,
                        ),
                    )
                },
            (old(self)@.has_name(name@) && spawn is Err) ==> (r matches Err(e) && (
            spawn matches Err(m) && e@ == RpmErrorV::Process(
                "Failed to start process '"@ + name@ + "': "@ + m@,
            ))),
    {
        let i = match self.find_index(name) {
            Some(i) => i,
            None => {
                proof {
                    assert(self@ == old(self)@);
                }
                return Err(RpmError::ProcessNotFound(String::from_str(name)));
            },
        };
        let ghost pre = self@.entries;
        let entry = &mut self.processes[i];
        proof {
            assert(pre[i as int] == entry@);
        }
        entry.begin_restart(now_ms);
        match spawn {
            Ok(pid) => {
                entry.on_spawned(pid, now_ms);
                proof {
                    assert(entry@ == spec_restarted(
                        pre[i as int],
                        Ok::<u32, Seq<char>>(pid),
                        now_ms,
                    ));
                    assert(self@.entries =~= pre.update(i as int, entry@));
                }
                Ok(())
            },
            Err(m) => {
                entry.on_spawn_failed();
                proof {
                    assert(entry@ == spec_restarted(
                        pre[i as int],
                        Err::<u32, Seq<char>>(m@),
                        now_ms,
                    ));
                    assert(self@.entries =~= pre.update(i as int, entry@));
                }
                let head = concat3("Failed to start process '", name, "': ");
                let msg = concat2(head.as_str(), m.as_str());
                Err(RpmError::Process(msg))
            },
        }
    }
}

// ---------------------------------------------------------------------------
// The monitor pass
// ---------------------------------------------------------------------------

/// What one reap attempt by the harness observed for one child.
#[derive(Debug, Clone, Copy)]
pub enum ReapOutcome {
    /// The child exited; the flag tells whether its exit status was success.
    Exited(bool),
    /// The child is still running; a fresh (cpu, memory) sample, if
    /// sampling succeeded. A failed sample leaves the previous values.
    StillRunning(Option<(u64, u64)>),
    /// The reap attempt itself failed.
    ReapFailed,
}

/// What a reap outcome does to one entry. An entry without a held child is
/// left alone.
pub open spec fn spec_reaped(e: ManagedProcessV, o: ReapOutcome) -> ManagedProcessV {
    if !e.has_child {
        e
    } else {
        match o {
            ReapOutcome::Exited(ok) => ManagedProcessV {
                info: ProcessInfoV {
                    status: if ok {
                        ProcessStatus::Stopped
                    } else {
                        ProcessStatus::Errored
                    },
                    pid: None,
                    ..e.info
                },
                has_child: false,
                ..e
            },
            ReapOutcome::StillRunning(sample) => match sample {
                Some((cpu, mem)) => ManagedProcessV {
                    info: ProcessInfoV { cpu_usage: cpu, memory_usage: mem, ..e.info },
                    ..e
                },
                None => e,
            },
            ReapOutcome::ReapFailed => ManagedProcessV {
                info: ProcessInfoV { status: ProcessStatus::Errored, pid: None, ..e.info },
                has_child: false,
                ..e
            },
        }
    }
}

impl ProcessManager {
    /// Fold one reap observation into the entry named `name`; reports
    /// whether the entry exists. This is the sampling half of the monitor
    /// pass; it never errors and never aborts the pass.
    pub fn apply_reap(&mut self, name: &str, outcome: ReapOutcome) -> (r: bool)
        requires
            old(self)@.wf(),
        ensures
            final(self)@.wf(),
            final(self)@.config == old(self)@.config,
            final(self)@.next_id == old(self)@.next_id,
            r == old(self)@.has_name(name@),
            !r ==> final(self)@ == old(self)@,
            r ==> exists|i: int|
                {
                    &&& 0 <= i < old(self)@.entries.len()
                    &&& (#[trigger] old(self)@.entries[i]).info.name == name@
                    &&& final(self)@.entries == old(self)@.entries.update(
                        i,
                        spec_reaped(old(self)@.entries[i], outcome),
                    )
                },
    {
        let i = match self.find_index(name) {
            Some(i) => i,
            None => {
                proof {
                    assert(self@ == old(self)@);
                }
                return false;
            },
        };
        let ghost pre = self@.entries;
        let entry = &mut self.processes[i];
        proof {
            assert(pre[i as int] == entry@);
        }
        if entry.has_child {
            match outcome {
                ReapOutcome::Exited(ok) => entry.on_exit(ok),
                ReapOutcome::StillRunning(sample) => {
                    match sample {
                        Some((cpu, mem)) => entry.record_usage(cpu, mem),
                        None => (),
                    }
                },
                ReapOutcome::ReapFailed => entry.on_reap_error(),
            }
        }
        proof {
            assert(entry@ == spec_reaped(pre[i as int], outcome));
            assert(self@.entries =~= pre.update(i as int, entry@));
        }
        true
    }

    /// The names owed a restart at wall clock `now_ms`, in roster order:
    /// those whose restart policy fires and those strictly over their
    /// memory cap. On an empty roster the queue is empty.
    pub fn restart_queue(&self, now_ms: u64) -> (r: Vec<String>)
        ensures
            Seq::new(r@.len(), |i: int| r@[i]@) == spec_queue(self@.entries, now_ms),
    {
        let mut r: Vec<String> = Vec::new();
        let mut i: usize = 0;
        while i < self.processes.len()
            invariant
                0 <= i <= self@.entries.len(),
                self@.entries.len() == self.processes@.len(),
                Seq::new(r@.len(), |j: int| r@[j]@) == spec_queue(
                    self@.entries.take(i as int),
                    now_ms,
                ),
            decreases self@.entries.len() - i,
        {
            let entry = &self.processes[i];
            let over = match entry.info.config.max_memory {
                Some(cap) => entry.info.memory_usage / 1024 / 1024 > cap,
                None => false,
            };
            let due = entry.should_restart(now_ms) || over;
            proof {
                assert(due == spec_restart_due(self@.entries[i as int], now_ms));
            }
            let ghost prev = Seq::new(r@.len(), |j: int| r@[j]@);
            if due {
                let n = entry.info.name.clone();
                r.push(n);
            }
            proof {
                lemma_spec_queue_push(
                    self@.entries.take(i as int),
                    self@.entries[i as int],
                    now_ms,
                );
                assert(self@.entries.take(i as int).push(self@.entries[i as int])
                    =~= self@.entries.take(i + 1 as int));
                assert(Seq::new(r@.len(), |j: int| r@[j]@) =~= spec_queue(
                    self@.entries.take(i + 1 as int),
                    now_ms,
                ));
            }
            i = i + 1;
        }
        proof {
            assert(self@.entries.take(self@.entries.len() as int) =~= self@.entries);
        }
        r
    }
}


// ---------------------------------------------------------------------------
// Durable state
// ---------------------------------------------------------------------------

/// The index of the first entry named `name`, or `-1`.
pub open spec fn spec_idx_of(entries: Seq<ManagedProcessV>, name: Seq<char>) -> int
    decreases entries.len(),
{
    if entries.len() == 0 {
        -1
    } else if entries[0].info.name == name {
        0
    } else {
        let r = spec_idx_of(entries.drop_first(), name);
        if r == -1 {
            -1
        } else {
            r + 1
        }
    }
}

pub proof fn lemma_idx_of(entries: Seq<ManagedProcessV>, name: Seq<char>)
    ensures
        spec_idx_of(entries, name) == -1 ==> forall|j: int|
            0 <= j < entries.len() ==> (#[trigger] entries[j]).info.name != name,
        spec_idx_of(entries, name) != -1 ==> {
            &&& 0 <= spec_idx_of(entries, name) < entries.len()
            &&& entries[spec_idx_of(entries, name)].info.name == name
        },
    decreases entries.len(),
{
    if entries.len() > 0 && entries[0].info.name != name {
        lemma_idx_of(entries.drop_first(), name);
        if spec_idx_of(entries, name) == -1 {
            assert(forall|j: int|
                1 <= j < entries.len() ==> (#[trigger] entries[j]).info.name
                    == entries.drop_first()[j - 1].info.name && entries.drop_first()[
                j - 1].info.name != name);
        }
    }
}

/// Insertion keyed by name: an entry with the same name is replaced, the
/// new entry going to the end of the roster; otherwise the entry is
/// appended.
pub open spec fn spec_insert_replace(
    entries: Seq<ManagedProcessV>,
    e: ManagedProcessV,
) -> Seq<ManagedProcessV> {
    let i = spec_idx_of(entries, e.info.name);
    if i >= 0 {
        entries.remove(i).push(e)
    } else {
        entries.push(e)
    }
}

/// The roster `load_state` builds from a list of declared configurations:
/// one fresh entry per configuration, inserted keyed by name, ids drawn in
/// order from `base`.
pub open spec fn spec_fresh_roster(
    cs: Seq<ProcessConfigV>,
    base: u64,
    now_ms: u64,
) -> Seq<ManagedProcessV>
    decreases cs.len(),
{
    if cs.len() == 0 {
        Seq::empty()
    } else {
        spec_insert_replace(
            spec_fresh_roster(cs.drop_last(), base, now_ms),
            spec_fresh_entry(cs.last(), (base + cs.len() - 1) as u64, now_ms),
        )
    }
}

impl ProcessManager {
    /// The durable form of the roster: its declared configurations, in
    /// roster order, as one wire array. The harness writes this text to the
    /// state file after every successful mutation.
    pub fn save_state(&self) -> (r: String)
        ensures
            r@ == crate::codec::enc_state(spec_configs(self@.entries)),
    {
        let ghost items = spec_configs(self@.entries);
        let mut out: Vec<char> = Vec::new();
        out.push('[');
        let mut i: usize = 0;
        while i < self.processes.len()
            invariant
                0 <= i <= self@.entries.len(),
                self@.entries.len() == self.processes@.len(),
                items == spec_configs(self@.entries),
                out@ == seq!['['] + crate::wire::enc_items(
                    crate::codec::config_encoder(),
                    items.take(i as int),
                ),
            decreases self@.entries.len() - i,
        {
            let ghost pre = out@;
            if i > 0 {
                out.push(',');
            }
            crate::encode::write_config(&mut out, &self.processes[i].info.config);
            proof {
                reveal_strlit(",");
                let x = items[i as int];
                assert(out@ =~= pre + (if i == 0 {
                    Seq::<char>::empty()
                } else {
                    seq![',']
                }) + crate::codec::enc_config(x));
                crate::wire::lemma_enc_items_push(
                    crate::codec::config_encoder(),
                    items.take(i as int),
                    x,
                );
                assert(items.take(i as int).push(x) =~= items.take(i + 1 as int));
                assert(out@ =~= seq!['['] + crate::wire::enc_items(
                    crate::codec::config_encoder(),
                    items.take(i + 1 as int),
                ));
            }
            i = i + 1;
        }
        out.push(']');
        proof {
            assert(items.take(self@.entries.len() as int) =~= items);
            assert(out@ =~= crate::codec::enc_state(items));
        }
        crate::text::chars_to_string(&out)
    }

    /// Replace the roster with fresh, stopped entries built from the
    /// persisted text: one per declared configuration, keyed by name (a
    /// duplicated name keeps only its last configuration). Malformed text
    /// leaves the roster untouched and reports a `Config` error, as does an
    /// exhausted id counter.
    pub fn load_state(&mut self, text: &str, now_ms: u64) -> (r: Result<(), RpmError>)
        requires
            old(self)@.wf(),
        ensures
            final(self)@.wf(),
            final(self)@.config == old(self)@.config,
            crate::codec::spec_decode_state(text@) is None ==> {
                &&& final(self)@ == old(self)@
                &&& r matches Err(e) && e@ == RpmErrorV::Config(
                    "Failed to parse processes file"@,
                )
            },
            crate::codec::spec_decode_state(text@) matches Some(cs) ==> {
                &&& (old(self)@.next_id + cs.len() <= u64::MAX ==> {
                    &&& r is Ok
                    &&& final(self)@.entries == spec_fresh_roster(cs, old(self)@.next_id, now_ms)
                    &&& final(self)@.next_id == old(self)@.next_id + cs.len()
                })
                &&& (old(self)@.next_id + cs.len() > u64::MAX ==> {
                    &&& final(self)@ == old(self)@
                    &&& r matches Err(e) && e@ == RpmErrorV::Config(
                        "process identifier space exhausted"@,
                    )
                })
            },
    {
        let cs = match crate::decode::decode_state(text) {
            Some(cs) => cs,
            None => {
                proof {
                    assert(self@ == old(self)@);
                }
                return Err(RpmError::Config(String::from_str("Failed to parse processes file")));
            },
        };
        let base = self.next_id;
        if cs.len() as u64 > u64::MAX - base {
            proof {
                assert(self@ == old(self)@);
            }
            return Err(RpmError::Config(String::from_str("process identifier space exhausted")));
        }
        let ghost csv = Seq::new(cs@.len(), |i: int| cs@[i]@);
        let mut temp: Vec<ManagedProcess> = Vec::new();
        let mut i: usize = 0;
        proof {
            assert(Seq::new(temp@.len(), |j: int| temp@[j]@) =~= spec_fresh_roster(
                csv.take(0),
                base,
                now_ms,
            ));
            assert(csv.take(0) =~= Seq::<ProcessConfigV>::empty());
        }
        while i < cs.len()
            invariant
                0 <= i <= cs@.len(),
                csv == Seq::new(cs@.len(), |j: int| cs@[j]@),
                base + cs@.len() <= u64::MAX,
                Seq::new(temp@.len(), |j: int| temp@[j]@) == spec_fresh_roster(
                    csv.take(i as int),
                    base,
                    now_ms,
                ),
                forall|a: int| 0 <= a < temp@.len() ==> (#[trigger] temp@[a]@).wf(),
                forall|a: int|
                    0 <= a < temp@.len() ==> base <= (#[trigger] temp@[a]@).id_key < base + i,
                forall|a: int, b: int|
                    0 <= a < b < temp@.len() ==> (#[trigger] temp@[a]@).info.name != (
                    #[trigger] temp@[b]@).info.name,
                forall|a: int, b: int|
                    0 <= a < b < temp@.len() ==> (#[trigger] temp@[a]@).id_key != (
                    #[trigger] temp@[b]@).id_key,
            decreases cs@.len() - i,
        {
            let ghost tv = Seq::new(temp@.len(), |j: int| temp@[j]@);
            let config = copy_config(&cs[i]);
            let key = base + i as u64;
            let mut entry = ManagedProcess::new(config, key, now_ms);
            proof {
                assert(entry@ == spec_fresh_entry(csv[i as int], key, now_ms));
            }
            // replace an entry with the same name, if any
            let mut found: Option<usize> = None;
            let mut j: usize = 0;
            while found.is_none() && j < temp.len()
                invariant
                    0 <= j <= temp@.len(),
                    entry@.info.name == csv[i as int].name,
                    match found {
                        Some(f) => f < temp@.len() && temp@[f as int]@.info.name
                            == entry@.info.name,
                        None => forall|k: int|
                            0 <= k < j ==> (#[trigger] temp@[k]@).info.name != entry@.info.name,
                    },
                decreases temp@.len() - j, (if found is None { 1int } else { 0int }),
            {
                if temp[j].info.name.eq(&entry.info.name) {
                    found = Some(j);
                } else {
                    j = j + 1;
                }
            }
            let ghost pre_insert = Seq::new(temp@.len(), |k: int| temp@[k]@);
            proof {
                lemma_idx_of(pre_insert, entry@.info.name);
            }
            match found {
                Some(f) => {
                    proof {
                        let si = spec_idx_of(pre_insert, entry@.info.name);
                        assert(pre_insert[f as int] == temp@[f as int]@);
                        assert(pre_insert[f as int].info.name == entry@.info.name);
                        if si == -1 {
                            assert(pre_insert[f as int].info.name != entry@.info.name);
                        }
                        assert(0 <= si < pre_insert.len());
                        if si != f {
                            assert(pre_insert[si] == temp@[si]@);
                            if si < f {
                                assert(temp@[si]@.info.name != temp@[f as int]@.info.name);
                            } else {
                                assert(temp@[f as int]@.info.name != temp@[si]@.info.name);
                            }
                            assert(false);
                        }
                        assert(si == f);
                    }
                    temp.remove(f);
                    temp.push(entry);
                    proof {
                        assert(Seq::new(temp@.len(), |k: int| temp@[k]@) =~= pre_insert.remove(
                            f as int,
                        ).push(spec_fresh_entry(csv[i as int], key, now_ms)));
                    }
                },
                None => {
                    proof {
                        let si = spec_idx_of(pre_insert, entry@.info.name);
                        if si != -1 {
                            assert(pre_insert[si] == temp@[si]@);
                            assert(pre_insert[si].info.name == entry@.info.name);
                            assert(temp@[si]@.info.name != entry@.info.name);
                            assert(false);
                        }
                    }
                    temp.push(entry);
                    proof {
                        assert(Seq::new(temp@.len(), |k: int| temp@[k]@) =~= pre_insert.push(
                            spec_fresh_entry(csv[i as int], key, now_ms),
                        ));
                    }
                },
            }
            proof {
                assert(csv.take(i + 1 as int).drop_last() =~= csv.take(i as int));
                assert(csv.take(i + 1 as int).last() == csv[i as int]);
                assert(Seq::new(temp@.len(), |k: int| temp@[k]@) == spec_insert_replace(
                    spec_fresh_roster(csv.take(i as int), base, now_ms),
                    spec_fresh_entry(csv[i as int], key, now_ms),
                ));
                assert(Seq::new(temp@.len(), |k: int| temp@[k]@) == spec_fresh_roster(
                    csv.take(i + 1 as int),
                    base,
                    now_ms,
                ));
                let nv = Seq::new(temp@.len(), |k: int| temp@[k]@);
                match found {
                    Some(f) => {
                        assert forall|a: int, b: int| 0 <= a < b < nv.len() implies (
                        #[trigger] nv[a]).info.name != (#[trigger] nv[b]).info.name && nv[a].id_key
                            != nv[b].id_key by {
                            let n0 = pre_insert.remove(f as int).len() as int;
                            if b < n0 {
                                let pa = if a < f { a } else { a + 1 };
                                let pb = if b < f { b } else { b + 1 };
                                assert(nv[a] == pre_insert[pa]);
                                assert(nv[b] == pre_insert[pb]);
                            } else {
                                let pa = if a < f { a } else { a + 1 };
                                assert(nv[a] == pre_insert[pa]);
                            }
                        }
                        assert forall|a: int| 0 <= a < nv.len() implies (#[trigger] nv[a]).wf()
                            && base <= nv[a].id_key < base + i + 1 by {
                            let n0 = pre_insert.remove(f as int).len() as int;
                            if a < n0 {
                                let pa = if a < f { a } else { a + 1 };
                                assert(nv[a] == pre_insert[pa]);
                            }
                        }
                    },
                    None => {
                        assert forall|a: int, b: int| 0 <= a < b < nv.len() implies (
                        #[trigger] nv[a]).info.name != (#[trigger] nv[b]).info.name && nv[a].id_key
                            != nv[b].id_key by {
                            if b < pre_insert.len() {
                                assert(nv[a] == pre_insert[a]);
                                assert(nv[b] == pre_insert[b]);
                            } else {
                                assert(nv[a] == pre_insert[a]);
                            }
                        }
                        assert forall|a: int| 0 <= a < nv.len() implies (#[trigger] nv[a]).wf()
                            && base <= nv[a].id_key < base + i + 1 by {
                            if a < pre_insert.len() {
                                assert(nv[a] == pre_insert[a]);
                            }
                        }
                    },
                }
            }
            i = i + 1;
        }
        self.processes = temp;
        self.next_id = base + cs.len() as u64;
        proof {
            assert(csv.take(cs@.len() as int) =~= csv);
            assert(self@.entries =~= spec_fresh_roster(csv, base, now_ms));
        }
        Ok(())
    }
}


// ---------------------------------------------------------------------------
// Laws of the roster
// ---------------------------------------------------------------------------

/// Name uniqueness: a well-formed roster — and every operation's contract
/// says the manager it leaves behind is well formed — never holds two
/// entries under one name, nor two entries under one id.
pub proof fn lemma_roster_keys_unique(m: ProcessManagerV, i: int, j: int)
    requires
        m.wf(),
        0 <= i < j < m.entries.len(),
    ensures
        m.entries[i].info.name != m.entries[j].info.name,
        m.entries[i].info.id != m.entries[j].info.id,
{
    assert(m.entries[i].info.id == enc_u64(m.entries[i].id_key as nat));
    assert(m.entries[j].info.id == enc_u64(m.entries[j].id_key as nat));
    if m.entries[i].info.id == m.entries[j].info.id {
        crate::wire::lemma_enc_u64_injective(
            m.entries[i].id_key as nat,
            m.entries[j].id_key as nat,
        );
    }
}

/// The restart counter never decreases: no roster transform — stopping,
/// the two restart halves, a spawn outcome, or a reap observation — moves
/// an entry's `restarts` down.
pub proof fn lemma_restarts_monotone(
    e: ManagedProcessV,
    pid: u32,
    spawn: Result<u32, Seq<char>>,
    o: ReapOutcome,
    now_ms: u64,
)
    ensures
        spec_stopped(e).info.restarts == e.info.restarts,
        spec_begin_restart(e, now_ms).info.restarts >= e.info.restarts,
        spec_spawned(e, pid, now_ms).info.restarts == e.info.restarts,
        spec_spawn_failed(e).info.restarts == e.info.restarts,
        spec_restarted(e, spawn, now_ms).info.restarts >= e.info.restarts,
        spec_reaped(e, o).info.restarts == e.info.restarts,
{
}

/// The restart cool-down: once a restart attempt is recorded at wall clock
/// `t`, the restart policy stays quiet for the whole cool-down window after
/// `t`, whatever the attempt's spawn outcome was.
pub proof fn lemma_restart_debounce(
    e: ManagedProcessV,
    spawn: Result<u32, Seq<char>>,
    t: u64,
    now2: u64,
)
    requires
        now2 < t + crate::RESTART_COOLDOWN_MS,
    ensures
        !spec_should_restart(spec_begin_restart(e, t), now2),
        !spec_should_restart(spec_restarted(e, spawn, t), now2),
{
}

proof fn lemma_fresh_roster_distinct(cs: Seq<ProcessConfigV>, base: u64, now_ms: u64)
    requires
        forall|i: int, j: int|
            0 <= i < j < cs.len() ==> (#[trigger] cs[i]).name != (#[trigger] cs[j]).name,
        base + cs.len() <= u64::MAX,
    ensures
        spec_fresh_roster(cs, base, now_ms) == Seq::new(
            cs.len(),
            |i: int| spec_fresh_entry(cs[i], (base + i) as u64, now_ms),
        ),
    decreases cs.len(),
{
    let target = Seq::new(cs.len(), |i: int| spec_fresh_entry(cs[i], (base + i) as u64, now_ms));
    if cs.len() == 0 {
        assert(spec_fresh_roster(cs, base, now_ms) =~= target);
    } else {
        let cs0 = cs.drop_last();
        assert(forall|i: int, j: int|
            0 <= i < j < cs0.len() ==> (#[trigger] cs0[i]).name == cs[i].name && (
            #[trigger] cs0[j]).name == cs[j].name);
        lemma_fresh_roster_distinct(cs0, base, now_ms);
        let r0 = spec_fresh_roster(cs0, base, now_ms);
        let e = spec_fresh_entry(cs.last(), (base + cs.len() - 1) as u64, now_ms);
        lemma_idx_of(r0, e.info.name);
        let si = spec_idx_of(r0, e.info.name);
        if si != -1 {
            assert(r0[si] == spec_fresh_entry(cs0[si], (base + si) as u64, now_ms));
            assert(r0[si].info.name == cs[si].name);
            assert(cs[si].name != cs[cs.len() - 1].name);
            assert(false);
        }
        assert(spec_fresh_roster(cs, base, now_ms) == r0.push(e));
        assert(r0.push(e) =~= target);
    }
}

/// Saving and loading round trip: the persisted text of a well-formed
/// roster decodes to exactly its declared configurations, and the fresh
/// roster a load builds from them declares the same configurations again,
/// in the same order.
pub proof fn lemma_save_load_roundtrip(m: ProcessManagerV, now_ms: u64)
    requires
        m.wf(),
        m.entries.len() <= u64::MAX,
    ensures
        crate::codec::spec_decode_state(crate::codec::enc_state(spec_configs(m.entries))) == Some(
            spec_configs(m.entries),
        ),
        spec_configs(spec_fresh_roster(spec_configs(m.entries), 0, now_ms)) == spec_configs(
            m.entries,
        ),
{
    let cs = spec_configs(m.entries);
    crate::codec::lemma_state_codec_roundtrip(cs);
    assert(forall|i: int|
        0 <= i < cs.len() ==> (#[trigger] cs[i]).name == m.entries[i].info.name);
    assert forall|i: int, j: int| 0 <= i < j < cs.len() implies (#[trigger] cs[i]).name != (
    #[trigger] cs[j]).name by {
        assert(m.entries[i].info.name != m.entries[j].info.name);
    }
    lemma_fresh_roster_distinct(cs, 0, now_ms);
    assert(spec_configs(spec_fresh_roster(cs, 0, now_ms)) =~= cs);
}

/// Replacing a running entry hides its old id: after `start_process`
/// replaces the entry at `i` with a fresh one, no roster entry carries the
/// replaced entry's id any more.
pub proof fn lemma_replaced_id_gone(m: ProcessManagerV, i: int, pid: u32, now_ms: u64)
    requires
        m.wf(),
        0 <= i < m.entries.len(),
        m.next_id < u64::MAX,
    ensures
        ({
            let newe = spec_spawned(
                spec_fresh_entry(m.entries[i].info.config, m.next_id, now_ms),
                pid,
                now_ms,
            );
            let after = m.entries.remove(i).push(newe);
            forall|j: int|
                0 <= j < after.len() ==> (#[trigger] after[j]).info.id != m.entries[i].info.id
        }),
{
    let old_key = m.entries[i].id_key;
    let newe = spec_spawned(
        spec_fresh_entry(m.entries[i].info.config, m.next_id, now_ms),
        pid,
        now_ms,
    );
    let after = m.entries.remove(i).push(newe);
    assert(m.entries[i].info.id == enc_u64(old_key as nat));
    assert forall|j: int| 0 <= j < after.len() implies (#[trigger] after[j]).info.id
        != m.entries[i].info.id by {
        if j < after.len() - 1 {
            let pj = if j < i {
                j
            } else {
                j + 1
            };
            assert(after[j] == m.entries[pj]);
            assert(m.entries[pj].id_key != old_key);
            assert(m.entries[pj].info.id == enc_u64(m.entries[pj].id_key as nat));
            if m.entries[pj].info.id == m.entries[i].info.id {
                crate::wire::lemma_enc_u64_injective(
                    m.entries[pj].id_key as nat,
                    old_key as nat,
                );
            }
        } else {
            assert(after[j] == newe);
            assert(newe.info.id == enc_u64(m.next_id as nat));
            assert(old_key < m.next_id);
            if newe.info.id == m.entries[i].info.id {
                crate::wire::lemma_enc_u64_injective(m.next_id as nat, old_key as nat);
            }
        }
    }
}


/// Lifecycle coupling: every roster transform keeps the child handle and
/// the operating-system pid present exactly while the entry is `Running` —
/// when an entry becomes `Running` both appear, and when it leaves
/// `Running` both are gone.
pub proof fn lemma_lifecycle_coupling(
    e: ManagedProcessV,
    pid: u32,
    spawn: Result<u32, Seq<char>>,
    o: ReapOutcome,
    now_ms: u64,
)
    requires
        e.wf(),
    ensures
        spec_stopped(e).wf(),
        spec_begin_restart(e, now_ms).wf(),
        spec_spawned(e, pid, now_ms).wf(),
        e.info.status != ProcessStatus::Running ==> spec_spawn_failed(e).wf(),
        spec_restarted(e, spawn, now_ms).wf(),
        spec_reaped(e, o).wf(),
{
}

/// One reap observation folded into a roster at the entry named `name`; a
/// roster without that name is unchanged.
pub open spec fn spec_reap_at(
    entries: Seq<ManagedProcessV>,
    name: Seq<char>,
    o: ReapOutcome,
) -> Seq<ManagedProcessV> {
    let i = spec_idx_of(entries, name);
    if i >= 0 {
        entries.update(i, spec_reaped(entries[i], o))
    } else {
        entries
    }
}

/// A whole sequence of reap observations folded into a roster, in order.
pub open spec fn spec_apply_reaps(
    entries: Seq<ManagedProcessV>,
    reaps: Seq<(Seq<char>, ReapOutcome)>,
) -> Seq<ManagedProcessV>
    decreases reaps.len(),
{
    if reaps.len() == 0 {
        entries
    } else {
        spec_apply_reaps(spec_reap_at(entries, reaps[0].0, reaps[0].1), reaps.drop_first())
    }
}

impl ProcessManager {
    /// One monitor pass over the harness's reap observations: every
    /// observation is folded into its entry (sampling first, in roster
    /// terms), and the pass then reports, in roster order, the names owed a
    /// restart — those whose policy fires and those strictly over their
    /// memory cap. Per-entry observations never abort the pass, and a pass
    /// over an empty roster changes nothing and owes nothing.
    pub fn monitor_processes(&mut self, reaps: Vec<(String, ReapOutcome)>, now_ms: u64) -> (r:
        Vec<String>)
        requires
            old(self)@.wf(),
        ensures
            final(self)@.wf(),
            final(self)@.config == old(self)@.config,
            final(self)@.next_id == old(self)@.next_id,
            final(self)@.entries == spec_apply_reaps(
                old(self)@.entries,
                Seq::new(reaps@.len(), |i: int| (reaps@[i].0@, reaps@[i].1)),
            ),
            Seq::new(r@.len(), |i: int| r@[i]@) == spec_queue(final(self)@.entries, now_ms),
    {
        let ghost rv = Seq::new(reaps@.len(), |i: int| (reaps@[i].0@, reaps@[i].1));
        let mut i: usize = 0;
        proof {
            assert(rv.skip(0) =~= rv);
        }
        while i < reaps.len()
            invariant
                0 <= i <= reaps@.len(),
                rv == Seq::new(reaps@.len(), |j: int| (reaps@[j].0@, reaps@[j].1)),
                self@.wf(),
                self@.config == old(self)@.config,
                self@.next_id == old(self)@.next_id,
                spec_apply_reaps(self@.entries, rv.skip(i as int)) == spec_apply_reaps(
                    old(self)@.entries,
                    rv,
                ),
            decreases reaps@.len() - i,
        {
            let ghost pre = self@.entries;
            let found = self.apply_reap(reaps[i].0.as_str(), reaps[i].1);
            proof {
                let name = rv[i as int].0;
                let o = rv[i as int].1;
                lemma_idx_of(pre, name);
                let si = spec_idx_of(pre, name);
                if found {
                    let wi = choose|w: int|
                        0 <= w < pre.len() && (#[trigger] pre[w]).info.name == name
                            && self@.entries == pre.update(w, spec_reaped(pre[w], o));
                    if si == -1 {
                        assert(pre[wi].info.name != name);
                    }
                    if si != wi {
                        if si < wi {
                            assert(pre[si].info.name != pre[wi].info.name);
                        } else {
                            assert(pre[wi].info.name != pre[si].info.name);
                        }
                        assert(false);
                    }
                    assert(self@.entries == spec_reap_at(pre, name, o));
                } else {
                    if si != -1 {
                        assert(pre[si].info.name == name);
                    }
                    assert(self@.entries == pre);
                    assert(self@.entries == spec_reap_at(pre, name, o));
                }
                assert(rv.skip(i as int)[0] == rv[i as int]);
                assert(rv.skip(i as int).drop_first() =~= rv.skip(i + 1 as int));
                assert(spec_apply_reaps(pre, rv.skip(i as int)) == spec_apply_reaps(
                    spec_reap_at(pre, name, o),
                    rv.skip(i + 1 as int),
                ));
            }
            i = i + 1;
        }
        proof {
            assert(rv.skip(reaps@.len() as int) =~= Seq::<(Seq<char>, ReapOutcome)>::empty());
        }
        self.restart_queue(now_ms)
    }
}

} // verus!
