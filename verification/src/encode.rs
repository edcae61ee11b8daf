//! Executable encoders: each builds exactly the canonical wire text that the
//! spec-level encoders of `codec` describe.

use vstd::prelude::*;

use crate::cli::ProcessConfig;
use crate::codec::{
    enc_bool, enc_config, enc_info, enc_opt_str, enc_opt_u32, enc_opt_u64, enc_pair, enc_request,
    enc_response, enc_status, info_encoder, pair_encoder, str_encoder,
};
use crate::ipc::{IpcRequest, IpcResponse};
use crate::process::{ProcessInfo, ProcessStatus};
use crate::text::{chars_to_string, push_lit, push_str_value, push_u64};
use crate::wire::{enc_list, enc_u64, lemma_enc_items_push};

verus! {

fn write_bool(out: &mut Vec<char>, b: bool)
    ensures
        final(out)@ == old(out)@ + enc_bool(b),
{
    if b {
        push_lit(out, "true");
    } else {
        push_lit(out, "false");
    }
}

fn write_opt_str(out: &mut Vec<char>, o: &Option<String>)
    ensures
        final(out)@ == old(out)@ + enc_opt_str(
            match o {
                Some(ref s) => Some(s@),
                None => None,
            },
        ),
{
    match o {
        None => push_lit(out, "null"),
        Some(s) => push_str_value(out, s.as_str()),
    }
}

fn write_opt_u64(out: &mut Vec<char>, o: Option<u64>)
    ensures
        final(out)@ == old(out)@ + enc_opt_u64(o),
{
    match o {
        None => push_lit(out, "null"),
        Some(v) => push_u64(out, v),
    }
}

fn write_opt_u32(out: &mut Vec<char>, o: Option<u32>)
    ensures
        final(out)@ == old(out)@ + enc_opt_u32(o),
{
    match o {
        None => push_lit(out, "null"),
        Some(v) => push_u64(out, v as u64),
    }
}

fn write_status(out: &mut Vec<char>, st: ProcessStatus)
    ensures
        final(out)@ == old(out)@ + enc_status(st),
{
    match st {
        ProcessStatus::Running => push_lit(out, "\"Running\""),
        ProcessStatus::Stopped => push_lit(out, "\"Stopped\""),
        ProcessStatus::Errored => push_lit(out, "\"Errored\""),
        ProcessStatus::Restarting => push_lit(out, "\"Restarting\""),
    }
}

/// Write the wire array of environment overrides.
fn write_env_list(out: &mut Vec<char>, env: &Vec<(String, String)>)
    ensures
        final(out)@ == old(out)@ + enc_list(
            pair_encoder(),
            Seq::new(env@.len(), |i: int| (env@[i].0@, env@[i].1@)),
        ),
{
    let ghost items = Seq::new(env@.len(), |i: int| (env@[i].0@, env@[i].1@));
    out.push('[');
    let mut i: usize = 0;
    while i < env.len()
        invariant
            0 <= i <= env@.len(),
            items == Seq::new(env@.len(), |j: int| (env@[j].0@, env@[j].1@)),
            out@ == old(out)@ + seq!['['] + crate::wire::enc_items(pair_encoder(), items.take(
                i as int,
            )),
        decreases env@.len() - i,
    {
        let ghost pre = out@;
        if i > 0 {
            out.push(',');
        }
        out.push('[');
        push_str_value(out, env[i].0.as_str());
        out.push(',');
        push_str_value(out, env[i].1.as_str());
        out.push(']');
        proof {
            reveal_strlit("[");
            reveal_strlit(",");
            reveal_strlit("]");
            let x = items[i as int];
            assert(out@ =~= pre + (if i == 0 {
                Seq::<char>::empty()
            } else {
                seq![',']
            }) + enc_pair(x));
            lemma_enc_items_push(pair_encoder(), items.take(i as int), x);
            assert(items.take(i as int).push(x) =~= items.take(i + 1 as int));
            assert(out@ =~= old(out)@ + seq!['['] + crate::wire::enc_items(
                pair_encoder(),
                items.take(i + 1 as int),
            ));
        }
        i = i + 1;
    }
    out.push(']');
    proof {
        assert(items.take(env@.len() as int) =~= items);
        assert(out@ =~= old(out)@ + enc_list(pair_encoder(), items));
    }
}

/// Write one `ProcessConfig` object.
pub fn write_config(out: &mut Vec<char>, c: &ProcessConfig)
    ensures
        final(out)@ == old(out)@ + enc_config(c@),
{
    push_lit(out, "{\"name\":");
    push_str_value(out, c.name.as_str());
    push_lit(out, ",\"command\":");
    push_str_value(out, c.command.as_str());
    push_lit(out, ",\"cwd\":");
    write_opt_str(out, &c.cwd);
    push_lit(out, ",\"instances\":");
    push_u64(out, c.instances as u64);
    push_lit(out, ",\"autorestart\":");
    write_bool(out, c.autorestart);
    push_lit(out, ",\"max_memory\":");
    write_opt_u64(out, c.max_memory);
    push_lit(out, ",\"env\":");
    write_env_list(out, &c.env);
    push_lit(out, "}");
    proof {
        assert(out@ =~= old(out)@ + enc_config(c@));
    }
}

/// Write one `ProcessInfo` object.
#[verifier::rlimit(100)]
pub fn write_info(out: &mut Vec<char>, p: &ProcessInfo)
    ensures
        final(out)@ == old(out)@ + enc_info(p@),
{
    push_lit(out, "{\"id\":");
    push_str_value(out, p.id.as_str());
    push_lit(out, ",\"name\":");
    push_str_value(out, p.name.as_str());
    push_lit(out, ",\"command\":");
    push_str_value(out, p.command.as_str());
    push_lit(out, ",\"status\":");
    write_status(out, p.status);
    push_lit(out, ",\"pid\":");
    write_opt_u32(out, p.pid);
    push_lit(out, ",\"cpu_usage\":");
    push_u64(out, p.cpu_usage);
    push_lit(out, ",\"memory_usage\":");
    push_u64(out, p.memory_usage);
    push_lit(out, ",\"started_at\":");
    push_u64(out, p.started_at);
    push_lit(out, ",\"restarts\":");
    push_u64(out, p.restarts as u64);
    push_lit(out, ",\"config\":");
    write_config(out, &p.config);
    push_lit(out, "}");
    proof {
        assert(out@ =~= old(out)@ + enc_info(p@));
    }
}

/// Write the wire array of process snapshots.
fn write_info_list(out: &mut Vec<char>, ps: &Vec<ProcessInfo>)
    ensures
        final(out)@ == old(out)@ + enc_list(
            info_encoder(),
            Seq::new(ps@.len(), |i: int| ps@[i]@),
        ),
{
    let ghost items = Seq::new(ps@.len(), |i: int| ps@[i]@);
    out.push('[');
    let mut i: usize = 0;
    while i < ps.len()
        invariant
            0 <= i <= ps@.len(),
            items == Seq::new(ps@.len(), |j: int| ps@[j]@),
            out@ == old(out)@ + seq!['['] + crate::wire::enc_items(info_encoder(), items.take(
                i as int,
            )),
        decreases ps@.len() - i,
    {
        let ghost pre = out@;
        if i > 0 {
            out.push(',');
        }
        write_info(out, &ps[i]);
        proof {
            let x = items[i as int];
            assert(out@ =~= pre + (if i == 0 {
                Seq::<char>::empty()
            } else {
                seq![',']
            }) + enc_info(x));
            lemma_enc_items_push(info_encoder(), items.take(i as int), x);
            assert(items.take(i as int).push(x) =~= items.take(i + 1 as int));
            assert(out@ =~= old(out)@ + seq!['['] + crate::wire::enc_items(
                info_encoder(),
                items.take(i + 1 as int),
            ));
        }
        i = i + 1;
    }
    out.push(']');
    proof {
        assert(items.take(ps@.len() as int) =~= items);
        assert(out@ =~= old(out)@ + enc_list(info_encoder(), items));
    }
}

/// Write the wire array of plain strings.
fn write_str_list(out: &mut Vec<char>, ls: &Vec<String>)
    ensures
        final(out)@ == old(out)@ + enc_list(str_encoder(), Seq::new(ls@.len(), |i: int| ls@[i]@)),
{
    let ghost items = Seq::new(ls@.len(), |i: int| ls@[i]@);
    out.push('[');
    let mut i: usize = 0;
    while i < ls.len()
        invariant
            0 <= i <= ls@.len(),
            items == Seq::new(ls@.len(), |j: int| ls@[j]@),
            out@ == old(out)@ + seq!['['] + crate::wire::enc_items(str_encoder(), items.take(
                i as int,
            )),
        decreases ls@.len() - i,
    {
        let ghost pre = out@;
        if i > 0 {
            out.push(',');
        }
        push_str_value(out, ls[i].as_str());
        proof {
            let x = items[i as int];
            assert(out@ =~= pre + (if i == 0 {
                Seq::<char>::empty()
            } else {
                seq![',']
            }) + crate::wire::enc_str(x));
            lemma_enc_items_push(str_encoder(), items.take(i as int), x);
            assert(items.take(i as int).push(x) =~= items.take(i + 1 as int));
            assert(out@ =~= old(out)@ + seq!['['] + crate::wire::enc_items(
                str_encoder(),
                items.take(i + 1 as int),
            ));
        }
        i = i + 1;
    }
    out.push(']');
    proof {
        assert(items.take(ls@.len() as int) =~= items);
        assert(out@ =~= old(out)@ + enc_list(str_encoder(), items));
    }
}

/// Encode one request as a wire frame (without the terminating newline).
pub fn encode_request(r: &IpcRequest) -> (s: String)
    ensures
        s@ == enc_request(r@),
{
    let mut out: Vec<char> = Vec::new();
    match r {
        IpcRequest::StartProcess(c) => {
            push_lit(&mut out, "{\"StartProcess\":");
            write_config(&mut out, c);
            push_lit(&mut out, "}");
        },
        IpcRequest::StopProcess(n) => {
            push_lit(&mut out, "{\"StopProcess\":");
            push_str_value(&mut out, n.as_str());
            push_lit(&mut out, "}");
        },
        IpcRequest::RestartProcess(n) => {
            push_lit(&mut out, "{\"RestartProcess\":");
            push_str_value(&mut out, n.as_str());
            push_lit(&mut out, "}");
        },
        IpcRequest::DeleteProcess(n) => {
            push_lit(&mut out, "{\"DeleteProcess\":");
            push_str_value(&mut out, n.as_str());
            push_lit(&mut out, "}");
        },
        IpcRequest::ListProcesses => {
            push_lit(&mut out, "{\"ListProcesses\":null}");
        },
        IpcRequest::GetProcessInfo(n) => {
            push_lit(&mut out, "{\"GetProcessInfo\":");
            push_str_value(&mut out, n.as_str());
            push_lit(&mut out, "}");
        },
        IpcRequest::GetLogs { name, lines, follow } => {
            push_lit(&mut out, "{\"GetLogs\":{\"name\":");
            push_str_value(&mut out, name.as_str());
            push_lit(&mut out, ",\"lines\":");
            push_u64(&mut out, *lines as u64);
            push_lit(&mut out, ",\"follow\":");
            write_bool(&mut out, *follow);
            push_lit(&mut out, "}}");
        },
        IpcRequest::Monitor => {
            push_lit(&mut out, "{\"Monitor\":null}");
        },
        IpcRequest::KillDaemon => {
            push_lit(&mut out, "{\"KillDaemon\":null}");
        },
        IpcRequest::ReloadProcess(n) => {
            push_lit(&mut out, "{\"ReloadProcess\":");
            push_str_value(&mut out, n.as_str());
            push_lit(&mut out, "}");
        },
        IpcRequest::SaveProcesses => {
            push_lit(&mut out, "{\"SaveProcesses\":null}");
        },
        IpcRequest::ResurrectProcesses => {
            push_lit(&mut out, "{\"ResurrectProcesses\":null}");
        },
    }
    proof {
        assert(out@ =~= enc_request(r@));
    }
    chars_to_string(&out)
}

/// Encode one response as a wire frame (without the terminating newline).
pub fn encode_response(r: &IpcResponse) -> (s: String)
    ensures
        s@ == enc_response(r@),
{
    let mut out: Vec<char> = Vec::new();
    match r {
        IpcResponse::Success(m) => {
            push_lit(&mut out, "{\"Success\":");
            push_str_value(&mut out, m.as_str());
            push_lit(&mut out, "}");
        },
        IpcResponse::ProcessList(ps) => {
            push_lit(&mut out, "{\"ProcessList\":");
            write_info_list(&mut out, ps);
            push_lit(&mut out, "}");
        },
        IpcResponse::ProcessInfo(p) => {
            push_lit(&mut out, "{\"ProcessInfo\":");
            write_info(&mut out, p);
            push_lit(&mut out, "}");
        },
        IpcResponse::Logs(ls) => {
            push_lit(&mut out, "{\"Logs\":");
            write_str_list(&mut out, ls);
            push_lit(&mut out, "}");
        },
        IpcResponse::Error(m) => {
            push_lit(&mut out, "{\"Error\":");
            push_str_value(&mut out, m.as_str());
            push_lit(&mut out, "}");
        },
    }
    proof {
        assert(out@ =~= enc_response(r@));
    }
    chars_to_string(&out)
}


/// Encode the daemon settings as their persisted text.
pub fn encode_settings(c: &crate::config::Config) -> (s: String)
    ensures
        s@ == crate::codec::enc_settings(*c),
{
    let mut out: Vec<char> = Vec::new();
    push_lit(&mut out, "{\"daemon_port\":");
    push_u64(&mut out, c.daemon_port as u64);
    push_lit(&mut out, ",\"max_processes\":");
    push_u64(&mut out, c.max_processes as u64);
    push_lit(&mut out, ",\"log_max_size\":");
    push_u64(&mut out, c.log_max_size);
    push_lit(&mut out, ",\"log_retention_days\":");
    push_u64(&mut out, c.log_retention_days as u64);
    push_lit(&mut out, ",\"auto_restart_delay\":");
    push_u64(&mut out, c.auto_restart_delay);
    push_lit(&mut out, ",\"health_check_interval\":");
    push_u64(&mut out, c.health_check_interval);
    push_lit(&mut out, "}");
    proof {
        assert(out@ =~= crate::codec::enc_settings(*c));
    }
    chars_to_string(&out)
}

} // verus!
