//! The wire codec: canonical encodings of the supervisor's values and the
//! parsers that read them back, with a round-trip theorem for every message
//! shape. One encoded request or response is one line on the transport.

use vstd::prelude::*;

use crate::cli::ProcessConfigV;
use crate::process::{ProcessInfoV, ProcessStatus};
use crate::ipc::{IpcRequestV, IpcResponseV};
use crate::wire::{
    enc_list, enc_str, enc_u64, is_digit, lemma_differ_not_prefix, lemma_enc_str_first,
    lemma_enc_u64_shape, lemma_parse_lit_roundtrip, lemma_parse_list_roundtrip,
    lemma_parse_str_roundtrip, lemma_parse_u64_roundtrip, parse_lit, parse_list, parse_str,
    parse_u64,
};

verus! {

// ---------------------------------------------------------------------------
// Scalars
// ---------------------------------------------------------------------------

pub open spec fn enc_bool(b: bool) -> Seq<char> {
    if b {
        "true"@
    } else {
        "false"@
    }
}

pub open spec fn parse_bool(s: Seq<char>) -> Option<(bool, Seq<char>)> {
    match parse_lit(s, "true"@) {
        Some(r) => Some((true, r)),
        None => match parse_lit(s, "false"@) {
            Some(r) => Some((false, r)),
            None => None,
        },
    }
}

pub proof fn lemma_parse_bool_roundtrip(b: bool, rest: Seq<char>)
    ensures
        parse_bool(enc_bool(b) + rest) == Some((b, rest)),
{
    reveal_strlit("true");
    reveal_strlit("false");
    lemma_parse_lit_roundtrip(enc_bool(b), rest);
    if !b {
        let s = "false"@ + rest;
        assert(s[0] == 'f');
        lemma_differ_not_prefix(s, "true"@, 0);
    }
}

/// A `u32` on the wire is its decimal digits; a decoded number over the
/// `u32` range is refused.
pub open spec fn parse_u32(s: Seq<char>) -> Option<(u32, Seq<char>)> {
    match parse_u64(s) {
        Some((v, r)) => if v <= u32::MAX {
            Some((v as u32, r))
        } else {
            None
        },
        None => None,
    }
}

pub proof fn lemma_parse_u32_roundtrip(v: u32, rest: Seq<char>)
    requires
        rest.len() == 0 || !is_digit(rest[0]),
    ensures
        parse_u32(enc_u64(v as nat) + rest) == Some((v, rest)),
{
    lemma_parse_u64_roundtrip(v as u64, rest);
}

/// A `usize` on the wire is its decimal digits; a decoded number over the
/// platform's range is refused.
pub open spec fn parse_usize(s: Seq<char>) -> Option<(usize, Seq<char>)> {
    match parse_u64(s) {
        Some((v, r)) => if v <= usize::MAX {
            Some((v as usize, r))
        } else {
            None
        },
        None => None,
    }
}

pub proof fn lemma_parse_usize_roundtrip(v: usize, rest: Seq<char>)
    requires
        rest.len() == 0 || !is_digit(rest[0]),
    ensures
        parse_usize(enc_u64(v as nat) + rest) == Some((v, rest)),
{
    lemma_parse_u64_roundtrip(v as u64, rest);
}

// ---------------------------------------------------------------------------
// Options
// ---------------------------------------------------------------------------

pub open spec fn enc_opt_str(o: Option<Seq<char>>) -> Seq<char> {
    match o {
        None => "null"@,
        Some(s) => enc_str(s),
    }
}

pub open spec fn parse_opt_str(s: Seq<char>) -> Option<(Option<Seq<char>>, Seq<char>)> {
    match parse_lit(s, "null"@) {
        Some(r) => Some((None, r)),
        None => match parse_str(s) {
            Some((c, r)) => Some((Some(c), r)),
            None => None,
        },
    }
}

pub proof fn lemma_parse_opt_str_roundtrip(o: Option<Seq<char>>, rest: Seq<char>)
    ensures
        parse_opt_str(enc_opt_str(o) + rest) == Some((o, rest)),
{
    reveal_strlit("null");
    match o {
        None => {
            lemma_parse_lit_roundtrip("null"@, rest);
        },
        Some(content) => {
            let s = enc_str(content) + rest;
            lemma_enc_str_first(content);
            assert(s[0] == '"');
            lemma_differ_not_prefix(s, "null"@, 0);
            lemma_parse_str_roundtrip(content, rest);
        },
    }
}

pub open spec fn enc_opt_u64(o: Option<u64>) -> Seq<char> {
    match o {
        None => "null"@,
        Some(v) => enc_u64(v as nat),
    }
}

pub open spec fn parse_opt_u64(s: Seq<char>) -> Option<(Option<u64>, Seq<char>)> {
    match parse_lit(s, "null"@) {
        Some(r) => Some((None, r)),
        None => match parse_u64(s) {
            Some((v, r)) => Some((Some(v), r)),
            None => None,
        },
    }
}

pub proof fn lemma_parse_opt_u64_roundtrip(o: Option<u64>, rest: Seq<char>)
    requires
        rest.len() == 0 || !is_digit(rest[0]),
    ensures
        parse_opt_u64(enc_opt_u64(o) + rest) == Some((o, rest)),
{
    reveal_strlit("null");
    match o {
        None => {
            lemma_parse_lit_roundtrip("null"@, rest);
        },
        Some(v) => {
            let s = enc_u64(v as nat) + rest;
            lemma_enc_u64_shape(v as nat);
            assert(s[0] == enc_u64(v as nat)[0]);
            assert(is_digit(s[0]));
            lemma_differ_not_prefix(s, "null"@, 0);
            lemma_parse_u64_roundtrip(v, rest);
        },
    }
}

pub open spec fn enc_opt_u32(o: Option<u32>) -> Seq<char> {
    match o {
        None => "null"@,
        Some(v) => enc_u64(v as nat),
    }
}

pub open spec fn parse_opt_u32(s: Seq<char>) -> Option<(Option<u32>, Seq<char>)> {
    match parse_lit(s, "null"@) {
        Some(r) => Some((None, r)),
        None => match parse_u32(s) {
            Some((v, r)) => Some((Some(v), r)),
            None => None,
        },
    }
}

pub proof fn lemma_parse_opt_u32_roundtrip(o: Option<u32>, rest: Seq<char>)
    requires
        rest.len() == 0 || !is_digit(rest[0]),
    ensures
        parse_opt_u32(enc_opt_u32(o) + rest) == Some((o, rest)),
{
    reveal_strlit("null");
    match o {
        None => {
            lemma_parse_lit_roundtrip("null"@, rest);
        },
        Some(v) => {
            let s = enc_u64(v as nat) + rest;
            lemma_enc_u64_shape(v as nat);
            assert(is_digit(s[0]));
            lemma_differ_not_prefix(s, "null"@, 0);
            lemma_parse_u32_roundtrip(v, rest);
        },
    }
}

// ---------------------------------------------------------------------------
// Environment pairs
// ---------------------------------------------------------------------------

/// One environment override on the wire: a two-element array of strings.
pub open spec fn enc_pair(p: (Seq<char>, Seq<char>)) -> Seq<char> {
    "["@ + enc_str(p.0) + ","@ + enc_str(p.1) + "]"@
}

pub open spec fn parse_pair(s: Seq<char>) -> Option<((Seq<char>, Seq<char>), Seq<char>)> {
    match parse_lit(s, "["@) {
        None => None,
        Some(s1) => match parse_str(s1) {
            None => None,
            Some((k, s2)) => match parse_lit(s2, ","@) {
                None => None,
                Some(s3) => match parse_str(s3) {
                    None => None,
                    Some((v, s4)) => match parse_lit(s4, "]"@) {
                        None => None,
                        Some(s5) => Some(((k, v), s5)),
                    },
                },
            },
        },
    }
}

pub proof fn lemma_parse_pair_roundtrip(p: (Seq<char>, Seq<char>), rest: Seq<char>)
    ensures
        parse_pair(enc_pair(p) + rest) == Some((p, rest)),
{
    let u5 = rest;
    let u4 = "]"@ + u5;
    let u3 = enc_str(p.1) + u4;
    let u2 = ","@ + u3;
    let u1 = enc_str(p.0) + u2;
    let s = enc_pair(p) + rest;
    assert(s =~= "["@ + u1);
    lemma_parse_lit_roundtrip("["@, u1);
    lemma_parse_str_roundtrip(p.0, u2);
    lemma_parse_lit_roundtrip(","@, u3);
    lemma_parse_str_roundtrip(p.1, u4);
    lemma_parse_lit_roundtrip("]"@, u5);
}

/// The element encoder a wire array of environment pairs uses.
pub open spec fn pair_encoder() -> spec_fn((Seq<char>, Seq<char>)) -> Seq<char> {
    |p: (Seq<char>, Seq<char>)| enc_pair(p)
}

/// The element parser a wire array of environment pairs uses.
pub open spec fn pair_parser() -> spec_fn(Seq<char>) -> Option<((Seq<char>, Seq<char>), Seq<char>)> {
    |s: Seq<char>| parse_pair(s)
}

pub proof fn lemma_pair_list_hypotheses()
    ensures
        forall|x: (Seq<char>, Seq<char>), r: Seq<char>| #[trigger] (pair_parser())(
            (pair_encoder())(x) + r,
        ) == Some((x, r)),
        forall|x: (Seq<char>, Seq<char>)| (#[trigger] (pair_encoder())(x)).len() >= 1,
        forall|x: (Seq<char>, Seq<char>)| (#[trigger] (pair_encoder())(x))[0] != ']',
{
    reveal_strlit("[");
    reveal_strlit(",");
    reveal_strlit("]");
    assert forall|x: (Seq<char>, Seq<char>), r: Seq<char>| #[trigger] (pair_parser())(
        (pair_encoder())(x) + r,
    ) == Some((x, r)) by {
        lemma_parse_pair_roundtrip(x, r);
    }
    assert forall|x: (Seq<char>, Seq<char>)| (#[trigger] (pair_encoder())(x)).len() >= 1 && ((
    pair_encoder())(x))[0] != ']' by {
        assert(enc_pair(x)[0] == '[');
    }
}

// ---------------------------------------------------------------------------
// Status
// ---------------------------------------------------------------------------

pub open spec fn enc_status(st: ProcessStatus) -> Seq<char> {
    match st {
        ProcessStatus::Running => "\"Running\""@,
        ProcessStatus::Stopped => "\"Stopped\""@,
        ProcessStatus::Errored => "\"Errored\""@,
        ProcessStatus::Restarting => "\"Restarting\""@,
    }
}

pub open spec fn parse_status(s: Seq<char>) -> Option<(ProcessStatus, Seq<char>)> {
    match parse_lit(s, "\"Running\""@) {
        Some(r) => Some((ProcessStatus::Running, r)),
        None => match parse_lit(s, "\"Stopped\""@) {
            Some(r) => Some((ProcessStatus::Stopped, r)),
            None => match parse_lit(s, "\"Errored\""@) {
                Some(r) => Some((ProcessStatus::Errored, r)),
                None => match parse_lit(s, "\"Restarting\""@) {
                    Some(r) => Some((ProcessStatus::Restarting, r)),
                    None => None,
                },
            },
        },
    }
}

pub proof fn lemma_parse_status_roundtrip(st: ProcessStatus, rest: Seq<char>)
    ensures
        parse_status(enc_status(st) + rest) == Some((st, rest)),
{
    reveal_strlit("\"Running\"");
    reveal_strlit("\"Stopped\"");
    reveal_strlit("\"Errored\"");
    reveal_strlit("\"Restarting\"");
    let s = enc_status(st) + rest;
    lemma_parse_lit_roundtrip(enc_status(st), rest);
    match st {
        ProcessStatus::Running => {
        },
        ProcessStatus::Stopped => {
            assert(s[1] == 'S');
            lemma_differ_not_prefix(s, "\"Running\""@, 1);
        },
        ProcessStatus::Errored => {
            assert(s[1] == 'E');
            lemma_differ_not_prefix(s, "\"Running\""@, 1);
            lemma_differ_not_prefix(s, "\"Stopped\""@, 1);
        },
        ProcessStatus::Restarting => {
            assert(s[1] == 'R');
            assert(s[2] == 'e');
            lemma_differ_not_prefix(s, "\"Running\""@, 2);
            lemma_differ_not_prefix(s, "\"Stopped\""@, 1);
            lemma_differ_not_prefix(s, "\"Errored\""@, 1);
        },
    }
}


// ---------------------------------------------------------------------------
// ProcessConfig
// ---------------------------------------------------------------------------

/// A `ProcessConfig` on the wire: one object with every field, in a fixed
/// order.
pub open spec fn enc_config(c: ProcessConfigV) -> Seq<char> {
    "{\"name\":"@ + enc_str(c.name) + ",\"command\":"@ + enc_str(c.command) + ",\"cwd\":"@
        + enc_opt_str(c.cwd) + ",\"instances\":"@ + enc_u64(c.instances as nat)
        + ",\"autorestart\":"@ + enc_bool(c.autorestart) + ",\"max_memory\":"@ + enc_opt_u64(
        c.max_memory,
    ) + ",\"env\":"@ + enc_list(pair_encoder(), c.env) + "}"@
}

pub open spec fn parse_config(s: Seq<char>) -> Option<(ProcessConfigV, Seq<char>)> {
    match parse_lit(s, "{\"name\":"@) {
        None => None,
        Some(s1) => match parse_str(s1) {
            None => None,
            Some((name, s2)) => match parse_lit(s2, ",\"command\":"@) {
                None => None,
                Some(s3) => match parse_str(s3) {
                    None => None,
                    Some((command, s4)) => match parse_lit(s4, ",\"cwd\":"@) {
                        None => None,
                        Some(s5) => match parse_opt_str(s5) {
                            None => None,
                            Some((cwd, s6)) => match parse_lit(s6, ",\"instances\":"@) {
                                None => None,
                                Some(s7) => match parse_u32(s7) {
                                    None => None,
                                    Some((instances, s8)) => match parse_lit(
                                        s8,
                                        ",\"autorestart\":"@,
                                    ) {
                                        None => None,
                                        Some(s9) => match parse_bool(s9) {
                                            None => None,
                                            Some((autorestart, s10)) => match parse_lit(
                                                s10,
                                                ",\"max_memory\":"@,
                                            ) {
                                                None => None,
                                                Some(s11) => match parse_opt_u64(s11) {
                                                    None => None,
                                                    Some((max_memory, s12)) => match parse_lit(
                                                        s12,
                                                        ",\"env\":"@,
                                                    ) {
                                                        None => None,
                                                        Some(s13) => match parse_list(
                                                            pair_parser(),
                                                            s13,
                                                        ) {
                                                            None => None,
                                                            Some((env, s14)) => match parse_lit(
                                                                s14,
                                                                "}"@,
                                                            ) {
                                                                None => None,
                                                                Some(s15) => Some(
                                                                    (
                                                                        ProcessConfigV {
                                                                            name,
                                                                            command,
                                                                            cwd,
                                                                            instances,
                                                                            autorestart,
                                                                            max_memory,
                                                                            env,
                                                                        },
                                                                        s15,
                                                                    ),
                                                                ),
                                                            },
                                                        },
                                                    },
                                                },
                                            },
                                        },
                                    },
                                },
                            },
                        },
                    },
                },
            },
        },
    }
}

#[verifier::rlimit(60)]
pub proof fn lemma_parse_config_roundtrip(c: ProcessConfigV, rest: Seq<char>)
    ensures
        parse_config(enc_config(c) + rest) == Some((c, rest)),
{
    let u15 = rest;
    let u14 = "}"@ + u15;
    let u13 = enc_list(pair_encoder(), c.env) + u14;
    let u12 = ",\"env\":"@ + u13;
    let u11 = enc_opt_u64(c.max_memory) + u12;
    let u10 = ",\"max_memory\":"@ + u11;
    let u9 = enc_bool(c.autorestart) + u10;
    let u8 = ",\"autorestart\":"@ + u9;
    let u7 = enc_u64(c.instances as nat) + u8;
    let u6 = ",\"instances\":"@ + u7;
    let u5 = enc_opt_str(c.cwd) + u6;
    let u4 = ",\"cwd\":"@ + u5;
    let u3 = enc_str(c.command) + u4;
    let u2 = ",\"command\":"@ + u3;
    let u1 = enc_str(c.name) + u2;
    let s = enc_config(c) + rest;
    let l0 = "{\"name\":"@;
    let l1 = l0 + enc_str(c.name);
    let l2 = l1 + ",\"command\":"@;
    let l3 = l2 + enc_str(c.command);
    let l4 = l3 + ",\"cwd\":"@;
    let l5 = l4 + enc_opt_str(c.cwd);
    let l6 = l5 + ",\"instances\":"@;
    let l7 = l6 + enc_u64(c.instances as nat);
    let l8 = l7 + ",\"autorestart\":"@;
    let l9 = l8 + enc_bool(c.autorestart);
    let l10 = l9 + ",\"max_memory\":"@;
    let l11 = l10 + enc_opt_u64(c.max_memory);
    let l12 = l11 + ",\"env\":"@;
    let l13 = l12 + enc_list(pair_encoder(), c.env);
    let l14 = l13 + "}"@;
    assert(enc_config(c) == l14);
    assert(s == l14 + u15);
    crate::wire::seq_assoc(l13, "}"@, u15);
    assert(s == l13 + u14);
    crate::wire::seq_assoc(l12, enc_list(pair_encoder(), c.env), u14);
    assert(s == l12 + u13);
    crate::wire::seq_assoc(l11, ",\"env\":"@, u13);
    assert(s == l11 + u12);
    crate::wire::seq_assoc(l10, enc_opt_u64(c.max_memory), u12);
    assert(s == l10 + u11);
    crate::wire::seq_assoc(l9, ",\"max_memory\":"@, u11);
    assert(s == l9 + u10);
    crate::wire::seq_assoc(l8, enc_bool(c.autorestart), u10);
    assert(s == l8 + u9);
    crate::wire::seq_assoc(l7, ",\"autorestart\":"@, u9);
    assert(s == l7 + u8);
    crate::wire::seq_assoc(l6, enc_u64(c.instances as nat), u8);
    assert(s == l6 + u7);
    crate::wire::seq_assoc(l5, ",\"instances\":"@, u7);
    assert(s == l5 + u6);
    crate::wire::seq_assoc(l4, enc_opt_str(c.cwd), u6);
    assert(s == l4 + u5);
    crate::wire::seq_assoc(l3, ",\"cwd\":"@, u5);
    assert(s == l3 + u4);
    crate::wire::seq_assoc(l2, enc_str(c.command), u4);
    assert(s == l2 + u3);
    crate::wire::seq_assoc(l1, ",\"command\":"@, u3);
    assert(s == l1 + u2);
    crate::wire::seq_assoc(l0, enc_str(c.name), u2);
    assert(s == l0 + u1);
    assert(s == "{\"name\":"@ + u1);
    lemma_parse_lit_roundtrip("{\"name\":"@, u1);
    lemma_parse_str_roundtrip(c.name, u2);
    lemma_parse_lit_roundtrip(",\"command\":"@, u3);
    lemma_parse_str_roundtrip(c.command, u4);
    lemma_parse_lit_roundtrip(",\"cwd\":"@, u5);
    lemma_parse_opt_str_roundtrip(c.cwd, u6);
    lemma_parse_lit_roundtrip(",\"instances\":"@, u7);
    reveal_strlit(",\"autorestart\":");
    assert(u8[0] == ',');
    lemma_parse_u32_roundtrip(c.instances, u8);
    lemma_parse_lit_roundtrip(",\"autorestart\":"@, u9);
    lemma_parse_bool_roundtrip(c.autorestart, u10);
    lemma_parse_lit_roundtrip(",\"max_memory\":"@, u11);
    reveal_strlit(",\"env\":");
    assert(u12[0] == ',');
    lemma_parse_opt_u64_roundtrip(c.max_memory, u12);
    lemma_parse_lit_roundtrip(",\"env\":"@, u13);
    lemma_pair_list_hypotheses();
    lemma_parse_list_roundtrip(pair_parser(), pair_encoder(), c.env, u14);
    lemma_parse_lit_roundtrip("}"@, u15);
}

/// The element encoder a wire array of process configurations uses.
pub open spec fn config_encoder() -> spec_fn(ProcessConfigV) -> Seq<char> {
    |c: ProcessConfigV| enc_config(c)
}

/// The element parser a wire array of process configurations uses.
pub open spec fn config_parser() -> spec_fn(Seq<char>) -> Option<(ProcessConfigV, Seq<char>)> {
    |s: Seq<char>| parse_config(s)
}

pub proof fn lemma_config_list_hypotheses()
    ensures
        forall|x: ProcessConfigV, r: Seq<char>| #[trigger] (config_parser())(
            (config_encoder())(x) + r,
        ) == Some((x, r)),
        forall|x: ProcessConfigV| (#[trigger] (config_encoder())(x)).len() >= 1,
        forall|x: ProcessConfigV| (#[trigger] (config_encoder())(x))[0] != ']',
{
    reveal_strlit("{\"name\":");
    assert forall|x: ProcessConfigV, r: Seq<char>| #[trigger] (config_parser())(
        (config_encoder())(x) + r,
    ) == Some((x, r)) by {
        lemma_parse_config_roundtrip(x, r);
    }
    assert forall|x: ProcessConfigV| (#[trigger] (config_encoder())(x)).len() >= 1 && ((
    config_encoder())(x))[0] != ']' by {
        assert(enc_config(x)[0] == '{');
    }
}

// ---------------------------------------------------------------------------
// ProcessInfo
// ---------------------------------------------------------------------------

/// A `ProcessInfo` on the wire: one object with every field, in a fixed
/// order, the originating configuration nested last.
pub open spec fn enc_info(p: ProcessInfoV) -> Seq<char> {
    "{\"id\":"@ + enc_str(p.id) + ",\"name\":"@ + enc_str(p.name) + ",\"command\":"@ + enc_str(
        p.command,
    ) + ",\"status\":"@ + enc_status(p.status) + ",\"pid\":"@ + enc_opt_u32(p.pid)
        + ",\"cpu_usage\":"@ + enc_u64(p.cpu_usage as nat) + ",\"memory_usage\":"@ + enc_u64(
        p.memory_usage as nat,
    ) + ",\"started_at\":"@ + enc_u64(p.started_at as nat) + ",\"restarts\":"@ + enc_u64(
        p.restarts as nat,
    ) + ",\"config\":"@ + enc_config(p.config) + "}"@
}

/// The trailing fields of a `ProcessInfo` object, from the pid value to the
/// closing brace.
pub open spec fn parse_info_tail(s: Seq<char>) -> Option<
    ((Option<u32>, u64, u64, u64, u32, ProcessConfigV), Seq<char>),
> {
    match parse_opt_u32(s) {
        None => None,
        Some((pid, s10)) => match parse_lit(s10, ",\"cpu_usage\":"@) {
            None => None,
            Some(s11) => match parse_u64(s11) {
                None => None,
                Some((cpu_usage, s12)) => match parse_lit(s12, ",\"memory_usage\":"@) {
                    None => None,
                    Some(s13) => match parse_u64(s13) {
                        None => None,
                        Some((memory_usage, s14)) => match parse_lit(s14, ",\"started_at\":"@) {
                            None => None,
                            Some(s15) => match parse_u64(s15) {
                                None => None,
                                Some((started_at, s16)) => match parse_lit(
                                    s16,
                                    ",\"restarts\":"@,
                                ) {
                                    None => None,
                                    Some(s17) => match parse_u32(s17) {
                                        None => None,
                                        Some((restarts, s18)) => match parse_lit(
                                            s18,
                                            ",\"config\":"@,
                                        ) {
                                            None => None,
                                            Some(s19) => match parse_config(s19) {
                                                None => None,
                                                Some((config, s20)) => match parse_lit(s20, "}"@) {
                                                    None => None,
                                                    Some(s21) => Some(
                                                        (
                                                            (
                                                                pid,
                                                                cpu_usage,
                                                                memory_usage,
                                                                started_at,
                                                                restarts,
                                                                config,
                                                            ),
                                                            s21,
                                                        ),
                                                    ),
                                                },
                                            },
                                        },
                                    },
                                },
                            },
                        },
                    },
                },
            },
        },
    }
}

#[verifier::rlimit(80)]
proof fn lemma_parse_info_tail_roundtrip(
    pid: Option<u32>,
    cpu_usage: u64,
    memory_usage: u64,
    started_at: u64,
    restarts: u32,
    config: ProcessConfigV,
    rest: Seq<char>,
)
    ensures
        parse_info_tail(
            enc_opt_u32(pid) + (",\"cpu_usage\":"@ + (enc_u64(cpu_usage as nat) + (
            ",\"memory_usage\":"@ + (enc_u64(memory_usage as nat) + (",\"started_at\":"@ + (
            enc_u64(started_at as nat) + (",\"restarts\":"@ + (enc_u64(restarts as nat) + (
            ",\"config\":"@ + (enc_config(config) + ("}"@ + rest))))))))))),
        ) == Some(((pid, cpu_usage, memory_usage, started_at, restarts, config), rest)),
{
    let u21 = rest;
    let u20 = "}"@ + u21;
    let u19 = enc_config(config) + u20;
    let u18 = ",\"config\":"@ + u19;
    let u17 = enc_u64(restarts as nat) + u18;
    let u16 = ",\"restarts\":"@ + u17;
    let u15 = enc_u64(started_at as nat) + u16;
    let u14 = ",\"started_at\":"@ + u15;
    let u13 = enc_u64(memory_usage as nat) + u14;
    let u12 = ",\"memory_usage\":"@ + u13;
    let u11 = enc_u64(cpu_usage as nat) + u12;
    let u10 = ",\"cpu_usage\":"@ + u11;
    reveal_strlit(",\"cpu_usage\":");
    assert(u10[0] == ',');
    lemma_parse_opt_u32_roundtrip(pid, u10);
    lemma_parse_lit_roundtrip(",\"cpu_usage\":"@, u11);
    reveal_strlit(",\"memory_usage\":");
    assert(u12[0] == ',');
    lemma_parse_u64_roundtrip(cpu_usage, u12);
    lemma_parse_lit_roundtrip(",\"memory_usage\":"@, u13);
    reveal_strlit(",\"started_at\":");
    assert(u14[0] == ',');
    lemma_parse_u64_roundtrip(memory_usage, u14);
    lemma_parse_lit_roundtrip(",\"started_at\":"@, u15);
    reveal_strlit(",\"restarts\":");
    assert(u16[0] == ',');
    lemma_parse_u64_roundtrip(started_at, u16);
    lemma_parse_lit_roundtrip(",\"restarts\":"@, u17);
    reveal_strlit(",\"config\":");
    assert(u18[0] == ',');
    lemma_parse_u32_roundtrip(restarts, u18);
    lemma_parse_lit_roundtrip(",\"config\":"@, u19);
    lemma_parse_config_roundtrip(config, u20);
    lemma_parse_lit_roundtrip("}"@, u21);
}

pub open spec fn parse_info(s: Seq<char>) -> Option<(ProcessInfoV, Seq<char>)> {
    match parse_lit(s, "{\"id\":"@) {
        None => None,
        Some(s1) => match parse_str(s1) {
            None => None,
            Some((id, s2)) => match parse_lit(s2, ",\"name\":"@) {
                None => None,
                Some(s3) => match parse_str(s3) {
                    None => None,
                    Some((name, s4)) => match parse_lit(s4, ",\"command\":"@) {
                        None => None,
                        Some(s5) => match parse_str(s5) {
                            None => None,
                            Some((command, s6)) => match parse_lit(s6, ",\"status\":"@) {
                                None => None,
                                Some(s7) => match parse_status(s7) {
                                    None => None,
                                    Some((status, s8)) => match parse_lit(s8, ",\"pid\":"@) {
                                        None => None,
                                        Some(s9) => match parse_info_tail(s9) {
                                            None => None,
                                            Some(((pid, cpu_usage, memory_usage, started_at, restarts, config), s21)) => Some(
                                                (
                                                    ProcessInfoV {
                                                        id,
                                                        name,
                                                        command,
                                                        status,
                                                        pid,
                                                        cpu_usage,
                                                        memory_usage,
                                                        started_at,
                                                        restarts,
                                                        config,
                                                    },
                                                    s21,
                                                ),
                                            ),
                                        },
                                    },
                                },
                            },
                        },
                    },
                },
            },
        },
    }
}

#[verifier::rlimit(60)]
pub proof fn lemma_parse_info_roundtrip(p: ProcessInfoV, rest: Seq<char>)
    ensures
        parse_info(enc_info(p) + rest) == Some((p, rest)),
{
    let u21 = rest;
    let u20 = "}"@ + u21;
    let u19 = enc_config(p.config) + u20;
    let u18 = ",\"config\":"@ + u19;
    let u17 = enc_u64(p.restarts as nat) + u18;
    let u16 = ",\"restarts\":"@ + u17;
    let u15 = enc_u64(p.started_at as nat) + u16;
    let u14 = ",\"started_at\":"@ + u15;
    let u13 = enc_u64(p.memory_usage as nat) + u14;
    let u12 = ",\"memory_usage\":"@ + u13;
    let u11 = enc_u64(p.cpu_usage as nat) + u12;
    let u10 = ",\"cpu_usage\":"@ + u11;
    let u9 = enc_opt_u32(p.pid) + u10;
    let u8 = ",\"pid\":"@ + u9;
    let u7 = enc_status(p.status) + u8;
    let u6 = ",\"status\":"@ + u7;
    let u5 = enc_str(p.command) + u6;
    let u4 = ",\"command\":"@ + u5;
    let u3 = enc_str(p.name) + u4;
    let u2 = ",\"name\":"@ + u3;
    let u1 = enc_str(p.id) + u2;
    let s = enc_info(p) + rest;
    let l0 = "{\"id\":"@;
    let l1 = l0 + enc_str(p.id);
    let l2 = l1 + ",\"name\":"@;
    let l3 = l2 + enc_str(p.name);
    let l4 = l3 + ",\"command\":"@;
    let l5 = l4 + enc_str(p.command);
    let l6 = l5 + ",\"status\":"@;
    let l7 = l6 + enc_status(p.status);
    let l8 = l7 + ",\"pid\":"@;
    let l9 = l8 + enc_opt_u32(p.pid);
    let l10 = l9 + ",\"cpu_usage\":"@;
    let l11 = l10 + enc_u64(p.cpu_usage as nat);
    let l12 = l11 + ",\"memory_usage\":"@;
    let l13 = l12 + enc_u64(p.memory_usage as nat);
    let l14 = l13 + ",\"started_at\":"@;
    let l15 = l14 + enc_u64(p.started_at as nat);
    let l16 = l15 + ",\"restarts\":"@;
    let l17 = l16 + enc_u64(p.restarts as nat);
    let l18 = l17 + ",\"config\":"@;
    let l19 = l18 + enc_config(p.config);
    let l20 = l19 + "}"@;
    assert(enc_info(p) == l20);
    assert(s == l20 + u21);
    crate::wire::seq_assoc(l19, "}"@, u21);
    assert(s == l19 + u20);
    crate::wire::seq_assoc(l18, enc_config(p.config), u20);
    assert(s == l18 + u19);
    crate::wire::seq_assoc(l17, ",\"config\":"@, u19);
    assert(s == l17 + u18);
    crate::wire::seq_assoc(l16, enc_u64(p.restarts as nat), u18);
    assert(s == l16 + u17);
    crate::wire::seq_assoc(l15, ",\"restarts\":"@, u17);
    assert(s == l15 + u16);
    crate::wire::seq_assoc(l14, enc_u64(p.started_at as nat), u16);
    assert(s == l14 + u15);
    crate::wire::seq_assoc(l13, ",\"started_at\":"@, u15);
    assert(s == l13 + u14);
    crate::wire::seq_assoc(l12, enc_u64(p.memory_usage as nat), u14);
    assert(s == l12 + u13);
    crate::wire::seq_assoc(l11, ",\"memory_usage\":"@, u13);
    assert(s == l11 + u12);
    crate::wire::seq_assoc(l10, enc_u64(p.cpu_usage as nat), u12);
    assert(s == l10 + u11);
    crate::wire::seq_assoc(l9, ",\"cpu_usage\":"@, u11);
    assert(s == l9 + u10);
    crate::wire::seq_assoc(l8, enc_opt_u32(p.pid), u10);
    assert(s == l8 + u9);
    crate::wire::seq_assoc(l7, ",\"pid\":"@, u9);
    assert(s == l7 + u8);
    crate::wire::seq_assoc(l6, enc_status(p.status), u8);
    assert(s == l6 + u7);
    crate::wire::seq_assoc(l5, ",\"status\":"@, u7);
    assert(s == l5 + u6);
    crate::wire::seq_assoc(l4, enc_str(p.command), u6);
    assert(s == l4 + u5);
    crate::wire::seq_assoc(l3, ",\"command\":"@, u5);
    assert(s == l3 + u4);
    crate::wire::seq_assoc(l2, enc_str(p.name), u4);
    assert(s == l2 + u3);
    crate::wire::seq_assoc(l1, ",\"name\":"@, u3);
    assert(s == l1 + u2);
    crate::wire::seq_assoc(l0, enc_str(p.id), u2);
    assert(s == l0 + u1);
    assert(s == "{\"id\":"@ + u1);
    lemma_parse_lit_roundtrip("{\"id\":"@, u1);
    lemma_parse_str_roundtrip(p.id, u2);
    lemma_parse_lit_roundtrip(",\"name\":"@, u3);
    lemma_parse_str_roundtrip(p.name, u4);
    lemma_parse_lit_roundtrip(",\"command\":"@, u5);
    lemma_parse_str_roundtrip(p.command, u6);
    lemma_parse_lit_roundtrip(",\"status\":"@, u7);
    lemma_parse_status_roundtrip(p.status, u8);
    lemma_parse_lit_roundtrip(",\"pid\":"@, u9);
    lemma_parse_info_tail_roundtrip(p.pid, p.cpu_usage, p.memory_usage, p.started_at, p.restarts, p.config, rest);
    assert(parse_info_tail(u9) == Some(((p.pid, p.cpu_usage, p.memory_usage, p.started_at, p.restarts, p.config), rest)));
}

/// The element encoder a wire array of process snapshots uses.
pub open spec fn info_encoder() -> spec_fn(ProcessInfoV) -> Seq<char> {
    |p: ProcessInfoV| enc_info(p)
}

/// The element parser a wire array of process snapshots uses.
pub open spec fn info_parser() -> spec_fn(Seq<char>) -> Option<(ProcessInfoV, Seq<char>)> {
    |s: Seq<char>| parse_info(s)
}

pub proof fn lemma_info_list_hypotheses()
    ensures
        forall|x: ProcessInfoV, r: Seq<char>| #[trigger] (info_parser())(
            (info_encoder())(x) + r,
        ) == Some((x, r)),
        forall|x: ProcessInfoV| (#[trigger] (info_encoder())(x)).len() >= 1,
        forall|x: ProcessInfoV| (#[trigger] (info_encoder())(x))[0] != ']',
{
    reveal_strlit("{\"id\":");
    assert forall|x: ProcessInfoV, r: Seq<char>| #[trigger] (info_parser())(
        (info_encoder())(x) + r,
    ) == Some((x, r)) by {
        lemma_parse_info_roundtrip(x, r);
    }
    assert forall|x: ProcessInfoV| (#[trigger] (info_encoder())(x)).len() >= 1 && ((
    info_encoder())(x))[0] != ']' by {
        assert(enc_info(x)[0] == '{');
    }
}

/// The element encoder a wire array of plain strings uses.
pub open spec fn str_encoder() -> spec_fn(Seq<char>) -> Seq<char> {
    |s: Seq<char>| enc_str(s)
}

/// The element parser a wire array of plain strings uses.
pub open spec fn str_parser() -> spec_fn(Seq<char>) -> Option<(Seq<char>, Seq<char>)> {
    |s: Seq<char>| parse_str(s)
}

pub proof fn lemma_str_list_hypotheses()
    ensures
        forall|x: Seq<char>, r: Seq<char>| #[trigger] (str_parser())((str_encoder())(x) + r)
            == Some((x, r)),
        forall|x: Seq<char>| (#[trigger] (str_encoder())(x)).len() >= 1,
        forall|x: Seq<char>| (#[trigger] (str_encoder())(x))[0] != ']',
{
    assert forall|x: Seq<char>, r: Seq<char>| #[trigger] (str_parser())((str_encoder())(x) + r)
        == Some((x, r)) by {
        lemma_parse_str_roundtrip(x, r);
    }
    assert forall|x: Seq<char>| (#[trigger] (str_encoder())(x)).len() >= 1 && ((str_encoder())(
        x,
    ))[0] != ']' by {
        lemma_enc_str_first(x);
    }
}


// ---------------------------------------------------------------------------
// Requests and responses
// ---------------------------------------------------------------------------

/// An `IpcRequest` on the wire: one tagged object.
pub open spec fn enc_request(v: IpcRequestV) -> Seq<char> {
    match v {
        IpcRequestV::StartProcess(c) => "{\"StartProcess\":"@ + enc_config(c) + "}"@,
        IpcRequestV::StopProcess(n) => "{\"StopProcess\":"@ + enc_str(n) + "}"@,
        IpcRequestV::RestartProcess(n) => "{\"RestartProcess\":"@ + enc_str(n) + "}"@,
        IpcRequestV::DeleteProcess(n) => "{\"DeleteProcess\":"@ + enc_str(n) + "}"@,
        IpcRequestV::ListProcesses => "{\"ListProcesses\":null}"@,
        IpcRequestV::GetProcessInfo(n) => "{\"GetProcessInfo\":"@ + enc_str(n) + "}"@,
        IpcRequestV::GetLogs { name, lines, follow } => "{\"GetLogs\":{\"name\":"@ + enc_str(name)
            + ",\"lines\":"@ + enc_u64(lines as nat) + ",\"follow\":"@ + enc_bool(follow)
            + "}}"@,
        IpcRequestV::Monitor => "{\"Monitor\":null}"@,
        IpcRequestV::KillDaemon => "{\"KillDaemon\":null}"@,
        IpcRequestV::ReloadProcess(n) => "{\"ReloadProcess\":"@ + enc_str(n) + "}"@,
        IpcRequestV::SaveProcesses => "{\"SaveProcesses\":null}"@,
        IpcRequestV::ResurrectProcesses => "{\"ResurrectProcesses\":null}"@,
    }
}

pub open spec fn parse_request(s: Seq<char>) -> Option<(IpcRequestV, Seq<char>)> {
    match parse_lit(s, "{\"StartProcess\":"@) {
        Some(s1) => match parse_config(s1) { None => None, Some((x, s2)) => match parse_lit(s2, "}"@) { None => None, Some(r) => Some((IpcRequestV::StartProcess(x), r)) } },
        None => match parse_lit(s, "{\"StopProcess\":"@) {
        Some(s1) => match parse_str(s1) { None => None, Some((x, s2)) => match parse_lit(s2, "}"@) { None => None, Some(r) => Some((IpcRequestV::StopProcess(x), r)) } },
        None => match parse_lit(s, "{\"RestartProcess\":"@) {
        Some(s1) => match parse_str(s1) { None => None, Some((x, s2)) => match parse_lit(s2, "}"@) { None => None, Some(r) => Some((IpcRequestV::RestartProcess(x), r)) } },
        None => match parse_lit(s, "{\"DeleteProcess\":"@) {
        Some(s1) => match parse_str(s1) { None => None, Some((x, s2)) => match parse_lit(s2, "}"@) { None => None, Some(r) => Some((IpcRequestV::DeleteProcess(x), r)) } },
        None => match parse_lit(s, "{\"ListProcesses\":null}"@) {
        Some(r) => Some((IpcRequestV::ListProcesses, r)),
        None => match parse_lit(s, "{\"GetProcessInfo\":"@) {
        Some(s1) => match parse_str(s1) { None => None, Some((x, s2)) => match parse_lit(s2, "}"@) { None => None, Some(r) => Some((IpcRequestV::GetProcessInfo(x), r)) } },
        None => match parse_lit(s, "{\"GetLogs\":{\"name\":"@) {
        Some(s1) => match parse_str(s1) { None => None, Some((name, s2)) => match parse_lit(s2, ",\"lines\":"@) { None => None, Some(s3) => match parse_usize(s3) { None => None, Some((lines, s4)) => match parse_lit(s4, ",\"follow\":"@) { None => None, Some(s5) => match parse_bool(s5) { None => None, Some((follow, s6)) => match parse_lit(s6, "}}"@) { None => None, Some(r) => Some((IpcRequestV::GetLogs { name, lines, follow }, r)) } } } } } },
        None => match parse_lit(s, "{\"Monitor\":null}"@) {
        Some(r) => Some((IpcRequestV::Monitor, r)),
        None => match parse_lit(s, "{\"KillDaemon\":null}"@) {
        Some(r) => Some((IpcRequestV::KillDaemon, r)),
        None => match parse_lit(s, "{\"ReloadProcess\":"@) {
        Some(s1) => match parse_str(s1) { None => None, Some((x, s2)) => match parse_lit(s2, "}"@) { None => None, Some(r) => Some((IpcRequestV::ReloadProcess(x), r)) } },
        None => match parse_lit(s, "{\"SaveProcesses\":null}"@) {
        Some(r) => Some((IpcRequestV::SaveProcesses, r)),
        None => match parse_lit(s, "{\"ResurrectProcesses\":null}"@) {
        Some(r) => Some((IpcRequestV::ResurrectProcesses, r)),
        None => None,
    },
    },
    },
    },
    },
    },
    },
    },
    },
    },
    },
    }
}

#[verifier::rlimit(80)]
proof fn lemma_req_rt_startprocess(x: ProcessConfigV, rest: Seq<char>)
    ensures
        parse_request(enc_request(IpcRequestV::StartProcess(x)) + rest) == Some((IpcRequestV::StartProcess(x), rest)),
{
    reveal_strlit("{\"StartProcess\":");
    let s = enc_request(IpcRequestV::StartProcess(x)) + rest;
    let u2 = "}"@ + rest;
    let u1 = enc_config(x) + u2;
    assert(s =~= "{\"StartProcess\":"@ + u1);
    lemma_parse_lit_roundtrip("{\"StartProcess\":"@, u1);
    lemma_parse_config_roundtrip(x, u2);
    lemma_parse_lit_roundtrip("}"@, u2);
}

#[verifier::rlimit(80)]
proof fn lemma_req_rt_stopprocess(x: Seq<char>, rest: Seq<char>)
    ensures
        parse_request(enc_request(IpcRequestV::StopProcess(x)) + rest) == Some((IpcRequestV::StopProcess(x), rest)),
{
    reveal_strlit("{\"StartProcess\":");
    reveal_strlit("{\"StopProcess\":");
    let s = enc_request(IpcRequestV::StopProcess(x)) + rest;
    let u2 = "}"@ + rest;
    let u1 = enc_str(x) + u2;
    assert(s =~= "{\"StopProcess\":"@ + u1);
    lemma_differ_not_prefix(s, "{\"StartProcess\":"@, 4);
    lemma_parse_lit_roundtrip("{\"StopProcess\":"@, u1);
    lemma_parse_str_roundtrip(x, u2);
    lemma_parse_lit_roundtrip("}"@, u2);
}

#[verifier::rlimit(80)]
proof fn lemma_req_rt_restartprocess(x: Seq<char>, rest: Seq<char>)
    ensures
        parse_request(enc_request(IpcRequestV::RestartProcess(x)) + rest) == Some((IpcRequestV::RestartProcess(x), rest)),
{
    reveal_strlit("{\"StartProcess\":");
    reveal_strlit("{\"StopProcess\":");
    reveal_strlit("{\"RestartProcess\":");
    let s = enc_request(IpcRequestV::RestartProcess(x)) + rest;
    let u2 = "}"@ + rest;
    let u1 = enc_str(x) + u2;
    assert(s =~= "{\"RestartProcess\":"@ + u1);
    lemma_differ_not_prefix(s, "{\"StartProcess\":"@, 2);
    lemma_differ_not_prefix(s, "{\"StopProcess\":"@, 2);
    lemma_parse_lit_roundtrip("{\"RestartProcess\":"@, u1);
    lemma_parse_str_roundtrip(x, u2);
    lemma_parse_lit_roundtrip("}"@, u2);
}

#[verifier::rlimit(80)]
proof fn lemma_req_rt_deleteprocess(x: Seq<char>, rest: Seq<char>)
    ensures
        parse_request(enc_request(IpcRequestV::DeleteProcess(x)) + rest) == Some((IpcRequestV::DeleteProcess(x), rest)),
{
    reveal_strlit("{\"StartProcess\":");
    reveal_strlit("{\"StopProcess\":");
    reveal_strlit("{\"RestartProcess\":");
    reveal_strlit("{\"DeleteProcess\":");
    let s = enc_request(IpcRequestV::DeleteProcess(x)) + rest;
    let u2 = "}"@ + rest;
    let u1 = enc_str(x) + u2;
    assert(s =~= "{\"DeleteProcess\":"@ + u1);
    lemma_differ_not_prefix(s, "{\"StartProcess\":"@, 2);
    lemma_differ_not_prefix(s, "{\"StopProcess\":"@, 2);
    lemma_differ_not_prefix(s, "{\"RestartProcess\":"@, 2);
    lemma_parse_lit_roundtrip("{\"DeleteProcess\":"@, u1);
    lemma_parse_str_roundtrip(x, u2);
    lemma_parse_lit_roundtrip("}"@, u2);
}

#[verifier::rlimit(80)]
proof fn lemma_req_rt_listprocesses(rest: Seq<char>)
    ensures
        parse_request(enc_request(IpcRequestV::ListProcesses) + rest) == Some((IpcRequestV::ListProcesses, rest)),
{
    reveal_strlit("{\"StartProcess\":");
    reveal_strlit("{\"StopProcess\":");
    reveal_strlit("{\"RestartProcess\":");
    reveal_strlit("{\"DeleteProcess\":");
    reveal_strlit("{\"ListProcesses\":null}");
    let s = enc_request(IpcRequestV::ListProcesses) + rest;
    assert(s =~= "{\"ListProcesses\":null}"@ + rest);
    lemma_differ_not_prefix(s, "{\"StartProcess\":"@, 2);
    lemma_differ_not_prefix(s, "{\"StopProcess\":"@, 2);
    lemma_differ_not_prefix(s, "{\"RestartProcess\":"@, 2);
    lemma_differ_not_prefix(s, "{\"DeleteProcess\":"@, 2);
    lemma_parse_lit_roundtrip("{\"ListProcesses\":null}"@, rest);
}

#[verifier::rlimit(80)]
proof fn lemma_req_rt_getprocessinfo(x: Seq<char>, rest: Seq<char>)
    ensures
        parse_request(enc_request(IpcRequestV::GetProcessInfo(x)) + rest) == Some((IpcRequestV::GetProcessInfo(x), rest)),
{
    reveal_strlit("{\"StartProcess\":");
    reveal_strlit("{\"StopProcess\":");
    reveal_strlit("{\"RestartProcess\":");
    reveal_strlit("{\"DeleteProcess\":");
    reveal_strlit("{\"ListProcesses\":null}");
    reveal_strlit("{\"GetProcessInfo\":");
    let s = enc_request(IpcRequestV::GetProcessInfo(x)) + rest;
    let u2 = "}"@ + rest;
    let u1 = enc_str(x) + u2;
    assert(s =~= "{\"GetProcessInfo\":"@ + u1);
    lemma_differ_not_prefix(s, "{\"StartProcess\":"@, 2);
    lemma_differ_not_prefix(s, "{\"StopProcess\":"@, 2);
    lemma_differ_not_prefix(s, "{\"RestartProcess\":"@, 2);
    lemma_differ_not_prefix(s, "{\"DeleteProcess\":"@, 2);
    lemma_differ_not_prefix(s, "{\"ListProcesses\":null}"@, 2);
    lemma_parse_lit_roundtrip("{\"GetProcessInfo\":"@, u1);
    lemma_parse_str_roundtrip(x, u2);
    lemma_parse_lit_roundtrip("}"@, u2);
}

#[verifier::rlimit(80)]
proof fn lemma_req_rt_getlogs(name_: Seq<char>, lines: usize, follow: bool, rest: Seq<char>)
    ensures
        parse_request(enc_request((IpcRequestV::GetLogs { name: name_, lines, follow })) + rest) == Some(((IpcRequestV::GetLogs { name: name_, lines, follow }), rest)),
{
    reveal_strlit("{\"StartProcess\":");
    reveal_strlit("{\"StopProcess\":");
    reveal_strlit("{\"RestartProcess\":");
    reveal_strlit("{\"DeleteProcess\":");
    reveal_strlit("{\"ListProcesses\":null}");
    reveal_strlit("{\"GetProcessInfo\":");
    reveal_strlit("{\"GetLogs\":{\"name\":");
    let s = enc_request((IpcRequestV::GetLogs { name: name_, lines, follow })) + rest;
    let u6 = "}}"@ + rest;
    let u5 = enc_bool(follow) + u6;
    let u4 = ",\"follow\":"@ + u5;
    let u3 = enc_u64(lines as nat) + u4;
    let u2 = ",\"lines\":"@ + u3;
    let u1 = enc_str(name_) + u2;
    assert(s =~= "{\"GetLogs\":{\"name\":"@ + u1);
    lemma_differ_not_prefix(s, "{\"StartProcess\":"@, 2);
    lemma_differ_not_prefix(s, "{\"StopProcess\":"@, 2);
    lemma_differ_not_prefix(s, "{\"RestartProcess\":"@, 2);
    lemma_differ_not_prefix(s, "{\"DeleteProcess\":"@, 2);
    lemma_differ_not_prefix(s, "{\"ListProcesses\":null}"@, 2);
    lemma_differ_not_prefix(s, "{\"GetProcessInfo\":"@, 5);
    lemma_parse_lit_roundtrip("{\"GetLogs\":{\"name\":"@, u1);
    lemma_parse_str_roundtrip(name_, u2);
    lemma_parse_lit_roundtrip(",\"lines\":"@, u3);
    reveal_strlit(",\"follow\":");
    assert(u4[0] == ',');
    lemma_parse_usize_roundtrip(lines, u4);
    lemma_parse_lit_roundtrip(",\"follow\":"@, u5);
    lemma_parse_bool_roundtrip(follow, u6);
    lemma_parse_lit_roundtrip("}}"@, rest);
}

#[verifier::rlimit(80)]
proof fn lemma_req_rt_monitor(rest: Seq<char>)
    ensures
        parse_request(enc_request(IpcRequestV::Monitor) + rest) == Some((IpcRequestV::Monitor, rest)),
{
    reveal_strlit("{\"StartProcess\":");
    reveal_strlit("{\"StopProcess\":");
    reveal_strlit("{\"RestartProcess\":");
    reveal_strlit("{\"DeleteProcess\":");
    reveal_strlit("{\"ListProcesses\":null}");
    reveal_strlit("{\"GetProcessInfo\":");
    reveal_strlit("{\"GetLogs\":{\"name\":");
    reveal_strlit("{\"Monitor\":null}");
    let s = enc_request(IpcRequestV::Monitor) + rest;
    assert(s =~= "{\"Monitor\":null}"@ + rest);
    lemma_differ_not_prefix(s, "{\"StartProcess\":"@, 2);
    lemma_differ_not_prefix(s, "{\"StopProcess\":"@, 2);
    lemma_differ_not_prefix(s, "{\"RestartProcess\":"@, 2);
    lemma_differ_not_prefix(s, "{\"DeleteProcess\":"@, 2);
    lemma_differ_not_prefix(s, "{\"ListProcesses\":null}"@, 2);
    lemma_differ_not_prefix(s, "{\"GetProcessInfo\":"@, 2);
    lemma_differ_not_prefix(s, "{\"GetLogs\":{\"name\":"@, 2);
    lemma_parse_lit_roundtrip("{\"Monitor\":null}"@, rest);
}

#[verifier::rlimit(80)]
proof fn lemma_req_rt_killdaemon(rest: Seq<char>)
    ensures
        parse_request(enc_request(IpcRequestV::KillDaemon) + rest) == Some((IpcRequestV::KillDaemon, rest)),
{
    reveal_strlit("{\"StartProcess\":");
    reveal_strlit("{\"StopProcess\":");
    reveal_strlit("{\"RestartProcess\":");
    reveal_strlit("{\"DeleteProcess\":");
    reveal_strlit("{\"ListProcesses\":null}");
    reveal_strlit("{\"GetProcessInfo\":");
    reveal_strlit("{\"GetLogs\":{\"name\":");
    reveal_strlit("{\"Monitor\":null}");
    reveal_strlit("{\"KillDaemon\":null}");
    let s = enc_request(IpcRequestV::KillDaemon) + rest;
    assert(s =~= "{\"KillDaemon\":null}"@ + rest);
    lemma_differ_not_prefix(s, "{\"StartProcess\":"@, 2);
    lemma_differ_not_prefix(s, "{\"StopProcess\":"@, 2);
    lemma_differ_not_prefix(s, "{\"RestartProcess\":"@, 2);
    lemma_differ_not_prefix(s, "{\"DeleteProcess\":"@, 2);
    lemma_differ_not_prefix(s, "{\"ListProcesses\":null}"@, 2);
    lemma_differ_not_prefix(s, "{\"GetProcessInfo\":"@, 2);
    lemma_differ_not_prefix(s, "{\"GetLogs\":{\"name\":"@, 2);
    lemma_differ_not_prefix(s, "{\"Monitor\":null}"@, 2);
    lemma_parse_lit_roundtrip("{\"KillDaemon\":null}"@, rest);
}

#[verifier::rlimit(80)]
proof fn lemma_req_rt_reloadprocess(x: Seq<char>, rest: Seq<char>)
    ensures
        parse_request(enc_request(IpcRequestV::ReloadProcess(x)) + rest) == Some((IpcRequestV::ReloadProcess(x), rest)),
{
    reveal_strlit("{\"StartProcess\":");
    reveal_strlit("{\"StopProcess\":");
    reveal_strlit("{\"RestartProcess\":");
    reveal_strlit("{\"DeleteProcess\":");
    reveal_strlit("{\"ListProcesses\":null}");
    reveal_strlit("{\"GetProcessInfo\":");
    reveal_strlit("{\"GetLogs\":{\"name\":");
    reveal_strlit("{\"Monitor\":null}");
    reveal_strlit("{\"KillDaemon\":null}");
    reveal_strlit("{\"ReloadProcess\":");
    let s = enc_request(IpcRequestV::ReloadProcess(x)) + rest;
    let u2 = "}"@ + rest;
    let u1 = enc_str(x) + u2;
    assert(s =~= "{\"ReloadProcess\":"@ + u1);
    lemma_differ_not_prefix(s, "{\"StartProcess\":"@, 2);
    lemma_differ_not_prefix(s, "{\"StopProcess\":"@, 2);
    lemma_differ_not_prefix(s, "{\"RestartProcess\":"@, 4);
    lemma_differ_not_prefix(s, "{\"DeleteProcess\":"@, 2);
    lemma_differ_not_prefix(s, "{\"ListProcesses\":null}"@, 2);
    lemma_differ_not_prefix(s, "{\"GetProcessInfo\":"@, 2);
    lemma_differ_not_prefix(s, "{\"GetLogs\":{\"name\":"@, 2);
    lemma_differ_not_prefix(s, "{\"Monitor\":null}"@, 2);
    lemma_differ_not_prefix(s, "{\"KillDaemon\":null}"@, 2);
    lemma_parse_lit_roundtrip("{\"ReloadProcess\":"@, u1);
    lemma_parse_str_roundtrip(x, u2);
    lemma_parse_lit_roundtrip("}"@, u2);
}

#[verifier::rlimit(80)]
proof fn lemma_req_rt_saveprocesses(rest: Seq<char>)
    ensures
        parse_request(enc_request(IpcRequestV::SaveProcesses) + rest) == Some((IpcRequestV::SaveProcesses, rest)),
{
    reveal_strlit("{\"StartProcess\":");
    reveal_strlit("{\"StopProcess\":");
    reveal_strlit("{\"RestartProcess\":");
    reveal_strlit("{\"DeleteProcess\":");
    reveal_strlit("{\"ListProcesses\":null}");
    reveal_strlit("{\"GetProcessInfo\":");
    reveal_strlit("{\"GetLogs\":{\"name\":");
    reveal_strlit("{\"Monitor\":null}");
    reveal_strlit("{\"KillDaemon\":null}");
    reveal_strlit("{\"ReloadProcess\":");
    reveal_strlit("{\"SaveProcesses\":null}");
    let s = enc_request(IpcRequestV::SaveProcesses) + rest;
    assert(s =~= "{\"SaveProcesses\":null}"@ + rest);
    lemma_differ_not_prefix(s, "{\"StartProcess\":"@, 3);
    lemma_differ_not_prefix(s, "{\"StopProcess\":"@, 3);
    lemma_differ_not_prefix(s, "{\"RestartProcess\":"@, 2);
    lemma_differ_not_prefix(s, "{\"DeleteProcess\":"@, 2);
    lemma_differ_not_prefix(s, "{\"ListProcesses\":null}"@, 2);
    lemma_differ_not_prefix(s, "{\"GetProcessInfo\":"@, 2);
    lemma_differ_not_prefix(s, "{\"GetLogs\":{\"name\":"@, 2);
    lemma_differ_not_prefix(s, "{\"Monitor\":null}"@, 2);
    lemma_differ_not_prefix(s, "{\"KillDaemon\":null}"@, 2);
    lemma_differ_not_prefix(s, "{\"ReloadProcess\":"@, 2);
    lemma_parse_lit_roundtrip("{\"SaveProcesses\":null}"@, rest);
}

#[verifier::rlimit(80)]
proof fn lemma_req_rt_resurrectprocesses(rest: Seq<char>)
    ensures
        parse_request(enc_request(IpcRequestV::ResurrectProcesses) + rest) == Some((IpcRequestV::ResurrectProcesses, rest)),
{
    reveal_strlit("{\"StartProcess\":");
    reveal_strlit("{\"StopProcess\":");
    reveal_strlit("{\"RestartProcess\":");
    reveal_strlit("{\"DeleteProcess\":");
    reveal_strlit("{\"ListProcesses\":null}");
    reveal_strlit("{\"GetProcessInfo\":");
    reveal_strlit("{\"GetLogs\":{\"name\":");
    reveal_strlit("{\"Monitor\":null}");
    reveal_strlit("{\"KillDaemon\":null}");
    reveal_strlit("{\"ReloadProcess\":");
    reveal_strlit("{\"SaveProcesses\":null}");
    reveal_strlit("{\"ResurrectProcesses\":null}");
    let s = enc_request(IpcRequestV::ResurrectProcesses) + rest;
    assert(s =~= "{\"ResurrectProcesses\":null}"@ + rest);
    lemma_differ_not_prefix(s, "{\"StartProcess\":"@, 2);
    lemma_differ_not_prefix(s, "{\"StopProcess\":"@, 2);
    lemma_differ_not_prefix(s, "{\"RestartProcess\":"@, 5);
    lemma_differ_not_prefix(s, "{\"DeleteProcess\":"@, 2);
    lemma_differ_not_prefix(s, "{\"ListProcesses\":null}"@, 2);
    lemma_differ_not_prefix(s, "{\"GetProcessInfo\":"@, 2);
    lemma_differ_not_prefix(s, "{\"GetLogs\":{\"name\":"@, 2);
    lemma_differ_not_prefix(s, "{\"Monitor\":null}"@, 2);
    lemma_differ_not_prefix(s, "{\"KillDaemon\":null}"@, 2);
    lemma_differ_not_prefix(s, "{\"ReloadProcess\":"@, 4);
    lemma_differ_not_prefix(s, "{\"SaveProcesses\":null}"@, 2);
    lemma_parse_lit_roundtrip("{\"ResurrectProcesses\":null}"@, rest);
}

pub proof fn lemma_parse_request_roundtrip(v: IpcRequestV, rest: Seq<char>)
    ensures
        parse_request(enc_request(v) + rest) == Some((v, rest)),
{
    match v {
        IpcRequestV::StartProcess(x) => lemma_req_rt_startprocess(x, rest),
        IpcRequestV::StopProcess(x) => lemma_req_rt_stopprocess(x, rest),
        IpcRequestV::RestartProcess(x) => lemma_req_rt_restartprocess(x, rest),
        IpcRequestV::DeleteProcess(x) => lemma_req_rt_deleteprocess(x, rest),
        IpcRequestV::ListProcesses => lemma_req_rt_listprocesses(rest),
        IpcRequestV::GetProcessInfo(x) => lemma_req_rt_getprocessinfo(x, rest),
        IpcRequestV::GetLogs { name, lines, follow } => lemma_req_rt_getlogs(name, lines, follow, rest),
        IpcRequestV::Monitor => lemma_req_rt_monitor(rest),
        IpcRequestV::KillDaemon => lemma_req_rt_killdaemon(rest),
        IpcRequestV::ReloadProcess(x) => lemma_req_rt_reloadprocess(x, rest),
        IpcRequestV::SaveProcesses => lemma_req_rt_saveprocesses(rest),
        IpcRequestV::ResurrectProcesses => lemma_req_rt_resurrectprocesses(rest),
    }
}

/// An `IpcResponse` on the wire: one tagged object.
pub open spec fn enc_response(v: IpcResponseV) -> Seq<char> {
    match v {
        IpcResponseV::Success(n) => "{\"Success\":"@ + enc_str(n) + "}"@,
        IpcResponseV::ProcessList(ps) => "{\"ProcessList\":"@ + enc_list(info_encoder(), ps) + "}"@,
        IpcResponseV::ProcessInfo(p) => "{\"ProcessInfo\":"@ + enc_info(p) + "}"@,
        IpcResponseV::Logs(ls) => "{\"Logs\":"@ + enc_list(str_encoder(), ls) + "}"@,
        IpcResponseV::Error(n) => "{\"Error\":"@ + enc_str(n) + "}"@,
    }
}

pub open spec fn parse_response(s: Seq<char>) -> Option<(IpcResponseV, Seq<char>)> {
    match parse_lit(s, "{\"Success\":"@) {
        Some(s1) => match parse_str(s1) { None => None, Some((x, s2)) => match parse_lit(s2, "}"@) { None => None, Some(r) => Some((IpcResponseV::Success(x), r)) } },
        None => match parse_lit(s, "{\"ProcessList\":"@) {
        Some(s1) => match parse_list(info_parser(), s1) { None => None, Some((x, s2)) => match parse_lit(s2, "}"@) { None => None, Some(r) => Some((IpcResponseV::ProcessList(x), r)) } },
        None => match parse_lit(s, "{\"ProcessInfo\":"@) {
        Some(s1) => match parse_info(s1) { None => None, Some((x, s2)) => match parse_lit(s2, "}"@) { None => None, Some(r) => Some((IpcResponseV::ProcessInfo(x), r)) } },
        None => match parse_lit(s, "{\"Logs\":"@) {
        Some(s1) => match parse_list(str_parser(), s1) { None => None, Some((x, s2)) => match parse_lit(s2, "}"@) { None => None, Some(r) => Some((IpcResponseV::Logs(x), r)) } },
        None => match parse_lit(s, "{\"Error\":"@) {
        Some(s1) => match parse_str(s1) { None => None, Some((x, s2)) => match parse_lit(s2, "}"@) { None => None, Some(r) => Some((IpcResponseV::Error(x), r)) } },
        None => None,
    },
    },
    },
    },
    }
}

#[verifier::rlimit(80)]
proof fn lemma_resp_rt_success(x: Seq<char>, rest: Seq<char>)
    ensures
        parse_response(enc_response(IpcResponseV::Success(x)) + rest) == Some((IpcResponseV::Success(x), rest)),
{
    reveal_strlit("{\"Success\":");
    let s = enc_response(IpcResponseV::Success(x)) + rest;
    let u2 = "}"@ + rest;
    let u1 = enc_str(x) + u2;
    assert(s =~= "{\"Success\":"@ + u1);
    lemma_parse_lit_roundtrip("{\"Success\":"@, u1);
    lemma_parse_str_roundtrip(x, u2);
    lemma_parse_lit_roundtrip("}"@, u2);
}

#[verifier::rlimit(80)]
proof fn lemma_resp_rt_processlist(x: Seq<ProcessInfoV>, rest: Seq<char>)
    ensures
        parse_response(enc_response(IpcResponseV::ProcessList(x)) + rest) == Some((IpcResponseV::ProcessList(x), rest)),
{
    reveal_strlit("{\"Success\":");
    reveal_strlit("{\"ProcessList\":");
    let s = enc_response(IpcResponseV::ProcessList(x)) + rest;
    let u2 = "}"@ + rest;
    let u1 = enc_list(info_encoder(), x) + u2;
    assert(s =~= "{\"ProcessList\":"@ + u1);
    lemma_differ_not_prefix(s, "{\"Success\":"@, 2);
    lemma_parse_lit_roundtrip("{\"ProcessList\":"@, u1);
    lemma_info_list_hypotheses();
    lemma_parse_list_roundtrip(info_parser(), info_encoder(), x, u2);
    lemma_parse_lit_roundtrip("}"@, u2);
}

#[verifier::rlimit(80)]
proof fn lemma_resp_rt_processinfo(x: ProcessInfoV, rest: Seq<char>)
    ensures
        parse_response(enc_response(IpcResponseV::ProcessInfo(x)) + rest) == Some((IpcResponseV::ProcessInfo(x), rest)),
{
    reveal_strlit("{\"Success\":");
    reveal_strlit("{\"ProcessList\":");
    reveal_strlit("{\"ProcessInfo\":");
    let s = enc_response(IpcResponseV::ProcessInfo(x)) + rest;
    let u2 = "}"@ + rest;
    let u1 = enc_info(x) + u2;
    assert(s =~= "{\"ProcessInfo\":"@ + u1);
    lemma_differ_not_prefix(s, "{\"Success\":"@, 2);
    lemma_differ_not_prefix(s, "{\"ProcessList\":"@, 9);
    lemma_parse_lit_roundtrip("{\"ProcessInfo\":"@, u1);
    lemma_parse_info_roundtrip(x, u2);
    lemma_parse_lit_roundtrip("}"@, u2);
}

#[verifier::rlimit(80)]
proof fn lemma_resp_rt_logs(x: Seq<Seq<char>>, rest: Seq<char>)
    ensures
        parse_response(enc_response(IpcResponseV::Logs(x)) + rest) == Some((IpcResponseV::Logs(x), rest)),
{
    reveal_strlit("{\"Success\":");
    reveal_strlit("{\"ProcessList\":");
    reveal_strlit("{\"ProcessInfo\":");
    reveal_strlit("{\"Logs\":");
    let s = enc_response(IpcResponseV::Logs(x)) + rest;
    let u2 = "}"@ + rest;
    let u1 = enc_list(str_encoder(), x) + u2;
    assert(s =~= "{\"Logs\":"@ + u1);
    lemma_differ_not_prefix(s, "{\"Success\":"@, 2);
    lemma_differ_not_prefix(s, "{\"ProcessList\":"@, 2);
    lemma_differ_not_prefix(s, "{\"ProcessInfo\":"@, 2);
    lemma_parse_lit_roundtrip("{\"Logs\":"@, u1);
    lemma_str_list_hypotheses();
    lemma_parse_list_roundtrip(str_parser(), str_encoder(), x, u2);
    lemma_parse_lit_roundtrip("}"@, u2);
}

#[verifier::rlimit(80)]
proof fn lemma_resp_rt_error(x: Seq<char>, rest: Seq<char>)
    ensures
        parse_response(enc_response(IpcResponseV::Error(x)) + rest) == Some((IpcResponseV::Error(x), rest)),
{
    reveal_strlit("{\"Success\":");
    reveal_strlit("{\"ProcessList\":");
    reveal_strlit("{\"ProcessInfo\":");
    reveal_strlit("{\"Logs\":");
    reveal_strlit("{\"Error\":");
    let s = enc_response(IpcResponseV::Error(x)) + rest;
    let u2 = "}"@ + rest;
    let u1 = enc_str(x) + u2;
    assert(s =~= "{\"Error\":"@ + u1);
    lemma_differ_not_prefix(s, "{\"Success\":"@, 2);
    lemma_differ_not_prefix(s, "{\"ProcessList\":"@, 2);
    lemma_differ_not_prefix(s, "{\"ProcessInfo\":"@, 2);
    lemma_differ_not_prefix(s, "{\"Logs\":"@, 2);
    lemma_parse_lit_roundtrip("{\"Error\":"@, u1);
    lemma_parse_str_roundtrip(x, u2);
    lemma_parse_lit_roundtrip("}"@, u2);
}

pub proof fn lemma_parse_response_roundtrip(v: IpcResponseV, rest: Seq<char>)
    ensures
        parse_response(enc_response(v) + rest) == Some((v, rest)),
{
    match v {
        IpcResponseV::Success(x) => lemma_resp_rt_success(x, rest),
        IpcResponseV::ProcessList(x) => lemma_resp_rt_processlist(x, rest),
        IpcResponseV::ProcessInfo(x) => lemma_resp_rt_processinfo(x, rest),
        IpcResponseV::Logs(x) => lemma_resp_rt_logs(x, rest),
        IpcResponseV::Error(x) => lemma_resp_rt_error(x, rest),
    }
}

// ---------------------------------------------------------------------------
// Whole frames and the persisted roster
// ---------------------------------------------------------------------------

/// Decode one whole request frame: the frame must hold exactly one request.
pub open spec fn spec_decode_request(s: Seq<char>) -> Option<IpcRequestV> {
    match parse_request(s) {
        Some((v, rest)) => if rest.len() == 0 {
            Some(v)
        } else {
            None
        },
        None => None,
    }
}

/// Decode one whole response frame: the frame must hold exactly one
/// response.
pub open spec fn spec_decode_response(s: Seq<char>) -> Option<IpcResponseV> {
    match parse_response(s) {
        Some((v, rest)) => if rest.len() == 0 {
            Some(v)
        } else {
            None
        },
        None => None,
    }
}

/// The persisted roster: the declared configurations, in roster order, as
/// one wire array.
pub open spec fn enc_state(cs: Seq<ProcessConfigV>) -> Seq<char> {
    enc_list(config_encoder(), cs)
}

/// Decode a persisted roster: the text must hold exactly one array of
/// configurations.
pub open spec fn spec_decode_state(s: Seq<char>) -> Option<Seq<ProcessConfigV>> {
    match parse_list(config_parser(), s) {
        Some((cs, rest)) => if rest.len() == 0 {
            Some(cs)
        } else {
            None
        },
        None => None,
    }
}

/// Codec round trip for requests: decoding an encoded request yields the
/// request.
pub proof fn lemma_request_codec_roundtrip(v: IpcRequestV)
    ensures
        spec_decode_request(enc_request(v)) == Some(v),
{
    lemma_parse_request_roundtrip(v, Seq::<char>::empty());
    assert(enc_request(v) + Seq::<char>::empty() =~= enc_request(v));
}

/// Codec round trip for responses: decoding an encoded response yields the
/// response.
pub proof fn lemma_response_codec_roundtrip(v: IpcResponseV)
    ensures
        spec_decode_response(enc_response(v)) == Some(v),
{
    lemma_parse_response_roundtrip(v, Seq::<char>::empty());
    assert(enc_response(v) + Seq::<char>::empty() =~= enc_response(v));
}

/// Codec round trip for the persisted roster: loading a saved roster yields
/// the same configurations, in the same order.
pub proof fn lemma_state_codec_roundtrip(cs: Seq<ProcessConfigV>)
    ensures
        spec_decode_state(enc_state(cs)) == Some(cs),
{
    lemma_config_list_hypotheses();
    lemma_parse_list_roundtrip(config_parser(), config_encoder(), cs, Seq::<char>::empty());
    assert(enc_state(cs) + Seq::<char>::empty() =~= enc_state(cs));
}


// ---------------------------------------------------------------------------
// Daemon settings
// ---------------------------------------------------------------------------

/// A `u16` on the wire is its decimal digits; a decoded number over the
/// `u16` range is refused.
pub open spec fn parse_u16(s: Seq<char>) -> Option<(u16, Seq<char>)> {
    match parse_u64(s) {
        Some((v, r)) => if v <= u16::MAX {
            Some((v as u16, r))
        } else {
            None
        },
        None => None,
    }
}

pub proof fn lemma_parse_u16_roundtrip(v: u16, rest: Seq<char>)
    requires
        rest.len() == 0 || !is_digit(rest[0]),
    ensures
        parse_u16(enc_u64(v as nat) + rest) == Some((v, rest)),
{
    lemma_parse_u64_roundtrip(v as u64, rest);
}

/// The daemon settings on the wire: one object with every field, in a
/// fixed order.
pub open spec fn enc_settings(c: crate::config::Config) -> Seq<char> {
    "{\"daemon_port\":"@ + enc_u64(c.daemon_port as nat) + ",\"max_processes\":"@ + enc_u64(
        c.max_processes as nat,
    ) + ",\"log_max_size\":"@ + enc_u64(c.log_max_size as nat) + ",\"log_retention_days\":"@
        + enc_u64(c.log_retention_days as nat) + ",\"auto_restart_delay\":"@ + enc_u64(
        c.auto_restart_delay as nat,
    ) + ",\"health_check_interval\":"@ + enc_u64(c.health_check_interval as nat) + "}"@
}

pub open spec fn parse_settings(s: Seq<char>) -> Option<(crate::config::Config, Seq<char>)> {
    match parse_lit(s, "{\"daemon_port\":"@) {
        None => None,
        Some(s1) => match parse_u16(s1) {
            None => None,
            Some((daemon_port, s2)) => match parse_lit(s2, ",\"max_processes\":"@) {
                None => None,
                Some(s3) => match parse_usize(s3) {
                    None => None,
                    Some((max_processes, s4)) => match parse_lit(s4, ",\"log_max_size\":"@) {
                        None => None,
                        Some(s5) => match parse_u64(s5) {
                            None => None,
                            Some((log_max_size, s6)) => match parse_lit(
                                s6,
                                ",\"log_retention_days\":"@,
                            ) {
                                None => None,
                                Some(s7) => match parse_u32(s7) {
                                    None => None,
                                    Some((log_retention_days, s8)) => match parse_lit(
                                        s8,
                                        ",\"auto_restart_delay\":"@,
                                    ) {
                                        None => None,
                                        Some(s9) => match parse_u64(s9) {
                                            None => None,
                                            Some((auto_restart_delay, s10)) => match parse_lit(
                                                s10,
                                                ",\"health_check_interval\":"@,
                                            ) {
                                                None => None,
                                                Some(s11) => match parse_u64(s11) {
                                                    None => None,
                                                    Some(
                                                        (health_check_interval, s12),
                                                    ) => match parse_lit(s12, "}"@) {
                                                        None => None,
                                                        Some(s13) => Some(
                                                            (
                                                                crate::config::Config {
                                                                    daemon_port,
                                                                    max_processes,
                                                                    log_max_size,
                                                                    log_retention_days,
                                                                    auto_restart_delay,
                                                                    health_check_interval,
                                                                },
                                                                s13,
                                                            ),
                                                        ),
                                                    },
                                                },
                                            },
                                        },
                                    },
                                },
                            },
                        },
                    },
                },
            },
        },
    }
}

/// Decode whole daemon settings; the text must hold exactly one object.
pub open spec fn spec_decode_settings(s: Seq<char>) -> Option<crate::config::Config> {
    match parse_settings(s) {
        Some((c, rest)) => if rest.len() == 0 {
            Some(c)
        } else {
            None
        },
        None => None,
    }
}

#[verifier::rlimit(60)]
proof fn lemma_parse_settings_roundtrip(c: crate::config::Config, rest: Seq<char>)
    ensures
        parse_settings(enc_settings(c) + rest) == Some((c, rest)),
{
    let u13 = rest;
    let u12 = "}"@ + u13;
    let u11 = enc_u64(c.health_check_interval as nat) + u12;
    let u10 = ",\"health_check_interval\":"@ + u11;
    let u9 = enc_u64(c.auto_restart_delay as nat) + u10;
    let u8 = ",\"auto_restart_delay\":"@ + u9;
    let u7 = enc_u64(c.log_retention_days as nat) + u8;
    let u6 = ",\"log_retention_days\":"@ + u7;
    let u5 = enc_u64(c.log_max_size as nat) + u6;
    let u4 = ",\"log_max_size\":"@ + u5;
    let u3 = enc_u64(c.max_processes as nat) + u4;
    let u2 = ",\"max_processes\":"@ + u3;
    let u1 = enc_u64(c.daemon_port as nat) + u2;
    let s = enc_settings(c) + rest;
    let l0 = "{\"daemon_port\":"@;
    let l1 = l0 + enc_u64(c.daemon_port as nat);
    let l2 = l1 + ",\"max_processes\":"@;
    let l3 = l2 + enc_u64(c.max_processes as nat);
    let l4 = l3 + ",\"log_max_size\":"@;
    let l5 = l4 + enc_u64(c.log_max_size as nat);
    let l6 = l5 + ",\"log_retention_days\":"@;
    let l7 = l6 + enc_u64(c.log_retention_days as nat);
    let l8 = l7 + ",\"auto_restart_delay\":"@;
    let l9 = l8 + enc_u64(c.auto_restart_delay as nat);
    let l10 = l9 + ",\"health_check_interval\":"@;
    let l11 = l10 + enc_u64(c.health_check_interval as nat);
    let l12 = l11 + "}"@;
    assert(enc_settings(c) == l12);
    assert(s == l12 + u13);
    crate::wire::seq_assoc(l11, "}"@, u13);
    assert(s == l11 + u12);
    crate::wire::seq_assoc(l10, enc_u64(c.health_check_interval as nat), u12);
    assert(s == l10 + u11);
    crate::wire::seq_assoc(l9, ",\"health_check_interval\":"@, u11);
    assert(s == l9 + u10);
    crate::wire::seq_assoc(l8, enc_u64(c.auto_restart_delay as nat), u10);
    assert(s == l8 + u9);
    crate::wire::seq_assoc(l7, ",\"auto_restart_delay\":"@, u9);
    assert(s == l7 + u8);
    crate::wire::seq_assoc(l6, enc_u64(c.log_retention_days as nat), u8);
    assert(s == l6 + u7);
    crate::wire::seq_assoc(l5, ",\"log_retention_days\":"@, u7);
    assert(s == l5 + u6);
    crate::wire::seq_assoc(l4, enc_u64(c.log_max_size as nat), u6);
    assert(s == l4 + u5);
    crate::wire::seq_assoc(l3, ",\"log_max_size\":"@, u5);
    assert(s == l3 + u4);
    crate::wire::seq_assoc(l2, enc_u64(c.max_processes as nat), u4);
    assert(s == l2 + u3);
    crate::wire::seq_assoc(l1, ",\"max_processes\":"@, u3);
    assert(s == l1 + u2);
    crate::wire::seq_assoc(l0, enc_u64(c.daemon_port as nat), u2);
    assert(s == l0 + u1);
    lemma_parse_lit_roundtrip(l0, u1);
    reveal_strlit(",\"max_processes\":");
    assert(u2[0] == ',');
    lemma_parse_u16_roundtrip(c.daemon_port, u2);
    lemma_parse_lit_roundtrip(",\"max_processes\":"@, u3);
    reveal_strlit(",\"log_max_size\":");
    assert(u4[0] == ',');
    lemma_parse_usize_roundtrip(c.max_processes, u4);
    lemma_parse_lit_roundtrip(",\"log_max_size\":"@, u5);
    reveal_strlit(",\"log_retention_days\":");
    assert(u6[0] == ',');
    lemma_parse_u64_roundtrip(c.log_max_size, u6);
    lemma_parse_lit_roundtrip(",\"log_retention_days\":"@, u7);
    reveal_strlit(",\"auto_restart_delay\":");
    assert(u8[0] == ',');
    lemma_parse_u32_roundtrip(c.log_retention_days, u8);
    lemma_parse_lit_roundtrip(",\"auto_restart_delay\":"@, u9);
    reveal_strlit(",\"health_check_interval\":");
    assert(u10[0] == ',');
    lemma_parse_u64_roundtrip(c.auto_restart_delay, u10);
    lemma_parse_lit_roundtrip(",\"health_check_interval\":"@, u11);
    reveal_strlit("}");
    assert(u12[0] == '}');
    lemma_parse_u64_roundtrip(c.health_check_interval, u12);
    lemma_parse_lit_roundtrip("}"@, u13);
}

/// Codec round trip for the daemon settings.
pub proof fn lemma_settings_codec_roundtrip(c: crate::config::Config)
    ensures
        spec_decode_settings(enc_settings(c)) == Some(c),
{
    lemma_parse_settings_roundtrip(c, Seq::<char>::empty());
    assert(enc_settings(c) + Seq::<char>::empty() =~= enc_settings(c));
}

} // verus!
