//! Executable decoders: each reads exactly the canonical wire text that the
//! spec-level parsers of `codec` describe, and is proved equal to them.

use vstd::prelude::*;

use crate::cli::ProcessConfig;
use crate::codec::{
    parse_bool, parse_config, parse_info, parse_info_tail, parse_opt_str, parse_opt_u32,
    parse_opt_u64, parse_request, parse_response, parse_status, parse_u32, parse_usize,
    config_parser, info_parser, pair_parser, str_parser, spec_decode_request,
    spec_decode_response, spec_decode_state,
};
use crate::ipc::{IpcRequest, IpcResponse};
use crate::process::{ProcessInfo, ProcessStatus};
use crate::text::{expect_lit, read_str, read_u64, str_to_chars};
use crate::wire::{parse_items, parse_list, parse_str, parse_u64};

verus! {

fn read_bool(s: &Vec<char>, pos: usize) -> (r: Option<(bool, usize)>)
    requires
        pos <= s@.len(),
    ensures
        match r {
            Some((v, p2)) => {
                &&& pos <= p2 <= s@.len()
                &&& parse_bool(s@.skip(pos as int)) == Some((v, s@.skip(p2 as int)))
            },
            None => parse_bool(s@.skip(pos as int)) is None,
        },
{
    if let Some(p) = expect_lit(s, pos, "true") {
        return Some((true, p));
    }
    if let Some(p) = expect_lit(s, pos, "false") {
        return Some((false, p));
    }
    None
}

fn read_u32_value(s: &Vec<char>, pos: usize) -> (r: Option<(u32, usize)>)
    requires
        pos <= s@.len(),
    ensures
        match r {
            Some((v, p2)) => {
                &&& pos <= p2 <= s@.len()
                &&& parse_u32(s@.skip(pos as int)) == Some((v, s@.skip(p2 as int)))
            },
            None => parse_u32(s@.skip(pos as int)) is None,
        },
{
    match read_u64(s, pos) {
        Some((v, p2)) => {
            if v <= u32::MAX as u64 {
                Some((v as u32, p2))
            } else {
                None
            }
        },
        None => None,
    }
}

fn read_usize_value(s: &Vec<char>, pos: usize) -> (r: Option<(usize, usize)>)
    requires
        pos <= s@.len(),
    ensures
        match r {
            Some((v, p2)) => {
                &&& pos <= p2 <= s@.len()
                &&& parse_usize(s@.skip(pos as int)) == Some((v, s@.skip(p2 as int)))
            },
            None => parse_usize(s@.skip(pos as int)) is None,
        },
{
    match read_u64(s, pos) {
        Some((v, p2)) => {
            if v <= usize::MAX as u64 {
                Some((v as usize, p2))
            } else {
                None
            }
        },
        None => None,
    }
}

fn read_opt_str(s: &Vec<char>, pos: usize) -> (r: Option<(Option<String>, usize)>)
    requires
        pos <= s@.len(),
    ensures
        match r {
            Some((v, p2)) => {
                &&& pos <= p2 <= s@.len()
                &&& parse_opt_str(s@.skip(pos as int)) == Some(
                    (
                        match v {
                            Some(ref c) => Some(c@),
                            None => None,
                        },
                        s@.skip(p2 as int),
                    ),
                )
            },
            None => parse_opt_str(s@.skip(pos as int)) is None,
        },
{
    if let Some(p) = expect_lit(s, pos, "null") {
        return Some((None, p));
    }
    match read_str(s, pos) {
        Some((c, p2)) => Some((Some(c), p2)),
        None => None,
    }
}

fn read_opt_u64(s: &Vec<char>, pos: usize) -> (r: Option<(Option<u64>, usize)>)
    requires
        pos <= s@.len(),
    ensures
        match r {
            Some((v, p2)) => {
                &&& pos <= p2 <= s@.len()
                &&& parse_opt_u64(s@.skip(pos as int)) == Some((v, s@.skip(p2 as int)))
            },
            None => parse_opt_u64(s@.skip(pos as int)) is None,
        },
{
    if let Some(p) = expect_lit(s, pos, "null") {
        return Some((None, p));
    }
    match read_u64(s, pos) {
        Some((v, p2)) => Some((Some(v), p2)),
        None => None,
    }
}

fn read_opt_u32(s: &Vec<char>, pos: usize) -> (r: Option<(Option<u32>, usize)>)
    requires
        pos <= s@.len(),
    ensures
        match r {
            Some((v, p2)) => {
                &&& pos <= p2 <= s@.len()
                &&& parse_opt_u32(s@.skip(pos as int)) == Some((v, s@.skip(p2 as int)))
            },
            None => parse_opt_u32(s@.skip(pos as int)) is None,
        },
{
    if let Some(p) = expect_lit(s, pos, "null") {
        return Some((None, p));
    }
    match read_u32_value(s, pos) {
        Some((v, p2)) => Some((Some(v), p2)),
        None => None,
    }
}

fn read_status(s: &Vec<char>, pos: usize) -> (r: Option<(ProcessStatus, usize)>)
    requires
        pos <= s@.len(),
    ensures
        match r {
            Some((v, p2)) => {
                &&& pos <= p2 <= s@.len()
                &&& parse_status(s@.skip(pos as int)) == Some((v, s@.skip(p2 as int)))
            },
            None => parse_status(s@.skip(pos as int)) is None,
        },
{
    if let Some(p) = expect_lit(s, pos, "\"Running\"") {
        return Some((ProcessStatus::Running, p));
    }
    if let Some(p) = expect_lit(s, pos, "\"Stopped\"") {
        return Some((ProcessStatus::Stopped, p));
    }
    if let Some(p) = expect_lit(s, pos, "\"Errored\"") {
        return Some((ProcessStatus::Errored, p));
    }
    if let Some(p) = expect_lit(s, pos, "\"Restarting\"") {
        return Some((ProcessStatus::Restarting, p));
    }
    None
}

/// Read one environment pair `["key","value"]`.
fn read_pair(s: &Vec<char>, pos: usize) -> (r: Option<((String, String), usize)>)
    requires
        pos <= s@.len(),
    ensures
        match r {
            Some(((k, v), p2)) => {
                &&& pos <= p2 <= s@.len()
                &&& (pair_parser())(s@.skip(pos as int)) == Some(((k@, v@), s@.skip(p2 as int)))
            },
            None => (pair_parser())(s@.skip(pos as int)) is None,
        },
{
    let p1 = match expect_lit(s, pos, "[") {
        Some(p) => p,
        None => {
            return None;
        },
    };
    let (k, p2) = match read_str(s, p1) {
        Some(x) => x,
        None => {
            return None;
        },
    };
    let p3 = match expect_lit(s, p2, ",") {
        Some(p) => p,
        None => {
            return None;
        },
    };
    let (v, p4) = match read_str(s, p3) {
        Some(x) => x,
        None => {
            return None;
        },
    };
    let p5 = match expect_lit(s, p4, "]") {
        Some(p) => p,
        None => {
            return None;
        },
    };
    Some(((k, v), p5))
}

/// Read the elements of an environment array after its opening bracket.
fn read_env_items(s: &Vec<char>, pos: usize, fuel: usize) -> (r: Option<
    (Vec<(String, String)>, usize),
>)
    requires
        pos <= s@.len(),
    ensures
        match r {
            Some((v, p2)) => {
                &&& pos <= p2 <= s@.len()
                &&& parse_items(pair_parser(), s@.skip(pos as int), fuel as nat) == Some(
                    (Seq::new(v@.len(), |i: int| (v@[i].0@, v@[i].1@)), s@.skip(p2 as int)),
                )
            },
            None => parse_items(pair_parser(), s@.skip(pos as int), fuel as nat) is None,
        },
    decreases fuel,
{
    if pos < s.len() && s[pos] == ']' {
        proof {
            assert(s@.skip(pos as int)[0] == s@[pos as int]);
            assert(s@.skip(pos as int).drop_first() =~= s@.skip(pos + 1 as int));
            assert(Seq::new(0, |i: int| (Seq::<char>::empty(), Seq::<char>::empty())) =~= Seq::<(
                Seq<char>,
                Seq<char>,
            )>::empty());
        }
        let v: Vec<(String, String)> = Vec::new();
        proof {
            assert(Seq::new(v@.len(), |i: int| (v@[i].0@, v@[i].1@)) =~= Seq::<(
                Seq<char>,
                Seq<char>,
            )>::empty());
        }
        return Some((v, pos + 1));
    }
    if fuel == 0 {
        return None;
    }
    let (x, p1) = match read_pair(s, pos) {
        Some(x) => x,
        None => {
            return None;
        },
    };
    proof {
        if p1 < s@.len() {
            assert(s@.skip(p1 as int)[0] == s@[p1 as int]);
        }
    }
    if p1 < s.len() && s[p1] == ',' {
        proof {
            assert(s@.skip(p1 as int).drop_first() =~= s@.skip(p1 + 1 as int));
        }
        match read_env_items(s, p1 + 1, fuel - 1) {
            Some((mut v, p2)) => {
                let ghost tailv = Seq::new(v@.len(), |i: int| (v@[i].0@, v@[i].1@));
                v.insert(0, x);
                proof {
                    assert(Seq::new(v@.len(), |i: int| (v@[i].0@, v@[i].1@)) =~= seq![
                        (v@[0].0@, v@[0].1@),
                    ] + tailv);
                }
                Some((v, p2))
            },
            None => None,
        }
    } else if p1 < s.len() && s[p1] == ']' {
        proof {
            assert(s@.skip(p1 as int).drop_first() =~= s@.skip(p1 + 1 as int));
        }
        let mut v: Vec<(String, String)> = Vec::new();
        v.push(x);
        proof {
            assert(Seq::new(v@.len(), |i: int| (v@[i].0@, v@[i].1@)) =~= seq![
                (v@[0].0@, v@[0].1@),
            ]);
        }
        Some((v, p1 + 1))
    } else {
        None
    }
}

/// Read a whole environment array.
fn read_env_list(s: &Vec<char>, pos: usize) -> (r: Option<(Vec<(String, String)>, usize)>)
    requires
        pos <= s@.len(),
    ensures
        match r {
            Some((v, p2)) => {
                &&& pos <= p2 <= s@.len()
                &&& parse_list(pair_parser(), s@.skip(pos as int)) == Some(
                    (Seq::new(v@.len(), |i: int| (v@[i].0@, v@[i].1@)), s@.skip(p2 as int)),
                )
            },
            None => parse_list(pair_parser(), s@.skip(pos as int)) is None,
        },
{
    if pos == s.len() || s[pos] != '[' {
        proof {
            if pos < s@.len() {
                assert(s@.skip(pos as int)[0] == s@[pos as int]);
            }
        }
        return None;
    }
    proof {
        assert(s@.skip(pos as int)[0] == s@[pos as int]);
        assert(s@.skip(pos as int).skip(1) =~= s@.skip(pos + 1 as int));
    }
    let fuel = s.len() - pos;
    match read_env_items(s, pos + 1, fuel) {
        Some((v, p2)) => {
            proof {
                assert(s@.skip(pos as int).len() == fuel);
            }
            Some((v, p2))
        },
        None => None,
    }
}

/// Read one `ProcessConfig` object.
#[verifier::rlimit(60)]
pub fn read_config(s: &Vec<char>, pos: usize) -> (r: Option<(ProcessConfig, usize)>)
    requires
        pos <= s@.len(),
    ensures
        match r {
            Some((c, p2)) => {
                &&& pos <= p2 <= s@.len()
                &&& parse_config(s@.skip(pos as int)) == Some((c@, s@.skip(p2 as int)))
            },
            None => parse_config(s@.skip(pos as int)) is None,
        },
{
    let p1 = match expect_lit(s, pos, "{\"name\":") {
        Some(p) => p,
        None => {
            return None;
        },
    };
    let (name, p2) = match read_str(s, p1) {
        Some(x) => x,
        None => {
            return None;
        },
    };
    let p3 = match expect_lit(s, p2, ",\"command\":") {
        Some(p) => p,
        None => {
            return None;
        },
    };
    let (command, p4) = match read_str(s, p3) {
        Some(x) => x,
        None => {
            return None;
        },
    };
    let p5 = match expect_lit(s, p4, ",\"cwd\":") {
        Some(p) => p,
        None => {
            return None;
        },
    };
    let (cwd, p6) = match read_opt_str(s, p5) {
        Some(x) => x,
        None => {
            return None;
        },
    };
    let p7 = match expect_lit(s, p6, ",\"instances\":") {
        Some(p) => p,
        None => {
            return None;
        },
    };
    let (instances, p8) = match read_u32_value(s, p7) {
        Some(x) => x,
        None => {
            return None;
        },
    };
    let p9 = match expect_lit(s, p8, ",\"autorestart\":") {
        Some(p) => p,
        None => {
            return None;
        },
    };
    let (autorestart, p10) = match read_bool(s, p9) {
        Some(x) => x,
        None => {
            return None;
        },
    };
    let p11 = match expect_lit(s, p10, ",\"max_memory\":") {
        Some(p) => p,
        None => {
            return None;
        },
    };
    let (max_memory, p12) = match read_opt_u64(s, p11) {
        Some(x) => x,
        None => {
            return None;
        },
    };
    let p13 = match expect_lit(s, p12, ",\"env\":") {
        Some(p) => p,
        None => {
            return None;
        },
    };
    let (env, p14) = match read_env_list(s, p13) {
        Some(x) => x,
        None => {
            return None;
        },
    };
    let p15 = match expect_lit(s, p14, "}") {
        Some(p) => p,
        None => {
            return None;
        },
    };
    let c = ProcessConfig { name, command, cwd, instances, autorestart, max_memory, env };
    proof {
        assert(c@.env =~= Seq::new(env@.len(), |i: int| (env@[i].0@, env@[i].1@)));
        assert(parse_config(s@.skip(pos as int)) == Some((c@, s@.skip(p15 as int))));
    }
    Some((c, p15))
}

/// Read one `ProcessInfo` object.
#[verifier::rlimit(100)]
pub fn read_info(s: &Vec<char>, pos: usize) -> (r: Option<(ProcessInfo, usize)>)
    requires
        pos <= s@.len(),
    ensures
        match r {
            Some((p, p2)) => {
                &&& pos <= p2 <= s@.len()
                &&& parse_info(s@.skip(pos as int)) == Some((p@, s@.skip(p2 as int)))
            },
            None => parse_info(s@.skip(pos as int)) is None,
        },
{
    let p1 = match expect_lit(s, pos, "{\"id\":") {
        Some(p) => p,
        None => {
            return None;
        },
    };
    let (id, p2) = match read_str(s, p1) {
        Some(x) => x,
        None => {
            return None;
        },
    };
    let p3 = match expect_lit(s, p2, ",\"name\":") {
        Some(p) => p,
        None => {
            return None;
        },
    };
    let (name, p4) = match read_str(s, p3) {
        Some(x) => x,
        None => {
            return None;
        },
    };
    let p5 = match expect_lit(s, p4, ",\"command\":") {
        Some(p) => p,
        None => {
            return None;
        },
    };
    let (command, p6) = match read_str(s, p5) {
        Some(x) => x,
        None => {
            return None;
        },
    };
    let p7 = match expect_lit(s, p6, ",\"status\":") {
        Some(p) => p,
        None => {
            return None;
        },
    };
    let (status, p8) = match read_status(s, p7) {
        Some(x) => x,
        None => {
            return None;
        },
    };
    let p9 = match expect_lit(s, p8, ",\"pid\":") {
        Some(p) => p,
        None => {
            return None;
        },
    };
    let (pid, p10) = match read_opt_u32(s, p9) {
        Some(x) => x,
        None => {
            return None;
        },
    };
    let p11 = match expect_lit(s, p10, ",\"cpu_usage\":") {
        Some(p) => p,
        None => {
            return None;
        },
    };
    let (cpu_usage, p12) = match read_u64(s, p11) {
        Some(x) => x,
        None => {
            return None;
        },
    };
    let p13 = match expect_lit(s, p12, ",\"memory_usage\":") {
        Some(p) => p,
        None => {
            return None;
        },
    };
    let (memory_usage, p14) = match read_u64(s, p13) {
        Some(x) => x,
        None => {
            return None;
        },
    };
    let p15 = match expect_lit(s, p14, ",\"started_at\":") {
        Some(p) => p,
        None => {
            return None;
        },
    };
    let (started_at, p16) = match read_u64(s, p15) {
        Some(x) => x,
        None => {
            return None;
        },
    };
    let p17 = match expect_lit(s, p16, ",\"restarts\":") {
        Some(p) => p,
        None => {
            return None;
        },
    };
    let (restarts, p18) = match read_u32_value(s, p17) {
        Some(x) => x,
        None => {
            return None;
        },
    };
    let p19 = match expect_lit(s, p18, ",\"config\":") {
        Some(p) => p,
        None => {
            return None;
        },
    };
    let (config, p20) = match read_config(s, p19) {
        Some(x) => x,
        None => {
            return None;
        },
    };
    let p21 = match expect_lit(s, p20, "}") {
        Some(p) => p,
        None => {
            return None;
        },
    };
    let info = ProcessInfo {
        id,
        name,
        command,
        status,
        pid,
        cpu_usage,
        memory_usage,
        started_at,
        restarts,
        config,
    };
    proof {
        assert(parse_info_tail(s@.skip(p9 as int)) == Some(
            ((pid, cpu_usage, memory_usage, started_at, restarts, config@), s@.skip(p21 as int)),
        ));
        assert(parse_info(s@.skip(pos as int)) == Some((info@, s@.skip(p21 as int))));
    }
    Some((info, p21))
}


/// Read the elements of a snapshot array after its opening bracket.
fn read_info_items(s: &Vec<char>, pos: usize, fuel: usize) -> (r: Option<(Vec<ProcessInfo>, usize)>)
    requires
        pos <= s@.len(),
    ensures
        match r {
            Some((v, p2)) => {
                &&& pos <= p2 <= s@.len()
                &&& parse_items(info_parser(), s@.skip(pos as int), fuel as nat) == Some(
                    (Seq::new(v@.len(), |i: int| v@[i]@), s@.skip(p2 as int)),
                )
            },
            None => parse_items(info_parser(), s@.skip(pos as int), fuel as nat) is None,
        },
    decreases fuel,
{
    if pos < s.len() && s[pos] == ']' {
        proof {
            assert(s@.skip(pos as int)[0] == s@[pos as int]);
            assert(s@.skip(pos as int).drop_first() =~= s@.skip(pos + 1 as int));
        }
        let v: Vec<ProcessInfo> = Vec::new();
        proof {
            assert(Seq::new(v@.len(), |i: int| v@[i]@) =~= Seq::<
                crate::process::ProcessInfoV,
            >::empty());
        }
        return Some((v, pos + 1));
    }
    if fuel == 0 {
        return None;
    }
    let (x, p1) = match read_info(s, pos) {
        Some(x) => x,
        None => {
            return None;
        },
    };
    proof {
        if p1 < s@.len() {
            assert(s@.skip(p1 as int)[0] == s@[p1 as int]);
        }
    }
    if p1 < s.len() && s[p1] == ',' {
        proof {
            assert(s@.skip(p1 as int).drop_first() =~= s@.skip(p1 + 1 as int));
        }
        match read_info_items(s, p1 + 1, fuel - 1) {
            Some((mut v, p2)) => {
                let ghost tailv = Seq::new(v@.len(), |i: int| v@[i]@);
                v.insert(0, x);
                proof {
                    assert(Seq::new(v@.len(), |i: int| v@[i]@) =~= seq![v@[0]@] + tailv);
                }
                Some((v, p2))
            },
            None => None,
        }
    } else if p1 < s.len() && s[p1] == ']' {
        proof {
            assert(s@.skip(p1 as int).drop_first() =~= s@.skip(p1 + 1 as int));
        }
        let mut v: Vec<ProcessInfo> = Vec::new();
        v.push(x);
        proof {
            assert(Seq::new(v@.len(), |i: int| v@[i]@) =~= seq![v@[0]@]);
        }
        Some((v, p1 + 1))
    } else {
        None
    }
}

/// Read a whole snapshot array.
fn read_info_list(s: &Vec<char>, pos: usize) -> (r: Option<(Vec<ProcessInfo>, usize)>)
    requires
        pos <= s@.len(),
    ensures
        match r {
            Some((v, p2)) => {
                &&& pos <= p2 <= s@.len()
                &&& parse_list(info_parser(), s@.skip(pos as int)) == Some(
                    (Seq::new(v@.len(), |i: int| v@[i]@), s@.skip(p2 as int)),
                )
            },
            None => parse_list(info_parser(), s@.skip(pos as int)) is None,
        },
{
    if pos == s.len() || s[pos] != '[' {
        proof {
            if pos < s@.len() {
                assert(s@.skip(pos as int)[0] == s@[pos as int]);
            }
        }
        return None;
    }
    proof {
        assert(s@.skip(pos as int)[0] == s@[pos as int]);
        assert(s@.skip(pos as int).skip(1) =~= s@.skip(pos + 1 as int));
        assert(s@.skip(pos as int).len() == s@.len() - pos);
    }
    let fuel = s.len() - pos;
    read_info_items(s, pos + 1, fuel)
}

/// Read the elements of a string array after its opening bracket.
fn read_str_items(s: &Vec<char>, pos: usize, fuel: usize) -> (r: Option<(Vec<String>, usize)>)
    requires
        pos <= s@.len(),
    ensures
        match r {
            Some((v, p2)) => {
                &&& pos <= p2 <= s@.len()
                &&& parse_items(str_parser(), s@.skip(pos as int), fuel as nat) == Some(
                    (Seq::new(v@.len(), |i: int| v@[i]@), s@.skip(p2 as int)),
                )
            },
            None => parse_items(str_parser(), s@.skip(pos as int), fuel as nat) is None,
        },
    decreases fuel,
{
    if pos < s.len() && s[pos] == ']' {
        proof {
            assert(s@.skip(pos as int)[0] == s@[pos as int]);
            assert(s@.skip(pos as int).drop_first() =~= s@.skip(pos + 1 as int));
        }
        let v: Vec<String> = Vec::new();
        proof {
            assert(Seq::new(v@.len(), |i: int| v@[i]@) =~= Seq::<Seq<char>>::empty());
        }
        return Some((v, pos + 1));
    }
    if fuel == 0 {
        return None;
    }
    let (x, p1) = match read_str(s, pos) {
        Some(x) => x,
        None => {
            return None;
        },
    };
    proof {
        if p1 < s@.len() {
            assert(s@.skip(p1 as int)[0] == s@[p1 as int]);
        }
    }
    if p1 < s.len() && s[p1] == ',' {
        proof {
            assert(s@.skip(p1 as int).drop_first() =~= s@.skip(p1 + 1 as int));
        }
        match read_str_items(s, p1 + 1, fuel - 1) {
            Some((mut v, p2)) => {
                let ghost tailv = Seq::new(v@.len(), |i: int| v@[i]@);
                v.insert(0, x);
                proof {
                    assert(Seq::new(v@.len(), |i: int| v@[i]@) =~= seq![v@[0]@] + tailv);
                }
                Some((v, p2))
            },
            None => None,
        }
    } else if p1 < s.len() && s[p1] == ']' {
        proof {
            assert(s@.skip(p1 as int).drop_first() =~= s@.skip(p1 + 1 as int));
        }
        let mut v: Vec<String> = Vec::new();
        v.push(x);
        proof {
            assert(Seq::new(v@.len(), |i: int| v@[i]@) =~= seq![v@[0]@]);
        }
        Some((v, p1 + 1))
    } else {
        None
    }
}

/// Read a whole string array.
fn read_str_list(s: &Vec<char>, pos: usize) -> (r: Option<(Vec<String>, usize)>)
    requires
        pos <= s@.len(),
    ensures
        match r {
            Some((v, p2)) => {
                &&& pos <= p2 <= s@.len()
                &&& parse_list(str_parser(), s@.skip(pos as int)) == Some(
                    (Seq::new(v@.len(), |i: int| v@[i]@), s@.skip(p2 as int)),
                )
            },
            None => parse_list(str_parser(), s@.skip(pos as int)) is None,
        },
{
    if pos == s.len() || s[pos] != '[' {
        proof {
            if pos < s@.len() {
                assert(s@.skip(pos as int)[0] == s@[pos as int]);
            }
        }
        return None;
    }
    proof {
        assert(s@.skip(pos as int)[0] == s@[pos as int]);
        assert(s@.skip(pos as int).skip(1) =~= s@.skip(pos + 1 as int));
        assert(s@.skip(pos as int).len() == s@.len() - pos);
    }
    let fuel = s.len() - pos;
    read_str_items(s, pos + 1, fuel)
}

/// Read the elements of a configuration array after its opening bracket.
fn read_config_items(s: &Vec<char>, pos: usize, fuel: usize) -> (r: Option<
    (Vec<ProcessConfig>, usize),
>)
    requires
        pos <= s@.len(),
    ensures
        match r {
            Some((v, p2)) => {
                &&& pos <= p2 <= s@.len()
                &&& parse_items(config_parser(), s@.skip(pos as int), fuel as nat) == Some(
                    (Seq::new(v@.len(), |i: int| v@[i]@), s@.skip(p2 as int)),
                )
            },
            None => parse_items(config_parser(), s@.skip(pos as int), fuel as nat) is None,
        },
    decreases fuel,
{
    if pos < s.len() && s[pos] == ']' {
        proof {
            assert(s@.skip(pos as int)[0] == s@[pos as int]);
            assert(s@.skip(pos as int).drop_first() =~= s@.skip(pos + 1 as int));
        }
        let v: Vec<ProcessConfig> = Vec::new();
        proof {
            assert(Seq::new(v@.len(), |i: int| v@[i]@) =~= Seq::<
                crate::cli::ProcessConfigV,
            >::empty());
        }
        return Some((v, pos + 1));
    }
    if fuel == 0 {
        return None;
    }
    let (x, p1) = match read_config(s, pos) {
        Some(x) => x,
        None => {
            return None;
        },
    };
    proof {
        if p1 < s@.len() {
            assert(s@.skip(p1 as int)[0] == s@[p1 as int]);
        }
    }
    if p1 < s.len() && s[p1] == ',' {
        proof {
            assert(s@.skip(p1 as int).drop_first() =~= s@.skip(p1 + 1 as int));
        }
        match read_config_items(s, p1 + 1, fuel - 1) {
            Some((mut v, p2)) => {
                let ghost tailv = Seq::new(v@.len(), |i: int| v@[i]@);
                v.insert(0, x);
                proof {
                    assert(Seq::new(v@.len(), |i: int| v@[i]@) =~= seq![v@[0]@] + tailv);
                }
                Some((v, p2))
            },
            None => None,
        }
    } else if p1 < s.len() && s[p1] == ']' {
        proof {
            assert(s@.skip(p1 as int).drop_first() =~= s@.skip(p1 + 1 as int));
        }
        let mut v: Vec<ProcessConfig> = Vec::new();
        v.push(x);
        proof {
            assert(Seq::new(v@.len(), |i: int| v@[i]@) =~= seq![v@[0]@]);
        }
        Some((v, p1 + 1))
    } else {
        None
    }
}

/// Decode one request frame; the frame must hold exactly one request.
#[verifier::rlimit(100)]
pub fn decode_request(line: &str) -> (r: Option<IpcRequest>)
    ensures
        match r {
            Some(v) => spec_decode_request(line@) == Some(v@),
            None => spec_decode_request(line@) is None,
        },
{
    let s = str_to_chars(line);
    proof {
        assert(s@.skip(0) =~= s@);
    }
    if let Some(p) = expect_lit(&s, 0, "{\"StartProcess\":") {
        return match read_config(&s, p) {
            Some((c, p2)) => match expect_lit(&s, p2, "}") {
                Some(p3) => if p3 == s.len() {
                    Some(IpcRequest::StartProcess(c))
                } else {
                    None
                },
                None => None,
            },
            None => None,
        };
    }
    if let Some(p) = expect_lit(&s, 0, "{\"StopProcess\":") {
        return match read_str(&s, p) {
            Some((n, p2)) => match expect_lit(&s, p2, "}") {
                Some(p3) => if p3 == s.len() {
                    Some(IpcRequest::StopProcess(n))
                } else {
                    None
                },
                None => None,
            },
            None => None,
        };
    }
    if let Some(p) = expect_lit(&s, 0, "{\"RestartProcess\":") {
        return match read_str(&s, p) {
            Some((n, p2)) => match expect_lit(&s, p2, "}") {
                Some(p3) => if p3 == s.len() {
                    Some(IpcRequest::RestartProcess(n))
                } else {
                    None
                },
                None => None,
            },
            None => None,
        };
    }
    if let Some(p) = expect_lit(&s, 0, "{\"DeleteProcess\":") {
        return match read_str(&s, p) {
            Some((n, p2)) => match expect_lit(&s, p2, "}") {
                Some(p3) => if p3 == s.len() {
                    Some(IpcRequest::DeleteProcess(n))
                } else {
                    None
                },
                None => None,
            },
            None => None,
        };
    }
    if let Some(p) = expect_lit(&s, 0, "{\"ListProcesses\":null}") {
        return if p == s.len() {
            Some(IpcRequest::ListProcesses)
        } else {
            None
        };
    }
    if let Some(p) = expect_lit(&s, 0, "{\"GetProcessInfo\":") {
        return match read_str(&s, p) {
            Some((n, p2)) => match expect_lit(&s, p2, "}") {
                Some(p3) => if p3 == s.len() {
                    Some(IpcRequest::GetProcessInfo(n))
                } else {
                    None
                },
                None => None,
            },
            None => None,
        };
    }
    if let Some(p) = expect_lit(&s, 0, "{\"GetLogs\":{\"name\":") {
        return match read_str(&s, p) {
            Some((name, p2)) => match expect_lit(&s, p2, ",\"lines\":") {
                Some(p3) => match read_usize_value(&s, p3) {
                    Some((lines, p4)) => match expect_lit(&s, p4, ",\"follow\":") {
                        Some(p5) => match read_bool(&s, p5) {
                            Some((follow, p6)) => match expect_lit(&s, p6, "}}") {
                                Some(p7) => if p7 == s.len() {
                                    Some(IpcRequest::GetLogs { name, lines, follow })
                                } else {
                                    None
                                },
                                None => None,
                            },
                            None => None,
                        },
                        None => None,
                    },
                    None => None,
                },
                None => None,
            },
            None => None,
        };
    }
    if let Some(p) = expect_lit(&s, 0, "{\"Monitor\":null}") {
        return if p == s.len() {
            Some(IpcRequest::Monitor)
        } else {
            None
        };
    }
    if let Some(p) = expect_lit(&s, 0, "{\"KillDaemon\":null}") {
        return if p == s.len() {
            Some(IpcRequest::KillDaemon)
        } else {
            None
        };
    }
    if let Some(p) = expect_lit(&s, 0, "{\"ReloadProcess\":") {
        return match read_str(&s, p) {
            Some((n, p2)) => match expect_lit(&s, p2, "}") {
                Some(p3) => if p3 == s.len() {
                    Some(IpcRequest::ReloadProcess(n))
                } else {
                    None
                },
                None => None,
            },
            None => None,
        };
    }
    if let Some(p) = expect_lit(&s, 0, "{\"SaveProcesses\":null}") {
        return if p == s.len() {
            Some(IpcRequest::SaveProcesses)
        } else {
            None
        };
    }
    if let Some(p) = expect_lit(&s, 0, "{\"ResurrectProcesses\":null}") {
        return if p == s.len() {
            Some(IpcRequest::ResurrectProcesses)
        } else {
            None
        };
    }
    None
}

/// Decode one response frame; the frame must hold exactly one response.
#[verifier::rlimit(100)]
pub fn decode_response(line: &str) -> (r: Option<IpcResponse>)
    ensures
        match r {
            Some(v) => spec_decode_response(line@) == Some(v@),
            None => spec_decode_response(line@) is None,
        },
{
    let s = str_to_chars(line);
    proof {
        assert(s@.skip(0) =~= s@);
    }
    if let Some(p) = expect_lit(&s, 0, "{\"Success\":") {
        return match read_str(&s, p) {
            Some((m, p2)) => match expect_lit(&s, p2, "}") {
                Some(p3) => if p3 == s.len() {
                    Some(IpcResponse::Success(m))
                } else {
                    None
                },
                None => None,
            },
            None => None,
        };
    }
    if let Some(p) = expect_lit(&s, 0, "{\"ProcessList\":") {
        return match read_info_list(&s, p) {
            Some((ps, p2)) => match expect_lit(&s, p2, "}") {
                Some(p3) => if p3 == s.len() {
                    Some(IpcResponse::ProcessList(ps))
                } else {
                    None
                },
                None => None,
            },
            None => None,
        };
    }
    if let Some(p) = expect_lit(&s, 0, "{\"ProcessInfo\":") {
        return match read_info(&s, p) {
            Some((info, p2)) => match expect_lit(&s, p2, "}") {
                Some(p3) => if p3 == s.len() {
                    Some(IpcResponse::ProcessInfo(info))
                } else {
                    None
                },
                None => None,
            },
            None => None,
        };
    }
    if let Some(p) = expect_lit(&s, 0, "{\"Logs\":") {
        return match read_str_list(&s, p) {
            Some((ls, p2)) => match expect_lit(&s, p2, "}") {
                Some(p3) => if p3 == s.len() {
                    Some(IpcResponse::Logs(ls))
                } else {
                    None
                },
                None => None,
            },
            None => None,
        };
    }
    if let Some(p) = expect_lit(&s, 0, "{\"Error\":") {
        return match read_str(&s, p) {
            Some((m, p2)) => match expect_lit(&s, p2, "}") {
                Some(p3) => if p3 == s.len() {
                    Some(IpcResponse::Error(m))
                } else {
                    None
                },
                None => None,
            },
            None => None,
        };
    }
    None
}

/// Decode a persisted roster; the text must hold exactly one array of
/// configurations.
pub fn decode_state(text: &str) -> (r: Option<Vec<ProcessConfig>>)
    ensures
        match r {
            Some(v) => spec_decode_state(text@) == Some(Seq::new(v@.len(), |i: int| v@[i]@)),
            None => spec_decode_state(text@) is None,
        },
{
    let s = str_to_chars(text);
    if s.len() == 0 || s[0] != '[' {
        proof {
            if s@.len() > 0 {
                assert(s@.skip(0)[0] == s@[0]);
            }
        }
        return None;
    }
    proof {
        assert(s@.skip(0) =~= s@);
        assert(s@.skip(1) =~= s@.skip(0).skip(1));
    }
    let fuel = s.len();
    match read_config_items(&s, 1, fuel) {
        Some((v, p2)) => {
            if p2 == s.len() {
                proof {
                    assert(s@.skip(p2 as int).len() == 0);
                }
                Some(v)
            } else {
                None
            }
        },
        None => None,
    }
}


fn read_u16_value(s: &Vec<char>, pos: usize) -> (r: Option<(u16, usize)>)
    requires
        pos <= s@.len(),
    ensures
        match r {
            Some((v, p2)) => {
                &&& pos <= p2 <= s@.len()
                &&& crate::codec::parse_u16(s@.skip(pos as int)) == Some((v, s@.skip(p2 as int)))
            },
            None => crate::codec::parse_u16(s@.skip(pos as int)) is None,
        },
{
    match read_u64(s, pos) {
        Some((v, p2)) => {
            if v <= u16::MAX as u64 {
                Some((v as u16, p2))
            } else {
                None
            }
        },
        None => None,
    }
}

/// Decode persisted daemon settings; the text must hold exactly one object.
#[verifier::rlimit(60)]
pub fn decode_settings(text: &str) -> (r: Option<crate::config::Config>)
    ensures
        match r {
            Some(c) => crate::codec::spec_decode_settings(text@) == Some(c),
            None => crate::codec::spec_decode_settings(text@) is None,
        },
{
    let s = str_to_chars(text);
    proof {
        assert(s@.skip(0) =~= s@);
    }
    let p1 = match expect_lit(&s, 0, "{\"daemon_port\":") {
        Some(p) => p,
        None => {
            return None;
        },
    };
    let (daemon_port, p2) = match read_u16_value(&s, p1) {
        Some(x) => x,
        None => {
            return None;
        },
    };
    let p3 = match expect_lit(&s, p2, ",\"max_processes\":") {
        Some(p) => p,
        None => {
            return None;
        },
    };
    let (max_processes, p4) = match read_usize_value(&s, p3) {
        Some(x) => x,
        None => {
            return None;
        },
    };
    let p5 = match expect_lit(&s, p4, ",\"log_max_size\":") {
        Some(p) => p,
        None => {
            return None;
        },
    };
    let (log_max_size, p6) = match read_u64(&s, p5) {
        Some(x) => x,
        None => {
            return None;
        },
    };
    let p7 = match expect_lit(&s, p6, ",\"log_retention_days\":") {
        Some(p) => p,
        None => {
            return None;
        },
    };
    let (log_retention_days, p8) = match read_u32_value(&s, p7) {
        Some(x) => x,
        None => {
            return None;
        },
    };
    let p9 = match expect_lit(&s, p8, ",\"auto_restart_delay\":") {
        Some(p) => p,
        None => {
            return None;
        },
    };
    let (auto_restart_delay, p10) = match read_u64(&s, p9) {
        Some(x) => x,
        None => {
            return None;
        },
    };
    let p11 = match expect_lit(&s, p10, ",\"health_check_interval\":") {
        Some(p) => p,
        None => {
            return None;
        },
    };
    let (health_check_interval, p12) = match read_u64(&s, p11) {
        Some(x) => x,
        None => {
            return None;
        },
    };
    let p13 = match expect_lit(&s, p12, "}") {
        Some(p) => p,
        None => {
            return None;
        },
    };
    if p13 != s.len() {
        return None;
    }
    proof {
        assert(s@.skip(p13 as int).len() == 0);
    }
    Some(
        crate::config::Config {
            daemon_port,
            max_processes,
            log_max_size,
            log_retention_days,
            auto_restart_delay,
            health_check_interval,
        },
    )
}

} // verus!
