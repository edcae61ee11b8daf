//! The computable parts of the presentation layer: duration rendering,
//! log-line splitting, memory banding and status counting. The colors and
//! tables around them are drawn outside the library.

use vstd::prelude::*;

use crate::cli::is_space;
use crate::process::{ProcessInfo, ProcessInfoV, ProcessStatus};
use crate::text::{chars_to_string, push_lit, push_u64, str_to_chars};
use crate::wire::enc_u64;

verus! {

/// The rendering of a duration of `s` seconds: the two most significant of
/// days, hours, minutes and seconds, the leading zero units dropped.
pub open spec fn spec_format_duration(s: u64) -> Seq<char> {
    let days = s / 86400;
    let hours = (s % 86400) / 3600;
    let minutes = (s % 3600) / 60;
    let seconds = s % 60;
    if days > 0 {
        enc_u64(days as nat) + "d "@ + enc_u64(hours as nat) + "h"@
    } else if hours > 0 {
        enc_u64(hours as nat) + "h "@ + enc_u64(minutes as nat) + "m"@
    } else if minutes > 0 {
        enc_u64(minutes as nat) + "m "@ + enc_u64(seconds as nat) + "s"@
    } else {
        enc_u64(seconds as nat) + "s"@
    }
}

/// Render a duration of `secs` seconds for the process table.
pub fn format_duration(secs: u64) -> (r: String)
    ensures
        r@ == spec_format_duration(secs),
{
    let days = secs / 86400;
    let hours = (secs % 86400) / 3600;
    let minutes = (secs % 3600) / 60;
    let seconds = secs % 60;
    let mut out: Vec<char> = Vec::new();
    if days > 0 {
        push_u64(&mut out, days);
        push_lit(&mut out, "d ");
        push_u64(&mut out, hours);
        push_lit(&mut out, "h");
    } else if hours > 0 {
        push_u64(&mut out, hours);
        push_lit(&mut out, "h ");
        push_u64(&mut out, minutes);
        push_lit(&mut out, "m");
    } else if minutes > 0 {
        push_u64(&mut out, minutes);
        push_lit(&mut out, "m ");
        push_u64(&mut out, seconds);
        push_lit(&mut out, "s");
    } else {
        push_u64(&mut out, seconds);
        push_lit(&mut out, "s");
    }
    proof {
        assert(out@ =~= spec_format_duration(secs));
    }
    chars_to_string(&out)
}

/// The rendering of an entry's uptime at wall clock `now_ms`: the duration
/// since its last successful spawn, or `N/A` when the clock sits before it.
pub open spec fn spec_format_uptime(now_ms: u64, started_ms: u64) -> Seq<char> {
    if now_ms >= started_ms {
        spec_format_duration(((now_ms - started_ms) / 1000) as u64)
    } else {
        "N/A"@
    }
}

/// Render an entry's uptime at wall clock `now_ms`.
pub fn format_uptime(now_ms: u64, started_ms: u64) -> (r: String)
    ensures
        r@ == spec_format_uptime(now_ms, started_ms),
{
    if now_ms >= started_ms {
        format_duration((now_ms - started_ms) / 1000)
    } else {
        String::from_str("N/A")
    }
}

// ---------------------------------------------------------------------------
// Log lines
// ---------------------------------------------------------------------------

/// The index of the first `]` in `s`, or `-1`.
pub open spec fn spec_close_idx(s: Seq<char>) -> int
    decreases s.len(),
{
    if s.len() == 0 {
        -1
    } else if s[0] == ']' {
        0
    } else {
        let r = spec_close_idx(s.drop_first());
        if r == -1 {
            -1
        } else {
            r + 1
        }
    }
}

proof fn lemma_close_idx(s: Seq<char>)
    ensures
        spec_close_idx(s) == -1 ==> forall|j: int| 0 <= j < s.len() ==> s[j] != ']',
        spec_close_idx(s) != -1 ==> {
            &&& 0 <= spec_close_idx(s) < s.len()
            &&& s[spec_close_idx(s)] == ']'
            &&& forall|j: int| 0 <= j < spec_close_idx(s) ==> s[j] != ']'
        },
    decreases s.len(),
{
    if s.len() > 0 && s[0] != ']' {
        lemma_close_idx(s.drop_first());
        assert(forall|j: int|
            1 <= j < s.len() ==> s[j] == s.drop_first()[j - 1]);
    }
}

/// The length of the leading whitespace run of `s`.
pub open spec fn spec_space_run(s: Seq<char>) -> nat
    decreases s.len(),
{
    if s.len() > 0 && is_space(s[0]) {
        1 + spec_space_run(s.drop_first())
    } else {
        0
    }
}

proof fn lemma_space_run(s: Seq<char>)
    ensures
        spec_space_run(s) <= s.len(),
        forall|j: int| 0 <= j < spec_space_run(s) ==> is_space(#[trigger] s[j]),
        spec_space_run(s) < s.len() ==> !is_space(s[spec_space_run(s) as int]),
    decreases s.len(),
{
    if s.len() > 0 && is_space(s[0]) {
        lemma_space_run(s.drop_first());
        assert(forall|j: int|
            1 <= j < 1 + spec_space_run(s.drop_first()) ==> #[trigger] s[j] == s.drop_first()[j
                - 1] && is_space(s.drop_first()[j - 1]));
        if spec_space_run(s) < s.len() {
            assert(s[spec_space_run(s) as int] == s.drop_first()[
            spec_space_run(s.drop_first()) as int]);
        }
    }
}

/// Split a log line of the shape `[timestamp] message` into the timestamp
/// and the message with its leading whitespace dropped; a line not of that
/// shape is not split.
pub open spec fn spec_split_log_line(s: Seq<char>) -> Option<(Seq<char>, Seq<char>)> {
    if s.len() > 0 && s[0] == '[' && spec_close_idx(s) >= 1 {
        let close = spec_close_idx(s);
        let after = s.skip(close + 1);
        Some((s.subrange(1, close), after.skip(spec_space_run(after) as int)))
    } else {
        None
    }
}

/// Split a log line of the shape `[timestamp] message`.
pub fn split_log_line(line: &str) -> (r: Option<(String, String)>)
    ensures
        match r {
            Some((ts, msg)) => spec_split_log_line(line@) == Some((ts@, msg@)),
            None => spec_split_log_line(line@) is None,
        },
{
    let chars = str_to_chars(line);
    let n = chars.len();
    if n == 0 || chars[0] != '[' {
        return None;
    }
    let mut close: usize = 0;
    while close < n && chars[close] != ']'
        invariant
            0 <= close <= n,
            n == line@.len(),
            chars@ == line@,
            forall|j: int| 0 <= j < close ==> line@[j] != ']',
        decreases n - close,
    {
        close = close + 1;
    }
    proof {
        lemma_close_idx(line@);
    }
    if close == n {
        proof {
            if spec_close_idx(line@) != -1 {
                assert(line@[spec_close_idx(line@)] == ']');
            }
        }
        return None;
    }
    proof {
        if spec_close_idx(line@) == -1 {
            assert(line@[close as int] != ']');
        }
        let ci = spec_close_idx(line@);
        if ci < close {
            assert(line@[ci] != ']');
        }
        if ci > close {
            assert(line@[close as int] != ']');
        }
        assert(ci == close);
    }
    if close == 0 {
        return None;
    }
    let ts = line.substring_char(1, close);
    let ghost after = line@.skip(close + 1);
    let mut m: usize = close + 1;
    while m < n && is_space_char(chars[m])
        invariant
            close + 1 <= m <= n,
            n == line@.len(),
            chars@ == line@,
            after == line@.skip(close + 1),
            forall|j: int| 0 <= j < m - close - 1 ==> is_space(#[trigger] after[j]),
        decreases n - m,
    {
        proof {
            assert(after[m - close - 1] == line@[m as int]);
        }
        m = m + 1;
    }
    proof {
        lemma_space_run(after);
        let k = (m - close - 1) as int;
        if (m as int) < n {
            assert(after[k] == line@[m as int]);
        }
        if spec_space_run(after) < k {
            assert(is_space(after[spec_space_run(after) as int]));
        }
        if spec_space_run(after) > k {
            assert(k < after.len());
            assert(is_space(after[k]));
        }
        assert(spec_space_run(after) == k);
        assert(line@.subrange(m as int, n as int) =~= after.skip(spec_space_run(after) as int));
    }
    let msg = line.substring_char(m, n);
    Some((String::from_str(ts), String::from_str(msg)))
}

/// Tell whether `c` is one of the four recognised whitespace characters.
fn is_space_char(c: char) -> (r: bool)
    ensures
        r == is_space(c),
{
    c == ' ' || c == '\t' || c == '\n' || c == '\r'
}

// ---------------------------------------------------------------------------
// Memory bands and status counts
// ---------------------------------------------------------------------------

/// The severity band of a memory reading, by megabytes: over 1000 is 3,
/// over 500 is 2, over 100 is 1, anything less is 0.
pub open spec fn spec_memory_band(bytes: u64) -> u8 {
    let mb = bytes / 1024 / 1024;
    if mb > 1000 {
        3
    } else if mb > 500 {
        2
    } else if mb > 100 {
        1
    } else {
        0
    }
}

/// The severity band of a memory reading.
pub fn memory_band(bytes: u64) -> (r: u8)
    ensures
        r == spec_memory_band(bytes),
{
    let mb = bytes / 1024 / 1024;
    if mb > 1000 {
        3
    } else if mb > 500 {
        2
    } else if mb > 100 {
        1
    } else {
        0
    }
}

/// How many of the snapshots carry the given status.
pub open spec fn spec_count_status(s: Seq<ProcessInfoV>, st: ProcessStatus) -> nat
    decreases s.len(),
{
    if s.len() == 0 {
        0
    } else {
        spec_count_status(s.drop_first(), st) + if s[0].status == st {
            1nat
        } else {
            0nat
        }
    }
}

proof fn lemma_count_status_push(s: Seq<ProcessInfoV>, p: ProcessInfoV, st: ProcessStatus)
    ensures
        spec_count_status(s.push(p), st) == spec_count_status(s, st) + if p.status == st {
            1nat
        } else {
            0nat
        },
        spec_count_status(s, st) <= s.len(),
    decreases s.len(),
{
    let t = s.push(p);
    if s.len() == 0 {
        assert(t[0] == p);
        assert(t.drop_first() =~= Seq::<ProcessInfoV>::empty());
        assert(spec_count_status(Seq::<ProcessInfoV>::empty(), st) == 0);
        assert(s =~= Seq::<ProcessInfoV>::empty());
    } else {
        lemma_count_status_push(s.drop_first(), p, st);
        assert(t[0] == s[0]);
        assert(t.drop_first() =~= s.drop_first().push(p));
    }
}

/// Count the snapshots in the given status, as the daemon status report
/// does for running, stopped and errored entries.
pub fn count_by_status(infos: &Vec<ProcessInfo>, status: ProcessStatus) -> (r: usize)
    ensures
        r == spec_count_status(Seq::new(infos@.len(), |i: int| infos@[i]@), status),
{
    let ghost items = Seq::new(infos@.len(), |i: int| infos@[i]@);
    let mut count: usize = 0;
    let mut i: usize = 0;
    while i < infos.len()
        invariant
            0 <= i <= infos@.len(),
            items == Seq::new(infos@.len(), |j: int| infos@[j]@),
            count == spec_count_status(items.take(i as int), status),
            count <= i,
        decreases infos@.len() - i,
    {
        proof {
            lemma_count_status_push(items.take(i as int), items[i as int], status);
            assert(items.take(i as int).push(items[i as int]) =~= items.take(i + 1 as int));
        }
        if infos[i].status == status {
            count = count + 1;
        }
        i = i + 1;
    }
    proof {
        assert(items.take(infos@.len() as int) =~= items);
    }
    count
}

} // verus!
