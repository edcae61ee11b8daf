//! Executable text helpers: between `String` and `Vec<char>`, and the
//! character-level readers and writers that the codec builds on. Each
//! function is proved against the spec-level parsers of `wire`.

use vstd::prelude::*;

use crate::wire::{
    digit_char, digit_val, enc_u64, esc_char, escape, dec_val, digit_run, is_digit, parse_lit,
    parse_str, parse_str_body, parse_u64, unescape_code,
};

verus! {

/// The characters of `s`, in order, as a vector.
pub fn str_to_chars(s: &str) -> (v: Vec<char>)
    ensures
        v@ == s@,
{
    let n = s.unicode_len();
    let mut v: Vec<char> = Vec::new();
    let mut i: usize = 0;
    while i < n
        invariant
            i <= n,
            n == s@.len(),
            v@ == s@.take(i as int),
        decreases n - i,
    {
        let c = s.get_char(i);
        v.push(c);
        assert(s@.take(i + 1 as int) =~= s@.take(i as int).push(s@[i as int]));
        i = i + 1;
    }
    assert(s@.take(n as int) =~= s@);
    v
}

/// Relies on `String::push`: pushing a character appends exactly that
/// character to the string.
#[verifier::external_body]
fn push_char(s: &mut String, c: char)
    ensures
        final(s)@ == old(s)@.push(c),
{
    s.push(c);
}

/// The string holding exactly the characters of `v`, in order.
pub fn chars_to_string(v: &Vec<char>) -> (s: String)
    ensures
        s@ == v@,
{
    let mut s = String::new();
    let mut i: usize = 0;
    while i < v.len()
        invariant
            0 <= i <= v@.len(),
            s@ == v@.take(i as int),
        decreases v@.len() - i,
    {
        push_char(&mut s, v[i]);
        assert(s@ =~= v@.take(i + 1 as int));
        i = i + 1;
    }
    assert(v@.take(v@.len() as int) =~= v@);
    s
}

/// Append every character of the literal `lit` to `out`.
pub fn push_lit(out: &mut Vec<char>, lit: &str)
    ensures
        final(out)@ == old(out)@ + lit@,
{
    let n = lit.unicode_len();
    let mut i: usize = 0;
    while i < n
        invariant
            i <= n,
            n == lit@.len(),
            out@ == old(out)@ + lit@.take(i as int),
        decreases n - i,
    {
        let c = lit.get_char(i);
        out.push(c);
        assert(old(out)@ + lit@.take(i + 1 as int) =~= (old(out)@ + lit@.take(i as int)).push(
            lit@[i as int],
        ));
        i = i + 1;
    }
    assert(lit@.take(n as int) =~= lit@);
}

/// Match the literal `lit` at `pos`; on success the position just past it.
pub fn expect_lit(s: &Vec<char>, pos: usize, lit: &str) -> (r: Option<usize>)
    requires
        pos <= s@.len(),
    ensures
        match r {
            Some(p2) => {
                &&& pos <= p2 <= s@.len()
                &&& p2 - pos == lit@.len()
                &&& parse_lit(s@.skip(pos as int), lit@) == Some(s@.skip(p2 as int))
            },
            None => parse_lit(s@.skip(pos as int), lit@) is None,
        },
{
    let n = lit.unicode_len();
    if s.len() - pos < n {
        proof {
            let tail = s@.skip(pos as int);
            assert(tail.len() < lit@.len());
            if lit@.is_prefix_of(tail) {
                assert(lit@.len() <= tail.len());
            }
        }
        return None;
    }
    let mut i: usize = 0;
    while i < n
        invariant
            i <= n,
            n == lit@.len(),
            pos + n <= s@.len(),
            s@.len() <= usize::MAX,
            forall|j: int| 0 <= j < i ==> s@[pos + j] == lit@[j],
        decreases n - i,
    {
        let c = s[pos + i];
        let lc = lit.get_char(i);
        if c != lc {
            proof {
                let tail = s@.skip(pos as int);
                assert(tail[i as int] == s@[pos + i]);
                crate::wire::lemma_differ_not_prefix(tail, lit@, i as int);
            }
            return None;
        }
        i = i + 1;
    }
    proof {
        let tail = s@.skip(pos as int);
        assert(forall|j: int| 0 <= j < n ==> tail[j] == s@[pos + j]);
        assert(tail.take(n as int) =~= lit@);
        assert(lit@.is_prefix_of(tail));
        assert(tail.skip(n as int) =~= s@.skip(pos + n as int));
    }
    Some(pos + n)
}

/// The decimal digit character of `d`.
fn digit_to_char(d: u64) -> (c: char)
    requires
        d < 10,
    ensures
        c == digit_char(d as nat),
{
    if d == 0 {
        '0'
    } else if d == 1 {
        '1'
    } else if d == 2 {
        '2'
    } else if d == 3 {
        '3'
    } else if d == 4 {
        '4'
    } else if d == 5 {
        '5'
    } else if d == 6 {
        '6'
    } else if d == 7 {
        '7'
    } else if d == 8 {
        '8'
    } else {
        '9'
    }
}

/// Append the canonical decimal encoding of `n` to `out`.
pub fn push_u64(out: &mut Vec<char>, n: u64)
    ensures
        final(out)@ == old(out)@ + enc_u64(n as nat),
    decreases n,
{
    if n < 10 {
        let c = digit_to_char(n);
        out.push(c);
        assert(out@ =~= old(out)@ + enc_u64(n as nat));
    } else {
        push_u64(out, n / 10);
        let c = digit_to_char(n % 10);
        out.push(c);
        assert(out@ =~= old(out)@ + enc_u64(n as nat));
    }
}

proof fn lemma_escape_push(s: Seq<char>, c: char)
    ensures
        escape(s.push(c)) == escape(s) + esc_char(c),
    decreases s.len(),
{
    let t = s.push(c);
    if s.len() == 0 {
        assert(t[0] == c);
        assert(t.drop_first() =~= Seq::<char>::empty());
        assert(escape(Seq::<char>::empty()) =~= Seq::<char>::empty());
        assert(escape(t) =~= esc_char(c) + escape(Seq::<char>::empty()));
        assert(escape(t) =~= esc_char(c));
        assert(escape(s) + esc_char(c) =~= esc_char(c));
    } else {
        lemma_escape_push(s.drop_first(), c);
        assert(t[0] == s[0]);
        assert(t.drop_first() =~= s.drop_first().push(c));
        assert(esc_char(s[0]) + (escape(s.drop_first()) + esc_char(c)) =~= (esc_char(s[0]) + escape(
            s.drop_first(),
        )) + esc_char(c));
    }
}

/// Append the escaped content of `s` to `out` (no surrounding quotes).
pub fn push_escaped(out: &mut Vec<char>, s: &str)
    ensures
        final(out)@ == old(out)@ + escape(s@),
{
    let n = s.unicode_len();
    let mut i: usize = 0;
    while i < n
        invariant
            i <= n,
            n == s@.len(),
            out@ == old(out)@ + escape(s@.take(i as int)),
        decreases n - i,
    {
        let c = s.get_char(i);
        if c == '"' {
            out.push('\\');
            out.push('"');
        } else if c == '\\' {
            out.push('\\');
            out.push('\\');
        } else if c == '\n' {
            out.push('\\');
            out.push('n');
        } else if c == '\r' {
            out.push('\\');
            out.push('r');
        } else {
            out.push(c);
        }
        proof {
            lemma_escape_push(s@.take(i as int), s@[i as int]);
            assert(s@.take(i + 1 as int) =~= s@.take(i as int).push(s@[i as int]));
            assert(out@ =~= old(out)@ + escape(s@.take(i + 1 as int)));
        }
        i = i + 1;
    }
    assert(s@.take(n as int) =~= s@);
}

/// Append the full quoted encoding of `s` to `out`.
pub fn push_str_value(out: &mut Vec<char>, s: &str)
    ensures
        final(out)@ == old(out)@ + crate::wire::enc_str(s@),
{
    out.push('"');
    push_escaped(out, s);
    out.push('"');
    assert(out@ =~= old(out)@ + crate::wire::enc_str(s@));
}

/// Read a quoted string at `pos`; on success its unescaped content and the
/// position just past the closing quote.
pub fn read_str(s: &Vec<char>, pos: usize) -> (r: Option<(String, usize)>)
    requires
        pos <= s@.len(),
    ensures
        match r {
            Some((content, p2)) => {
                &&& pos < p2 <= s@.len()
                &&& parse_str(s@.skip(pos as int)) == Some((content@, s@.skip(p2 as int)))
            },
            None => parse_str(s@.skip(pos as int)) is None,
        },
{
    if pos == s.len() || s[pos] != '"' {
        proof {
            let tail = s@.skip(pos as int);
            if tail.len() >= 1 {
                assert(tail[0] == s@[pos as int]);
            }
        }
        return None;
    }
    let start = pos + 1;
    let mut cur: usize = start;
    let mut content: Vec<char> = Vec::new();
    proof {
        assert(s@.skip(pos as int)[0] == '"');
        assert(s@.skip(pos as int).skip(1) =~= s@.skip(start as int));
    }
    loop
        invariant
            pos < s@.len(),
            start == pos + 1,
            start <= cur <= s@.len(),
            parse_str(s@.skip(pos as int)) == parse_str_body(s@.skip(start as int)),
            match parse_str_body(s@.skip(cur as int)) {
                Some((c2, r)) => parse_str_body(s@.skip(start as int)) == Some(
                    (content@ + c2, r),
                ),
                None => parse_str_body(s@.skip(start as int)) is None,
            },
        decreases s@.len() - cur,
    {
        if cur == s.len() {
            proof {
                assert(s@.skip(cur as int).len() == 0);
            }
            return None;
        }
        let c = s[cur];
        proof {
            assert(s@.skip(cur as int)[0] == s@[cur as int]);
        }
        if c == '"' {
            proof {
                let tail = s@.skip(cur as int);
                assert(parse_str_body(tail) == Some((Seq::<char>::empty(), tail.drop_first())));
                assert(content@ + Seq::<char>::empty() =~= content@);
                assert(tail.drop_first() =~= s@.skip(cur + 1 as int));
            }
            let out = chars_to_string(&content);
            return Some((out, cur + 1));
        } else if c == '\\' {
            if cur + 1 == s.len() {
                proof {
                    assert(s@.skip(cur as int).len() == 1);
                }
                return None;
            }
            let c2 = s[cur + 1];
            proof {
                assert(s@.skip(cur as int)[1] == s@[cur + 1]);
            }
            if c2 == '"' || c2 == '\\' || c2 == 'n' || c2 == 'r' {
                let u = if c2 == 'n' {
                    '\n'
                } else if c2 == 'r' {
                    '\r'
                } else {
                    c2
                };
                proof {
                    assert(u == unescape_code(s@[cur + 1]));
                }
                let ghost pre = content@;
                content.push(u);
                proof {
                    let tail = s@.skip(cur as int);
                    assert(tail.skip(2) =~= s@.skip(cur + 2 as int));
                    if let Some((c3, r)) = parse_str_body(s@.skip(cur + 2 as int)) {
                        assert(parse_str_body(tail) == Some((seq![u] + c3, r)));
                        assert(pre + (seq![u] + c3) =~= content@ + c3);
                    }
                }
                cur = cur + 2;
            } else {
                proof {
                    let tail = s@.skip(cur as int);
                    assert(parse_str_body(tail) is None);
                }
                return None;
            }
        } else {
            let ghost pre = content@;
            content.push(c);
            proof {
                let tail = s@.skip(cur as int);
                assert(tail.drop_first() =~= s@.skip(cur + 1 as int));
                if let Some((c3, r)) = parse_str_body(s@.skip(cur + 1 as int)) {
                    assert(parse_str_body(tail) == Some((seq![c] + c3, r)));
                    assert(pre + (seq![c] + c3) =~= content@ + c3);
                }
            }
            cur = cur + 1;
        }
    }
}

/// Read a canonical decimal `u64` at `pos`; on success its value and the
/// position just past the digits.
pub fn read_u64(s: &Vec<char>, pos: usize) -> (r: Option<(u64, usize)>)
    requires
        pos <= s@.len(),
    ensures
        match r {
            Some((v, p2)) => {
                &&& pos < p2 <= s@.len()
                &&& parse_u64(s@.skip(pos as int)) == Some((v, s@.skip(p2 as int)))
            },
            None => parse_u64(s@.skip(pos as int)) is None,
        },
{
    let ghost tail = s@.skip(pos as int);
    let mut end: usize = pos;
    while end < s.len() && s[end] >= '0' && s[end] <= '9'
        invariant
            pos <= end <= s@.len(),
            tail == s@.skip(pos as int),
            forall|j: int| 0 <= j < end - pos ==> is_digit(#[trigger] tail[j]),
        decreases s@.len() - end,
    {
        proof {
            assert(tail[end - pos] == s@[end as int]);
        }
        end = end + 1;
    }
    let k = end - pos;
    proof {
        let d = tail.take(k as int);
        let after = tail.skip(k as int);
        assert(tail =~= d + after);
        if after.len() > 0 {
            assert(after[0] == s@[end as int]);
        }
        crate::wire::lemma_digit_run_exact(d, after);
        assert(digit_run(tail) == k);
    }
    if k == 0 {
        return None;
    }
    if s[pos] == '0' && k > 1 {
        proof {
            assert(tail.take(k as int)[0] == s@[pos as int]);
        }
        return None;
    }
    proof {
        assert(tail.take(k as int)[0] == s@[pos as int]);
    }
    let mut acc: u64 = 0;
    let mut i: usize = pos;
    while i < end
        invariant
            pos <= i <= end <= s@.len(),
            tail == s@.skip(pos as int),
            digit_run(tail) == end - pos,
            forall|j: int| 0 <= j < end - pos ==> is_digit(#[trigger] tail[j]),
            acc == dec_val(tail.take(i - pos)),
        decreases end - i,
    {
        let c = s[i];
        proof {
            assert(tail[i - pos] == s@[i as int]);
        }
        let d: u64 = (c as u32 - '0' as u32) as u64;
        proof {
            assert(d == digit_val(tail[i - pos]));
        }
        let m = match acc.checked_mul(10) {
            Some(m) => m,
            None => {
                proof {
                    lemma_decimal_overflow(tail, i - pos, end - pos);
                }
                return None;
            },
        };
        let a = match m.checked_add(d) {
            Some(a) => a,
            None => {
                proof {
                    lemma_decimal_overflow(tail, i - pos, end - pos);
                }
                return None;
            },
        };
        proof {
            let pre = tail.take(i + 1 - pos);
            assert(pre.drop_last() =~= tail.take(i - pos));
            assert(pre.last() == tail[i - pos]);
            assert(dec_val(pre) == dec_val(tail.take(i - pos)) * 10 + digit_val(tail[i - pos]));
        }
        acc = a;
        i = i + 1;
    }
    proof {
        assert(tail.take(end - pos) == tail.take(digit_run(tail) as int));
        assert(tail.skip(k as int) =~= s@.skip(end as int));
    }
    Some((acc, end))
}

/// The canonical decimal string of `n`.
pub fn u64_to_string(n: u64) -> (s: String)
    ensures
        s@ == enc_u64(n as nat),
{
    let mut out: Vec<char> = Vec::new();
    push_u64(&mut out, n);
    proof {
        assert(out@ =~= enc_u64(n as nat));
    }
    chars_to_string(&out)
}

/// The concatenation of two string slices.
pub fn concat2(a: &str, b: &str) -> (r: String)
    ensures
        r@ == a@ + b@,
{
    let mut s = String::from_str(a);
    s.append(b);
    s
}

/// The concatenation of three string slices.
pub fn concat3(a: &str, b: &str, c: &str) -> (r: String)
    ensures
        r@ == a@ + b@ + c@,
{
    let mut s = String::from_str(a);
    s.append(b);
    s.append(c);
    s
}

/// If a digit prefix of length `i` already overflows one more digit, the
/// whole digit run's value exceeds `u64::MAX`.
proof fn lemma_decimal_overflow(tail: Seq<char>, i: int, k: int)
    requires
        0 <= i < k <= tail.len(),
        forall|j: int| 0 <= j < k ==> is_digit(#[trigger] tail[j]),
        dec_val(tail.take(i)) * 10 + digit_val(tail[i]) > u64::MAX,
    ensures
        dec_val(tail.take(k)) > u64::MAX,
{
    let pre = tail.take(i + 1);
    assert(pre.drop_last() =~= tail.take(i));
    assert(pre.last() == tail[i]);
    assert(dec_val(pre) == dec_val(tail.take(i)) * 10 + digit_val(tail[i]));
    crate::wire::lemma_dec_val_prefix(tail.take(k), i + 1);
    assert(tail.take(k).take(i + 1) =~= pre);
}

} // verus!
