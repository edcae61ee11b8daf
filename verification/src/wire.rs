//! Primitives of the wire text: decimal numbers and quoted strings with
//! escapes, together with the lemmas that make every composite round trip.
//!
//! The wire format is one object per line: objects `{"key":value,...}`,
//! arrays `[v,...]`, quoted strings, unsigned decimal numbers, `true`,
//! `false` and `null`. Encoders are canonical (fixed key order, no spaces);
//! decoders accept exactly what the encoders emit, which is all the round
//! trip needs and all the daemon ever reads back.

use vstd::prelude::*;

verus! {

// ---------------------------------------------------------------------------
// Decimal digits
// ---------------------------------------------------------------------------

pub open spec fn is_digit(c: char) -> bool {
    '0' <= c && c <= '9'
}

pub open spec fn digit_val(c: char) -> nat {
    (c as nat - '0' as nat) as nat
}

pub open spec fn digit_char(d: nat) -> char {
    if d == 0 {
        '0'
    } else if d == 1 {
        '1'
    } else if d == 2 {
        '2'
    } else if d == 3 {
        '3'
    } else if d == 4 {
        '4'
    } else if d == 5 {
        '5'
    } else if d == 6 {
        '6'
    } else if d == 7 {
        '7'
    } else if d == 8 {
        '8'
    } else {
        '9'
    }
}

proof fn lemma_digit_char_val(d: nat)
    requires
        d < 10,
    ensures
        is_digit(digit_char(d)),
        digit_val(digit_char(d)) == d,
        digit_char(d) != '"',
        digit_char(d) != ']',
{
}

/// The canonical decimal encoding of a number: most significant digit first,
/// no leading zeros (`0` itself is the single digit `0`).
pub open spec fn enc_u64(n: nat) -> Seq<char>
    decreases n,
{
    if n < 10 {
        seq![digit_char(n)]
    } else {
        enc_u64(n / 10).push(digit_char(n % 10))
    }
}

/// The value of a digit string, most significant digit first.
pub open spec fn dec_val(s: Seq<char>) -> nat
    decreases s.len(),
{
    if s.len() == 0 {
        0
    } else {
        dec_val(s.drop_last()) * 10 + digit_val(s.last())
    }
}

pub proof fn lemma_enc_u64_shape(n: nat)
    ensures
        enc_u64(n).len() >= 1,
        forall|i: int| 0 <= i < enc_u64(n).len() ==> is_digit(#[trigger] enc_u64(n)[i]),
        enc_u64(n)[0] == '0' ==> n == 0,
    decreases n,
{
    if n < 10 {
        lemma_digit_char_val(n);
    } else {
        lemma_enc_u64_shape(n / 10);
        lemma_digit_char_val(n % 10);
        assert(enc_u64(n) == enc_u64(n / 10).push(digit_char(n % 10)));
        assert(n / 10 >= 1);
    }
}

pub proof fn lemma_dec_val_enc_u64(n: nat)
    ensures
        dec_val(enc_u64(n)) == n,
    decreases n,
{
    if n < 10 {
        lemma_digit_char_val(n);
        let e = seq![digit_char(n)];
        assert(enc_u64(n) == e);
        assert(e.drop_last() =~= Seq::<char>::empty());
        assert(dec_val(Seq::<char>::empty()) == 0);
        assert(e.last() == digit_char(n));
        assert(dec_val(e) == dec_val(e.drop_last()) * 10 + digit_val(e.last()));
    } else {
        lemma_dec_val_enc_u64(n / 10);
        lemma_digit_char_val(n % 10);
        let e = enc_u64(n / 10).push(digit_char(n % 10));
        assert(enc_u64(n) == e);
        assert(e.drop_last() =~= enc_u64(n / 10));
        assert(e.last() == digit_char(n % 10));
        assert(dec_val(e) == dec_val(e.drop_last()) * 10 + digit_val(e.last()));
        assert(dec_val(e) == (n / 10) * 10 + n % 10);
        vstd::arithmetic::div_mod::lemma_fundamental_div_mod(n as int, 10);
        assert((n / 10) * 10 + n % 10 == n);
    }
}

/// Two distinct numbers never share a decimal encoding.
pub proof fn lemma_enc_u64_injective(a: nat, b: nat)
    requires
        enc_u64(a) == enc_u64(b),
    ensures
        a == b,
{
    lemma_dec_val_enc_u64(a);
    lemma_dec_val_enc_u64(b);
}

pub open spec fn pow10(k: nat) -> nat
    decreases k,
{
    if k == 0 {
        1
    } else {
        10 * pow10((k - 1) as nat)
    }
}

proof fn lemma_pow10_pos(k: nat)
    ensures
        pow10(k) >= 1,
    decreases k,
{
    if k > 0 {
        lemma_pow10_pos((k - 1) as nat);
    }
}

proof fn lemma_dec_val_append(a: Seq<char>, b: Seq<char>)
    ensures
        dec_val(a + b) == dec_val(a) * pow10(b.len()) + dec_val(b),
    decreases b.len(),
{
    if b.len() == 0 {
        assert(a + b =~= a);
        assert(dec_val(b) == 0);
        assert(pow10(0) == 1);
    } else {
        let b0 = b.drop_last();
        lemma_dec_val_append(a, b0);
        assert((a + b).drop_last() =~= a + b0);
        assert((a + b).last() == b.last());
        assert(dec_val(a + b) == dec_val((a + b).drop_last()) * 10 + digit_val((a + b).last()));
        assert(dec_val(a + b) == (dec_val(a) * pow10(b0.len()) + dec_val(b0)) * 10 + digit_val(
            b.last(),
        ));
        assert((dec_val(a) * pow10(b0.len()) + dec_val(b0)) * 10 == dec_val(a) * (10 * pow10(
            b0.len(),
        )) + dec_val(b0) * 10) by (nonlinear_arith);
        assert(pow10(b.len()) == 10 * pow10(b0.len()));
        assert(dec_val(b) == dec_val(b0) * 10 + digit_val(b.last()));
    }
}

/// A digit string is worth at least as much as any of its prefixes.
pub proof fn lemma_dec_val_prefix(s: Seq<char>, k: int)
    requires
        0 <= k <= s.len(),
    ensures
        dec_val(s) >= dec_val(s.take(k)),
{
    let a = s.take(k);
    let b = s.skip(k);
    assert(s =~= a + b);
    lemma_dec_val_append(a, b);
    lemma_pow10_pos(b.len());
    assert(dec_val(a) * pow10(b.len()) >= dec_val(a) * 1) by (nonlinear_arith)
        requires
            pow10(b.len()) >= 1,
    ;
}

// ---------------------------------------------------------------------------
// Parsing decimals
// ---------------------------------------------------------------------------

/// Length of the longest digit prefix of `s`.
pub open spec fn digit_run(s: Seq<char>) -> nat
    decreases s.len(),
{
    if s.len() > 0 && is_digit(s[0]) {
        1 + digit_run(s.drop_first())
    } else {
        0
    }
}

/// The digit run of an all-digit string followed by a non-digit (or nothing)
/// is exactly that string.
pub proof fn lemma_digit_run_exact(d: Seq<char>, rest: Seq<char>)
    requires
        forall|i: int| 0 <= i < d.len() ==> is_digit(#[trigger] d[i]),
        rest.len() == 0 || !is_digit(rest[0]),
    ensures
        digit_run(d + rest) == d.len(),
    decreases d.len(),
{
    let s = d + rest;
    if d.len() == 0 {
        assert(s =~= rest);
    } else {
        assert(s[0] == d[0]);
        lemma_digit_run_exact(d.drop_first(), rest);
        assert(s.drop_first() =~= d.drop_first() + rest);
    }
}

/// Parse a canonical decimal `u64` from the front of `s`: a nonempty digit
/// run with no leading zero whose value fits. Returns the value and what
/// follows the run.
pub open spec fn parse_u64(s: Seq<char>) -> Option<(u64, Seq<char>)> {
    let k = digit_run(s) as int;
    let d = s.take(k);
    if k == 0 {
        None
    } else if d[0] == '0' && k > 1 {
        None
    } else if dec_val(d) > u64::MAX {
        None
    } else {
        Some((dec_val(d) as u64, s.skip(k)))
    }
}

/// Decimal round trip: parsing the canonical encoding of `n` yields `n` and
/// leaves `rest` untouched, provided `rest` does not begin with a digit.
pub proof fn lemma_parse_u64_roundtrip(n: u64, rest: Seq<char>)
    requires
        rest.len() == 0 || !is_digit(rest[0]),
    ensures
        parse_u64(enc_u64(n as nat) + rest) == Some((n, rest)),
{
    let e = enc_u64(n as nat);
    let s = e + rest;
    lemma_enc_u64_shape(n as nat);
    lemma_digit_run_exact(e, rest);
    assert(s.take(e.len() as int) =~= e);
    assert(s.skip(e.len() as int) =~= rest);
    lemma_dec_val_enc_u64(n as nat);
    if e[0] == '0' && e.len() > 1 {
        assert(n == 0);
        assert(e.len() == 1);
    }
}

// ---------------------------------------------------------------------------
// Strings with escapes
// ---------------------------------------------------------------------------

/// Escaping of one character inside a quoted wire string. The quote, the
/// backslash and the two line terminators are escaped; everything else
/// stands for itself.
pub open spec fn esc_char(c: char) -> Seq<char> {
    if c == '"' {
        seq!['\\', '"']
    } else if c == '\\' {
        seq!['\\', '\\']
    } else if c == '\n' {
        seq!['\\', 'n']
    } else if c == '\r' {
        seq!['\\', 'r']
    } else {
        seq![c]
    }
}

pub open spec fn escape(s: Seq<char>) -> Seq<char>
    decreases s.len(),
{
    if s.len() == 0 {
        Seq::empty()
    } else {
        esc_char(s[0]) + escape(s.drop_first())
    }
}

/// A quoted wire string: quote, escaped content, quote.
pub open spec fn enc_str(s: Seq<char>) -> Seq<char> {
    seq!['"'] + escape(s) + seq!['"']
}

pub open spec fn unescape_code(c: char) -> char {
    if c == 'n' {
        '\n'
    } else if c == 'r' {
        '\r'
    } else {
        c
    }
}

/// Parse the body of a quoted string after the opening quote: content up to
/// the closing quote, and what follows it.
pub open spec fn parse_str_body(s: Seq<char>) -> Option<(Seq<char>, Seq<char>)>
    decreases s.len(),
{
    if s.len() == 0 {
        None
    } else if s[0] == '"' {
        Some((Seq::empty(), s.drop_first()))
    } else if s[0] == '\\' {
        if s.len() >= 2 && (s[1] == '"' || s[1] == '\\' || s[1] == 'n' || s[1] == 'r') {
            match parse_str_body(s.skip(2)) {
                None => None,
                Some((content, rest)) => Some((seq![unescape_code(s[1])] + content, rest)),
            }
        } else {
            None
        }
    } else {
        match parse_str_body(s.drop_first()) {
            None => None,
            Some((content, rest)) => Some((seq![s[0]] + content, rest)),
        }
    }
}

/// Parse a whole quoted string from the front of `s`.
pub open spec fn parse_str(s: Seq<char>) -> Option<(Seq<char>, Seq<char>)> {
    if s.len() >= 1 && s[0] == '"' {
        parse_str_body(s.skip(1))
    } else {
        None
    }
}

proof fn lemma_parse_str_body_roundtrip(content: Seq<char>, rest: Seq<char>)
    ensures
        parse_str_body(escape(content) + seq!['"'] + rest) == Some((content, rest)),
    decreases content.len(),
{
    let s = escape(content) + seq!['"'] + rest;
    if content.len() == 0 {
        assert(escape(content) =~= Seq::<char>::empty());
        assert(s =~= seq!['"'] + rest);
        assert(s[0] == '"');
        assert(s.drop_first() =~= rest);
    } else {
        let c0 = content[0];
        let tail = content.drop_first();
        lemma_parse_str_body_roundtrip(tail, rest);
        assert(escape(content) =~= esc_char(c0) + escape(tail));
        if c0 == '"' || c0 == '\\' || c0 == '\n' || c0 == '\r' {
            assert(esc_char(c0).len() == 2);
            assert(s[0] == '\\');
            assert(s[1] == esc_char(c0)[1]);
            assert(s.skip(2) =~= escape(tail) + seq!['"'] + rest);
            assert(unescape_code(esc_char(c0)[1]) == c0);
            assert(seq![c0] + tail =~= content);
        } else {
            assert(esc_char(c0) =~= seq![c0]);
            assert(s[0] == c0);
            assert(s.drop_first() =~= escape(tail) + seq!['"'] + rest);
            assert(seq![c0] + tail =~= content);
        }
    }
}

/// String round trip: parsing the encoding of `content` yields `content`
/// and leaves `rest`.
pub proof fn lemma_parse_str_roundtrip(content: Seq<char>, rest: Seq<char>)
    ensures
        parse_str(enc_str(content) + rest) == Some((content, rest)),
{
    let s = enc_str(content) + rest;
    assert(s[0] == '"');
    assert(s.skip(1) =~= escape(content) + seq!['"'] + rest);
    lemma_parse_str_body_roundtrip(content, rest);
}

/// An encoded string never begins with anything but a quote; useful when a
/// decoder must tell a string from a keyword or a number.
pub proof fn lemma_enc_str_first(content: Seq<char>)
    ensures
        enc_str(content).len() >= 2,
        enc_str(content)[0] == '"',
{
}

// ---------------------------------------------------------------------------
// Fixed literals
// ---------------------------------------------------------------------------

/// Parse a fixed literal from the front of `s`: the remainder on a match,
/// nothing otherwise.
pub open spec fn parse_lit(s: Seq<char>, lit: Seq<char>) -> Option<Seq<char>> {
    if lit.is_prefix_of(s) {
        Some(s.skip(lit.len() as int))
    } else {
        None
    }
}

pub proof fn lemma_parse_lit_roundtrip(lit: Seq<char>, rest: Seq<char>)
    ensures
        parse_lit(lit + rest, lit) == Some(rest),
{
    let s = lit + rest;
    assert(s.take(lit.len() as int) =~= lit);
    assert(lit.is_prefix_of(s));
    assert(s.skip(lit.len() as int) =~= rest);
}

/// Two sequences that differ at some index inside both are not in a prefix
/// relation; the decoder's ordered tag matching leans on this.
pub proof fn lemma_differ_not_prefix(s: Seq<char>, lit: Seq<char>, i: int)
    requires
        0 <= i < lit.len(),
        i < s.len(),
        s[i] != lit[i],
    ensures
        parse_lit(s, lit) is None,
{
    if lit.is_prefix_of(s) {
        assert(s.take(lit.len() as int)[i] == s[i]);
    }
}

// ---------------------------------------------------------------------------
// Lists
// ---------------------------------------------------------------------------

/// The comma-joined encodings of the elements of `xs`.
pub open spec fn enc_items<T>(e: spec_fn(T) -> Seq<char>, xs: Seq<T>) -> Seq<char>
    decreases xs.len(),
{
    if xs.len() == 0 {
        Seq::empty()
    } else if xs.len() == 1 {
        e(xs[0])
    } else {
        e(xs[0]) + seq![','] + enc_items(e, xs.drop_first())
    }
}

/// A wire array: bracketed, comma-joined element encodings.
pub open spec fn enc_list<T>(e: spec_fn(T) -> Seq<char>, xs: Seq<T>) -> Seq<char> {
    seq!['['] + enc_items(e, xs) + seq![']']
}

/// Appending one element extends the joined encoding on the right.
pub proof fn lemma_enc_items_push<T>(e: spec_fn(T) -> Seq<char>, xs: Seq<T>, x: T)
    ensures
        xs.len() == 0 ==> enc_items(e, xs.push(x)) == e(x),
        xs.len() > 0 ==> enc_items(e, xs.push(x)) == enc_items(e, xs) + seq![','] + e(x),
    decreases xs.len(),
{
    let ys = xs.push(x);
    if xs.len() == 0 {
        assert(ys.len() == 1);
        assert(ys[0] == x);
    } else {
        lemma_enc_items_push(e, xs.drop_first(), x);
        assert(ys.drop_first() =~= xs.drop_first().push(x));
        assert(ys[0] == xs[0]);
        if xs.len() == 1 {
            assert(xs.drop_first().len() == 0);
            assert(enc_items(e, ys) == e(xs[0]) + seq![','] + e(x));
            assert(enc_items(e, xs) == e(xs[0]));
        } else {
            assert(enc_items(e, ys) == e(xs[0]) + seq![','] + (enc_items(e, xs.drop_first())
                + seq![','] + e(x)));
            assert(e(xs[0]) + seq![','] + (enc_items(e, xs.drop_first()) + seq![','] + e(x)) =~= (e(
                xs[0],
            ) + seq![','] + enc_items(e, xs.drop_first())) + seq![','] + e(x));
        }
    }
}

proof fn lemma_enc_items_len<T>(e: spec_fn(T) -> Seq<char>, xs: Seq<T>)
    requires
        forall|x: T| (#[trigger] e(x)).len() >= 1,
    ensures
        enc_items(e, xs).len() >= xs.len(),
    decreases xs.len(),
{
    if xs.len() > 1 {
        lemma_enc_items_len(e, xs.drop_first());
    }
}

/// Parse the elements of an array after the opening bracket, up to and over
/// the closing bracket. `fuel` bounds the number of elements and only ever
/// needs to be as large as the input is long.
pub open spec fn parse_items<T>(
    p: spec_fn(Seq<char>) -> Option<(T, Seq<char>)>,
    s: Seq<char>,
    fuel: nat,
) -> Option<(Seq<T>, Seq<char>)>
    decreases fuel,
{
    if s.len() > 0 && s[0] == ']' {
        Some((Seq::empty(), s.drop_first()))
    } else if fuel == 0 {
        None
    } else {
        match p(s) {
            None => None,
            Some((x, r)) => if r.len() > 0 && r[0] == ',' {
                match parse_items(p, r.drop_first(), (fuel - 1) as nat) {
                    None => None,
                    Some((ys, rr)) => Some((seq![x] + ys, rr)),
                }
            } else if r.len() > 0 && r[0] == ']' {
                Some((seq![x], r.drop_first()))
            } else {
                None
            },
        }
    }
}

/// Parse a whole wire array from the front of `s`.
pub open spec fn parse_list<T>(
    p: spec_fn(Seq<char>) -> Option<(T, Seq<char>)>,
    s: Seq<char>,
) -> Option<(Seq<T>, Seq<char>)> {
    if s.len() >= 1 && s[0] == '[' {
        parse_items(p, s.skip(1), s.len())
    } else {
        None
    }
}

pub proof fn lemma_parse_items_roundtrip<T>(
    p: spec_fn(Seq<char>) -> Option<(T, Seq<char>)>,
    e: spec_fn(T) -> Seq<char>,
    xs: Seq<T>,
    rest: Seq<char>,
    fuel: nat,
)
    requires
        forall|x: T, r: Seq<char>| #[trigger] p(e(x) + r) == Some((x, r)),
        forall|x: T| (#[trigger] e(x)).len() >= 1,
        forall|x: T| (#[trigger] e(x))[0] != ']',
        fuel >= xs.len(),
    ensures
        parse_items(p, enc_items(e, xs) + seq![']'] + rest, fuel) == Some((xs, rest)),
    decreases xs.len(),
{
    let s = enc_items(e, xs) + seq![']'] + rest;
    if xs.len() == 0 {
        assert(s =~= seq![']'] + rest);
        assert(s[0] == ']');
        assert(s.drop_first() =~= rest);
        assert(xs =~= Seq::<T>::empty());
    } else if xs.len() == 1 {
        let x = xs[0];
        let r = seq![']'] + rest;
        assert(s =~= e(x) + r);
        assert(s[0] == e(x)[0]);
        assert(p(s) == Some((x, r)));
        assert(r[0] == ']');
        assert(r.drop_first() =~= rest);
        assert(seq![x] =~= xs);
    } else {
        let x = xs[0];
        let tail = xs.drop_first();
        let r = seq![','] + enc_items(e, tail) + seq![']'] + rest;
        assert(s =~= e(x) + r);
        assert(s[0] == e(x)[0]);
        assert(p(s) == Some((x, r)));
        assert(r[0] == ',');
        lemma_parse_items_roundtrip(p, e, tail, rest, (fuel - 1) as nat);
        assert(r.drop_first() =~= enc_items(e, tail) + seq![']'] + rest);
        assert(seq![x] + tail =~= xs);
    }
}

/// Array round trip: parsing the encoding of `xs` yields `xs` and leaves
/// `rest`.
pub proof fn lemma_parse_list_roundtrip<T>(
    p: spec_fn(Seq<char>) -> Option<(T, Seq<char>)>,
    e: spec_fn(T) -> Seq<char>,
    xs: Seq<T>,
    rest: Seq<char>,
)
    requires
        forall|x: T, r: Seq<char>| #[trigger] p(e(x) + r) == Some((x, r)),
        forall|x: T| (#[trigger] e(x)).len() >= 1,
        forall|x: T| (#[trigger] e(x))[0] != ']',
    ensures
        parse_list(p, enc_list(e, xs) + rest) == Some((xs, rest)),
{
    let s = enc_list(e, xs) + rest;
    assert(s[0] == '[');
    assert(s.skip(1) =~= enc_items(e, xs) + seq![']'] + rest);
    lemma_enc_items_len(e, xs);
    lemma_parse_items_roundtrip(p, e, xs, rest, s.len());
}


/// Reassociation of sequence concatenation, as one cheap step.
pub proof fn seq_assoc<T>(a: Seq<T>, b: Seq<T>, c: Seq<T>)
    ensures
        (a + b) + c == a + (b + c),
{
    assert((a + b) + c =~= a + (b + c));
}

} // verus!
