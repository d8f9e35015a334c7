//! Reading numbers out of text: runs of decimal digits and fixed-point
//! decimals such as `-92435.5`.
use vstd::prelude::*;

use crate::fixed::{lemma_pow10_bound, pow10, Fixed, SCALE};

verus! {

pub open spec fn is_digit(c: char) -> bool {
    '0' <= c && c <= '9'
}

/// Value of a string of decimal digits.
pub open spec fn digits_value(s: Seq<char>) -> int
    decreases s.len(),
{
    if s.len() == 0 {
        0
    } else {
        10 * digits_value(s.drop_last()) + (s.last() as int - '0' as int)
    }
}

/// The order number in `s`, when `s` is a non-empty run of digits whose
/// value fits in `u64`.
pub open spec fn order_number_spec(s: Seq<char>) -> Option<u64> {
    if s.len() > 0 && (forall|k: int| 0 <= k < s.len() ==> is_digit(#[trigger] s[k])) && digits_value(s) <= u64::MAX {
        Some(digits_value(s) as u64)
    } else {
        None
    }
}

proof fn lemma_digits_nonneg(s: Seq<char>)
    requires
        forall|k: int| 0 <= k < s.len() ==> is_digit(#[trigger] s[k]),
    ensures
        digits_value(s) >= 0,
    decreases s.len(),
{
    if s.len() > 0 {
        let p = s.drop_last();
        assert forall|k: int| 0 <= k < p.len() implies is_digit(#[trigger] p[k]) by {
            assert(p[k] == s[k]);
        }
        lemma_digits_nonneg(p);
        assert(is_digit(s[s.len() - 1]));
    }
}

/// Parses the digits of `s` from position `from` up to `to`.
pub fn parse_digit_run(s: &str, from: usize, to: usize) -> (r: Option<u64>)
    requires
        from <= to <= s@.len(),
    ensures
        r == order_number_spec(s@.subrange(from as int, to as int)),
{
    let ghost t = s@.subrange(from as int, to as int);
    let n = to - from;
    if n == 0 {
        return None;
    }
    let mut value: u64 = 0;
    let mut i: usize = 0;
    while i < n
        invariant
            t == s@.subrange(from as int, to as int),
            from <= to <= s@.len(),
            n == t.len(),
            0 < n,
            i <= n,
            forall|k: int| 0 <= k < i ==> is_digit(#[trigger] t[k]),
            value == digits_value(t.subrange(0, i as int)),
        decreases n - i,
    {
        let c = s.get_char(from + i);
        assert(c == t[i as int]);
        proof {
            assert(t.subrange(0, i + 1).drop_last() =~= t.subrange(0, i as int));
        }
        if !('0' <= c && c <= '9') {
            assert(!is_digit(t[i as int]));
            return None;
        }
        let d: u64 = (c as u32 - '0' as u32) as u64;
        if value > (u64::MAX - d) / 10 {
            proof {
                lemma_rest_too_large(t, i as int, value as int, d as int);
            }
            return None;
        }
        value = value * 10 + d;
        i = i + 1;
    }
    assert(t.subrange(0, n as int) =~= t);
    Some(value)
}

/// Parses a run of decimal digits, such as a venue order number.
pub fn parse_order_number(s: &str) -> (r: Option<u64>)
    ensures
        r == order_number_spec(s@),
{
    let n = s.unicode_len();
    assert(s@.subrange(0, n as int) =~= s@);
    parse_digit_run(s, 0, n)
}

/// Once a prefix of digits overflows, the whole run does.
proof fn lemma_rest_too_large(s: Seq<char>, i: int, value: int, d: int)
    requires
        0 <= i < s.len(),
        value == digits_value(s.subrange(0, i)),
        is_digit(s[i]),
        d == s[i] as int - '0' as int,
        value * 10 + d > u64::MAX,
    ensures
        order_number_spec(s) is None,
{
    if forall|k: int| 0 <= k < s.len() ==> is_digit(#[trigger] s[k]) {
        lemma_prefix_grows(s, i + 1);
        assert(s.subrange(0, i + 1).drop_last() =~= s.subrange(0, i));
        assert(s.subrange(0, i + 1).last() == s[i]);
    }
}

/// The value of a run of digits is at least that of any prefix of it.
proof fn lemma_prefix_grows(s: Seq<char>, j: int)
    requires
        0 <= j <= s.len(),
        forall|k: int| 0 <= k < s.len() ==> is_digit(#[trigger] s[k]),
    ensures
        digits_value(s) >= digits_value(s.subrange(0, j)),
    decreases s.len() - j,
{
    if j < s.len() {
        lemma_prefix_grows(s, j + 1);
        let p = s.subrange(0, j + 1);
        assert(p.drop_last() =~= s.subrange(0, j));
        assert forall|k: int| 0 <= k < j implies is_digit(#[trigger] s.subrange(0, j)[k]) by {
            assert(s.subrange(0, j)[k] == s[k]);
        }
        lemma_digits_nonneg(s.subrange(0, j));
        assert(is_digit(s[j]));
        assert(p.last() == s[j]);
    } else {
        assert(s.subrange(0, j) =~= s);
    }
}


/// Character-by-character equality of two strings.
pub fn same_text(a: &str, b: &str) -> (r: bool)
    ensures
        r == (a@ == b@),
{
    let n = a.unicode_len();
    if n != b.unicode_len() {
        return false;
    }
    let mut i: usize = 0;
    while i < n
        invariant
            n == a@.len(),
            n == b@.len(),
            i <= n,
            forall|k: int| 0 <= k < i ==> a@[k] == b@[k],
        decreases n - i,
    {
        if a.get_char(i) != b.get_char(i) {
            return false;
        }
        i = i + 1;
    }
    assert(a@ =~= b@);
    true
}

/// Position of the first `.` in `s` at or after `i`.
pub open spec fn first_dot(s: Seq<char>, i: int) -> Option<int>
    decreases s.len() - i,
{
    if i < 0 || i >= s.len() {
        None
    } else if s[i] == '.' {
        Some(i)
    } else {
        first_dot(s, i + 1)
    }
}

proof fn lemma_first_dot_bound(s: Seq<char>, i: int)
    requires
        0 <= i,
    ensures
        first_dot(s, i) matches Some(d) ==> i <= d < s.len(),
    decreases s.len() - i,
{
    if i < s.len() && s[i] != '.' {
        lemma_first_dot_bound(s, i + 1);
    }
}

/// Raw value of a decimal written `[-]digits[.digits]` with at most eight
/// digits after the point, when it fits in a `Fixed`.
pub open spec fn decimal_spec(s: Seq<char>) -> Option<i64> {
    let start: int = if s.len() > 0 && s[0] == '-' { 1 } else { 0 };
    let dot = first_dot(s, start);
    let whole = if dot is Some { s.subrange(start, dot->0) } else { s.subrange(start, s.len() as int) };
    let frac = if dot is Some { s.subrange(dot->0 + 1, s.len() as int) } else { Seq::<char>::empty() };
    let frac_value: Option<u64> = if dot is Some { order_number_spec(frac) } else { Some(0) };
    match (order_number_spec(whole), frac_value) {
        (Some(w), Some(f)) => {
            let mag = w * SCALE + f * pow10((8 - frac.len()) as nat);
            if frac.len() > 8 || mag > i64::MAX {
                None
            } else if start == 1 {
                Some((-mag) as i64)
            } else {
                Some(mag as i64)
            }
        },
        _ => None,
    }
}

fn find_dot(s: &str, from: usize) -> (r: Option<usize>)
    requires
        from <= s@.len(),
    ensures
        r matches Some(d) ==> first_dot(s@, from as int) == Some(d as int),
        r is None ==> first_dot(s@, from as int) is None,
{
    let n = s.unicode_len();
    let mut i: usize = from;
    while i < n
        invariant
            n == s@.len(),
            from <= i <= n,
            first_dot(s@, from as int) == first_dot(s@, i as int),
        decreases n - i,
    {
        if s.get_char(i) == '.' {
            return Some(i);
        }
        i = i + 1;
    }
    None
}

fn pow10_exec(k: usize) -> (r: i128)
    requires
        k <= 8,
    ensures
        r == pow10(k as nat),
{
    let mut p: i128 = 1;
    let mut j: usize = 0;
    while j < k
        invariant
            j <= k <= 8,
            p == pow10(j as nat),
        decreases k - j,
    {
        proof {
            crate::fixed::lemma_pow10_bound(j as nat);
        }
        p = p * 10;
        j = j + 1;
    }
    p
}

impl Fixed {
    /// Reads a decimal such as `92435.5` or `-0.001`: an optional minus
    /// sign, digits, and optionally a point followed by one to eight digits.
    pub fn parse(s: &str) -> (r: Option<Fixed>)
        ensures
            r matches Some(f) ==> decimal_spec(s@) == Some(f.raw),
            r is None ==> decimal_spec(s@) is None,
    {
        let n = s.unicode_len();
        let start: usize = if n > 0 && s.get_char(0) == '-' { 1 } else { 0 };
        let dot = find_dot(s, start);
        proof {
            lemma_first_dot_bound(s@, start as int);
        }
        let whole_end: usize = match dot {
            Some(d) => d,
            None => n,
        };
        let w = match parse_digit_run(s, start, whole_end) {
            Some(w) => w,
            None => {
                return None;
            },
        };
        let (f, flen): (u64, usize) = match dot {
            Some(d) => match parse_digit_run(s, d + 1, n) {
                Some(f) => (f, n - (d + 1)),
                None => {
                    return None;
                },
            },
            None => (0, 0),
        };
        if flen > 8 {
            return None;
        }
        let p = pow10_exec(8 - flen);
        proof {
            crate::fixed::lemma_pow10_bound((8 - flen) as nat);
            assert(f * p <= 0xffff_ffff_ffff_ffff * 100_000_000) by (nonlinear_arith)
                requires 0 <= f <= 0xffff_ffff_ffff_ffff, 1 <= p <= 100_000_000;
        }
        let mag: i128 = w as i128 * SCALE as i128 + f as i128 * p;
        if mag > i64::MAX as i128 {
            return None;
        }
        if start == 1 {
            Some(Fixed::from_raw(-(mag as i64)))
        } else {
            Some(Fixed::from_raw(mag as i64))
        }
    }
}


/// The decimal digit `d` (`d < 10`).
pub open spec fn digit_char(d: nat) -> char {
    if d == 0 { '0' }
    else if d == 1 { '1' }
    else if d == 2 { '2' }
    else if d == 3 { '3' }
    else if d == 4 { '4' }
    else if d == 5 { '5' }
    else if d == 6 { '6' }
    else if d == 7 { '7' }
    else if d == 8 { '8' }
    else { '9' }
}

/// The last `w` decimal digits of `n`, leading zeros included.
pub open spec fn digit_seq(n: nat, w: nat) -> Seq<char>
    decreases w,
{
    if w == 0 {
        Seq::empty()
    } else {
        digit_seq(n / 10, (w - 1) as nat).push(digit_char(n % 10))
    }
}

proof fn lemma_digit_char(d: nat)
    requires
        d < 10,
    ensures
        is_digit(digit_char(d)),
        digit_char(d) as int - '0' as int == d,
        digit_char(d) != '.',
        digit_char(d) != '-',
{
}

proof fn lemma_digit_seq(n: nat, w: nat)
    requires
        n < pow10(w),
    ensures
        digit_seq(n, w).len() == w,
        forall|k: int| 0 <= k < w ==> is_digit(#[trigger] digit_seq(n, w)[k]),
        digits_value(digit_seq(n, w)) == n,
    decreases w,
{
    if w > 0 {
        assert(n / 10 < pow10((w - 1) as nat)) by {
            assert(pow10(w) == 10 * pow10((w - 1) as nat));
            vstd::arithmetic::div_mod::lemma_div_by_multiple_is_strongly_ordered(n as int, 10 * pow10((w - 1) as nat), pow10((w - 1) as nat), 10);
        }
        lemma_digit_seq(n / 10, (w - 1) as nat);
        lemma_digit_char(n % 10);
        let s = digit_seq(n, w);
        assert(s.drop_last() =~= digit_seq(n / 10, (w - 1) as nat));
        assert(n == 10 * (n / 10) + n % 10) by {
            vstd::arithmetic::div_mod::lemma_fundamental_div_mod(n as int, 10);
        }
    }
}

fn digit_of(d: u64) -> (r: char)
    requires
        d < 10,
    ensures
        r == digit_char(d as nat),
{
    if d == 0 { '0' }
    else if d == 1 { '1' }
    else if d == 2 { '2' }
    else if d == 3 { '3' }
    else if d == 4 { '4' }
    else if d == 5 { '5' }
    else if d == 6 { '6' }
    else if d == 7 { '7' }
    else if d == 8 { '8' }
    else { '9' }
}

fn push_digits(out: &mut Vec<char>, n: u64, w: usize)
    ensures
        final(out)@ == old(out)@ + digit_seq(n as nat, w as nat),
    decreases w,
{
    if w == 0 {
        assert(final(out)@ =~= old(out)@ + digit_seq(n as nat, w as nat));
        return;
    }
    push_digits(out, n / 10, w - 1);
    out.push(digit_of(n % 10));
    assert(out@ =~= old(out)@ + digit_seq(n as nat, w as nat));
}

/// Position `first_dot` reaches when it starts inside a run with no point.
proof fn lemma_first_dot_skip(s: Seq<char>, i: int, j: int)
    requires
        0 <= i <= j <= s.len(),
        forall|k: int| i <= k < j ==> s[k] != '.',
    ensures
        first_dot(s, i) == first_dot(s, j),
    decreases j - i,
{
    if i < j {
        lemma_first_dot_skip(s, i + 1, j);
    }
}

/// Text of a decimal: a minus sign when negative, the whole part, and the
/// fraction without trailing zeros after a point when there is one.
pub fn decimal_chars(f: Fixed) -> (r: Vec<char>)
    ensures
        f.raw != i64::MIN ==> decimal_spec(r@) == Some(f.raw),
{
    let neg = f.raw < 0;
    let mag: u64 = if neg { (-(f.raw as i128)) as u64 } else { f.raw as u64 };
    let whole: u64 = mag / (SCALE as u64);
    let frac: u64 = mag % (SCALE as u64);
    proof {
        lemma_pow10_values();
    }
    let mut w: usize = 1;
    let mut p: u128 = 10;
    while (whole as u128) >= p && w < 20
        invariant
            1 <= w <= 20,
            p == pow10(w as nat),
        decreases 20 - w,
    {
        proof {
            assert(pow10((w + 1) as nat) == 10 * pow10(w as nat));
            lemma_pow10_mono(w as nat, 19);
            lemma_pow10_values();
        }
        p = p * 10;
        w = w + 1;
    }
    proof {
        lemma_pow10_values();
    }
    let mut out: Vec<char> = Vec::new();
    if neg {
        out.push('-');
    }
    let ghost start: int = out@.len() as int;
    assert(neg ==> out@[0] == '-');
    push_digits(&mut out, whole, w);
    let ghost ws = digit_seq(whole as nat, w as nat);
    proof {
        lemma_digit_seq(whole as nat, w as nat);
        assert(out@.subrange(start, start + w) =~= ws);
    }
    let ghost head = out@;
    let ghost dot_at: int = out@.len() as int;
    if frac != 0 {
        proof {
            lemma_pow10_values();
        }
        let mut fr: u64 = frac;
        let mut len: usize = 8;
        while fr % 10 == 0 && len > 0
            invariant
                0 < fr,
                len <= 8,
                fr < pow10(len as nat),
                fr * pow10((8 - len) as nat) == frac,
            decreases len,
        {
            proof {
                let q = fr / 10;
                assert(fr == 10 * q) by {
                    vstd::arithmetic::div_mod::lemma_fundamental_div_mod(fr as int, 10);
                }
                assert(pow10(len as nat) == 10 * pow10((len - 1) as nat));
                assert(pow10((8 - len + 1) as nat) == 10 * pow10((8 - len) as nat));
                assert(q < pow10((len - 1) as nat)) by (nonlinear_arith)
                    requires fr == 10 * q, fr < 10 * pow10((len - 1) as nat);
                assert(q * pow10((8 - len + 1) as nat) == frac) by (nonlinear_arith)
                    requires fr == 10 * q, fr * pow10((8 - len) as nat) == frac, pow10((8 - len + 1) as nat) == 10 * pow10((8 - len) as nat);
                assert(q > 0);
            }
            fr = fr / 10;
            len = len - 1;
        }
        out.push('.');
        let ghost before_frac = out@;
        push_digits(&mut out, fr, len);
        proof {
            lemma_digit_seq(fr as nat, len as nat);
            assert(out@.subrange(start, dot_at) =~= head.subrange(start, dot_at));
            assert(out@.subrange(dot_at + 1, out@.len() as int) =~= digit_seq(fr as nat, len as nat));
            assert(out@[dot_at] == '.');
            if neg {
                assert(out@[0] == head[0]);
            }
            if f.raw != i64::MIN {
                lemma_text_reads_back(f.raw, neg, whole, frac, w as nat, out@, start, dot_at, Some((fr as nat, len as nat)));
            }
        }
    } else {
        proof {
            if f.raw != i64::MIN {
                lemma_text_reads_back(f.raw, neg, whole, frac, w as nat, out@, start, dot_at, None);
            }
        }
    }
    out
}

proof fn lemma_pow10_mono(n: nat, m: nat)
    requires
        n <= m,
    ensures
        1 <= pow10(n) <= pow10(m),
    decreases m,
{
    if n < m {
        lemma_pow10_mono(n, (m - 1) as nat);
    } else if m > 0 {
        lemma_pow10_mono(0, (m - 1) as nat);
    }
}

proof fn lemma_pow10_values()
    ensures
        pow10(0) == 1,
        pow10(1) == 10,
        pow10(8) == 100_000_000,
        pow10(19) == 10_000_000_000_000_000_000,
        pow10(20) == 100_000_000_000_000_000_000,
{
    reveal_with_fuel(pow10, 21);
}

/// The text built by `decimal_chars` reads back as its value.
proof fn lemma_text_reads_back(
    raw: i64,
    neg: bool,
    whole: u64,
    frac: u64,
    w: nat,
    s: Seq<char>,
    start: int,
    dot_at: int,
    fraction: Option<(nat, nat)>,
)
    requires
        raw != i64::MIN,
        neg == (raw < 0),
        whole * SCALE + frac == (if neg { -raw } else { raw as int }),
        frac < SCALE,
        1 <= w,
        whole < pow10(w),
        start == (if neg { 1int } else { 0 }),
        neg ==> s[0] == '-',
        dot_at == start + w,
        s.subrange(start, dot_at) == digit_seq(whole as nat, w),
        fraction is None ==> frac == 0 && s.len() == dot_at,
        fraction matches Some((fr, len)) ==> {
            &&& 0 < fr < pow10(len) && len <= 8
            &&& fr * pow10((8 - len) as nat) == frac
            &&& s.len() == dot_at + 1 + len
            &&& s[dot_at] == '.'
            &&& s.subrange(dot_at + 1, s.len() as int) == digit_seq(fr, len)
        },
    ensures
        decimal_spec(s) == Some(raw),
{
    lemma_digit_seq(whole as nat, w);
    let ds = digit_seq(whole as nat, w);
    assert forall|k: int| start <= k < dot_at implies s[k] != '.' by {
        assert(s[k] == ds[k - start]);
    }
    assert(s[start] == ds[0]);
    if !neg {
        assert(s.len() > 0 && s[0] != '-');
    }
    lemma_first_dot_skip(s, start, dot_at);
    lemma_pow10_values();
    match fraction {
        None => {
            assert(first_dot(s, dot_at) is None);
            assert(s.subrange(start, s.len() as int) == ds);
            assert(order_number_spec(ds) == Some(whole));
            let st: int = if s.len() > 0 && s[0] == '-' { 1 } else { 0 };
            assert(st == start);
            assert(first_dot(s, st) is None);
            let mag = whole * SCALE + 0u64 * pow10((8 - 0) as nat);
            assert(mag == whole * SCALE);
            assert(mag <= i64::MAX);
        },
        Some((fr, len)) => {
            lemma_digit_seq(fr, len);
            assert(first_dot(s, dot_at) == Some(dot_at));
            lemma_pow10_bound((8 - len) as nat);
            lemma_pow10_mono(len, 8);
            let fs = digit_seq(fr, len);
            assert(order_number_spec(ds) == Some(whole));
            assert(order_number_spec(fs) == Some(fr as u64));
        },
    }
}
} // verus!
