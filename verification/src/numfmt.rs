//! Decimal rendering of integers and of fixed-point quantities.
//!
//! Measured quantities are carried as whole thousandths of their unit
//! ([`Milli`]). Rendering follows the rules of Rust's `{:.N}` for a value
//! known exactly: the decimal expansion rounded to `N` places, ties to even,
//! and a leading `-` for any negative value (even one that rounds to zero).
use vstd::prelude::*;

use crate::text::{lemma_prefix_len_at, prefix_len};

verus! {

/// A quantity in thousandths of its unit (`12.5 %` is `12_500`).
pub type Milli = i64;

pub open spec fn digit_char(d: nat) -> char {
    (48 + d) as char
}

/// Decimal digits of `n`, most significant first, without leading zeros.
pub open spec fn digits(n: nat) -> Seq<char>
    decreases n,
{
    if n < 10 {
        seq![digit_char(n)]
    } else {
        digits(n / 10).push(digit_char(n % 10))
    }
}

pub open spec fn pow10(d: nat) -> nat
    decreases d,
{
    if d == 0 {
        1
    } else {
        10 * pow10((d - 1) as nat)
    }
}

/// `s` left-padded with `'0'` to at least `width` characters.
pub open spec fn zero_pad(s: Seq<char>, width: nat) -> Seq<char> {
    if s.len() >= width {
        s
    } else {
        Seq::new((width - s.len()) as nat, |i: int| '0') + s
    }
}

/// `num / den` rounded to the nearest integer, ties to the even one.
pub open spec fn round_half_even(num: nat, den: nat) -> nat
    recommends
        den > 0,
{
    let q = num / den;
    let r = num % den;
    if 2 * r > den {
        q + 1
    } else if 2 * r < den {
        q
    } else if q % 2 == 0 {
        q
    } else {
        q + 1
    }
}

pub open spec fn abs(x: int) -> nat {
    if x < 0 {
        (-x) as nat
    } else {
        x as nat
    }
}

/// A magnitude already scaled by `10^d`, written with `d` decimals.
pub open spec fn fixed_digits(scaled: nat, d: nat) -> Seq<char> {
    if d == 0 {
        digits(scaled)
    } else {
        digits(scaled / pow10(d)) + seq!['.'] + zero_pad(digits(scaled % pow10(d)), d)
    }
}

pub open spec fn sign(x: int) -> Seq<char> {
    if x < 0 {
        seq!['-']
    } else {
        seq![]
    }
}

/// `format!("{:.d}", num / den)` for the exact ratio `num / den`.
pub open spec fn fmt_ratio(num: int, den: nat, d: nat) -> Seq<char> {
    sign(num) + fixed_digits(round_half_even(abs(num) * pow10(d), den), d)
}

/// `format!("{:.d}", v)` for a quantity `v` given in thousandths.
pub open spec fn fmt_milli(v: int, d: nat) -> Seq<char> {
    fmt_ratio(v, 1000, d)
}

/// `s` without its trailing `'0'` characters.
pub open spec fn strip_zeros(s: Seq<char>) -> Seq<char>
    decreases s.len(),
{
    if s.len() > 0 && s.last() == '0' {
        strip_zeros(s.drop_last())
    } else {
        s
    }
}

/// `format!("{}", v)` for a quantity in thousandths: the shortest decimal
/// that denotes it exactly (`12.5`, `90`, `3.42`).
pub open spec fn display_milli(v: int) -> Seq<char> {
    let m = abs(v);
    let frac = m % 1000;
    sign(v) + digits(m / 1000) + if frac == 0 {
        seq![]
    } else {
        seq!['.'] + strip_zeros(zero_pad(digits(frac), 3))
    }
}

fn digit(d: u128) -> (c: char)
    requires
        d < 10,
    ensures
        c == digit_char(d as nat),
{
    let b = (d as u8) + 48;
    b as char
}

fn push_digits(out: &mut Vec<char>, n: u128)
    ensures
        final(out)@ == old(out)@ + digits(n as nat),
    decreases n,
{
    if n >= 10 {
        push_digits(out, n / 10);
    }
    out.push(digit(n % 10));
    proof {
        if n >= 10 {
            assert(digits(n as nat) == digits((n / 10) as nat).push(digit_char((n % 10) as nat)));
        }
    }
    assert(out@ =~= old(out)@ + digits(n as nat));
}

/// The decimal digits of `n`.
pub fn digits_of(n: u64) -> (v: Vec<char>)
    ensures
        v@ == digits(n as nat),
{
    let mut v: Vec<char> = Vec::new();
    push_digits(&mut v, n as u128);
    assert(v@ =~= digits(n as nat));
    v
}

proof fn lemma_digits_len(n: nat)
    ensures
        digits(n).len() >= 1,
        n < pow10(digits(n).len()),
    decreases n,
{
    reveal_with_fuel(pow10, 2);
    if n >= 10 {
        lemma_digits_len(n / 10);
        assert(digits(n).len() == digits(n / 10).len() + 1);
    }
}

fn push_zero_padded(out: &mut Vec<char>, n: u128, width: usize)
    ensures
        final(out)@ == old(out)@ + zero_pad(digits(n as nat), width as nat),
{
    let mut ds: Vec<char> = Vec::new();
    push_digits(&mut ds, n);
    assert(ds@ =~= digits(n as nat));
    let mut k = ds.len();
    while k < width
        invariant
            ds.len() <= k <= width || (k == ds.len() && k >= width),
            out@ == old(out)@ + Seq::new((k - ds.len()) as nat, |i: int| '0'),
        decreases width - k,
    {
        out.push('0');
        assert(out@ =~= old(out)@ + Seq::new((k + 1 - ds.len()) as nat, |i: int| '0'));
        k = k + 1;
    }
    let ghost before = out@;
    let mut i: usize = 0;
    while i < ds.len()
        invariant
            i <= ds.len(),
            out@ == before + ds@.take(i as int),
        decreases ds.len() - i,
    {
        out.push(ds[i]);
        assert(out@ =~= before + ds@.take(i + 1));
        i = i + 1;
    }
    assert(ds@.take(ds.len() as int) =~= ds@);
    assert(out@ =~= old(out)@ + zero_pad(digits(n as nat), width as nat));
}

fn pow10_exec(d: u32) -> (p: u128)
    requires
        d <= 3,
    ensures
        p == pow10(d as nat),
        1 <= p <= 1000,
        d >= 1 ==> p >= 10,
{
    reveal_with_fuel(pow10, 4);
    if d == 0 {
        1
    } else if d == 1 {
        10
    } else if d == 2 {
        100
    } else {
        1000
    }
}

/// `num / den` rounded half to even, on machine integers.
pub(crate) fn round_half_even_exec(num: u128, den: u128) -> (q: u128)
    requires
        den > 0,
        den <= 0xffff_ffff_ffff_ffffu128,
        num < 0x4000_0000_0000_0000_0000_0000_0000_0000u128,
    ensures
        q == round_half_even(num as nat, den as nat),
{
    let q = num / den;
    let r = num % den;
    if 2 * r > den {
        q + 1
    } else if 2 * r < den {
        q
    } else if q % 2 == 0 {
        q
    } else {
        q + 1
    }
}

proof fn lemma_round_bound(n: nat, den: nat)
    requires
        den >= 1,
    ensures
        round_half_even(n, den) <= n + 1,
{
    assert(n / den <= n) by (nonlinear_arith)
        requires
            den >= 1,
    {
    }
}

/// `format!("{:.d}", num / den)` for the exact ratio.
pub fn fmt_ratio_exec(num: i128, den: u64, d: u32) -> (s: Vec<char>)
    requires
        den > 0,
        d <= 3,
        -0x10_0000_0000_0000_0000_0000_0000 <= num <= 0x10_0000_0000_0000_0000_0000_0000,
    ensures
        s@ == fmt_ratio(num as int, den as nat, d as nat),
{
    let mut out: Vec<char> = Vec::new();
    if num < 0 {
        out.push('-');
    }
    let mag: u128 = if num < 0 {
        (0i128 - num) as u128
    } else {
        num as u128
    };
    let p = pow10_exec(d);
    assert(mag * p <= 0x10_0000_0000_0000_0000_0000_0000u128 * 1000) by (nonlinear_arith)
        requires
            mag <= 0x10_0000_0000_0000_0000_0000_0000u128,
            p <= 1000,
    {
    }
    let scaled = round_half_even_exec(mag * p, den as u128);
    proof {
        lemma_round_bound((mag * p) as nat, den as nat);
    }
    if d != 0 {
        assert(scaled / p <= mag) by (nonlinear_arith)
            requires
                scaled <= mag * p + 1,
                p >= 10,
        {
        }
    }
    if d == 0 {
        assert(p == 1);
        assert(mag * p == mag) by (nonlinear_arith)
            requires
                p == 1,
        {
        }
        assert(scaled <= mag + 1);
        push_digits(&mut out, scaled);
    } else {
        push_digits(&mut out, scaled / p);
        out.push('.');
        push_zero_padded(&mut out, scaled % p, d as usize);
    }
    out
}

fn strip_zeros_vec(v: &mut Vec<char>)
    ensures
        final(v)@ == strip_zeros(old(v)@),
{
    while v.len() > 0 && v[v.len() - 1] == '0'
        invariant
            strip_zeros(v@) == strip_zeros(old(v)@),
        decreases v.len(),
    {
        let ghost before = v@;
        v.pop();
        assert(v@ =~= before.drop_last());
    }
}

/// `format!("{}", v)` for a quantity in thousandths.
pub fn display_milli_exec(v: i64) -> (s: Vec<char>)
    ensures
        s@ == display_milli(v as int),
{
    let mut out: Vec<char> = Vec::new();
    if v < 0 {
        out.push('-');
    }
    let m: u64 = if v < 0 {
        (0i128 - (v as i128)) as u64
    } else {
        v as u64
    };
    push_digits(&mut out, (m / 1000) as u128);
    let frac = (m % 1000) as u128;
    if frac != 0 {
        out.push('.');
        let mut tail: Vec<char> = Vec::new();
        push_zero_padded(&mut tail, frac, 3);
        assert(tail@ =~= zero_pad(digits(frac as nat), 3));
        strip_zeros_vec(&mut tail);
        let ghost before = out@;
        let mut i: usize = 0;
        while i < tail.len()
            invariant
                i <= tail.len(),
                out@ == before + tail@.take(i as int),
            decreases tail.len() - i,
        {
            out.push(tail[i]);
            assert(out@ =~= before + tail@.take(i + 1));
            i = i + 1;
        }
        assert(tail@.take(tail.len() as int) =~= tail@);
    }
    assert(out@ =~= display_milli(v as int));
    out
}

/// `format!("{:.d}", v)` for a quantity in thousandths.
pub fn fmt_milli_exec(v: i128, d: u32) -> (s: Vec<char>)
    requires
        d <= 3,
        -0x1_0000_0000_0000_0000 <= v <= 0x1_0000_0000_0000_0000,
    ensures
        s@ == fmt_milli(v as int, d as nat),
{
    fmt_ratio_exec(v, 1000, d)
}

// --- Reading numbers ------------------------------------------------------------

pub open spec fn is_digit(c: char) -> bool {
    '0' <= c <= '9'
}

pub open spec fn all_digits(s: Seq<char>) -> bool {
    forall|i: int| 0 <= i < s.len() ==> is_digit(#[trigger] s[i])
}

/// The number a run of decimal digits denotes.
pub open spec fn digits_value(s: Seq<char>) -> nat
    decreases s.len(),
{
    if s.len() == 0 {
        0
    } else {
        digits_value(s.drop_last()) * 10 + ((s.last() as u32) - 48) as nat
    }
}

/// `str::parse::<u64>`: an optional `+`, then one or more digits, within
/// range.
pub open spec fn parse_u64_of(s: Seq<char>) -> Option<u64> {
    let d = if s.len() > 0 && s[0] == '+' {
        s.drop_first()
    } else {
        s
    };
    if d.len() == 0 || !all_digits(d) || digits_value(d) > u64::MAX {
        None
    } else {
        Some(digits_value(d) as u64)
    }
}

proof fn lemma_digits_value_grows(s: Seq<char>, c: char)
    requires
        all_digits(s),
        is_digit(c),
    ensures
        digits_value(s.push(c)) == digits_value(s) * 10 + ((c as u32) - 48) as nat,
        digits_value(s.push(c)) >= digits_value(s),
{
    assert(s.push(c).drop_last() =~= s);
}

/// The value of `s[from..to]` when it is all digits and fits in a `u64`.
pub(crate) fn digits_u64(s: &Vec<char>, from: usize, to: usize) -> (r: Option<u64>)
    requires
        from <= to <= s.len(),
    ensures
        r is Some <==> all_digits(s@.subrange(from as int, to as int)) && digits_value(
            s@.subrange(from as int, to as int),
        ) <= u64::MAX,
        r matches Some(v) ==> v == digits_value(s@.subrange(from as int, to as int)),
{
    let mut v: u64 = 0;
    let mut k = from;
    while k < to
        invariant
            from <= k <= to <= s.len(),
            all_digits(s@.subrange(from as int, k as int)),
            v == digits_value(s@.subrange(from as int, k as int)),
        decreases to - k,
    {
        let c = s[k];
        let ghost prefix = s@.subrange(from as int, k as int);
        assert(s@.subrange(from as int, k + 1) =~= prefix.push(c));
        if !('0' <= c && c <= '9') {
            assert(!is_digit(s@.subrange(from as int, to as int)[k - from]));
            return None;
        }
        proof {
            lemma_digits_value_grows(prefix, c);
        }
        let d = (c as u32 - 48) as u64;
        if v > (u64::MAX - d) / 10 {
            proof {
                let whole = s@.subrange(from as int, to as int);
                assert(v * 10 + d > u64::MAX) by (nonlinear_arith)
                    requires
                        v > (u64::MAX - d) / 10,
                        d <= 9,
                {
                }
                if all_digits(whole) {
                    lemma_digits_value_monotone(whole, (k + 1 - from) as int);
                    assert(whole.take((k + 1 - from) as int) =~= prefix.push(c));
                }
            }
            return None;
        }
        v = v * 10 + d;
        k = k + 1;
    }
    Some(v)
}

proof fn lemma_digits_value_monotone(s: Seq<char>, n: int)
    requires
        0 <= n <= s.len(),
        all_digits(s),
    ensures
        digits_value(s) >= digits_value(s.take(n)),
    decreases s.len() - n,
{
    if n < s.len() {
        lemma_digits_value_monotone(s, n + 1);
        assert(s.take(n + 1) =~= s.take(n).push(s[n]));
        lemma_digits_value_grows(s.take(n), s[n]);
    } else {
        assert(s.take(n) =~= s);
    }
}

pub(crate) fn all_digits_exec(s: &Vec<char>, from: usize, to: usize) -> (b: bool)
    requires
        from <= to <= s.len(),
    ensures
        b == all_digits(s@.subrange(from as int, to as int)),
{
    let mut k = from;
    while k < to
        invariant
            from <= k <= to <= s.len(),
            forall|j: int| from <= j < k ==> is_digit(#[trigger] s@[j]),
        decreases to - k,
    {
        if !('0' <= s[k] && s[k] <= '9') {
            assert(!is_digit(s@.subrange(from as int, to as int)[k - from]));
            return false;
        }
        k = k + 1;
    }
    assert forall|i: int| 0 <= i < to - from implies is_digit(
        #[trigger] s@.subrange(from as int, to as int)[i],
    ) by {
        assert(s@.subrange(from as int, to as int)[i] == s@[from + i]);
    }
    true
}

/// `str::parse::<u64>`.
pub fn parse_u64(s: &Vec<char>) -> (r: Option<u64>)
    ensures
        r == parse_u64_of(s@),
{
    let start: usize = if s.len() > 0 && s[0] == '+' {
        1
    } else {
        0
    };
    proof {
        if start == 1 {
            assert(s@.subrange(1, s@.len() as int) =~= s@.drop_first());
        } else {
            assert(s@.subrange(0, s@.len() as int) =~= s@);
        }
    }
    if start == s.len() {
        return None;
    }
    digits_u64(s, start, s.len())
}


/// `str::parse::<i64>`: an optional sign, then one or more digits, within
/// range.
pub open spec fn parse_i64_of(s: Seq<char>) -> Option<i64> {
    if s.len() > 0 && s[0] == '-' {
        let d = s.drop_first();
        if d.len() == 0 || !all_digits(d) || digits_value(d) > 9_223_372_036_854_775_808 {
            None
        } else {
            Some((0 - digits_value(d)) as i64)
        }
    } else {
        match parse_u64_of(s) {
            Some(v) => if v <= i64::MAX {
                Some(v as i64)
            } else {
                None
            },
            None => None,
        }
    }
}

/// `str::parse::<i64>`.
pub fn parse_i64(s: &Vec<char>) -> (r: Option<i64>)
    ensures
        r == parse_i64_of(s@),
{
    if s.len() > 0 && s[0] == '-' {
        proof {
            assert(s@.subrange(1, s@.len() as int) =~= s@.drop_first());
        }
        if s.len() == 1 {
            return None;
        }
        match digits_u64(s, 1, s.len()) {
            Some(v) => {
                if v > 9_223_372_036_854_775_808 {
                    None
                } else {
                    Some((0i128 - v as i128) as i64)
                }
            },
            None => None,
        }
    } else {
        match parse_u64(s) {
            Some(v) => {
                if v <= 9_223_372_036_854_775_807 {
                    Some(v as i64)
                } else {
                    None
                }
            },
            None => None,
        }
    }
}

// --- Decimal quantities ---------------------------------------------------------

pub open spec fn not_dot_pred() -> spec_fn(char) -> bool {
    |c: char| c != '.'
}

/// The characters before the first `.` (all of them when there is none).
pub open spec fn int_part(d: Seq<char>) -> Seq<char> {
    d.take(prefix_len(d, not_dot_pred()) as int)
}

/// The characters after the first `.` (none when there is none).
pub open spec fn frac_part(d: Seq<char>) -> Seq<char> {
    let k = prefix_len(d, not_dot_pred());
    if k < d.len() {
        d.skip(k as int + 1)
    } else {
        seq![]
    }
}

pub open spec fn not_exp_pred() -> spec_fn(char) -> bool {
    |c: char| c != 'e' && c != 'E'
}

/// The characters before the first `e` or `E` (all of them when there is none).
pub open spec fn mantissa_part(d: Seq<char>) -> Seq<char> {
    d.take(prefix_len(d, not_exp_pred()) as int)
}

/// An exponent: an optional sign, then one or more digits.
pub open spec fn exponent_of(x: Seq<char>) -> Option<int> {
    let neg = x.len() > 0 && x[0] == '-';
    let ds = if x.len() > 0 && (x[0] == '-' || x[0] == '+') {
        x.drop_first()
    } else {
        x
    };
    if ds.len() > 0 && all_digits(ds) {
        Some(
            if neg {
                -digits_value(ds)
            } else {
                digits_value(ds) as int
            },
        )
    } else {
        None
    }
}

/// The exponent written after the first `e` or `E`: `0` when there is none,
/// `None` when what follows is not an exponent.
pub open spec fn exponent_part(d: Seq<char>) -> Option<int> {
    let k = prefix_len(d, not_exp_pred());
    if k < d.len() {
        exponent_of(d.skip(k as int + 1))
    } else {
        Some(0)
    }
}

/// `n × 10^k`, rounded to the nearest integer, ties to even, when `k < 0`.
pub open spec fn decimal_scaled(n: nat, k: int) -> nat {
    if k >= 0 {
        n * pow10(k as nat)
    } else {
        round_half_even(n, pow10((-k) as nat))
    }
}

/// An unsigned decimal in the grammar of `str::parse::<f64>` (`12`, `3.42`,
/// `.5`, `7.`, `1e2`, `2.5E-3`), in thousandths: its exact value rounded to the
/// nearest thousandth, ties to even. `None` unless it is digits with at most
/// one `.` and at least one digit, then optionally `e` or `E` and an exponent,
/// and its value fits a `Milli`.
pub open spec fn unsigned_milli_of(d: Seq<char>) -> Option<int> {
    let m = mantissa_part(d);
    let ip = int_part(m);
    let fp = frac_part(m);
    match exponent_part(d) {
        Some(e) => if all_digits(ip) && all_digits(fp) && ip.len() + fp.len() > 0 {
            let v = decimal_scaled(digits_value(ip + fp), 3 + e - fp.len());
            if v <= i64::MAX {
                Some(v as int)
            } else {
                None
            }
        } else {
            None
        },
        None => None,
    }
}

/// A decimal with an optional sign, in thousandths (`"-2.5"` is `-2500`).
pub open spec fn decimal_milli_of(s: Seq<char>) -> Option<Milli> {
    if s.len() > 0 && s[0] == '-' {
        match unsigned_milli_of(s.drop_first()) {
            Some(v) => Some((0 - v) as Milli),
            None => None,
        }
    } else {
        let d = if s.len() > 0 && s[0] == '+' {
            s.drop_first()
        } else {
            s
        };
        match unsigned_milli_of(d) {
            Some(v) => Some(v as Milli),
            None => None,
        }
    }
}

proof fn lemma_digits_value_bound(s: Seq<char>)
    requires
        all_digits(s),
    ensures
        digits_value(s) < pow10(s.len()),
    decreases s.len(),
{
    if s.len() > 0 {
        let t = s.drop_last();
        assert forall|i: int| 0 <= i < t.len() implies is_digit(#[trigger] t[i]) by {
            assert(t[i] == s[i]);
        }
        lemma_digits_value_bound(t);
        assert(is_digit(s[s.len() - 1]));
        let d = ((s.last() as u32) - 48) as nat;
        assert(d <= 9);
        let a = digits_value(t);
        let b = pow10(t.len());
        assert(a * 10 + d < b * 10) by (nonlinear_arith)
            requires
                a < b,
                d <= 9,
        {
        }
    }
}

proof fn lemma_pow10_le(a: nat, b: nat)
    requires
        a <= b,
    ensures
        pow10(a) <= pow10(b),
    decreases b,
{
    if a < b {
        lemma_pow10_le(a, (b - 1) as nat);
    }
}

proof fn lemma_pow10_17()
    ensures
        pow10(17) == 100_000_000_000_000_000,
        pow10(18) == 1_000_000_000_000_000_000,
{
    reveal_with_fuel(pow10, 19);
}

fn push_range(out: &mut Vec<char>, s: &Vec<char>, from: usize, to: usize)
    requires
        from <= to <= s.len(),
    ensures
        final(out)@ == old(out)@ + s@.subrange(from as int, to as int),
{
    let mut k = from;
    while k < to
        invariant
            from <= k <= to <= s.len(),
            out@ == old(out)@ + s@.subrange(from as int, k as int),
        decreases to - k,
    {
        out.push(s[k]);
        assert(out@ =~= old(out)@ + s@.subrange(from as int, k + 1));
        k = k + 1;
    }
}

proof fn lemma_pow10_19()
    ensures
        pow10(19) == 10_000_000_000_000_000_000,
{
    lemma_pow10_17();
    reveal_with_fuel(pow10, 3);
    assert(pow10(19) == 10 * pow10(18));
}

proof fn lemma_digits_value_concat(a: Seq<char>, b: Seq<char>)
    requires
        all_digits(a),
        all_digits(b),
    ensures
        digits_value(a + b) == digits_value(a) * pow10(b.len()) + digits_value(b),
    decreases b.len(),
{
    if b.len() == 0 {
        assert(a + b =~= a);
        assert(pow10(0) == 1);
        assert(digits_value(b) == 0);
    } else {
        let b0 = b.drop_last();
        assert forall|i: int| 0 <= i < b0.len() implies is_digit(#[trigger] b0[i]) by {
            assert(b0[i] == b[i]);
        }
        assert((a + b).drop_last() =~= a + b0);
        assert((a + b).last() == b.last());
        lemma_digits_value_concat(a, b0);
        let va = digits_value(a);
        let p0 = pow10(b0.len());
        let vb0 = digits_value(b0);
        let dl = ((b.last() as u32) - 48) as nat;
        assert(b.drop_last() == b0);
        assert(digits_value(b) == vb0 * 10 + dl);
        assert(digits_value(a + b) == (va * p0 + vb0) * 10 + dl);
        assert(pow10(b.len()) == 10 * p0);
        assert((va * p0 + vb0) * 10 + dl == va * (10 * p0) + (vb0 * 10 + dl)) by (nonlinear_arith);
        assert(digits_value(a + b) == va * pow10(b.len()) + digits_value(b));
    }
}

/// Every character is `'0'`.
pub open spec fn all_zeros(s: Seq<char>) -> bool {
    forall|i: int| 0 <= i < s.len() ==> #[trigger] s[i] == '0'
}

proof fn lemma_zero_value(s: Seq<char>)
    requires
        all_digits(s),
    ensures
        digits_value(s) == 0 <==> all_zeros(s),
    decreases s.len(),
{
    if s.len() > 0 {
        let s0 = s.drop_last();
        assert forall|i: int| 0 <= i < s0.len() implies is_digit(#[trigger] s0[i]) by {
            assert(s0[i] == s[i]);
        }
        lemma_zero_value(s0);
        assert(is_digit(s[s.len() - 1]));
        if all_zeros(s) {
            assert forall|i: int| 0 <= i < s0.len() implies #[trigger] s0[i] == '0' by {
                assert(s0[i] == s[i]);
            }
        }
        if all_zeros(s0) && s.last() == '0' {
            assert forall|i: int| 0 <= i < s.len() implies #[trigger] s[i] == '0' by {
                if i < s0.len() {
                    assert(s0[i] == s[i]);
                }
            }
        }
    }
}

/// How twice a run of digits compares with the power of ten of its length,
/// read from its first digit and whether the rest is all zeros.
proof fn lemma_half(t: Seq<char>)
    requires
        t.len() > 0,
        all_digits(t),
    ensures
        t[0] > '5' ==> 2 * digits_value(t) > pow10(t.len()),
        '5' > t[0] ==> 2 * digits_value(t) < pow10(t.len()),
        t[0] == '5' ==> 2 * digits_value(t) >= pow10(t.len()),
        t[0] == '5' ==> (2 * digits_value(t) == pow10(t.len()) <==> all_zeros(t.drop_first())),
{
    let head = seq![t[0]];
    let rest = t.drop_first();
    assert(t =~= head + rest);
    assert(is_digit(t[0]));
    assert forall|i: int| 0 <= i < rest.len() implies is_digit(#[trigger] rest[i]) by {
        assert(rest[i] == t[i + 1]);
    }
    assert(head.drop_last() =~= Seq::<char>::empty());
    assert(head.last() == t[0]);
    assert(digits_value(Seq::<char>::empty()) == 0);
    let d0 = ((t[0] as u32) - 48) as nat;
    assert(digits_value(head) == digits_value(head.drop_last()) * 10 + d0);
    assert(digits_value(head) == d0);
    lemma_digits_value_concat(head, rest);
    lemma_digits_value_bound(rest);
    lemma_zero_value(rest);
    lemma_pow10_le(0, rest.len());
    let pr = pow10(rest.len());
    let vr = digits_value(rest);
    assert(pow10(t.len()) == 10 * pr);
    assert(digits_value(t) == d0 * pr + vr);
    if t[0] > '5' {
        assert(2 * (d0 * pr + vr) > 10 * pr) by (nonlinear_arith)
            requires
                d0 >= 6,
                pr >= 1,
        {
        }
    } else if '5' > t[0] {
        assert(2 * (d0 * pr + vr) < 10 * pr) by (nonlinear_arith)
            requires
                d0 <= 4,
                vr < pr,
        {
        }
    } else {
        assert(d0 == 5);
        assert(2 * (d0 * pr + vr) == 10 * pr + 2 * vr) by (nonlinear_arith)
            requires
                d0 == 5,
        {
        }
    }
}

/// A value below `10^len` scaled by a `k` below `-len` rounds to zero.
proof fn lemma_scaled_tiny(n: nat, len: nat, k: int)
    requires
        n < pow10(len),
        k < -(len as int),
    ensures
        decimal_scaled(n, k) == 0,
{
    let den = pow10((-k) as nat);
    lemma_pow10_le(len + 1, (-k) as nat);
    assert(pow10(len + 1) == 10 * pow10(len));
    vstd::arithmetic::div_mod::lemma_fundamental_div_mod_converse(n as int, den as int, 0, n as int);
}

/// A value of at least one, scaled by a `k` of at least 19, exceeds `i64::MAX`.
proof fn lemma_scaled_huge(n: nat, k: int)
    requires
        n >= 1,
        k >= 19,
    ensures
        decimal_scaled(n, k) > i64::MAX,
{
    lemma_pow10_le(19, k as nat);
    lemma_pow10_19();
    let pk = pow10(k as nat);
    assert(n * pk >= pk) by (nonlinear_arith)
        requires
            n >= 1,
    {
    }
}

/// The exponent below which, or above which, a decimal's value is certainly
/// zero, or certainly out of range.
pub const EXP_CAP: i128 = 1_000_000_000_000_000_000_000;

/// The exponent that starts at `from`, held to `EXP_CAP + 1` in size.
fn exponent_at(s: &Vec<char>, from: usize) -> (r: Option<i128>)
    requires
        from <= s.len(),
    ensures
        r is Some <==> exponent_of(s@.skip(from as int)) is Some,
        r matches Some(ec) ==> {
            let e = exponent_of(s@.skip(from as int))->0;
            &&& -EXP_CAP - 1 <= ec <= EXP_CAP + 1
            &&& (-EXP_CAP <= ec <= EXP_CAP ==> e == ec)
            &&& (ec > EXP_CAP ==> e > EXP_CAP)
            &&& (ec < -EXP_CAP ==> e < -EXP_CAP)
        },
{
    let ghost x = s@.skip(from as int);
    let neg = from < s.len() && s[from] == '-';
    let start = if from < s.len() && (s[from] == '-' || s[from] == '+') {
        from + 1
    } else {
        from
    };
    let ghost ds = s@.subrange(start as int, s.len() as int);
    proof {
        if from < s.len() {
            assert(x[0] == s@[from as int]);
        }
        if start == from + 1 {
            assert(x.drop_first() =~= ds);
        } else {
            assert(x =~= ds);
        }
    }
    if start == s.len() || !all_digits_exec(s, start, s.len()) {
        return None;
    }
    assert(exponent_of(x) == Some(
        if neg {
            -digits_value(ds)
        } else {
            digits_value(ds) as int
        },
    ));
    let mut v: i128 = 0;
    let mut k = start;
    while k < s.len()
        invariant
            start <= k <= s.len(),
            x == s@.skip(from as int),
            all_digits(ds),
            exponent_of(x) == Some(
                if neg {
                    -digits_value(ds)
                } else {
                    digits_value(ds) as int
                },
            ),
            ds == s@.subrange(start as int, s.len() as int),
            0 <= v <= EXP_CAP,
            v == digits_value(s@.subrange(start as int, k as int)),
        decreases s.len() - k,
    {
        let c = s[k];
        let ghost prefix = s@.subrange(start as int, k as int);
        assert(s@.subrange(start as int, k + 1) =~= prefix.push(c));
        assert(c == ds[k - start]);
        proof {
            assert forall|i: int| 0 <= i < prefix.len() implies is_digit(#[trigger] prefix[i]) by {
                assert(prefix[i] == ds[i]);
            }
            lemma_digits_value_grows(prefix, c);
        }
        let dg = (c as u32 - 48) as i128;
        let nv = v * 10 + dg;
        if nv > EXP_CAP {
            proof {
                lemma_digits_value_monotone(ds, (k + 1 - start) as int);
                assert(ds.take((k + 1 - start) as int) =~= prefix.push(c));
            }
            return Some(
                if neg {
                    -EXP_CAP - 1
                } else {
                    EXP_CAP + 1
                },
            );
        }
        v = nv;
        k = k + 1;
    }
    assert(s@.subrange(start as int, k as int) =~= ds);
    Some(
        if neg {
            -v
        } else {
            v
        },
    )
}

/// How twice the digits of `m` from `from` on compare with the power of ten
/// of their count: above it, and equal to it.
fn tail_against_half(m: &Vec<char>, from: usize) -> (r: (bool, bool))
    requires
        from < m.len(),
        all_digits(m@),
    ensures
        r.0 <==> 2 * digits_value(m@.skip(from as int)) > pow10((m.len() - from) as nat),
        r.1 <==> 2 * digits_value(m@.skip(from as int)) == pow10((m.len() - from) as nat),
{
    let ghost t = m@.skip(from as int);
    proof {
        assert forall|i: int| 0 <= i < t.len() implies is_digit(#[trigger] t[i]) by {
            assert(t[i] == m@[i + from]);
        }
        assert(t[0] == m@[from as int]);
        lemma_half(t);
    }
    let c = m[from];
    if c > '5' {
        return (true, false);
    }
    if '5' > c {
        return (false, false);
    }
    let mut k = from + 1;
    while k < m.len()
        invariant
            from < k <= m.len(),
            t == m@.skip(from as int),
            forall|j: int| from < j < k ==> #[trigger] m@[j] == '0',
            2 * digits_value(t) >= pow10(t.len()),
            2 * digits_value(t) == pow10(t.len()) <==> all_zeros(t.drop_first()),
            t.len() == m.len() - from,
        decreases m.len() - k,
    {
        if m[k] != '0' {
            assert(t.drop_first()[k - from - 1] == m@[k as int]);
            return (true, false);
        }
        k = k + 1;
    }
    assert forall|i: int| 0 <= i < t.drop_first().len() implies #[trigger] t.drop_first()[i]
        == '0' by {
        assert(t.drop_first()[i] == m@[i + from + 1]);
    }
    (false, true)
}

/// The unsigned decimal that starts at `from`, in thousandths.
#[verifier::rlimit(40)]
fn unsigned_milli(s: &Vec<char>, from: usize) -> (r: Option<i64>)
    requires
        from <= s.len(),
    ensures
        r is Some <==> unsigned_milli_of(s@.skip(from as int)) is Some,
        r matches Some(v) ==> unsigned_milli_of(s@.skip(from as int)) == Some(v as int),
{
    let ghost d = s@.skip(from as int);
    let mut ep = from;
    while ep < s.len() && s[ep] != 'e' && s[ep] != 'E'
        invariant
            from <= ep <= s.len(),
            forall|j: int| from <= j < ep ==> #[trigger] s@[j] != 'e' && s@[j] != 'E',
        decreases s.len() - ep,
    {
        ep = ep + 1;
    }
    proof {
        assert forall|j: int| 0 <= j < ep - from implies (not_exp_pred())(#[trigger] d[j]) by {
            assert(d[j] == s@[j + from]);
        }
        if ep < s.len() {
            assert(d[ep - from] == s@[ep as int]);
        }
        lemma_prefix_len_at(d, not_exp_pred(), ep - from);
        assert(mantissa_part(d) =~= s@.subrange(from as int, ep as int));
    }
    let ghost m = mantissa_part(d);
    let mut k = from;
    while k < ep && s[k] != '.'
        invariant
            from <= k <= ep <= s.len(),
            forall|j: int| from <= j < k ==> #[trigger] s@[j] != '.',
        decreases ep - k,
    {
        k = k + 1;
    }
    proof {
        assert forall|j: int| 0 <= j < k - from implies (not_dot_pred())(#[trigger] m[j]) by {
            assert(m[j] == s@[j + from]);
        }
        if k < ep {
            assert(m[k - from] == s@[k as int]);
        }
        lemma_prefix_len_at(m, not_dot_pred(), k - from);
        assert(int_part(m) =~= s@.subrange(from as int, k as int));
    }
    let fstart = if k < ep {
        k + 1
    } else {
        ep
    };
    proof {
        assert(frac_part(m) =~= s@.subrange(fstart as int, ep as int));
    }
    if !all_digits_exec(s, from, k) || !all_digits_exec(s, fstart, ep) {
        return None;
    }
    let n_int = k - from;
    let n_frac = ep - fstart;
    if n_int + n_frac == 0 {
        return None;
    }
    let ec: i128 = if ep < s.len() {
        proof {
            assert(d.skip(ep - from + 1) =~= s@.skip(ep + 1));
        }
        match exponent_at(s, ep + 1) {
            Some(x) => x,
            None => {
                return None;
            },
        }
    } else {
        0
    };
    let ghost e = exponent_part(d)->0;
    let mut mv: Vec<char> = Vec::new();
    push_range(&mut mv, s, from, k);
    push_range(&mut mv, s, fstart, ep);
    proof {
        let ip = int_part(m);
        let fp = frac_part(m);
        assert(mv@ =~= ip + fp);
        assert forall|i: int| 0 <= i < mv@.len() implies is_digit(#[trigger] mv@[i]) by {
            if i < ip.len() {
                assert(mv@[i] == ip[i]);
            } else {
                assert(mv@[i] == fp[i - ip.len()]);
            }
        }
    }
    scale_digits(&mv, n_int, ec, Ghost(e))
}

/// The digits `mv`, whose first `n_int` stand before the decimal point, times
/// `10^(3 + e)`, in thousandths; `ec` is the exponent `e` held to
/// `EXP_CAP + 1` in size.
#[verifier::rlimit(40)]
fn scale_digits(mv: &Vec<char>, n_int: usize, ec: i128, Ghost(e): Ghost<int>) -> (r: Option<i64>)
    requires
        all_digits(mv@),
        0 < mv.len(),
        n_int <= mv.len(),
        -EXP_CAP - 1 <= ec <= EXP_CAP + 1,
        -EXP_CAP <= ec <= EXP_CAP ==> e == ec,
        ec > EXP_CAP ==> e > EXP_CAP,
        ec < -EXP_CAP ==> e < -EXP_CAP,
    ensures
        r is Some <==> decimal_scaled(digits_value(mv@), 3 + e - (mv.len() - n_int)) <= i64::MAX,
        r matches Some(v) ==> v == decimal_scaled(digits_value(mv@), 3 + e - (mv.len() - n_int)),
{
    let ml = mv.len();
    let ghost nval = digits_value(mv@);
    let ghost kk = 3 + e - (ml - n_int);
    proof {
        lemma_digits_value_bound(mv@);
        assert(mv@.subrange(0, ml as int) =~= mv@);
    }
    if ec > EXP_CAP {
        match digits_u64(mv, 0, ml) {
            Some(n) => {
                if n == 0 {
                    assert(nval == 0);
                    assert(kk >= 0);
                    assert(decimal_scaled(nval, kk) == 0 * pow10(kk as nat));
                    return Some(0);
                }
                proof {
                    lemma_scaled_huge(nval, kk);
                }
                return None;
            },
            None => {
                proof {
                    lemma_scaled_huge(nval, kk);
                }
                return None;
            },
        }
    }
    if ec < -EXP_CAP {
        proof {
            lemma_scaled_tiny(nval, ml as nat, kk);
        }
        return Some(0);
    }
    let p: i128 = n_int as i128 + 3 + ec;
    if p < 0 {
        proof {
            lemma_scaled_tiny(nval, ml as nat, kk);
        }
        return Some(0);
    }
    if p < ml as i128 {
        split_round(mv, p as usize, Ghost(kk))
    } else {
        let kexp: u128 = (p - ml as i128) as u128;
        assert(kexp == kk);
        shift_up(mv, kexp)
    }
}

/// The digits `mv` divided by `10^(len - point)`, rounded half to even.
fn split_round(mv: &Vec<char>, point: usize, Ghost(kk): Ghost<int>) -> (r: Option<i64>)
    requires
        all_digits(mv@),
        point < mv.len(),
        kk == point - mv.len(),
    ensures
        r is Some <==> decimal_scaled(digits_value(mv@), kk) <= i64::MAX,
        r matches Some(v) ==> v == decimal_scaled(digits_value(mv@), kk),
{
    let ml = mv.len();
    let ghost nval = digits_value(mv@);
    let ghost den = pow10((ml - point) as nat);
    let ghost head = mv@.take(point as int);
    let ghost tail = mv@.skip(point as int);
    proof {
        assert(mv@ =~= head + tail);
        assert forall|i: int| 0 <= i < head.len() implies is_digit(#[trigger] head[i]) by {
            assert(head[i] == mv@[i]);
        }
        assert forall|i: int| 0 <= i < tail.len() implies is_digit(#[trigger] tail[i]) by {
            assert(tail[i] == mv@[i + point]);
        }
        lemma_digits_value_concat(head, tail);
        lemma_digits_value_bound(tail);
        vstd::arithmetic::div_mod::lemma_fundamental_div_mod_converse(
            nval as int,
            den as int,
            digits_value(head) as int,
            digits_value(tail) as int,
        );
        assert(mv@.subrange(0, point as int) =~= head);
        assert((-kk) as nat == (ml - point) as nat);
    }
    let q = match digits_u64(mv, 0, point) {
        Some(q) => q,
        None => {
            return None;
        },
    };
    let (above, tie) = tail_against_half(mv, point);
    let v: u128 = if above || (tie && q % 2 == 1) {
        q as u128 + 1
    } else {
        q as u128
    };
    if v > 9_223_372_036_854_775_807u128 {
        return None;
    }
    Some(v as i64)
}

/// The digits `mv` times `10^k`, when that fits an `i64`.
fn shift_up(mv: &Vec<char>, k: u128) -> (r: Option<i64>)
    requires
        all_digits(mv@),
    ensures
        r is Some <==> decimal_scaled(digits_value(mv@), k as int) <= i64::MAX,
        r matches Some(v) ==> v == decimal_scaled(digits_value(mv@), k as int),
{
    let ghost nval = digits_value(mv@);
    let ghost pk = pow10(k as nat);
    proof {
        lemma_pow10_le(0, k as nat);
        assert(nval * pk >= nval) by (nonlinear_arith)
            requires
                pk >= 1,
        {
        }
        assert(mv@.subrange(0, mv.len() as int) =~= mv@);
    }
    let n = match digits_u64(mv, 0, mv.len()) {
        Some(n) => n,
        None => {
            return None;
        },
    };
    if n == 0 {
        assert(nval * pk == 0) by (nonlinear_arith)
            requires
                nval == 0,
        {
        }
        return Some(0);
    }
    if n > 9_223_372_036_854_775_807u64 {
        return None;
    }
    let mut acc: u128 = n as u128;
    let mut j: u128 = 0;
    assert(pow10(0) == 1);
    assert(acc == nval * pow10(0));
    while j < k
        invariant
            j <= k,
            acc == nval * pow10(j as nat),
            acc <= 9_223_372_036_854_775_807u128,
            pk == pow10(k as nat),
            nval == digits_value(mv@),
        decreases k - j,
    {
        let ghost pj = pow10(j as nat);
        assert(pow10((j + 1) as nat) == 10 * pj);
        assert(nval * (10 * pj) == (nval * pj) * 10) by (nonlinear_arith);
        if acc * 10 > 9_223_372_036_854_775_807u128 {
            proof {
                lemma_pow10_le((j + 1) as nat, k as nat);
                let pa = pow10((j + 1) as nat);
                assert(nval * pk >= nval * pa) by (nonlinear_arith)
                    requires
                        pk >= pa,
                {
                }
            }
            return None;
        }
        acc = acc * 10;
        j = j + 1;
    }
    Some(acc as i64)
}

/// `str::parse::<f64>` of a decimal, kept exactly as thousandths.
pub fn parse_decimal_milli(s: &Vec<char>) -> (r: Option<Milli>)
    ensures
        r == decimal_milli_of(s@),
{
    if s.len() > 0 && (s[0] == '-' || s[0] == '+') {
        proof {
            assert(s@.skip(1) =~= s@.drop_first());
        }
        match unsigned_milli(s, 1) {
            Some(v) => {
                if s[0] == '-' {
                    Some(0 - v)
                } else {
                    Some(v)
                }
            },
            None => None,
        }
    } else {
        proof {
            assert(s@.skip(0) =~= s@);
        }
        unsigned_milli(s, 0)
    }
}

} // verus!
