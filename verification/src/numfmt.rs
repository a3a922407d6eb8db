//! Number formatting of token counts and durations.
//!
//! Token counts and durations are shown with a fixed number of decimals,
//! computed the way a binary64 float division followed by `{:.N}` formatting
//! computes them: the quotient is first rounded to the nearest binary64 value
//! (ties to even), and that value is then rounded to N decimals (ties to even).
//! Both steps are carried out exactly here, in integers.

use vstd::prelude::*;

use crate::markup::{
    digit_char, digit_str, digits_value, int_decimal, is_digit, lemma_digit_char, nat_digits,
    push_i64, push_u64,
};

verus! {

/// Two to the power `n`.
pub open spec fn pow2(n: nat) -> nat
    decreases n,
{
    if n == 0 {
        1
    } else {
        2 * pow2((n - 1) as nat)
    }
}

/// Ten to the power `n`.
pub open spec fn pow10(n: nat) -> nat
    decreases n,
{
    if n == 0 {
        1
    } else {
        10 * pow10((n - 1) as nat)
    }
}

/// The integer nearest to `a / b`, ties going to the even one.
pub open spec fn round_half_even(a: nat, b: nat) -> nat {
    let q = a / b;
    let r = a % b;
    if 2 * r < b {
        q
    } else if 2 * r > b {
        q + 1
    } else if q % 2 == 0 {
        q
    } else {
        q + 1
    }
}

/// The exponent of the highest power of two that is at most `num / den`
/// (for `num >= den > 0`).
pub open spec fn log2_floor(num: nat, den: nat) -> nat
    decreases num - den,
{
    if den == 0 || num < 2 * den {
        0
    } else {
        1 + log2_floor(num, 2 * den)
    }
}

/// The binary64 value nearest to `num / den` (for `num >= den > 0`), ties to
/// even, as a fraction `(numerator, denominator)`: 53 significant bits.
pub open spec fn binary64_of_ratio(num: nat, den: nat) -> (nat, nat) {
    let e = log2_floor(num, den);
    if e <= 52 {
        let s = (52 - e) as nat;
        (round_half_even(num * pow2(s), den), pow2(s))
    } else {
        let k = (e - 52) as nat;
        (round_half_even(num, den * pow2(k)) * pow2(k), 1)
    }
}

/// The `p` digits of `f` (below `10^p`), with leading zeros.
pub open spec fn fraction_digits(f: nat, p: nat) -> Seq<char>
    decreases p,
{
    if p == 0 {
        seq![]
    } else {
        fraction_digits(f / 10, (p - 1) as nat) + seq![digit_char(f % 10)]
    }
}

/// `a / b` written with `p` decimals, rounded to the nearest, ties to even.
pub open spec fn fixed_point_text(a: nat, b: nat, p: nat) -> Seq<char> {
    let r = round_half_even(a * pow10(p), b);
    nat_digits(r / pow10(p)) + seq!['.'] + fraction_digits(r % pow10(p), p)
}

/// `n / d` as a binary64 division shows it with `p` decimals.
pub open spec fn float_quotient_text(n: nat, d: nat, p: nat) -> Seq<char> {
    let (a, b) = binary64_of_ratio(n, d);
    fixed_point_text(a, b, p)
}

/// The binary64 value nearest to a natural number `n`, ties to even: `n`
/// itself below `2^53`, else `n` rounded to 53 significant bits.
pub open spec fn binary64_of_nat(n: nat) -> nat {
    let e = log2_floor(n, 1);
    if e <= 52 {
        n
    } else {
        let k = (e - 52) as nat;
        round_half_even(n, pow2(k)) * pow2(k)
    }
}

/// How a token count is shown: as it is below a thousand, in thousands with
/// one decimal below a million, else in millions with two decimals (the count
/// first taken as the nearest binary64 value).
pub open spec fn tokens_text(count: int) -> Seq<char> {
    if count < 1000 {
        int_decimal(count)
    } else if count < 1_000_000 {
        float_quotient_text(count as nat, 1000, 1) + "k"@
    } else {
        float_quotient_text(binary64_of_nat(count as nat), 1_000_000, 2) + "M"@
    }
}

/// How a duration in milliseconds is shown: in milliseconds below a second,
/// in seconds with two decimals below a minute, else in whole minutes and
/// seconds.
pub open spec fn duration_text(ms: int) -> Seq<char> {
    if ms < 1000 {
        int_decimal(ms) + "ms"@
    } else if ms < 60_000 {
        float_quotient_text(ms as nat, 1000, 2) + "s"@
    } else {
        int_decimal(ms / 60_000) + "m "@ + int_decimal((ms % 60_000) / 1000) + "s"@
    }
}


/// How a duration is shown, by its size. Below a second it is the number of
/// milliseconds followed by "ms". From a minute on it is whole minutes and
/// seconds that make up the duration but for less than a second: minutes
/// `m` and seconds `sec` below sixty, with `m` minutes and `sec` seconds at
/// most the duration and less than a second short of it.
pub proof fn lemma_duration_parts(ms: int)
    ensures
        ms < 1000 ==> duration_text(ms) == int_decimal(ms) + "ms"@,
        ms >= 60_000 ==> exists|m: int, sec: int|
            #![trigger int_decimal(m), int_decimal(sec)]
            {
                &&& 0 <= sec < 60
                &&& m * 60_000 + sec * 1000 <= ms < m * 60_000 + sec * 1000 + 1000
                &&& duration_text(ms) == int_decimal(m) + "m "@ + int_decimal(sec) + "s"@
            },
{
    if ms >= 60_000 {
        let m = ms / 60_000;
        let sec = (ms % 60_000) / 1000;
        assert(m * 60_000 + ms % 60_000 == ms);
        assert(sec * 1000 <= ms % 60_000 < sec * 1000 + 1000);
        assert(duration_text(ms) == int_decimal(m) + "m "@ + int_decimal(sec) + "s"@);
    }
}

// ---------------------------------------------------------------------------
// Lemmas

proof fn lemma_pow2_pos(n: nat)
    ensures
        pow2(n) >= 1,
    decreases n,
{
    if n > 0 {
        lemma_pow2_pos((n - 1) as nat);
    }
}

proof fn lemma_pow2_add(a: nat, b: nat)
    ensures
        pow2(a + b) == pow2(a) * pow2(b),
    decreases b,
{
    if b == 0 {
        assert(pow2(0) == 1);
        assert(a + b == a);
        assert(pow2(a) * 1 == pow2(a));
    } else {
        lemma_pow2_add(a, (b - 1) as nat);
        assert(pow2(a + b) == 2 * pow2((a + b - 1) as nat));
        assert(pow2(b) == 2 * pow2((b - 1) as nat));
        assert((a + b - 1) as nat == a + (b - 1) as nat);
        assert(pow2(a) * (2 * pow2((b - 1) as nat)) == 2 * (pow2(a) * pow2((b - 1) as nat)))
            by (nonlinear_arith);
    }
}

proof fn lemma_pow2_mono(a: nat, b: nat)
    requires
        a <= b,
    ensures
        pow2(a) <= pow2(b),
    decreases b,
{
    if a < b {
        lemma_pow2_mono(a, (b - 1) as nat);
        lemma_pow2_pos((b - 1) as nat);
    }
}

proof fn lemma_pow2_values()
    ensures
        pow2(52) == 0x10_0000_0000_0000,
        pow2(53) == 0x20_0000_0000_0000,
        pow2(63) == 0x8000_0000_0000_0000,
        pow2(64) == 0x1_0000_0000_0000_0000,
{
    reveal_with_fuel(pow2, 65);
}

proof fn lemma_pow10_values()
    ensures
        pow10(0) == 1,
        pow10(1) == 10,
        pow10(2) == 100,
{
    reveal_with_fuel(pow10, 3);
}

/// `log2_floor` is the exponent that brackets the quotient between two powers.
proof fn lemma_log2_floor(num: nat, den: nat, e: nat)
    requires
        den > 0,
        den * pow2(e) <= num < den * pow2(e + 1),
    ensures
        log2_floor(num, den) == e,
    decreases e,
{
    if e == 0 {
        let p0 = pow2(0);
        let p1 = pow2(1);
        assert(p0 == 1);
        assert(p1 == 2 * p0);
        assert(den * p1 == 2 * den) by (nonlinear_arith)
            requires
                p1 == 2,
        ;
        assert(num < 2 * den);
    } else {
        let p = pow2((e - 1) as nat);
        assert(pow2(e) == 2 * p);
        assert(pow2(e + 1) == 2 * pow2(e));
        lemma_pow2_pos((e - 1) as nat);
        assert(den * (2 * p) == (2 * den) * p) by (nonlinear_arith);
        assert(den * (2 * (2 * p)) == (2 * den) * (2 * p)) by (nonlinear_arith);
        assert((2 * den) * p >= 2 * den) by (nonlinear_arith)
            requires
                p >= 1,
                den > 0,
        ;
        lemma_log2_floor(num, 2 * den, (e - 1) as nat);
    }
}

proof fn lemma_round_half_even_bounds(a: nat, b: nat)
    requires
        b > 0,
    ensures
        a / b <= round_half_even(a, b) <= a / b + 1,
        b == 1 ==> round_half_even(a, b) == a,
{
}

proof fn lemma_div_below(a: nat, b: nat, c: nat)
    requires
        b > 0,
        a < b * c,
    ensures
        a / b < c,
{
    assert(a / b < c) by (nonlinear_arith)
        requires
            b > 0,
            a < b * c,
    {
        assert(b * (a / b) <= a);
    }
}

proof fn lemma_div_at_least(n: nat, p: nat, c: nat)
    requires
        p >= 1,
        n >= c * p,
    ensures
        n / p >= c,
{
    let q = n / p;
    let r = n % p;
    assert(n == q * p + r && 0 <= r < p) by (nonlinear_arith)
        requires
            p >= 1,
            q == n / p,
            r == n % p,
    ;
    assert(q >= c) by (nonlinear_arith)
        requires
            n == q * p + r,
            0 <= r < p,
            n >= c * p,
            p >= 1,
    ;
}

// ---------------------------------------------------------------------------
// Executable arithmetic

fn exp2(n: u32) -> (r: u128)
    requires
        n <= 64,
    ensures
        r == pow2(n as nat),
{
    let mut r: u128 = 1;
    let mut i: u32 = 0;
    while i < n
        invariant
            i <= n <= 64,
            r == pow2(i as nat),
        decreases n - i,
    {
        proof {
            lemma_pow2_mono((i + 1) as nat, 64);
            lemma_pow2_values();
        }
        r = r * 2;
        i = i + 1;
    }
    r
}

fn round_half_even_exec(a: u128, b: u128) -> (r: u128)
    requires
        b > 0,
        a < 0x8000_0000_0000_0000_0000_0000_0000_0000,
    ensures
        r == round_half_even(a as nat, b as nat),
{
    let q = a / b;
    let rem = a % b;
    proof {
        assert(q <= a) by (nonlinear_arith)
            requires
                b > 0,
                q == a / b,
        ;
    }
    if rem < b - rem {
        q
    } else if rem > b - rem {
        q + 1
    } else if q % 2 == 0 {
        q
    } else {
        q + 1
    }
}

fn log2_floor_exec(num: u128, den: u128) -> (e: u32)
    requires
        1 <= den <= num,
        num <= 0x1_0000_0000_0000_0000,
    ensures
        e == log2_floor(num as nat, den as nat),
        den * pow2(e as nat) <= num < den * pow2(e as nat + 1),
        e <= 64,
{
    let mut e: u32 = 0;
    let mut scaled: u128 = den;
    assert(pow2(0) == 1);
    assert(den * pow2(0) == den);
    while scaled <= num / 2
        invariant
            1 <= den <= num <= 0x1_0000_0000_0000_0000,
            scaled >= 1,
            scaled == den * pow2(e as nat),
            scaled <= num,
            e <= 64,
        decreases num - scaled,
    {
        proof {
            assert(pow2(e as nat + 1) == 2 * pow2(e as nat));
            assert(den * (2 * pow2(e as nat)) == 2 * (den * pow2(e as nat))) by (nonlinear_arith);
            lemma_pow2_values();
            assert(den * pow2(e as nat) >= pow2(e as nat)) by (nonlinear_arith)
                requires
                    den >= 1,
            ;
            if e >= 64 {
                lemma_pow2_mono(64, e as nat);
            }
        }
        scaled = scaled * 2;
        e = e + 1;
    }
    proof {
        assert(pow2(e as nat + 1) == 2 * pow2(e as nat));
        assert(den * (2 * pow2(e as nat)) == 2 * (den * pow2(e as nat))) by (nonlinear_arith);
        lemma_log2_floor(num as nat, den as nat, e as nat);
    }
    e
}


/// The binary64 value nearest to `num / den`, as `binary64_of_ratio` gives it.
fn binary64_ratio(num: u128, den: u128) -> (r: (u128, u128))
    requires
        1 <= den <= num,
        den <= 1_000_000,
        num <= 0x1_0000_0000_0000_0000,
        num < den * pow2(53),
    ensures
        r.0 == binary64_of_ratio(num as nat, den as nat).0,
        r.1 == binary64_of_ratio(num as nat, den as nat).1,
        r.0 <= pow2(53),
        r.1 >= 1,
{
    let e = log2_floor_exec(num, den);
    proof {
        lemma_pow2_values();
        if e >= 53 {
            lemma_pow2_mono(53, e as nat);
            assert(den * pow2(53) <= den * pow2(e as nat)) by (nonlinear_arith)
                requires
                    pow2(53) <= pow2(e as nat),
            ;
        }
    }
    let s: u32 = 52 - e;
    let p = exp2(s);
    proof {
        lemma_pow2_mono(s as nat, 52);
        lemma_pow2_pos(s as nat);
        lemma_pow2_add(e as nat + 1, s as nat);
        assert(num * p <= 0x1_0000_0000_0000_0000 * 0x10_0000_0000_0000) by (nonlinear_arith)
            requires
                num <= 0x1_0000_0000_0000_0000,
                p <= 0x10_0000_0000_0000,
        ;
        assert(num * p < den * pow2(53)) by (nonlinear_arith)
            requires
                num < den * pow2(e as nat + 1),
                p == pow2(s as nat),
                pow2(53) == pow2(e as nat + 1) * pow2(s as nat),
                p >= 1,
        ;
        lemma_div_below((num * p) as nat, den as nat, pow2(53));
        lemma_round_half_even_bounds((num * p) as nat, den as nat);
    }
    let m = round_half_even_exec(num * p, den);
    (m, p)
}

/// The binary64 value nearest to `n`, as `binary64_of_nat` gives it.
fn binary64_of_u64(n: u64) -> (r: u128)
    requires
        1 <= n < 0x8000_0000_0000_0000,
    ensures
        r == binary64_of_nat(n as nat),
        n < pow2(53) ==> r == n,
        n >= pow2(53) ==> r >= pow2(53),
        r <= pow2(63),
{
    let e = log2_floor_exec(n as u128, 1);
    proof {
        lemma_pow2_values();
        assert(1 * pow2(e as nat) == pow2(e as nat));
        assert(1 * pow2(e as nat + 1) == pow2(e as nat + 1));
        if e >= 63 {
            lemma_pow2_mono(63, e as nat);
        }
        if e <= 52 {
            lemma_pow2_mono(e as nat + 1, 53);
        } else {
            lemma_pow2_mono(53, e as nat);
        }
    }
    if e <= 52 {
        return n as u128;
    }
    let k: u32 = e - 52;
    let p = exp2(k);
    proof {
        lemma_pow2_pos(k as nat);
        lemma_pow2_add(53, k as nat);
        lemma_pow2_add(52, k as nat);
        assert(e as nat + 1 == 53 + k as nat);
        assert(e as nat == 52 + k as nat);
        lemma_div_below(n as nat, p as nat, pow2(53));
        lemma_round_half_even_bounds(n as nat, p as nat);
        lemma_div_at_least(n as nat, p as nat, pow2(52));
        lemma_pow2_mono(e as nat + 1, 63);
    }
    let m = round_half_even_exec(n as u128, p);
    proof {
        assert(m * p <= pow2(53) * p) by (nonlinear_arith)
            requires
                m <= pow2(53),
        ;
        assert(m * p >= pow2(52) * p) by (nonlinear_arith)
            requires
                m >= pow2(52),
        ;
    }
    m * p
}

fn push_fraction_digits(out: &mut String, f: u64, p: u32)
    ensures
        final(out)@ == old(out)@ + fraction_digits(f as nat, p as nat),
    decreases p,
{
    if p > 0 {
        push_fraction_digits(out, f / 10, p - 1);
        out.append(digit_str(f % 10));
    }
}

/// Appends `a / b` with `p` decimals, as `fixed_point_text` gives it.
fn push_fixed_point(out: &mut String, a: u128, b: u128, p: u32)
    requires
        b >= 1,
        a <= 0x20_0000_0000_0000,
        p == 1 || p == 2,
    ensures
        final(out)@ == old(out)@ + fixed_point_text(a as nat, b as nat, p as nat),
{
    proof {
        lemma_pow10_values();
    }
    let scale: u128 = if p == 1 {
        10
    } else {
        100
    };
    let x = a * scale;
    proof {
        lemma_round_half_even_bounds(x as nat, b as nat);
        assert(x as nat / b as nat <= x) by (nonlinear_arith)
            requires
                b >= 1,
        ;
    }
    let r = round_half_even_exec(x, b);
    let whole = (r / scale) as u64;
    let frac = (r % scale) as u64;
    push_u64(out, whole);
    proof {
        reveal_strlit(".");
    }
    out.append(".");
    push_fraction_digits(out, frac, p);
    proof {
        assert(out@ =~= old(out)@ + fixed_point_text(a as nat, b as nat, p as nat));
    }
}

/// Formats a token count with thousand separators for readability.
pub fn format_tokens(count: i64) -> (s: String)
    ensures
        s@ == tokens_text(count as int),
{
    let mut out = String::new();
    proof {
        lemma_pow2_values();
    }
    if count < 1000 {
        push_i64(&mut out, count);
    } else if count < 1_000_000 {
        let (a, b) = binary64_ratio(count as u128, 1000);
        push_fixed_point(&mut out, a, b, 1);
        out.append("k");
    } else {
        let c = binary64_of_u64(count as u64);
        let (a, b) = binary64_ratio(c, 1_000_000);
        push_fixed_point(&mut out, a, b, 2);
        out.append("M");
    }
    out
}

/// Formats a duration in milliseconds to a human-readable string.
pub fn format_duration(ms: i64) -> (s: String)
    ensures
        s@ == duration_text(ms as int),
{
    let mut out = String::new();
    proof {
        lemma_pow2_values();
    }
    if ms < 1000 {
        push_i64(&mut out, ms);
        out.append("ms");
    } else if ms < 60_000 {
        let (a, b) = binary64_ratio(ms as u128, 1000);
        push_fixed_point(&mut out, a, b, 2);
        out.append("s");
    } else {
        let mins = ms / 60_000;
        let secs = (ms % 60_000) / 1000;
        push_i64(&mut out, mins);
        out.append("m ");
        push_i64(&mut out, secs);
        out.append("s");
    }
    out
}


// ---------------------------------------------------------------------------
// Laws of the shown numbers

proof fn lemma_pow10_pos(p: nat)
    ensures
        pow10(p) >= 1,
    decreases p,
{
    if p > 0 {
        lemma_pow10_pos((p - 1) as nat);
    }
}

/// The `p` decimals of `f` are `p` digits that read as `f` modulo `10^p`.
pub proof fn lemma_fraction_digits_value(f: nat, p: nat)
    ensures
        fraction_digits(f, p).len() == p,
        forall|i: int| 0 <= i < p ==> is_digit(#[trigger] fraction_digits(f, p)[i]),
        digits_value(fraction_digits(f, p)) == f % pow10(p),
    decreases p,
{
    if p == 0 {
        assert(pow10(0) == 1);
    } else {
        let q = (p - 1) as nat;
        lemma_fraction_digits_value(f / 10, q);
        lemma_digit_char(f % 10);
        lemma_pow10_pos(q);
        let a = fraction_digits(f / 10, q);
        let t = a + seq![digit_char(f % 10)];
        assert(t.drop_last() =~= a);
        assert(t.last() == digit_char(f % 10));
        assert(digits_value(t) == digits_value(a) * 10 + (f % 10) as int);
        assert forall|i: int| 0 <= i < p implies is_digit(#[trigger] t[i]) by {
            if i < q {
                assert(t[i] == a[i]);
            }
        }
        vstd::arithmetic::div_mod::lemma_mod_breakdown(f as int, 10, pow10(q) as int);
        assert(pow10(p) == 10 * pow10(q));
    }
}

/// `log2_floor` gives a power of two that the quotient reaches.
proof fn lemma_log2_floor_low(num: nat, den: nat)
    requires
        den > 0,
        num >= den,
    ensures
        den * pow2(log2_floor(num, den)) <= num,
    decreases num - den,
{
    if num < 2 * den {
        assert(log2_floor(num, den) == 0);
        assert(pow2(0) == 1);
        assert(den * 1 == den);
    } else {
        lemma_log2_floor_low(num, 2 * den);
        let e = log2_floor(num, 2 * den);
        assert(log2_floor(num, den) == 1 + e);
        assert(pow2(1 + e) == 2 * pow2(e));
        assert(den * (2 * pow2(e)) == (2 * den) * pow2(e)) by (nonlinear_arith);
    }
}

/// Rounding `x / y` to the nearest integer misses by at most half.
proof fn lemma_round_close(x: nat, y: nat)
    requires
        y > 0,
    ensures
        -(y as int) <= 2 * (round_half_even(x, y) * y - x) <= y,
{
    let q = x / y;
    let r = x % y;
    vstd::arithmetic::div_mod::lemma_fundamental_div_mod(x as int, y as int);
    vstd::arithmetic::div_mod::lemma_mod_pos_bound(x as int, y as int);
    assert(q * y + r == x) by (nonlinear_arith)
        requires
            x == y * q + r,
    ;
    assert((q + 1) * y == q * y + y) by (nonlinear_arith);
    let k = round_half_even(x, y);
    assert(k == q || k == q + 1);
    if k == q {
        assert(2 * r <= y);
        assert(k * y - x == -r);
    } else {
        assert(2 * r >= y);
        assert(k * y - x == y - r);
    }
}

/// The decimals of a binary64 quotient: where `n / d` times `10^p` stays
/// below `2^52`, the quotient `n / d` is shown as a whole part `w`, a point
/// and `p` decimals `f`, and `w.f` is within half a unit of its last decimal
/// of the exact quotient.
pub proof fn lemma_float_quotient_close(n: nat, d: nat, p: nat)
    requires
        d > 0,
        n >= d,
        pow10(p) * n < pow2(52),
    ensures
        exists|w: nat, f: nat|
            #![trigger nat_digits(w), fraction_digits(f, p)]
            {
                &&& f < pow10(p)
                &&& float_quotient_text(n, d, p) == nat_digits(w) + seq!['.'] + fraction_digits(f, p)
                &&& -(d as int) <= 2 * ((w * pow10(p) + f) * d - n * pow10(p)) <= d
            },
{
    let big_p = pow10(p);
    lemma_pow10_pos(p);
    let e = log2_floor(n, d);
    lemma_log2_floor_low(n, d);
    lemma_pow2_pos(e);
    // The exponent is below 52: d * 2^e <= n < 2^52.
    if e > 52 {
        lemma_pow2_mono(52, e);
        assert(d * pow2(e) >= pow2(e)) by (nonlinear_arith)
            requires
                d >= 1,
                pow2(e) >= 1,
        ;
        assert(big_p * n >= n) by (nonlinear_arith)
            requires
                big_p >= 1,
        ;
        assert(false);
    }
    let sh = (52 - e) as nat;
    let b = pow2(sh);
    lemma_pow2_add(e, sh);
    assert(e + sh == 52);
    let a = round_half_even(n * b, d);
    assert(binary64_of_ratio(n, d) == (a, b));
    let r = round_half_even(a * big_p, b);
    lemma_pow2_pos(sh);
    lemma_round_close(n * b, d);
    lemma_round_close(a * big_p, b);
    // P * d < b, since P * d * 2^e <= P * n < 2^52 = b * 2^e.
    let pe = pow2(e);
    assert(big_p * d * pe <= big_p * n) by (nonlinear_arith)
        requires
            d * pe <= n,
    ;
    assert(big_p * d < b) by (nonlinear_arith)
        requires
            big_p * d * pe < b * pe,
            pe >= 1,
    ;
    // 2 (r d - n P) b = d * 2 (r b - a P) + P * 2 (a d - n b).
    let x1 = r * b - a * big_p;
    let x2 = a * d - n * b;
    let err = r * d - n * big_p;
    assert(err * b == d * x1 + big_p * x2) by (nonlinear_arith)
        requires
            x1 == r * b - a * big_p,
            x2 == a * d - n * b,
            err == r * d - n * big_p,
    ;
    assert(-(d as int) <= 2 * err <= d) by (nonlinear_arith)
        requires
            err * b == d * x1 + big_p * x2,
            -(b as int) <= 2 * x1 <= b,
            -(d as int) <= 2 * x2 <= d,
            big_p * d < b,
            big_p >= 1,
            d >= 1,
            b >= 1,
    {
        assert(2 * err * b == d * (2 * x1) + big_p * (2 * x2));
        assert(d * (2 * x1) <= d * b);
        assert(d * (2 * x1) >= -(d * b));
        assert(big_p * (2 * x2) <= big_p * d);
        assert(big_p * (2 * x2) >= -(big_p * d));
        if 2 * err > d {
            assert(2 * err >= d + 1);
            assert(2 * err * b >= (d + 1) * b);
        }
        if 2 * err < -(d as int) {
            assert(2 * err <= -(d as int) - 1);
            assert(2 * err * b <= (-(d as int) - 1) * b);
        }
    }
    let w = r / big_p;
    let f = r % big_p;
    vstd::arithmetic::div_mod::lemma_fundamental_div_mod(r as int, big_p as int);
    vstd::arithmetic::div_mod::lemma_mod_pos_bound(r as int, big_p as int);
    assert(w * big_p + f == r) by (nonlinear_arith)
        requires
            r == big_p * (r / big_p) + r % big_p,
            w == r / big_p,
            f == r % big_p,
    ;
    assert(float_quotient_text(n, d, p) == nat_digits(w) + seq!['.'] + fraction_digits(f, p));
}

/// A duration from a second to a minute is shown as seconds with two
/// decimals that are within five milliseconds of it.
pub proof fn lemma_duration_seconds(ms: int)
    requires
        1000 <= ms < 60_000,
    ensures
        exists|w: nat, f: nat|
            #![trigger nat_digits(w), fraction_digits(f, 2)]
            {
                &&& f < 100
                &&& duration_text(ms) == nat_digits(w) + seq!['.'] + fraction_digits(f, 2) + "s"@
                &&& (w * 100 + f) * 10 - 5 <= ms <= (w * 100 + f) * 10 + 5
            },
{
    lemma_pow10_values();
    lemma_pow2_values();
    lemma_float_quotient_close(ms as nat, 1000, 2);
    let (w, f) = choose|w: nat, f: nat|
        {
            &&& f < pow10(2)
            &&& #[trigger] float_quotient_text(ms as nat, 1000, 2) == nat_digits(w) + seq!['.']
                + fraction_digits(f, 2)
            &&& -1000 <= 2 * ((w * pow10(2) + f) * 1000 - ms * pow10(2)) <= 1000
        };
    assert(duration_text(ms) == nat_digits(w) + seq!['.'] + fraction_digits(f, 2) + "s"@);
}

/// A token count from a thousand to a million is shown in thousands with one
/// decimal, within fifty tokens of it.
pub proof fn lemma_tokens_thousands(count: int)
    requires
        1000 <= count < 1_000_000,
    ensures
        exists|w: nat, f: nat|
            #![trigger nat_digits(w), fraction_digits(f, 1)]
            {
                &&& f < 10
                &&& tokens_text(count) == nat_digits(w) + seq!['.'] + fraction_digits(f, 1) + "k"@
                &&& (w * 10 + f) * 100 - 50 <= count <= (w * 10 + f) * 100 + 50
            },
{
    lemma_pow10_values();
    lemma_pow2_values();
    lemma_float_quotient_close(count as nat, 1000, 1);
    let (w, f) = choose|w: nat, f: nat|
        {
            &&& f < pow10(1)
            &&& #[trigger] float_quotient_text(count as nat, 1000, 1) == nat_digits(w) + seq!['.']
                + fraction_digits(f, 1)
            &&& -1000 <= 2 * ((w * pow10(1) + f) * 1000 - count * pow10(1)) <= 1000
        };
    assert(tokens_text(count) == nat_digits(w) + seq!['.'] + fraction_digits(f, 1) + "k"@);
}

/// A token count from a million on (up to forty thousand billion, where
/// binary64 still holds it exactly) is shown in millions with two decimals,
/// within five thousand tokens of it.
pub proof fn lemma_tokens_millions(count: int)
    requires
        1_000_000 <= count < 40_000_000_000_000,
    ensures
        exists|w: nat, f: nat|
            #![trigger nat_digits(w), fraction_digits(f, 2)]
            {
                &&& f < 100
                &&& tokens_text(count) == nat_digits(w) + seq!['.'] + fraction_digits(f, 2) + "M"@
                &&& (w * 100 + f) * 10_000 - 5000 <= count <= (w * 100 + f) * 10_000 + 5000
            },
{
    lemma_pow10_values();
    lemma_pow2_values();
    // The count is a binary64 value as it is.
    let e = log2_floor(count as nat, 1);
    lemma_log2_floor_low(count as nat, 1);
    if e > 52 {
        lemma_pow2_mono(53, e);
        assert(false);
    }
    assert(binary64_of_nat(count as nat) == count);
    lemma_float_quotient_close(count as nat, 1_000_000, 2);
    let (w, f) = choose|w: nat, f: nat|
        {
            &&& f < pow10(2)
            &&& #[trigger] float_quotient_text(count as nat, 1_000_000, 2) == nat_digits(w)
                + seq!['.'] + fraction_digits(f, 2)
            &&& -1_000_000 <= 2 * ((w * pow10(2) + f) * 1_000_000 - count * pow10(2)) <= 1_000_000
        };
    assert(tokens_text(count) == nat_digits(w) + seq!['.'] + fraction_digits(f, 2) + "M"@);
}

/// A token count below a thousand is shown as it is.
pub proof fn lemma_tokens_small(count: int)
    requires
        count < 1000,
    ensures
        tokens_text(count) == int_decimal(count),
{
}

} // verus!
