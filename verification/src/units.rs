//! Human-readable quantities: byte counts in binary (IEC) units and the estimated
//! time remaining.
//!
//! A byte count below 1 KiB renders exactly, e.g. `512 B`. Larger counts are
//! scaled by the largest power of 1024 (up to PiB) that keeps the value at least
//! 1, and shown with two decimals, e.g. `1.46 KiB`. The scaled value is that of
//! the count as a double-precision number, and the two decimals are rounded to
//! nearest, ties to even, as Rust's `{:.2}` formatting does.

use vstd::prelude::*;
use vstd::string::*;

use crate::text::{decimal, push_decimal, push_decimal_wide, push_two_digits, two_digits};

verus! {

/// `2^e`.
pub open spec fn two_pow(e: nat) -> nat
    decreases e,
{
    if e == 0 { 1 } else { 2 * two_pow((e - 1) as nat) }
}

/// `1024^k`.
pub open spec fn kibi_pow(k: nat) -> nat
    decreases k,
{
    if k == 0 { 1 } else { 1024 * kibi_pow((k - 1) as nat) }
}

/// The number of binary digits of `n` (`0` for `0`).
pub open spec fn bit_len(n: nat) -> nat
    decreases n,
{
    if n == 0 { 0 } else { 1 + bit_len(n / 2) }
}

/// `a / d` rounded to the nearest integer, ties to the even neighbour.
pub open spec fn div_round_even(a: nat, d: nat) -> nat {
    let q = a / d;
    let r = a % d;
    if 2 * r > d || (2 * r == d && q % 2 == 1) { q + 1 } else { q }
}

/// The double-precision number nearest to `n` (ties to even), as an integer:
/// `n` itself when it has at most 53 significant bits, otherwise `n` rounded to
/// its 53 leading bits.
pub open spec fn nearest_double(n: nat) -> nat {
    let b = bit_len(n);
    if b <= 53 {
        n
    } else {
        let p = two_pow((b - 53) as nat);
        div_round_even(n, p) * p
    }
}

/// The IEC unit index (`0` = B, … `5` = PiB) for the value `m`: the largest `k`
/// from `start` up, at most 5, with `m >= 1024^k`.
pub open spec fn iec_unit_from(m: nat, k: nat) -> nat
    decreases 5 - k,
{
    if k < 5 && m >= kibi_pow(k + 1) { iec_unit_from(m, k + 1) } else { k }
}

/// The name of IEC unit `k`.
pub open spec fn unit_name(k: nat) -> Seq<char> {
    if k == 0 { seq!['B'] }
    else if k == 1 { seq!['K', 'i', 'B'] }
    else if k == 2 { seq!['M', 'i', 'B'] }
    else if k == 3 { seq!['G', 'i', 'B'] }
    else if k == 4 { seq!['T', 'i', 'B'] }
    else { seq!['P', 'i', 'B'] }
}

/// A byte count in binary units: exact below 1024, otherwise scaled with two
/// decimals.
pub open spec fn bytes_iec(n: nat) -> Seq<char> {
    if n < 1024 {
        decimal(n) + seq![' ', 'B']
    } else {
        let m = nearest_double(n);
        let k = iec_unit_from(m, 0);
        let d = div_round_even(m * 100, kibi_pow(k));
        decimal(d / 100) + seq!['.'] + two_digits(d % 100) + seq![' '] + unit_name(k)
    }
}

/// An estimated time remaining of `secs` whole seconds: `eta 5s`, `eta 2m05s` or
/// `eta 1h02m05s`.
pub open spec fn eta_text(secs: nat) -> Seq<char> {
    let hours = secs / 3600;
    let minutes = (secs % 3600) / 60;
    let seconds = secs % 60;
    seq!['e', 't', 'a', ' '] + if hours > 0 {
        decimal(hours) + seq!['h'] + two_digits(minutes) + seq!['m'] + two_digits(seconds) + seq!['s']
    } else if minutes > 0 {
        decimal(minutes) + seq!['m'] + two_digits(seconds) + seq!['s']
    } else {
        decimal(seconds) + seq!['s']
    }
}

proof fn lemma_bit_len_bound(n: nat, k: nat)
    requires
        n < two_pow(k),
    ensures
        bit_len(n) <= k,
    decreases k,
{
    if n > 0 {
        if k == 0 {
        } else {
            lemma_bit_len_bound(n / 2, (k - 1) as nat);
        }
    }
}

proof fn lemma_two_pow_64()
    ensures
        two_pow(64) == 0x1_0000_0000_0000_0000nat,
        two_pow(11) == 2048,
{
    reveal_with_fuel(two_pow, 65);
}

proof fn lemma_two_pow_mono(a: nat, b: nat)
    requires
        a <= b,
    ensures
        two_pow(a) <= two_pow(b),
        two_pow(a) >= 1,
    decreases b,
{
    if b > a {
        lemma_two_pow_mono(a, (b - 1) as nat);
    } else if a > 0 {
        lemma_two_pow_mono((a - 1) as nat, (a - 1) as nat);
    }
}

/// The number of binary digits of `n`.
fn bit_length(n: u64) -> (b: u64)
    ensures
        b == bit_len(n as nat),
        b <= 64,
{
    proof {
        lemma_two_pow_64();
        lemma_bit_len_bound(n as nat, 64);
    }
    let mut m: u64 = n;
    let mut count: u64 = 0;
    while m > 0
        invariant
            bit_len(n as nat) == count + bit_len(m as nat),
            bit_len(n as nat) <= 64,
        decreases m,
    {
        m = m / 2;
        count = count + 1;
    }
    count
}

/// `a / d` rounded to the nearest integer, ties to even.
fn div_round_even_exec(a: u128, d: u128) -> (r: u128)
    requires
        d > 0,
        d <= 0x1_0000_0000_0000_0000u128,
        a < 0x1_0000_0000_0000_0000_0000u128,
    ensures
        r == div_round_even(a as nat, d as nat),
{
    let q = a / d;
    let rem = a % d;
    if 2 * rem > d || (2 * rem == d && q % 2 == 1) { q + 1 } else { q }
}

/// The double-precision number nearest to `n`, as an integer.
fn nearest_double_exec(n: u64) -> (m: u128)
    ensures
        m == nearest_double(n as nat),
        m <= 0x1_0000_0000_0000_0800u128,
{
    let b = bit_length(n);
    if b <= 53 {
        return n as u128;
    }
    let s = b - 53;
    let mut p: u128 = 1;
    let mut i: u64 = 0;
    proof {
        lemma_two_pow_64();
    }
    while i < s
        invariant
            i <= s,
            s <= 11,
            p == two_pow(i as nat),
        decreases s - i,
    {
        proof {
            lemma_two_pow_mono(i as nat, 10);
            reveal_with_fuel(two_pow, 11);
        }
        p = p * 2;
        i = i + 1;
    }
    proof {
        lemma_two_pow_mono(s as nat, 11);
        reveal_with_fuel(two_pow, 12);
    }
    let r = div_round_even_exec(n as u128, p);
    proof {
        assert(r <= n as nat / p as nat + 1);
        assert((n as nat / p as nat) * p <= n) by {
            vstd::arithmetic::div_mod::lemma_fundamental_div_mod(n as int, p as int);
        }
        assert(r * p <= n + p) by (nonlinear_arith)
            requires r <= n as nat / p as nat + 1, (n as nat / p as nat) * p <= n;
    }
    r * p
}

/// Append a byte count in binary units: `512 B`, `1.46 KiB`, `5.00 MiB`.
pub fn push_bytes_iec(buf: &mut String, n: u64)
    ensures
        final(buf)@ == old(buf)@ + bytes_iec(n as nat),
{
    let ghost b0 = buf@;
    if n < 1024 {
        push_decimal(buf, n);
        buf.append(" B");
        proof {
            reveal_strlit(" B");
            assert(buf@ =~= b0 + bytes_iec(n as nat));
        }
        return;
    }
    let m = nearest_double_exec(n);
    let mut k: u64 = 0;
    let mut scale: u128 = 1;
    let mut next: u128 = 1024;
    proof {
        reveal_with_fuel(kibi_pow, 2);
    }
    while k < 5 && m >= next
        invariant
            k <= 5,
            scale == kibi_pow(k as nat),
            next == kibi_pow((k + 1) as nat),
            next == scale * 1024,
            scale >= 1,
            scale <= 0x4_0000_0000_0000u128,
            iec_unit_from(m as nat, 0) == iec_unit_from(m as nat, k as nat),
        decreases 5 - k,
    {
        proof {
            reveal_with_fuel(kibi_pow, 7);
            assert(k + 1 <= 5);
            assert(kibi_pow((k + 1) as nat) <= kibi_pow(5)) by {
                if k == 0 {} else if k == 1 {} else if k == 2 {} else if k == 3 {} else {}
            }
        }
        assert(kibi_pow((k + 2) as nat) == 1024 * kibi_pow((k + 1) as nat));
        scale = next;
        next = next * 1024;
        k = k + 1;
    }
    assert(iec_unit_from(m as nat, k as nat) == k);
    let d = div_round_even_exec(m * 100, scale);
    push_decimal_wide(buf, d / 100);
    buf.append(".");
    push_two_digits(buf, (d % 100) as u64);
    buf.append(" ");
    let name: &str = if k == 0 { "B" } else if k == 1 { "KiB" } else if k == 2 { "MiB" } else if k == 3 { "GiB" } else if k == 4 { "TiB" } else { "PiB" };
    buf.append(name);
    proof {
        reveal_strlit(".");
        reveal_strlit(" ");
        reveal_strlit("B");
        reveal_strlit("KiB");
        reveal_strlit("MiB");
        reveal_strlit("GiB");
        reveal_strlit("TiB");
        reveal_strlit("PiB");
        assert(name@ == unit_name(k as nat));
        assert(buf@ =~= b0 + bytes_iec(n as nat));
    }
}

/// Append the estimated time remaining for `secs` whole seconds.
pub fn push_eta(buf: &mut String, secs: u64)
    ensures
        final(buf)@ == old(buf)@ + eta_text(secs as nat),
{
    let ghost b0 = buf@;
    let hours = secs / 3600;
    let minutes = (secs % 3600) / 60;
    let seconds = secs % 60;
    buf.append("eta ");
    if hours > 0 {
        push_decimal(buf, hours);
        buf.append("h");
        push_two_digits(buf, minutes);
        buf.append("m");
        push_two_digits(buf, seconds);
        buf.append("s");
    } else if minutes > 0 {
        push_decimal(buf, minutes);
        buf.append("m");
        push_two_digits(buf, seconds);
        buf.append("s");
    } else {
        push_decimal(buf, seconds);
        buf.append("s");
    }
    proof {
        reveal_strlit("eta ");
        reveal_strlit("h");
        reveal_strlit("m");
        reveal_strlit("s");
        assert(buf@ =~= b0 + eta_text(secs as nat));
    }
}

} // verus!
