//! Human-readable sizes and durations.
use vstd::prelude::*;
use crate::text::{decimal, digit_char, digit_of, push_char, push_decimal};

verus! {

/// `1024` raised to `k`.
pub open spec fn pow1024(k: nat) -> nat
    decreases k,
{
    if k == 0 {
        1
    } else {
        1024 * pow1024((k - 1) as nat)
    }
}

/// The largest unit index at or above `k` (at most 4) whose size `bytes` reaches.
pub open spec fn unit_from(bytes: nat, k: nat) -> nat
    decreases 4 - k,
{
    if k < 4 && bytes >= pow1024(k + 1) {
        unit_from(bytes, k + 1)
    } else {
        k
    }
}

/// Unit of a byte count: 0 for B, 1 for KB, up to 4 for TB.
pub open spec fn unit_index(bytes: nat) -> nat {
    unit_from(bytes, 0)
}

/// Name of the unit with index `k`.
pub open spec fn unit_name(k: nat) -> Seq<char> {
    if k == 0 {
        seq!['B']
    } else if k == 1 {
        seq!['K', 'B']
    } else if k == 2 {
        seq!['M', 'B']
    } else if k == 3 {
        seq!['G', 'B']
    } else {
        seq!['T', 'B']
    }
}

/// `n / d` rounded to the nearest integer, ties to the even neighbour.
pub open spec fn round_half_even(n: nat, d: nat) -> nat
    recommends
        d > 0,
{
    let q = n / d;
    let r = n % d;
    if 2 * r > d || (2 * r == d && q % 2 == 1) {
        q + 1
    } else {
        q
    }
}

/// `bytes` in units of `1024^k`, in tenths, rounded half to even.
pub open spec fn tenths(bytes: nat, k: nat) -> nat {
    round_half_even(bytes * 10, pow1024(k))
}

/// Text for a byte count: whole bytes below one KiB, else one decimal place.
pub open spec fn bytes_text(bytes: nat) -> Seq<char> {
    let k = unit_index(bytes);
    if k == 0 {
        decimal(bytes) + seq![' '] + unit_name(0)
    } else {
        let t = tenths(bytes, k);
        decimal(t / 10) + seq!['.', digit_char(t % 10), ' '] + unit_name(k)
    }
}

/// Text for an uptime in seconds: minutes alone, hours and minutes, or days,
/// hours and minutes, leaving out leading zero components.
pub open spec fn uptime_text(secs: nat) -> Seq<char> {
    let d = secs / 86400;
    let h = (secs % 86400) / 3600;
    let m = (secs % 3600) / 60;
    if d == 0 && h == 0 {
        decimal(m) + seq!['m']
    } else if d == 0 {
        decimal(h) + seq!['h', ' '] + decimal(m) + seq!['m']
    } else {
        decimal(d) + seq!['d', ' '] + decimal(h) + seq!['h', ' '] + decimal(m) + seq!['m']
    }
}

fn push_unit_name(s: &mut String, k: usize)
    requires
        k <= 4,
    ensures
        final(s)@ == old(s)@ + unit_name(k as nat),
{
    if k == 0 {
        push_char(s, 'B');
    } else {
        if k == 1 {
            push_char(s, 'K');
        } else if k == 2 {
            push_char(s, 'M');
        } else if k == 3 {
            push_char(s, 'G');
        } else {
            push_char(s, 'T');
        }
        push_char(s, 'B');
    }
    assert(s@ =~= old(s)@ + unit_name(k as nat));
}

/// Formats a byte count with binary units B, KB, MB, GB and TB.
pub fn format_bytes(bytes: u64) -> (r: String)
    ensures
        r@ == bytes_text(bytes as nat),
{
    let mut k: usize = 0;
    let mut d: u64 = 1;
    proof {
        reveal_with_fuel(pow1024, 5);
    }
    while k < 4 && bytes >= d * 1024
        invariant
            k <= 4,
            d as nat == pow1024(k as nat),
            unit_from(bytes as nat, k as nat) == unit_index(bytes as nat),
            d <= 1099511627776,
            k == 0 ==> d == 1,
            k == 1 ==> d == 1024,
            k == 2 ==> d == 1048576,
            k == 3 ==> d == 1073741824,
            k == 4 ==> d == 1099511627776,
        decreases 4 - k,
    {
        d = d * 1024;
        k = k + 1;
    }
    assert(unit_from(bytes as nat, k as nat) == k);
    let mut s = String::new();
    if k == 0 {
        push_decimal(&mut s, bytes);
        push_char(&mut s, ' ');
        push_unit_name(&mut s, 0);
        assert(s@ =~= bytes_text(bytes as nat));
    } else {
        let n: u128 = bytes as u128 * 10;
        let dd: u128 = d as u128;
        let q: u128 = n / dd;
        let rem: u128 = n % dd;
        let t: u128 = if 2 * rem > dd || (2 * rem == dd && q % 2 == 1) {
            q + 1
        } else {
            q
        };
        assert(t as nat == tenths(bytes as nat, k as nat));
        assert(t <= 0xffff_ffff_ffff_ffff) by (nonlinear_arith)
            requires
                q == n / dd,
                n == bytes as u128 * 10,
                dd >= 1024,
                t <= q + 1,
                bytes <= 0xffff_ffff_ffff_ffff,
        {
            assert(n / dd <= n / 1024) by {
                vstd::arithmetic::div_mod::lemma_div_is_ordered_by_denominator(n as int, 1024, dd as int);
            }
        }
        let t64: u64 = t as u64;
        push_decimal(&mut s, t64 / 10);
        push_char(&mut s, '.');
        push_char(&mut s, digit_of(t64 % 10));
        push_char(&mut s, ' ');
        push_unit_name(&mut s, k);
        assert(digit_char((t64 % 10) as nat) == digit_char((t as nat) % 10));
        assert(s@ =~= bytes_text(bytes as nat));
    }
    s
}

/// Formats an uptime in seconds as `"{m}m"`, `"{h}h {m}m"` or `"{d}d {h}h {m}m"`.
pub fn format_uptime(uptime_seconds: u64) -> (r: String)
    ensures
        r@ == uptime_text(uptime_seconds as nat),
{
    let days = uptime_seconds / 86400;
    let hours = (uptime_seconds % 86400) / 3600;
    let minutes = (uptime_seconds % 3600) / 60;
    let mut s = String::new();
    if days == 0 && hours == 0 {
        push_decimal(&mut s, minutes);
        push_char(&mut s, 'm');
    } else if days == 0 {
        push_decimal(&mut s, hours);
        push_char(&mut s, 'h');
        push_char(&mut s, ' ');
        push_decimal(&mut s, minutes);
        push_char(&mut s, 'm');
    } else {
        push_decimal(&mut s, days);
        push_char(&mut s, 'd');
        push_char(&mut s, ' ');
        push_decimal(&mut s, hours);
        push_char(&mut s, 'h');
        push_char(&mut s, ' ');
        push_decimal(&mut s, minutes);
        push_char(&mut s, 'm');
    }
    assert(s@ =~= uptime_text(uptime_seconds as nat));
    s
}

} // verus!
