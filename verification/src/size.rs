//! Byte counts and entry counts as text.
//!
//! Sizes are shown in binary units with a fixed number of decimals. The value
//! shown is the byte count divided by the unit, first brought onto the grid of
//! 64-bit floating point numbers and then rounded to the decimals shown; halves
//! go to the even neighbour both times. All of it is integer arithmetic.

use vstd::prelude::*;
use vstd::string::StringExecFns;
use crate::text::{decimal_digits, digit_char, digit_str, push_decimal};

verus! {

pub const KB: u64 = 1024;

pub const MB: u64 = 1048576;

pub const GB: u64 = 1073741824;

pub const TB: u64 = 1099511627776;

/// The first integer that 64-bit floating point no longer holds exactly is above this.
pub const GRID_START: u64 = 9007199254740992;

/// `n / d` rounded to the nearest integer, a half to the even neighbour.
pub open spec fn round_half_even(n: nat, d: nat) -> nat {
    let q = n / d;
    let r = n % d;
    if 2 * r > d || (2 * r == d && q % 2 == 1) {
        q + 1
    } else {
        q
    }
}

/// The spacing of floating point numbers at the magnitude of `m`, as a multiple
/// of `d`: `d` doubled once for every halving that `m` needs to fit 53 bits.
pub open spec fn grid_unit(m: nat, d: nat) -> nat
    decreases m,
{
    if m < GRID_START {
        d
    } else {
        grid_unit(m / 2, 2 * d)
    }
}

/// `bytes` as 64-bit floating point holds it: the nearest multiple of the spacing.
pub open spec fn on_grid(bytes: nat) -> nat {
    round_half_even(bytes, grid_unit(bytes, 1)) * grid_unit(bytes, 1)
}

/// `bytes / unit` in tenths, as shown with one decimal.
pub open spec fn tenths(bytes: nat, unit: nat) -> nat {
    round_half_even(on_grid(bytes) * 10, unit)
}

/// `bytes / unit` as shown without decimals.
pub open spec fn wholes(bytes: nat, unit: nat) -> nat {
    round_half_even(on_grid(bytes), unit)
}

/// A number of tenths written with one decimal.
pub open spec fn one_decimal(t: nat) -> Seq<char> {
    decimal_digits(t / 10) + seq!['.'] + seq![digit_char(t % 10)]
}

pub open spec fn spec_format_size(bytes: u64) -> Seq<char> {
    if bytes >= TB {
        one_decimal(tenths(bytes as nat, TB as nat)) + " TB"@
    } else if bytes >= GB {
        one_decimal(tenths(bytes as nat, GB as nat)) + " GB"@
    } else if bytes >= MB {
        one_decimal(tenths(bytes as nat, MB as nat)) + " MB"@
    } else if bytes >= KB {
        one_decimal(tenths(bytes as nat, KB as nat)) + " KB"@
    } else {
        decimal_digits(bytes as nat) + " B"@
    }
}

pub open spec fn spec_format_size_short(bytes: u64) -> Seq<char> {
    if bytes >= TB {
        decimal_digits(wholes(bytes as nat, TB as nat)) + "T"@
    } else if bytes >= GB {
        one_decimal(tenths(bytes as nat, GB as nat)) + "G"@
    } else if bytes >= MB {
        decimal_digits(wholes(bytes as nat, MB as nat)) + "M"@
    } else if bytes >= KB {
        decimal_digits(wholes(bytes as nat, KB as nat)) + "K"@
    } else {
        decimal_digits(bytes as nat) + "B"@
    }
}

/// The digits of `n` in groups of three, with a comma between groups.
pub open spec fn grouped_digits(n: nat) -> Seq<char>
    decreases n,
{
    if n < 1000 {
        decimal_digits(n)
    } else {
        grouped_digits(n / 1000) + seq![','] + seq![
            digit_char((n % 1000) / 100),
            digit_char((n % 100) / 10),
            digit_char(n % 10),
        ]
    }
}

/// `n / d` rounded to the nearest integer, a half to the even neighbour.
fn round_div(n: u128, d: u128) -> (q: u128)
    requires
        d > 0,
        n <= 0xffff_ffff_ffff_ffff_ffff,
        d <= 0xffff_ffff_ffff_ffff,
    ensures
        q == round_half_even(n as nat, d as nat),
        q * d <= n + d,
        q <= n + 1,
{
    let q = n / d;
    let r = n % d;
    assert(q * d <= n && (q + 1) * d <= n + d && q <= n) by (nonlinear_arith)
        requires
            q == n / d,
            d > 0,
            n >= 0,
    ;
    if 2 * r > d || (2 * r == d && q % 2 == 1) {
        q + 1
    } else {
        q
    }
}

/// `bytes` as 64-bit floating point holds it.
fn to_grid(bytes: u64) -> (g: u128)
    ensures
        g == on_grid(bytes as nat),
        g <= 0x1_0000_0000_0000_1000,
{
    let mut m: u64 = bytes;
    let mut d: u64 = 1;
    while m >= GRID_START
        invariant
            1 <= d <= 4096,
            m * d <= bytes,
            grid_unit(bytes as nat, 1) == grid_unit(m as nat, d as nat),
        decreases m,
    {
        assert(d <= 2047) by (nonlinear_arith)
            requires
                m >= 9007199254740992,
                m * d <= bytes,
                bytes <= 0xffff_ffff_ffff_ffff,
                1 <= d,
        ;
        assert((m / 2) * (2 * d) <= m * d) by (nonlinear_arith)
            requires
                1 <= d,
                m >= 0,
        ;
        m = m / 2;
        d = d * 2;
    }
    let q = round_div(bytes as u128, d as u128);
    q * (d as u128)
}

/// `bytes / unit` in tenths, for a unit of at least 1024.
fn tenths_of(bytes: u64, unit: u64) -> (t: u64)
    requires
        unit >= 1024,
    ensures
        t == tenths(bytes as nat, unit as nat),
{
    let g = to_grid(bytes);
    let q = round_div(g * 10, unit as u128);
    assert(q <= 0xffff_ffff_ffff_ffff) by (nonlinear_arith)
        requires
            q * unit <= g * 10 + unit,
            g <= 0x1_0000_0000_0000_1000,
            unit >= 1024,
            unit <= 0xffff_ffff_ffff_ffff,
    ;
    q as u64
}

/// `bytes / unit` without decimals, for a unit of at least 1024.
fn wholes_of(bytes: u64, unit: u64) -> (w: u64)
    requires
        unit >= 1024,
    ensures
        w == wholes(bytes as nat, unit as nat),
{
    let g = to_grid(bytes);
    let q = round_div(g, unit as u128);
    assert(q <= 0xffff_ffff_ffff_ffff) by (nonlinear_arith)
        requires
            q * unit <= g + unit,
            g <= 0x1_0000_0000_0000_1000,
            unit >= 1024,
            unit <= 0xffff_ffff_ffff_ffff,
    ;
    q as u64
}

/// A number of tenths with one decimal and a unit behind it.
fn with_one_decimal(t: u64, unit: &str) -> (s: String)
    ensures
        s@ == one_decimal(t as nat) + unit@,
{
    let mut s = String::new();
    push_decimal(&mut s, t / 10);
    s.append(".");
    s.append(digit_str(t % 10));
    s.append(unit);
    proof {
        reveal_strlit(".");
        assert("."@ =~= seq!['.']);
        assert(s@ =~= one_decimal(t as nat) + unit@);
    }
    s
}

/// A whole number with a unit behind it.
fn with_unit(n: u64, unit: &str) -> (s: String)
    ensures
        s@ == decimal_digits(n as nat) + unit@,
{
    let mut s = String::new();
    push_decimal(&mut s, n);
    s.append(unit);
    assert(s@ =~= decimal_digits(n as nat) + unit@);
    s
}

/// Format bytes into a human-readable string: one decimal and a binary unit
/// from 1024 bytes on, the plain number below.
pub fn format_size(bytes: u64) -> (s: String)
    ensures
        s@ == spec_format_size(bytes),
{
    if bytes >= TB {
        with_one_decimal(tenths_of(bytes, TB), " TB")
    } else if bytes >= GB {
        with_one_decimal(tenths_of(bytes, GB), " GB")
    } else if bytes >= MB {
        with_one_decimal(tenths_of(bytes, MB), " MB")
    } else if bytes >= KB {
        with_one_decimal(tenths_of(bytes, KB), " KB")
    } else {
        with_unit(bytes, " B")
    }
}

/// Format bytes into a short human-readable string, for tight spaces.
pub fn format_size_short(bytes: u64) -> (s: String)
    ensures
        s@ == spec_format_size_short(bytes),
{
    if bytes >= TB {
        with_unit(wholes_of(bytes, TB), "T")
    } else if bytes >= GB {
        with_one_decimal(tenths_of(bytes, GB), "G")
    } else if bytes >= MB {
        with_unit(wholes_of(bytes, MB), "M")
    } else if bytes >= KB {
        with_unit(wholes_of(bytes, KB), "K")
    } else {
        with_unit(bytes, "B")
    }
}

fn push_grouped(out: &mut String, n: u64)
    ensures
        final(out)@ == old(out)@ + grouped_digits(n as nat),
    decreases n,
{
    if n < 1000 {
        push_decimal(out, n);
    } else {
        push_grouped(out, n / 1000);
        out.append(",");
        out.append(digit_str((n % 1000) / 100));
        out.append(digit_str((n % 100) / 10));
        out.append(digit_str(n % 10));
        proof {
            reveal_strlit(",");
            assert(","@ =~= seq![',']);
            assert(final(out)@ =~= old(out)@ + grouped_digits(n as nat));
        }
    }
}

/// Format a number with thousands separators, as in `1,234,567`.
pub fn format_count(n: u64) -> (s: String)
    ensures
        s@ == grouped_digits(n as nat),
{
    let mut s = String::new();
    push_grouped(&mut s, n);
    assert(s@ =~= grouped_digits(n as nat));
    s
}

} // verus!
