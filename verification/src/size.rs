//! Sizes in bytes, printed in kibi-, mebi- or gibibytes with two decimals.
//!
//! The text is the one that two-decimal formatting gives for the quotient in double
//! precision: a count of 2^53 bytes or more is first rounded to 53 significant bits, and
//! the quotient is rounded to hundredths. Both roundings go to the nearest value and, from the
//! middle between two values, to the even one.

use vstd::prelude::*;
use crate::decimal::{decimal, two_digits, push_decimal, push_two_digits};
use crate::text::{to_chars, to_text};

verus! {

/// Bytes in a kibibyte.
pub const KB: u64 = 0x400;

/// Bytes in a mebibyte.
pub const MB: u64 = 0x10_0000;

/// Bytes in a gibibyte.
pub const GB: u64 = 0x4000_0000;

/// `n` divided by `unit`, rounded to the nearest whole number, and to the even one where two
/// are equally near.
pub open spec fn half_even(n: nat, unit: nat) -> nat {
    let q = n / unit;
    let r = n % unit;
    if 2 * r > unit || (2 * r == unit && q % 2 == 1) {
        q + 1
    } else {
        q
    }
}

/// The distance between neighbouring numbers of 53 significant bits at `n`, for `n` below 2^64.
pub open spec fn float_unit(n: nat) -> nat {
    if n < 0x20_0000_0000_0000 {
        1
    } else if n < 0x40_0000_0000_0000 {
        2
    } else if n < 0x80_0000_0000_0000 {
        4
    } else if n < 0x100_0000_0000_0000 {
        8
    } else if n < 0x200_0000_0000_0000 {
        16
    } else if n < 0x400_0000_0000_0000 {
        32
    } else if n < 0x800_0000_0000_0000 {
        64
    } else if n < 0x1000_0000_0000_0000 {
        128
    } else if n < 0x2000_0000_0000_0000 {
        256
    } else if n < 0x4000_0000_0000_0000 {
        512
    } else if n < 0x8000_0000_0000_0000 {
        1024
    } else {
        2048
    }
}

/// `n` rounded to 53 significant bits.
pub open spec fn as_double(n: nat) -> nat {
    half_even(n, float_unit(n)) * float_unit(n)
}

/// `n` divided by `unit`, in hundredths.
pub open spec fn hundredths(n: nat, unit: nat) -> nat {
    half_even(n * 100, unit)
}

/// `h` hundredths as a number with two decimals.
pub open spec fn fixed2(h: nat) -> Seq<char> {
    decimal(h / 100) + seq!['.'] + two_digits(h % 100)
}

/// The text for a size of `bytes` bytes.
pub open spec fn size_text(bytes: nat) -> Seq<char> {
    if bytes >= GB {
        fixed2(hundredths(as_double(bytes), GB as nat)) + " GB"@
    } else if bytes >= MB {
        fixed2(hundredths(bytes, MB as nat)) + " MB"@
    } else {
        fixed2(hundredths(bytes, KB as nat)) + " KB"@
    }
}

/// Divides and rounds.
pub fn round_div(n: u128, unit: u128) -> (r: u128)
    requires
        0 < unit <= 0x4000_0000,
        n < 0x1_0000_0000_0000_0000_0000,
    ensures
        r == half_even(n as nat, unit as nat),
{
    let q = n / unit;
    let r = n % unit;
    if 2 * r > unit || (2 * r == unit && q % 2 == 1) {
        q + 1
    } else {
        q
    }
}

/// The distance between neighbouring numbers of 53 significant bits at `n`.
pub fn unit_at(n: u64) -> (r: u64)
    ensures
        r == float_unit(n as nat),
        0 < r <= 2048,
{
    if n < 0x20_0000_0000_0000 {
        1
    } else if n < 0x40_0000_0000_0000 {
        2
    } else if n < 0x80_0000_0000_0000 {
        4
    } else if n < 0x100_0000_0000_0000 {
        8
    } else if n < 0x200_0000_0000_0000 {
        16
    } else if n < 0x400_0000_0000_0000 {
        32
    } else if n < 0x800_0000_0000_0000 {
        64
    } else if n < 0x1000_0000_0000_0000 {
        128
    } else if n < 0x2000_0000_0000_0000 {
        256
    } else if n < 0x4000_0000_0000_0000 {
        512
    } else if n < 0x8000_0000_0000_0000 {
        1024
    } else {
        2048
    }
}

/// What `half_even` gives is a nearest whole number: it is off by half a unit at most, and by
/// exactly half a unit only where it is even.
pub proof fn lemma_half_even_is_nearest(n: nat, unit: nat)
    requires
        unit > 0,
    ensures
        2 * (half_even(n, unit) * unit - n) <= unit,
        2 * (n - half_even(n, unit) * unit) <= unit,
        2 * (half_even(n, unit) * unit - n) == unit || 2 * (n - half_even(n, unit) * unit) == unit
            ==> half_even(n, unit) % 2 == 0,
{
    let q = n / unit;
    let r = n % unit;
    vstd::arithmetic::div_mod::lemma_fundamental_div_mod(n as int, unit as int);
    vstd::arithmetic::div_mod::lemma_mod_bound(n as int, unit as int);
    assert((q + 1) * unit == q * unit + unit) by (nonlinear_arith);
    assert(unit * q == q * unit) by (nonlinear_arith);
}

/// A count below 2^53 has 53 significant bits at most and stays as it is.
pub proof fn lemma_small_counts_are_exact(n: nat)
    requires
        n < 0x20_0000_0000_0000,
    ensures
        as_double(n) == n,
{
}

/// Rounding to 53 significant bits takes a number below 2^64 to 2^64 at most.
pub proof fn lemma_double_bound(n: nat)
    requires
        n < 0x1_0000_0000_0000_0000,
    ensures
        as_double(n) <= 0x1_0000_0000_0000_0000,
{
    let unit = float_unit(n);
    let q = half_even(n, unit);
    if unit == 1 {
        assert(q * unit == q);
    } else if unit == 2 {
        assert(q * unit == q * 2);
    } else if unit == 4 {
        assert(q * unit == q * 4);
    } else if unit == 8 {
        assert(q * unit == q * 8);
    } else if unit == 16 {
        assert(q * unit == q * 16);
    } else if unit == 32 {
        assert(q * unit == q * 32);
    } else if unit == 64 {
        assert(q * unit == q * 64);
    } else if unit == 128 {
        assert(q * unit == q * 128);
    } else if unit == 256 {
        assert(q * unit == q * 256);
    } else if unit == 512 {
        assert(q * unit == q * 512);
    } else if unit == 1024 {
        assert(q * unit == q * 1024);
    } else {
        assert(q * unit == q * 2048);
    }
}

/// Rounds `n` to 53 significant bits.
pub fn to_double(n: u64) -> (r: u128)
    ensures
        r == as_double(n as nat),
        r <= 0x1_0000_0000_0000_0000,
{
    let unit = unit_at(n) as u128;
    let q = round_div(n as u128, unit);
    proof {
        lemma_double_bound(n as nat);
    }
    q * unit
}

/// Appends `h` hundredths as a number with two decimals.
pub fn push_fixed2(out: &mut Vec<char>, h: u64)
    ensures
        final(out)@ == old(out)@ + fixed2(h as nat),
{
    push_decimal(out, h / 100);
    out.push('.');
    push_two_digits(out, h % 100);
}

/// Formats a size for people to read: in gibibytes from one gibibyte on, in mebibytes from one
/// mebibyte on, in kibibytes below, with two decimals each.
pub fn format_size(bytes: u64) -> (r: String)
    ensures
        r@ == size_text(bytes as nat),
{
    let mut out: Vec<char> = Vec::new();
    if bytes >= GB {
        let h = round_div(to_double(bytes) * 100, GB as u128);
        push_fixed2(&mut out, h as u64);
        let mut unit = to_chars(" GB");
        out.append(&mut unit);
    } else if bytes >= MB {
        let h = round_div(bytes as u128 * 100, MB as u128);
        push_fixed2(&mut out, h as u64);
        let mut unit = to_chars(" MB");
        out.append(&mut unit);
    } else {
        let h = round_div(bytes as u128 * 100, KB as u128);
        push_fixed2(&mut out, h as u64);
        let mut unit = to_chars(" KB");
        out.append(&mut unit);
    }
    to_text(&out)
}

} // verus!
