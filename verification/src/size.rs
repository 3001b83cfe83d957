//! Sizes in bytes, written with a binary unit.
//!
//! A size is first brought to the nearest number with at most 53 significant
//! bits. It is then divided by the largest power of 1024 that leaves at least
//! one, up to tebibytes, and rounded to a fixed number of decimal places.

use vstd::prelude::*;
use crate::text::{decimal, decimal_of, digit};

verus! {

/// The integer nearest to `n / d`; of two that are equally near, the even one.
pub open spec fn round_half_even(n: nat, d: nat) -> nat {
    let q = n / d;
    let r = n % d;
    if 2 * r < d || (2 * r == d && q % 2 == 0) {
        q
    } else {
        q + 1
    }
}

/// `round_half_even` is at most half a unit away from the quotient.
pub proof fn lemma_round_is_nearest(n: nat, d: nat)
    requires
        d > 0,
    ensures
        -(d as int) <= 2 * (round_half_even(n, d) * d - n) <= d,
{
    vstd::arithmetic::div_mod::lemma_fundamental_div_mod(n as int, d as int);
    let q = n / d;
    assert((q + 1) * d == q * d + d) by (nonlinear_arith);
    assert(d * q == q * d) by (nonlinear_arith);
}

/// The value of the last binary place of `n` that 53 significant bits can keep.
pub open spec fn last_place(n: nat) -> nat
    decreases n,
{
    if n < 0x20_0000_0000_0000 {
        1
    } else {
        2 * last_place(n / 2)
    }
}

/// The number nearest to `n` that has at most 53 significant bits.
pub open spec fn nearest_double(n: nat) -> nat {
    round_half_even(n, last_place(n)) * last_place(n)
}

/// How many times 1024 divides into `n`, four times at most.
pub open spec fn unit_index(n: nat) -> nat {
    if n < 0x400 {
        0
    } else if n < 0x10_0000 {
        1
    } else if n < 0x4000_0000 {
        2
    } else if n < 0x100_0000_0000 {
        3
    } else {
        4
    }
}

/// The number of bytes in the unit with this index.
pub open spec fn unit_bytes(index: nat) -> nat {
    if index == 0 {
        1
    } else if index == 1 {
        0x400
    } else if index == 2 {
        0x10_0000
    } else if index == 3 {
        0x4000_0000
    } else {
        0x100_0000_0000
    }
}

/// The name of the unit with this index.
pub open spec fn unit_name(index: nat) -> Seq<char> {
    if index == 0 {
        "B"@
    } else if index == 1 {
        "KiB"@
    } else if index == 2 {
        "MiB"@
    } else if index == 3 {
        "GiB"@
    } else {
        "TiB"@
    }
}

/// `bytes` with one decimal place and a unit.
pub open spec fn size_with_one_place(bytes: nat) -> Seq<char> {
    let n = nearest_double(bytes);
    let tenths = round_half_even(n * 10, unit_bytes(unit_index(n)));
    decimal(tenths / 10) + "."@ + seq![digit(tenths % 10)] + " "@ + unit_name(unit_index(n))
}

/// `bytes` with two decimal places and a unit.
pub open spec fn size_with_two_places(bytes: nat) -> Seq<char> {
    let n = nearest_double(bytes);
    let hundredths = round_half_even(n * 100, unit_bytes(unit_index(n)));
    decimal(hundredths / 100) + "."@ + seq![
        digit(hundredths / 10 % 10),
        digit(hundredths % 10),
    ] + " "@ + unit_name(unit_index(n))
}

fn rounded(n: u128, d: u128) -> (r: u128)
    requires
        0 < d <= 0x100_0000_0000,
        n <= 0x100_0000_0000_0000_0000,
    ensures
        r == round_half_even(n as nat, d as nat),
        r <= n + 1,
{
    let q: u128 = n / d;
    let rest: u128 = n % d;
    proof {
        vstd::arithmetic::div_mod::lemma_div_is_ordered_by_denominator(n as int, 1, d as int);
        vstd::arithmetic::div_mod::lemma_mod_bound(n as int, d as int);
    }
    if 2 * rest < d || (2 * rest == d && q % 2 == 0) {
        q
    } else {
        q + 1
    }
}

fn place_of(n: u64) -> (r: u64)
    ensures
        r == last_place(n as nat),
        r == 1 || r * 0x10_0000_0000_0000 <= n,
        0 < r <= 4096,
    decreases n,
{
    if n < 0x20_0000_0000_0000 {
        1
    } else {
        2 * place_of(n / 2)
    }
}

fn to_double(n: u64) -> (r: u128)
    ensures
        r == nearest_double(n as nat),
        r <= 0x2_0000_0000_0000_0000,
{
    let place: u128 = place_of(n) as u128;
    let count: u128 = rounded(n as u128, place);
    proof {
        lemma_round_is_nearest(n as nat, place as nat);
        assert(count * place <= n + place);
    }
    count * place
}

fn unit_of(n: u128) -> (r: usize)
    ensures
        r == unit_index(n as nat),
{
    if n < 0x400 {
        0
    } else if n < 0x10_0000 {
        1
    } else if n < 0x4000_0000 {
        2
    } else if n < 0x100_0000_0000 {
        3
    } else {
        4
    }
}

fn bytes_of_unit(index: usize) -> (r: u128)
    ensures
        r == unit_bytes(index as nat),
{
    if index == 0 {
        1
    } else if index == 1 {
        0x400
    } else if index == 2 {
        0x10_0000
    } else if index == 3 {
        0x4000_0000
    } else {
        0x100_0000_0000
    }
}

fn name_of_unit(index: usize) -> (r: &'static str)
    ensures
        r@ == unit_name(index as nat),
{
    if index == 0 {
        "B"
    } else if index == 1 {
        "KiB"
    } else if index == 2 {
        "MiB"
    } else if index == 3 {
        "GiB"
    } else {
        "TiB"
    }
}

/// The size in the unit that is found for it, in parts of `scale` to the unit,
/// and the index of that unit.
fn scaled(bytes: u64, scale: u128) -> (r: (u64, usize))
    requires
        scale == 10 || scale == 100,
    ensures
        r.1 == unit_index(nearest_double(bytes as nat)),
        r.0 == round_half_even(
            nearest_double(bytes as nat) * scale as nat,
            unit_bytes(unit_index(nearest_double(bytes as nat))),
        ),
{
    let n: u128 = to_double(bytes);
    let unit: usize = unit_of(n);
    let size: u128 = bytes_of_unit(unit);
    let parts: u128 = rounded(n * scale, size);
    proof {
        lemma_round_is_nearest((n * scale) as nat, size as nat);
        let total = n * scale;
        assert(2 * (parts * size - total) <= size);
        if unit < 4 {
            assert(n < size * 1024);
            assert(total <= n * 100);
            assert(parts <= 1000000) by (nonlinear_arith)
                requires
                    2 * (parts * size - total) <= size,
                    total <= n * 100,
                    n < size * 1024,
                    size > 0,
            ;
        } else {
            assert(parts <= 0x1_0000_0000_0000) by (nonlinear_arith)
                requires
                    2 * (parts * size - total) <= size,
                    total <= 0x2_0000_0000_0000_0000 * 100,
                    size == 0x100_0000_0000,
            ;
        }
    }
    (parts as u64, unit)
}

fn digit_char(d: u64) -> (r: char)
    requires
        d < 10,
    ensures
        r == digit(d as nat),
{
    (48 + d as u8) as char
}

/// `bytes` with one decimal place and a unit, such as `1.5 MiB`.
pub fn format_size(bytes: u64) -> (r: String)
    ensures
        r@ == size_with_one_place(bytes as nat),
{
    let (tenths, unit) = scaled(bytes, 10);
    let mut r = decimal_of(tenths / 10);
    r.append(".");
    let ghost so_far = r@;
    r.push(digit_char(tenths % 10));
    assert(r@ == so_far + seq![digit((tenths % 10) as nat)]);
    r.append(" ");
    r.append(name_of_unit(unit));
    r
}

/// `bytes` with two decimal places and a unit, such as `1.50 MiB`.
pub fn humansize(bytes: u64) -> (r: String)
    ensures
        r@ == size_with_two_places(bytes as nat),
{
    let (hundredths, unit) = scaled(bytes, 100);
    let mut r = decimal_of(hundredths / 100);
    r.append(".");
    let ghost so_far = r@;
    r.push(digit_char(hundredths / 10 % 10));
    r.push(digit_char(hundredths % 10));
    assert(r@ == so_far + seq![
        digit((hundredths / 10 % 10) as nat),
        digit((hundredths % 10) as nat),
    ]);
    r.append(" ");
    r.append(name_of_unit(unit));
    r
}

} // verus!
