//! Sizes in bytes, written for people.

use crate::text::{decimal, push_decimal, push_str, push_zero_padded, string_of, zero_padded};
use vstd::prelude::*;

verus! {

/// The unit a size is shown in: 0 for bytes, then KB, MB, GB, and 4 for TB.
/// It is the largest unit that the size reaches, and TB above that.
pub open spec fn unit_index(bytes: u64) -> nat {
    if bytes < 1024 {
        0
    } else if bytes < 1048576 {
        1
    } else if bytes < 1073741824 {
        2
    } else if bytes < 1099511627776 {
        3
    } else {
        4
    }
}

/// The number of bytes in the unit `index`: a power of 1024.
pub open spec fn unit_size(index: nat) -> int {
    if index == 0 {
        1
    } else if index == 1 {
        1024
    } else if index == 2 {
        1048576
    } else if index == 3 {
        1073741824
    } else {
        1099511627776
    }
}

/// The name of the unit `index`.
pub open spec fn unit_name(index: nat) -> Seq<char> {
    if index == 0 {
        "B"@
    } else if index == 1 {
        "KB"@
    } else if index == 2 {
        "MB"@
    } else if index == 3 {
        "GB"@
    } else {
        "TB"@
    }
}

/// `n / d` as the nearest whole number; of two that are equally near, the
/// even one.
pub open spec fn nearest(n: int, d: int) -> int {
    let q = n / d;
    let r = n % d;
    if 2 * r > d || (2 * r == d && q % 2 == 1) {
        q + 1
    } else {
        q
    }
}

/// The distance between two neighbouring values that 53 significant bits
/// can hold, at the size `bytes`: 1 below 2^53, and twice as much for each
/// further bit.
pub open spec fn grain(bytes: u64) -> int {
    if bytes < 0x20_0000_0000_0000 {
        1
    } else if bytes < 0x40_0000_0000_0000 {
        2
    } else if bytes < 0x80_0000_0000_0000 {
        4
    } else if bytes < 0x100_0000_0000_0000 {
        8
    } else if bytes < 0x200_0000_0000_0000 {
        16
    } else if bytes < 0x400_0000_0000_0000 {
        32
    } else if bytes < 0x800_0000_0000_0000 {
        64
    } else if bytes < 0x1000_0000_0000_0000 {
        128
    } else if bytes < 0x2000_0000_0000_0000 {
        256
    } else if bytes < 0x4000_0000_0000_0000 {
        512
    } else if bytes < 0x8000_0000_0000_0000 {
        1024
    } else {
        2048
    }
}

/// `bytes` with 53 significant bits: the precision that sizes are shown
/// with. Sizes below 2^53 are exact.
pub open spec fn significant(bytes: u64) -> int {
    nearest(bytes as int, grain(bytes)) * grain(bytes)
}

/// The size in hundredths of its unit, rounded to the nearest.
pub open spec fn hundredths(bytes: u64) -> int {
    nearest(significant(bytes) * 100, unit_size(unit_index(bytes)))
}

/// A size as text: the number of units with two decimals, a space, and the
/// unit; `0 B` for nothing.
pub open spec fn size_text(bytes: u64) -> Seq<char> {
    if bytes == 0 {
        "0 B"@
    } else {
        decimal((hundredths(bytes) / 100) as nat) + "."@ + zero_padded(
            (hundredths(bytes) % 100) as nat,
            2,
        ) + " "@ + unit_name(unit_index(bytes))
    }
}

/// `n / d`, rounded to the nearest whole number, ties to the even one.
fn round_nearest(n: u128, d: u128) -> (q: u128)
    requires
        d > 0,
        n < 0x1_0000_0000_0000_0000_0000,
    ensures
        q == nearest(n as int, d as int),
        q <= n / d + 1,
{
    let q = n / d;
    let r = n % d;
    if r > d - r || (r == d - r && q % 2 == 1) {
        q + 1
    } else {
        q
    }
}

/// `bytes` with 53 significant bits.
fn round_significant(bytes: u64) -> (v: u128)
    ensures
        v == significant(bytes),
        v <= bytes + 2048,
        bytes < 0x20_0000_0000_0000 ==> v == bytes,
{
    let n = bytes as u128;
    if bytes < 0x20_0000_0000_0000 {
        n
    } else if bytes < 0x40_0000_0000_0000 {
        round_nearest(n, 2) * 2
    } else if bytes < 0x80_0000_0000_0000 {
        round_nearest(n, 4) * 4
    } else if bytes < 0x100_0000_0000_0000 {
        round_nearest(n, 8) * 8
    } else if bytes < 0x200_0000_0000_0000 {
        round_nearest(n, 16) * 16
    } else if bytes < 0x400_0000_0000_0000 {
        round_nearest(n, 32) * 32
    } else if bytes < 0x800_0000_0000_0000 {
        round_nearest(n, 64) * 64
    } else if bytes < 0x1000_0000_0000_0000 {
        round_nearest(n, 128) * 128
    } else if bytes < 0x2000_0000_0000_0000 {
        round_nearest(n, 256) * 256
    } else if bytes < 0x4000_0000_0000_0000 {
        round_nearest(n, 512) * 512
    } else if bytes < 0x8000_0000_0000_0000 {
        round_nearest(n, 1024) * 1024
    } else {
        round_nearest(n, 2048) * 2048
    }
}

/// Writes a size for people: in the largest unit that it reaches, from B to
/// TB, with two decimals.
pub fn format_size(bytes: u64) -> (text: String)
    ensures
        text@ == size_text(bytes),
{
    if bytes == 0 {
        return "0 B".to_owned();
    }
    let value = round_significant(bytes);
    let scaled = value * 100;
    let (h, unit): (u128, &str) = if bytes < 1024 {
        (round_nearest(scaled, 1), "B")
    } else if bytes < 1048576 {
        (round_nearest(scaled, 1024), "KB")
    } else if bytes < 1073741824 {
        (round_nearest(scaled, 1048576), "MB")
    } else if bytes < 1099511627776 {
        (round_nearest(scaled, 1073741824), "GB")
    } else {
        (round_nearest(scaled, 1099511627776), "TB")
    };
    assert(h == hundredths(bytes));
    assert(unit@ == unit_name(unit_index(bytes)));
    assert(h < 0x1_0000_0000_0000);
    let mut out: Vec<char> = Vec::new();
    push_decimal(&mut out, (h / 100) as u64);
    push_str(&mut out, ".");
    push_zero_padded(&mut out, (h % 100) as u64, 2);
    push_str(&mut out, " ");
    push_str(&mut out, unit);
    assert(out@ =~= size_text(bytes));
    string_of(&out)
}

} // verus!
