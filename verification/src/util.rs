//! Small helpers for the display: sizes in words, and a centred rectangle.

use vstd::prelude::*;
use vstd::arithmetic::power2::{lemma2_to64, lemma2_to64_rest, pow2};
use vstd::string::*;
use crate::text::{decimal_string, decimal_text};

verus! {

/// A rectangle of terminal cells.
#[derive(Debug, Clone, Copy, PartialEq, Eq, Structural)]
pub struct Rect {
    pub x: u16,
    pub y: u16,
    pub width: u16,
    pub height: u16,
}

/// The margin on either side of a part of length `part` centred in a
/// length `len`, rounded down; none where the part is longer.
pub open spec fn margin(len: int, part: int) -> int {
    if part <= len {
        (len - part) / 2
    } else {
        0
    }
}

/// `pct` percent of `len`, rounded down.
pub open spec fn percent_of(len: int, pct: int) -> int {
    len * pct / 100
}

/// The rectangle in the middle of `area` that takes `width_pct` percent of
/// its width and `height_pct` percent of its height, each rounded down.
///
/// The products of the sides with their percentages, and the corner of the
/// result, must fit in 16 bits.
pub fn centered_rect(area: Rect, width_pct: u16, height_pct: u16) -> (r: Rect)
    requires
        area.width * width_pct <= u16::MAX,
        area.height * height_pct <= u16::MAX,
        area.x + margin(area.width as int, percent_of(area.width as int, width_pct as int))
            <= u16::MAX,
        area.y + margin(area.height as int, percent_of(area.height as int, height_pct as int))
            <= u16::MAX,
    ensures
        r.width == percent_of(area.width as int, width_pct as int),
        r.height == percent_of(area.height as int, height_pct as int),
        r.x == area.x + margin(area.width as int, r.width as int),
        r.y == area.y + margin(area.height as int, r.height as int),
{
    let w: u16 = area.width * width_pct / 100;
    let h: u16 = area.height * height_pct / 100;
    let x: u16 = area.x + (area.width.saturating_sub(w)) / 2;
    let y: u16 = area.y + (area.height.saturating_sub(h)) / 2;
    Rect { x, y, width: w, height: h }
}

/// Bytes in a KiB.
pub const KIB: u64 = 1024;

/// Bytes in a MiB.
pub const MIB: u64 = 1048576;

/// Bytes in a GiB.
pub const GIB: u64 = 1073741824;

/// From this number on a binary64 float keeps only 53 significant bits, so
/// that it no longer holds every whole number exactly.
pub const EXACT_LIMIT: u64 = 9007199254740992;

/// `num / den` rounded to the nearest whole number, a tie to the even one.
pub open spec fn round_half_even(num: nat, den: nat) -> nat {
    let q = num / den;
    let r = num % den;
    if 2 * r > den || (2 * r == den && q % 2 == 1) {
        q + 1
    } else {
        q
    }
}

/// The spacing of binary64 floats around `n`: 1 below `EXACT_LIMIT`, and
/// doubled with each further bit that `n` needs.
pub open spec fn float_spacing(n: nat) -> nat {
    if n < EXACT_LIMIT {
        1
    } else if n < 2 * EXACT_LIMIT {
        2
    } else if n < 4 * EXACT_LIMIT {
        4
    } else if n < 8 * EXACT_LIMIT {
        8
    } else if n < 16 * EXACT_LIMIT {
        16
    } else if n < 32 * EXACT_LIMIT {
        32
    } else if n < 64 * EXACT_LIMIT {
        64
    } else if n < 128 * EXACT_LIMIT {
        128
    } else if n < 256 * EXACT_LIMIT {
        256
    } else if n < 512 * EXACT_LIMIT {
        512
    } else if n < 1024 * EXACT_LIMIT {
        1024
    } else {
        2048
    }
}

/// The spacing is 1 below `EXACT_LIMIT`. From there on it is the power of
/// two that leaves `n` with 53 significant bits: the `p` with
/// `p * 2^52 <= n < p * 2^53`.
pub proof fn lemma_float_spacing(n: nat)
    requires
        n <= u64::MAX,
    ensures
        n < EXACT_LIMIT ==> float_spacing(n) == 1,
        n >= EXACT_LIMIT ==> exists|k: nat|
            1 <= k <= 11 && float_spacing(n) == #[trigger] pow2(k) && pow2(k) * pow2(52) <= n
                < pow2(k) * pow2(53),
{
    lemma2_to64();
    lemma2_to64_rest();
    if n >= EXACT_LIMIT {
        let p = float_spacing(n);
        let k: nat = if p == 2 {
            1
        } else if p == 4 {
            2
        } else if p == 8 {
            3
        } else if p == 16 {
            4
        } else if p == 32 {
            5
        } else if p == 64 {
            6
        } else if p == 128 {
            7
        } else if p == 256 {
            8
        } else if p == 512 {
            9
        } else if p == 1024 {
            10
        } else {
            11
        };
        assert(p == pow2(k) && pow2(k) * pow2(52) <= n < pow2(k) * pow2(53));
    }
}

/// `n` as a binary64 float holds it: rounded to 53 significant bits, a tie
/// to the even one.
pub open spec fn as_float(n: nat) -> nat {
    round_half_even(n, float_spacing(n)) * float_spacing(n)
}

/// The number of tenths of `unit` in `bytes`, as formatting the quotient of
/// two binary64 floats with one decimal gives it.
pub open spec fn tenths_of(bytes: nat, unit: nat) -> nat {
    round_half_even(as_float(bytes) * 10, unit)
}

/// `tenths` written with one decimal, followed by a space and `suffix`.
pub open spec fn one_decimal_text(tenths: nat, suffix: Seq<char>) -> Seq<char> {
    decimal_text(tenths / 10) + seq!['.'] + decimal_text(tenths % 10) + seq![' '] + suffix
}

/// A number of bytes in words.
pub open spec fn bytes_text(bytes: nat) -> Seq<char> {
    if bytes >= GIB {
        one_decimal_text(tenths_of(bytes, GIB as nat), "GiB"@)
    } else if bytes >= MIB {
        one_decimal_text(tenths_of(bytes, MIB as nat), "MiB"@)
    } else if bytes >= KIB {
        decimal_text(bytes / (KIB as nat)) + " KiB"@
    } else {
        decimal_text(bytes) + " B"@
    }
}

/// The spacing of binary64 floats around `n`.
fn spacing_of(n: u64) -> (spacing: u64)
    ensures
        spacing == float_spacing(n as nat),
        1 <= spacing <= 2048,
{
    if n < EXACT_LIMIT {
        1
    } else if n < 2 * EXACT_LIMIT {
        2
    } else if n < 4 * EXACT_LIMIT {
        4
    } else if n < 8 * EXACT_LIMIT {
        8
    } else if n < 16 * EXACT_LIMIT {
        16
    } else if n < 32 * EXACT_LIMIT {
        32
    } else if n < 64 * EXACT_LIMIT {
        64
    } else if n < 128 * EXACT_LIMIT {
        128
    } else if n < 256 * EXACT_LIMIT {
        256
    } else if n < 512 * EXACT_LIMIT {
        512
    } else if n < 1024 * EXACT_LIMIT {
        1024
    } else {
        2048
    }
}

/// `num / den` rounded to the nearest whole number, a tie to the even one.
fn rounded_quotient(num: u128, den: u128) -> (q: u128)
    requires
        den > 0,
        num <= 0x1_0000_0000_0000_0000_0000,
        den <= 0x1_0000_0000,
    ensures
        q == round_half_even(num as nat, den as nat),
        q <= num / den + 1,
{
    let q: u128 = num / den;
    let r: u128 = num % den;
    if 2 * r > den || (2 * r == den && q % 2 == 1) {
        q + 1
    } else {
        q
    }
}

/// The number of tenths of `unit` in `bytes`.
fn tenths(bytes: u64, unit: u64) -> (t: u64)
    requires
        unit == MIB || unit == GIB,
    ensures
        t == tenths_of(bytes as nat, unit as nat),
{
    let spacing = spacing_of(bytes);
    let kept: u128 = rounded_quotient(bytes as u128, spacing as u128);
    assert(kept * spacing <= 0x1_0000_0000_0000_0000 + 2048) by (nonlinear_arith)
        requires
            kept <= (bytes as int) / (spacing as int) + 1,
            bytes <= 0xffff_ffff_ffff_ffff,
            1 <= spacing <= 2048,
    ;
    let float: u128 = kept * (spacing as u128);
    let t: u128 = rounded_quotient(float * 10, unit as u128);
    t as u64
}

/// `tenths` written with one decimal, followed by a space and `suffix`.
fn one_decimal(tenths: u64, suffix: &str) -> (text: String)
    ensures
        text@ == one_decimal_text(tenths as nat, suffix@),
{
    let mut text = decimal_string(tenths / 10);
    text.append(".");
    text.append(decimal_string(tenths % 10).as_str());
    text.append(" ");
    text.append(suffix);
    proof {
        reveal_strlit(".");
        reveal_strlit(" ");
    }
    text
}

/// Writes a number of bytes in words: in GiB or MiB with one decimal, in
/// KiB rounded down, or in bytes.
pub fn format_bytes(bytes: u64) -> (text: String)
    ensures
        text@ == bytes_text(bytes as nat),
{
    if bytes >= GIB {
        one_decimal(tenths(bytes, GIB), "GiB")
    } else if bytes >= MIB {
        one_decimal(tenths(bytes, MIB), "MiB")
    } else if bytes >= KIB {
        decimal_string(bytes / KIB).concat(" KiB")
    } else {
        decimal_string(bytes).concat(" B")
    }
}

} // verus!
