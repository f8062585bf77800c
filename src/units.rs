//! Human-readable sizes, bitrates and clock times.

use vstd::prelude::*;
use vstd::string::StringExecFns;
use crate::text::{decimal, push_decimal, push_zero_padded, zero_padded};

verus! {

/// `v / unit` in hundredths, rounded to the nearest, ties to even.
pub open spec fn hundredths(v: nat, unit: nat) -> nat
    recommends
        unit > 0,
{
    let q = v * 100 / unit;
    let rem = v * 100 % unit;
    if 2 * rem > unit || (2 * rem == unit && q % 2 == 1) {
        q + 1
    } else {
        q
    }
}

/// `h` hundredths written with two decimals.
pub open spec fn two_decimals(h: nat) -> Seq<char> {
    decimal(h / 100) + "."@ + zero_padded(h % 100, 2)
}

fn push_scaled(out: &mut String, v: u64, unit: u64)
    requires
        unit >= 1000,
    ensures
        final(out)@ == old(out)@ + two_decimals(hundredths(v as nat, unit as nat)),
{
    let scaled: u128 = v as u128 * 100;
    let q: u128 = scaled / unit as u128;
    let rem: u128 = scaled % unit as u128;
    let h: u128 = if 2 * rem > unit as u128 || (2 * rem == unit as u128 && q % 2 == 1) {
        q + 1
    } else {
        q
    };
    proof {
        let (vv, uu) = (v as int, unit as int);
        assert(vv * 100 / uu <= vv / 10) by (nonlinear_arith)
            requires vv >= 0, uu >= 1000;
        assert(h as nat == hundredths(v as nat, unit as nat));
        reveal_strlit(".");
    }
    let h64: u64 = h as u64;
    push_decimal(out, h64 / 100);
    out.append(".");
    push_zero_padded(out, h64 % 100, 2);
    assert(final(out)@ =~= old(out)@ + two_decimals(hundredths(v as nat, unit as nat)));
}

pub open spec fn size_text(bytes: nat) -> Seq<char> {
    let kb: nat = 1024;
    if bytes >= kb * kb * kb {
        two_decimals(hundredths(bytes, kb * kb * kb)) + " GB"@
    } else if bytes >= kb * kb {
        two_decimals(hundredths(bytes, kb * kb)) + " MB"@
    } else if bytes >= kb {
        two_decimals(hundredths(bytes, kb)) + " KB"@
    } else {
        decimal(bytes) + " B"@
    }
}

/// A byte count in B, or in KB, MB or GB (powers of 1024) with two
/// decimals.
pub fn format_size(bytes: u64) -> (r: String)
    ensures
        r@ == size_text(bytes as nat),
{
    let kb: u64 = 1024;
    let mut s = String::new();
    if bytes >= kb * kb * kb {
        push_scaled(&mut s, bytes, kb * kb * kb);
        s.append(" GB");
    } else if bytes >= kb * kb {
        push_scaled(&mut s, bytes, kb * kb);
        s.append(" MB");
    } else if bytes >= kb {
        push_scaled(&mut s, bytes, kb);
        s.append(" KB");
    } else {
        push_decimal(&mut s, bytes);
        s.append(" B");
    }
    s
}

pub open spec fn bitrate_text(bps: nat) -> Seq<char> {
    if bps >= 1_000_000 {
        two_decimals(hundredths(bps, 1_000_000)) + " Mbps"@
    } else if bps >= 1000 {
        two_decimals(hundredths(bps, 1000)) + " Kbps"@
    } else {
        decimal(bps) + " bps"@
    }
}

/// A bitrate in bps, or in Kbps or Mbps (powers of 1000) with two decimals.
pub fn format_bitrate(bps: u64) -> (r: String)
    ensures
        r@ == bitrate_text(bps as nat),
{
    let mut s = String::new();
    if bps >= 1_000_000 {
        push_scaled(&mut s, bps, 1_000_000);
        s.append(" Mbps");
    } else if bps >= 1000 {
        push_scaled(&mut s, bps, 1000);
        s.append(" Kbps");
    } else {
        push_decimal(&mut s, bps);
        s.append(" bps");
    }
    s
}

/// `MM:SS.mmm`, or `HH:MM:SS.mmm` from one hour on.
pub open spec fn time_text(ms: nat) -> Seq<char> {
    let total = ms / 1000;
    let hours = total / 3600;
    let rest = zero_padded((total % 3600) / 60, 2) + ":"@ + zero_padded(total % 60, 2) + "."@
        + zero_padded(ms % 1000, 3);
    if hours > 0 {
        zero_padded(hours, 2) + ":"@ + rest
    } else {
        rest
    }
}

/// A time in milliseconds as a clock reading.
pub fn format_time(ms: u64) -> (r: String)
    ensures
        r@ == time_text(ms as nat),
{
    let total = ms / 1000;
    let hours = total / 3600;
    let mut s = String::new();
    if hours > 0 {
        push_zero_padded(&mut s, hours, 2);
        s.append(":");
    }
    push_zero_padded(&mut s, (total % 3600) / 60, 2);
    s.append(":");
    push_zero_padded(&mut s, total % 60, 2);
    s.append(".");
    push_zero_padded(&mut s, ms % 1000, 3);
    s
}

} // verus!
