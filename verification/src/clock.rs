//! Readings of the wall clock and their fixed-width rendering. History
//! entries carry a `YYYY-MM-DD HH:MM:SS` timestamp; capture file names use
//! the millisecond count.

use vstd::prelude::*;

use crate::numfmt::{dec_u64, spec_dec};

verus! {

/// Relies on chrono::Local::now with the Datelike and Timelike accessors:
/// their documentation bounds month to 1..=12, day to 1..=31, hour to 0..=23
/// and minute and second to 0..=59. Nothing else can be promised of a clock
/// reading. chrono stops on a system clock set before the Unix epoch — an
/// environment condition, not an input.
#[verifier::external_body]
pub fn now_parts() -> (r: (u64, u64, u64, u64, u64, u64))
    ensures
        1 <= r.1 <= 12,
        1 <= r.2 <= 31,
        r.3 <= 23,
        r.4 <= 59,
        r.5 <= 59,
{
    let n = chrono::Local::now();
    (
        chrono::Datelike::year(&n) as u64,
        chrono::Datelike::month(&n) as u64,
        chrono::Datelike::day(&n) as u64,
        chrono::Timelike::hour(&n) as u64,
        chrono::Timelike::minute(&n) as u64,
        chrono::Timelike::second(&n) as u64,
    )
}

/// Relies on chrono::Local::now and timestamp_millis: a clock reading, of
/// which nothing is promised beyond being some number. chrono stops on a
/// system clock set before the Unix epoch — an environment condition, not
/// an input.
#[verifier::external_body]
pub fn now_unix_millis() -> (r: u64)
{
    chrono::DateTime::timestamp_millis(&chrono::Local::now()) as u64
}

/// `n` in decimal, zero-padded to at least two digits.
pub open spec fn pad2(n: nat) -> Seq<char> {
    if n < 10 {
        seq!['0'] + spec_dec(n)
    } else {
        spec_dec(n)
    }
}

/// `n` in decimal, zero-padded to at least four digits.
pub open spec fn pad4(n: nat) -> Seq<char> {
    if n < 10 {
        seq!['0', '0', '0'] + spec_dec(n)
    } else if n < 100 {
        seq!['0', '0'] + spec_dec(n)
    } else if n < 1000 {
        seq!['0'] + spec_dec(n)
    } else {
        spec_dec(n)
    }
}

/// The `YYYY-MM-DD HH:MM:SS` rendering of a date and time.
pub open spec fn spec_timestamp(y: nat, mo: nat, d: nat, h: nat, mi: nat, s: nat) -> Seq<char> {
    pad4(y) + seq!['-'] + pad2(mo) + seq!['-'] + pad2(d) + seq![' '] + pad2(h) + seq![':'] + pad2(
        mi,
    ) + seq![':'] + pad2(s)
}

fn pad2_exec(n: u64) -> (r: String)
    ensures
        r@ == pad2(n as nat),
{
    let d = dec_u64(n);
    if n < 10 {
        let mut s = String::from_str("0");
        s.append(d.as_str());
        proof {
            reveal_strlit("0");
            assert(s@ =~= pad2(n as nat));
        }
        s
    } else {
        d
    }
}

fn pad4_exec(n: u64) -> (r: String)
    ensures
        r@ == pad4(n as nat),
{
    let d = dec_u64(n);
    let prefix = if n < 10 {
        "000"
    } else if n < 100 {
        "00"
    } else if n < 1000 {
        "0"
    } else {
        ""
    };
    let mut s = String::from_str(prefix);
    s.append(d.as_str());
    proof {
        reveal_strlit("000");
        reveal_strlit("00");
        reveal_strlit("0");
        reveal_strlit("");
        assert(s@ =~= pad4(n as nat));
    }
    s
}

/// Render a date and time as `YYYY-MM-DD HH:MM:SS`.
pub fn format_timestamp(y: u64, mo: u64, d: u64, h: u64, mi: u64, s: u64) -> (r: String)
    ensures
        r@ == spec_timestamp(y as nat, mo as nat, d as nat, h as nat, mi as nat, s as nat),
{
    let mut out = pad4_exec(y);
    out.append("-");
    let p = pad2_exec(mo);
    out.append(p.as_str());
    out.append("-");
    let p = pad2_exec(d);
    out.append(p.as_str());
    out.append(" ");
    let p = pad2_exec(h);
    out.append(p.as_str());
    out.append(":");
    let p = pad2_exec(mi);
    out.append(p.as_str());
    out.append(":");
    let p = pad2_exec(s);
    out.append(p.as_str());
    proof {
        reveal_strlit("-");
        reveal_strlit(" ");
        reveal_strlit(":");
        assert(out@ =~= spec_timestamp(
            y as nat,
            mo as nat,
            d as nat,
            h as nat,
            mi as nat,
            s as nat,
        ));
    }
    out
}

/// The current local time, rendered as `YYYY-MM-DD HH:MM:SS`.
pub fn timestamp_now() -> (r: String)
    ensures
        exists|y: nat, mo: nat, d: nat, h: nat, mi: nat, s: nat|
            1 <= mo <= 12 && 1 <= d <= 31 && h <= 23 && mi <= 59 && s <= 59 && r@
                == spec_timestamp(y, mo, d, h, mi, s),
{
    let (y, mo, d, h, mi, s) = now_parts();
    let r = format_timestamp(y, mo, d, h, mi, s);
    proof {
        assert(1 <= mo as nat <= 12 && 1 <= d as nat <= 31 && h as nat <= 23 && mi as nat <= 59
            && s as nat <= 59 && r@ == spec_timestamp(
            y as nat,
            mo as nat,
            d as nat,
            h as nat,
            mi as nat,
            s as nat,
        ));
    }
    r
}

} // verus!
