//! Instants and durations: the decoded timestamp of a record, the whole-second
//! difference of two instants, and the `(D+HH:MM)` / `(HH:MM)` duration text.

use vstd::arithmetic::div_mod::lemma_fundamental_div_mod_converse;
use vstd::prelude::*;
use vstd::string::StringExecFns;

use crate::textutil::{
    spec_dec_nat, spec_zero_pad2, spec_space_pad2, u64_dec, zero_pad2, space_pad2,
};

verus! {

/// One decoded instant: the seconds and sub-second part of the Unix time,
/// and the calendar fields (already resolved to the local offset) that the
/// report shows.  `secs` is bounded so that the difference of any two
/// instants fits an `i64`; the sub-second part stays below one second.
#[derive(Clone, Copy, PartialEq, Eq, Structural, Debug)]
pub struct Timestamp {
    pub secs: i64,
    pub nanos: u32,
    pub month: u8,
    pub day: u8,
    pub hour: u8,
    pub minute: u8,
}

pub open spec fn wf_timestamp(t: Timestamp) -> bool {
    &&& t.nanos < 1000000000
    &&& -4611686018427387904 <= t.secs <= 4611686018427387903
    &&& 1 <= t.month <= 12
    &&& 1 <= t.day <= 31
    &&& t.hour < 24
    &&& t.minute < 60
}

/// The Unix epoch, the stand-in instant for an unknown reboot or shutdown.
pub open spec fn spec_epoch() -> Timestamp {
    Timestamp { secs: 0, nanos: 0, month: 1, day: 1, hour: 0, minute: 0 }
}

pub fn epoch_timestamp() -> (t: Timestamp)
    ensures
        t == spec_epoch(),
        wf_timestamp(t),
{
    Timestamp { secs: 0, nanos: 0, month: 1, day: 1, hour: 0, minute: 0 }
}

/// `a >= b` as instants (by seconds, then by the sub-second part).
pub open spec fn time_ge(a: Timestamp, b: Timestamp) -> bool {
    a.secs > b.secs || (a.secs == b.secs && a.nanos >= b.nanos)
}

/// Division rounding towards zero, the rounding of `Duration::whole_seconds`.
pub open spec fn trunc_div(a: int, b: int) -> int
    recommends
        b > 0,
{
    if a >= 0 {
        a / b
    } else {
        -((-a) / b)
    }
}

/// The whole seconds, rounded towards zero, of `last - curr`.
pub open spec fn spec_delta_seconds(curr: Timestamp, last: Timestamp) -> int {
    trunc_div(
        (last.secs - curr.secs) * 1000000000 + (last.nanos - curr.nanos),
        1000000000,
    )
}

/// Whole seconds of the duration from `curr_datetime` to `last_datetime`,
/// rounded towards zero; negative when `last` precedes `curr`.
pub fn calculate_time_delta(curr_datetime: &Timestamp, last_datetime: &Timestamp) -> (d: i64)
    requires
        wf_timestamp(*curr_datetime),
        wf_timestamp(*last_datetime),
    ensures
        d as int == spec_delta_seconds(*curr_datetime, *last_datetime),
{
    let ds: i64 = last_datetime.secs - curr_datetime.secs;
    let dn: i64 = (last_datetime.nanos as i64) - (curr_datetime.nanos as i64);
    let d: i64 = if ds > 0 && dn < 0 {
        ds - 1
    } else if ds < 0 && dn > 0 {
        ds + 1
    } else {
        ds
    };
    proof {
        let a: int = (ds as int) * 1000000000 + (dn as int);
        if ds > 0 && dn < 0 {
            assert(a == (ds as int - 1) * 1000000000 + (dn as int + 1000000000));
            lemma_fundamental_div_mod_converse(
                a,
                1000000000,
                ds as int - 1,
                dn as int + 1000000000,
            );
        } else if ds < 0 && dn > 0 {
            assert(-a == (-(ds as int) - 1) * 1000000000 + (1000000000 - dn as int));
            lemma_fundamental_div_mod_converse(
                -a,
                1000000000,
                -(ds as int) - 1,
                1000000000 - dn as int,
            );
        } else if ds >= 0 && dn >= 0 {
            lemma_fundamental_div_mod_converse(a, 1000000000, ds as int, dn as int);
        } else {
            assert(-a == (-(ds as int)) * 1000000000 + (-(dn as int)));
            lemma_fundamental_div_mod_converse(-a, 1000000000, -(ds as int), -(dn as int));
        }
    }
    d
}

/// The rendered duration: `(D+HH:MM)` when at least one whole day and the
/// total is not negative, else `(HH:MM)`; each negative component keeps its
/// minus sign, exactly as two-wide zero-padded formatting renders it.
pub open spec fn spec_duration_string(total: int) -> Seq<char> {
    let mag = if total < 0 { -total } else { total };
    let d = mag / 86400;
    let h = (mag % 86400) / 3600;
    let m = (mag % 3600) / 60;
    if total >= 0 && d > 0 {
        "("@ + spec_dec_nat(d) + "+"@ + spec_zero_pad2(spec_dec_nat(h)) + ":"@ + spec_zero_pad2(
            spec_dec_nat(m),
        ) + ")"@
    } else {
        let hs = if total < 0 && h > 0 {
            "-"@ + spec_dec_nat(h)
        } else {
            spec_dec_nat(h)
        };
        let ms = if total < 0 && m > 0 {
            "-"@ + spec_dec_nat(m)
        } else {
            spec_dec_nat(m)
        };
        "("@ + spec_zero_pad2(hs) + ":"@ + spec_zero_pad2(ms) + ")"@
    }
}

/// Renders a whole-second duration, decomposed into days, hours and minutes.
pub fn duration_string(seconds: i64) -> (r: String)
    ensures
        r@ == spec_duration_string(seconds as int),
{
    let neg = seconds < 0;
    let mag: u64 = if seconds < 0 {
        (-(seconds as i128)) as u64
    } else {
        seconds as u64
    };
    let d: u64 = mag / 86400;
    let h: u64 = (mag % 86400) / 3600;
    let m: u64 = (mag % 3600) / 60;
    if !neg && d > 0 {
        let mut r = String::from_str("(");
        let ds = u64_dec(d);
        r.append(ds.as_str());
        r.append("+");
        let hs = u64_dec(h);
        let hp = zero_pad2(hs.as_str());
        r.append(hp.as_str());
        r.append(":");
        let ms = u64_dec(m);
        let mp = zero_pad2(ms.as_str());
        r.append(mp.as_str());
        r.append(")");
        proof {
            assert(r@ =~= spec_duration_string(seconds as int));
        }
        r
    } else {
        let hs = if neg && h > 0 {
            let mut t = String::from_str("-");
            let td = u64_dec(h);
            t.append(td.as_str());
            t
        } else {
            u64_dec(h)
        };
        let ms = if neg && m > 0 {
            let mut t = String::from_str("-");
            let td = u64_dec(m);
            t.append(td.as_str());
            t
        } else {
            u64_dec(m)
        };
        let mut r = String::from_str("(");
        let hp = zero_pad2(hs.as_str());
        r.append(hp.as_str());
        r.append(":");
        let mp = zero_pad2(ms.as_str());
        r.append(mp.as_str());
        r.append(")");
        proof {
            assert(r@ =~= spec_duration_string(seconds as int));
        }
        r
    }
}

/// The fixed English three-letter month token.
pub open spec fn spec_month_abbrev(m: int) -> Seq<char>
    recommends
        1 <= m <= 12,
{
    if m == 1 {
        "Jan"@
    } else if m == 2 {
        "Feb"@
    } else if m == 3 {
        "Mar"@
    } else if m == 4 {
        "Apr"@
    } else if m == 5 {
        "May"@
    } else if m == 6 {
        "Jun"@
    } else if m == 7 {
        "Jul"@
    } else if m == 8 {
        "Aug"@
    } else if m == 9 {
        "Sep"@
    } else if m == 10 {
        "Oct"@
    } else if m == 11 {
        "Nov"@
    } else {
        "Dec"@
    }
}

pub fn month_abbrev(m: u8) -> (r: String)
    requires
        1 <= m <= 12,
    ensures
        r@ == spec_month_abbrev(m as int),
{
    match m {
        1 => String::from_str("Jan"),
        2 => String::from_str("Feb"),
        3 => String::from_str("Mar"),
        4 => String::from_str("Apr"),
        5 => String::from_str("May"),
        6 => String::from_str("Jun"),
        7 => String::from_str("Jul"),
        8 => String::from_str("Aug"),
        9 => String::from_str("Sep"),
        10 => String::from_str("Oct"),
        11 => String::from_str("Nov"),
        _ => String::from_str("Dec"),
    }
}

/// The `HH:MM` clock text of an instant's calendar fields.
pub open spec fn spec_clock_string(t: Timestamp) -> Seq<char> {
    spec_zero_pad2(spec_dec_nat(t.hour as int)) + ":"@ + spec_zero_pad2(
        spec_dec_nat(t.minute as int),
    )
}

pub fn clock_string(t: &Timestamp) -> (r: String)
    requires
        wf_timestamp(*t),
    ensures
        r@ == spec_clock_string(*t),
{
    let hs = u64_dec(t.hour as u64);
    let mut r = zero_pad2(hs.as_str());
    r.append(":");
    let ms = u64_dec(t.minute as u64);
    let mp = zero_pad2(ms.as_str());
    r.append(mp.as_str());
    proof {
        assert(r@ =~= spec_clock_string(*t));
    }
    r
}

/// The start-time text in the fixed pattern: short month name, space-padded
/// day, then the 24-hour clock, as in `Sep  5 14:03`.
pub open spec fn spec_start_time_string(t: Timestamp) -> Seq<char> {
    spec_month_abbrev(t.month as int) + " "@ + spec_space_pad2(spec_dec_nat(t.day as int)) + " "@
        + spec_clock_string(t)
}

pub fn start_time_string(t: &Timestamp) -> (r: String)
    requires
        wf_timestamp(*t),
    ensures
        r@ == spec_start_time_string(*t),
{
    let mut r = month_abbrev(t.month);
    r.append(" ");
    let ds = u64_dec(t.day as u64);
    let dp = space_pad2(ds.as_str());
    r.append(dp.as_str());
    r.append(" ");
    let cs = clock_string(t);
    r.append(cs.as_str());
    proof {
        assert(r@ =~= spec_start_time_string(*t));
    }
    r
}

} // verus!
