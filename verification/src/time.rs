//! Timestamps. The clock is read through one trusted call; everything that
//! turns seconds into text is verified.
use vstd::prelude::*;
use crate::num::{spec_dec, spec_dec_pad, push_dec_u64, push_dec_pad};
use crate::text::string_of;

verus! {

/// Relies on `std::time::SystemTime::now` and
/// `SystemTime::duration_since(UNIX_EPOCH)`: the whole seconds since the Unix
/// epoch, zero when the clock reads earlier than the epoch. Nothing can be
/// promised of a clock reading.
#[verifier::external_body]
fn unix_now_secs() -> u64 {
    std::time::SystemTime::now()
        .duration_since(std::time::UNIX_EPOCH)
        .unwrap_or_default()
        .as_secs()
}

/// A raw epoch timestamp: the seconds in decimal followed by `'Z'`.
pub open spec fn spec_secs_string(s: nat) -> Seq<char> {
    spec_dec(s).push('Z')
}

/// The calendar timestamp derived from epoch seconds with whole-number
/// calendar rules: years of 365 days and months of 30 days, the month capped
/// at twelve, formatted `YYYY-MM-DDTHH:MM:SSZ`.
pub open spec fn spec_format_ts(secs: nat) -> Seq<char> {
    let days = secs / 86400;
    let years = 1970 + days / 365;
    let rem = days % 365;
    let month = if rem / 30 + 1 > 12 {
        12nat
    } else {
        rem / 30 + 1
    };
    let day = rem % 30 + 1;
    let hours = (secs % 86400) / 3600;
    let minutes = (secs % 3600) / 60;
    let seconds = secs % 60;
    spec_dec_pad(years, 4) + seq!['-'] + spec_dec_pad(month, 2) + seq!['-'] + spec_dec_pad(day, 2)
        + seq!['T'] + spec_dec_pad(hours, 2) + seq![':'] + spec_dec_pad(minutes, 2) + seq![':']
        + spec_dec_pad(seconds, 2) + seq!['Z']
}

/// The raw epoch form of the given seconds.
pub fn secs_string(secs: u64) -> (r: String)
    ensures
        r@ == spec_secs_string(secs as nat),
{
    let mut out: Vec<char> = Vec::new();
    push_dec_u64(&mut out, secs);
    out.push('Z');
    string_of(&out)
}

/// The calendar form of the given seconds.
pub fn format_timestamp(secs: u64) -> (r: String)
    ensures
        r@ == spec_format_ts(secs as nat),
{
    let days = secs / 86400;
    let years = 1970 + days / 365;
    let rem = days % 365;
    let month0 = rem / 30 + 1;
    let month = if month0 > 12 {
        12
    } else {
        month0
    };
    let day = rem % 30 + 1;
    let hours = (secs % 86400) / 3600;
    let minutes = (secs % 3600) / 60;
    let seconds = secs % 60;
    let mut out: Vec<char> = Vec::new();
    push_dec_pad(&mut out, years, 4);
    out.push('-');
    push_dec_pad(&mut out, month, 2);
    out.push('-');
    push_dec_pad(&mut out, day, 2);
    out.push('T');
    push_dec_pad(&mut out, hours, 2);
    out.push(':');
    push_dec_pad(&mut out, minutes, 2);
    out.push(':');
    push_dec_pad(&mut out, seconds, 2);
    out.push('Z');
    let r = string_of(&out);
    proof {
        assert(r@ =~= spec_format_ts(secs as nat));
    }
    r
}

/// The moment of the call in the raw epoch form, `<seconds>Z`. This is a
/// bare clock reading; a document's timestamp fields always use the calendar
/// form of `generate_timestamp` instead.
pub fn chrono_now() -> (r: String)
    ensures
        exists|s: u64| r@ == spec_secs_string(s as nat),
{
    let now = unix_now_secs();
    let r = secs_string(now);
    proof {
        assert(r@ == spec_secs_string(now as nat));
    }
    r
}

/// The moment of the call in the calendar form, `YYYY-MM-DDTHH:MM:SSZ`.
pub fn generate_timestamp() -> (r: String)
    ensures
        exists|s: u64| r@ == spec_format_ts(s as nat),
{
    let now = unix_now_secs();
    let r = format_timestamp(now);
    proof {
        assert(r@ == spec_format_ts(now as nat));
    }
    r
}

} // verus!
