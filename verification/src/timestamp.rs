//! Timestamps: milliseconds since the Unix epoch, with a calendar
//! rendering for the human-readable report format.

use vstd::prelude::*;

use crate::text::ascii_chars;
use crate::text::dec_bytes;
use crate::text::is_ascii_seq;
use crate::text::pad_left;
use crate::text::string_from_ascii;
use crate::text::append_padded_left;
use crate::text::append_u64_decimal;

verus! {

/// A point in time, in whole milliseconds since the Unix epoch.
#[derive(Clone, Copy, Debug, PartialEq, Eq, Structural)]
pub struct Timestamp {
    pub millis: u64,
}

/// The civil (year, month, day) of a day count since 1970-01-01, using the
/// Gregorian calendar.  Subtractions are guarded so the function is total;
/// the guards never fire for day counts that arise from a `u64` of
/// milliseconds.
pub open spec fn spec_civil_date(days: nat) -> (nat, nat, nat) {
    let z = days + 719468;
    let era = z / 146097;
    let doe = z % 146097;
    let adj = doe / 1460 + doe / 146096;
    let cent = doe / 36524;
    let yoe = if adj <= doe + cent { (doe + cent - adj) / 365 } else { 0 };
    let ydays = if yoe / 4 + 365 * yoe <= doe + yoe / 100 {
        (doe + yoe / 100 - yoe / 4 - 365 * yoe) as nat
    } else {
        0
    };
    let mp = (5 * ydays + 2) / 153;
    let moff = (153 * mp + 2) / 5;
    let d = if moff <= ydays { ydays - moff + 1 } else { 1 };
    let m = if mp < 10 { mp + 3 } else { (mp - 9) as nat };
    let y = if m <= 2 { era * 400 + yoe + 1 } else { era * 400 + yoe };
    (y as nat, m, d as nat)
}

/// The calendar rendering `YYYY-MM-DD HH:MM:SS UTC` of a timestamp (years
/// run to more digits when they need them).
pub open spec fn spec_standard_format(millis: u64) -> Seq<u8> {
    let days = millis as nat / 86400000;
    let secs = (millis as nat / 1000) % 86400;
    let date = spec_civil_date(days);
    pad_left(dec_bytes(date.0), 4, 48) + seq![45u8] + pad_left(dec_bytes(date.1), 2, 48)
        + seq![45u8] + pad_left(dec_bytes(date.2), 2, 48) + seq![32u8] + pad_left(
        dec_bytes(secs / 3600),
        2,
        48,
    ) + seq![58u8] + pad_left(dec_bytes((secs / 60) % 60), 2, 48) + seq![58u8] + pad_left(
        dec_bytes(secs % 60),
        2,
        48,
    ) + seq![32u8, 85u8, 84u8, 67u8]
}

/// Append the decimal rendering of `n`, left-padded with zeros to `w`.
fn append_zero_padded(out: &mut Vec<u8>, n: u64, w: usize)
    ensures
        final(out)@ == old(out)@ + pad_left(dec_bytes(n as nat), w as nat, 48),
        is_ascii_seq(old(out)@) ==> is_ascii_seq(final(out)@),
{
    let mut digits: Vec<u8> = Vec::new();
    append_u64_decimal(&mut digits, n);
    append_padded_left(out, &digits, w, 48);
}

impl Timestamp {
    /// The timestamp `millis` milliseconds after the Unix epoch.
    pub fn new(millis: u64) -> (r: Self)
        ensures
            r.millis == millis,
    {
        Timestamp { millis }
    }

    /// The latest representable timestamp.
    pub fn max_timestamp() -> (r: Self)
        ensures
            r.millis == u64::MAX,
    {
        Timestamp { millis: u64::MAX }
    }

    /// The timestamp in milliseconds since the Unix epoch.
    pub fn to_millis(&self) -> (r: u64)
        ensures
            r == self.millis,
    {
        self.millis
    }

    /// The calendar rendering, as bytes.
    #[verifier::rlimit(100)]
    pub fn standard_format_bytes(&self) -> (r: Vec<u8>)
        ensures
            r@ == spec_standard_format(self.millis),
            is_ascii_seq(r@),
    {
        let days = self.millis / 86400000;
        let secs = (self.millis / 1000) % 86400;

        let z = days + 719468;
        let era = z / 146097;
        let doe = z % 146097;
        let adj = doe / 1460 + doe / 146096;
        let cent = doe / 36524;
        let yoe = if adj <= doe + cent {
            (doe + cent - adj) / 365
        } else {
            0
        };
        let ydays = if yoe / 4 + 365 * yoe <= doe + yoe / 100 {
            doe + yoe / 100 - yoe / 4 - 365 * yoe
        } else {
            0
        };
        let mp = (5 * ydays + 2) / 153;
        let moff = (153 * mp + 2) / 5;
        let d = if moff <= ydays {
            ydays - moff + 1
        } else {
            1
        };
        let m = if mp < 10 {
            mp + 3
        } else {
            mp - 9
        };
        let y = if m <= 2 {
            era * 400 + yoe + 1
        } else {
            era * 400 + yoe
        };

        let mut out: Vec<u8> = Vec::new();
        append_zero_padded(&mut out, y, 4);
        out.push(45);
        append_zero_padded(&mut out, m, 2);
        out.push(45);
        append_zero_padded(&mut out, d, 2);
        out.push(32);
        append_zero_padded(&mut out, secs / 3600, 2);
        out.push(58);
        append_zero_padded(&mut out, (secs / 60) % 60, 2);
        out.push(58);
        append_zero_padded(&mut out, secs % 60, 2);
        out.push(32);
        out.push(85);
        out.push(84);
        out.push(67);
        proof {
            let date = spec_civil_date(self.millis as nat / 86400000);
            assert(y as nat == date.0);
            assert(m as nat == date.1);
            assert(d as nat == date.2);
            assert(secs as nat == (self.millis as nat / 1000) % 86400);
            assert(out@ =~= spec_standard_format(self.millis));
        }
        out
    }

    /// The calendar rendering `YYYY-MM-DD HH:MM:SS UTC`.
    pub fn standard_format(&self) -> (r: String)
        ensures
            r@ == ascii_chars(spec_standard_format(self.millis)),
    {
        string_from_ascii(self.standard_format_bytes())
    }
}

} // verus!
