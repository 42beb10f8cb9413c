use vstd::prelude::*;

use crate::numfmt::{spec_dec_pad, u64_to_dec_pad};

verus! {

/// A modification time broken down into local calendar fields.
pub struct DateFields {
    pub year: i32,
    pub month: u8,
    pub day: u8,
    pub hour: u8,
    pub minute: u8,
}

impl DateFields {
    /// Ranges the calendar guarantees for every broken-down time.
    pub open spec fn wf(self) -> bool {
        &&& -9999 <= self.year <= 9999
        &&& 1 <= self.month <= 12
        &&& 1 <= self.day <= 31
        &&& self.hour < 24
        &&& self.minute < 60
    }
}

/// The earliest second count a stamp can be built from:
/// -9999-01-01 00:00:00 UTC, the floor of the calendar backing it.
pub const MIN_STAMP_SECS: i64 = -377705116800;

/// The latest second count a stamp can be built from:
/// 9999-12-31 23:59:59 UTC, the ceiling of the calendar backing it.
pub const MAX_STAMP_SECS: i64 = 253402300799;

/// Relies on time::OffsetDateTime: from_unix_timestamp accepts exactly
/// the second counts whose UTC date lies in years -9999..=9999 (the
/// bounds above), and year/month/day/hour/minute return calendar fields
/// in their documented ranges. The fields are taken in the machine's
/// local offset where that is known and where the shift stays inside
/// the calendar (checked_to_offset), in UTC otherwise, so nothing more
/// than their ranges is promised of them.
#[verifier::external_body]
pub fn local_date_fields(unix_secs: i64) -> (r: Option<DateFields>)
    ensures
        r is Some <==> MIN_STAMP_SECS <= unix_secs <= MAX_STAMP_SECS,
        r matches Some(f) ==> f.wf(),
{
    let utc = match time::OffsetDateTime::from_unix_timestamp(unix_secs) {
        Ok(d) => d,
        Err(_) => return None,
    };
    let dt = match time::UtcOffset::current_local_offset() {
        Ok(o) => utc.checked_to_offset(o).unwrap_or(utc),
        Err(_) => utc,
    };
    Some(DateFields {
        year: dt.year(),
        month: dt.month() as u8,
        day: dt.day(),
        hour: dt.hour(),
        minute: dt.minute(),
    })
}

/// A year, zero-padded to four characters, with a leading minus sign
/// for years before year zero.
pub open spec fn spec_year(y: int) -> Seq<char> {
    if y >= 0 {
        spec_dec_pad(y as nat, 4)
    } else {
        seq!['-'] + spec_dec_pad((-y) as nat, 3)
    }
}

/// The `YYYY-MM-DD HH:MM` rendering of a broken-down time.
pub open spec fn spec_stamp(f: DateFields) -> Seq<char> {
    spec_year(f.year as int) + seq!['-'] + spec_dec_pad(f.month as nat, 2) + seq!['-']
        + spec_dec_pad(f.day as nat, 2) + seq![' '] + spec_dec_pad(f.hour as nat, 2) + seq![':']
        + spec_dec_pad(f.minute as nat, 2)
}

/// Render a modification time as `YYYY-MM-DD HH:MM`.
pub fn format_stamp(f: &DateFields) -> (s: String)
    requires
        f.wf(),
    ensures
        s@ == spec_stamp(*f),
{
    let mut s = if f.year >= 0 {
        u64_to_dec_pad(f.year as u64, 4)
    } else {
        proof {
            reveal_strlit("-");
        }
        let mut t = String::from_str("-");
        let rest = u64_to_dec_pad((-(f.year as i64)) as u64, 3);
        t.append(rest.as_str());
        proof {
            assert(t@ =~= spec_year(f.year as int));
        }
        t
    };
    proof {
        reveal_strlit("-");
        reveal_strlit(" ");
        reveal_strlit(":");
    }
    s.append("-");
    let part = u64_to_dec_pad(f.month as u64, 2);
    s.append(part.as_str());
    s.append("-");
    let part = u64_to_dec_pad(f.day as u64, 2);
    s.append(part.as_str());
    s.append(" ");
    let part = u64_to_dec_pad(f.hour as u64, 2);
    s.append(part.as_str());
    s.append(":");
    let part = u64_to_dec_pad(f.minute as u64, 2);
    s.append(part.as_str());
    proof {
        assert(s@ =~= spec_stamp(*f));
    }
    s
}

} // verus!
