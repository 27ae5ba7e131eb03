//! Calendar timestamps as plain fields, and their fixed render format
//! `YYYY-MM-DD HH:MM:SS UTC`.
//!
//! The surrounding layer converts its clock readings into these fields;
//! the formatting itself is verified here.

use crate::text::{pad2_digits, pad4_digits, u32_pad2, u32_pad4};
use vstd::prelude::*;

verus! {

/// A UTC wall-clock timestamp, split into its calendar fields.
#[derive(Clone, Copy, Debug, PartialEq, Eq, Structural)]
pub struct Timestamp {
    pub year: u32,
    pub month: u32,
    pub day: u32,
    pub hour: u32,
    pub minute: u32,
    pub second: u32,
}

impl Timestamp {
    /// The fields name a representable calendar instant.
    pub open spec fn wf(&self) -> bool {
        &&& self.year <= 9999
        &&& 1 <= self.month <= 12
        &&& 1 <= self.day <= 31
        &&& self.hour <= 23
        &&& self.minute <= 59
        &&& self.second <= 59
    }
}

/// The render form of a timestamp: date and time zero-padded, followed
/// by the UTC marker.
pub open spec fn timestamp_str(t: Timestamp) -> Seq<char> {
    pad4_digits(t.year as int) + seq!['-'] + pad2_digits(t.month as int) + seq!['-'] + pad2_digits(
        t.day as int,
    ) + seq![' '] + pad2_digits(t.hour as int) + seq![':'] + pad2_digits(t.minute as int)
        + seq![':'] + pad2_digits(t.second as int) + " UTC"@
}

/// Renders a timestamp as `YYYY-MM-DD HH:MM:SS UTC`.
pub fn format_timestamp(t: &Timestamp) -> (s: String)
    requires
        t.wf(),
    ensures
        s@ == timestamp_str(*t),
{
    let mut s = u32_pad4(t.year);
    s.append("-");
    let part = u32_pad2(t.month);
    s.append(part.as_str());
    s.append("-");
    let part = u32_pad2(t.day);
    s.append(part.as_str());
    s.append(" ");
    let part = u32_pad2(t.hour);
    s.append(part.as_str());
    s.append(":");
    let part = u32_pad2(t.minute);
    s.append(part.as_str());
    s.append(":");
    let part = u32_pad2(t.second);
    s.append(part.as_str());
    s.append(" UTC");
    proof {
        reveal_strlit("-");
        reveal_strlit(" ");
        reveal_strlit(":");
        assert(s@ =~= timestamp_str(*t));
    }
    s
}

} // verus!
