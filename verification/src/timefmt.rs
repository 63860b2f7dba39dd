//! Trusted boundary to chrono: rendering an epoch-seconds install time as a
//! human-readable timestamp.

use vstd::prelude::*;

verus! {

/// The text that `secs` seconds since the Unix epoch renders to under the
/// `%Y-%m-%d %H:%M:%S` format in UTC. The rendering is a function of the
/// seconds value alone; its definition lives in chrono.
pub uninterp spec fn epoch_display_of(secs: int) -> Seq<char>;

/// Relies on chrono::DateTime::<Utc>::from_timestamp and its `%Y-%m-%d
/// %H:%M:%S` formatter: the rendered text depends on the seconds value
/// alone; every moment from the epoch through the end of year 9999 renders,
/// and an out-of-range seconds value yields nothing.
#[verifier::external_body]
pub fn format_epoch_seconds(secs: i64) -> (r: Option<String>)
    ensures
        (r matches Some(s) ==> s@ == epoch_display_of(secs as int)),
        0 <= secs <= 253402300799 ==> r is Some,
{
    match chrono::DateTime::from_timestamp(secs, 0) {
        Some(dt) => Some(dt.format("%Y-%m-%d %H:%M:%S").to_string()),
        None => None,
    }
}

} // verus!
