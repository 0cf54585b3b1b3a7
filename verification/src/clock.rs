//! The clock and the calendar. Both come from the `time` crate: this module
//! holds the calls into it, and gives a name to what it writes.

use vstd::prelude::*;

verus! {

/// The text that `time` writes for the moment `nanos` nanoseconds after the
/// Unix epoch, taken in UTC and written after the format description
/// `description`. It is `None` where `time` reports an error: the moment lies
/// outside the years it covers, or it cannot read the description.
pub uninterp spec fn utc_text(nanos: i128, description: Seq<char>) -> Option<Seq<char>>;

/// The text that `time` writes in RFC 3339 for the moment `nanos` nanoseconds
/// after the Unix epoch, taken in UTC. It is `None` where `time` reports an
/// error: the moment lies outside the years 0 to 9999.
pub uninterp spec fn rfc3339_text(nanos: i128) -> Option<Seq<char>>;

/// The moment that `time` reads from the RFC 3339 text `text`, in
/// nanoseconds since the Unix epoch. It is `None` where `time` reports an
/// error: the text is no RFC 3339 date and time.
pub uninterp spec fn rfc3339_moment(text: Seq<char>) -> Option<i128>;

/// `OffsetDateTime::now_utc` and `OffsetDateTime::unix_timestamp` of `time`:
/// the seconds since the Unix epoch on the system clock. Nothing is claimed
/// of the number: it is whatever the clock says. `time` gives up where the
/// clock stands beyond the years that it covers.
#[verifier::external_body]
pub(crate) fn now_unix_timestamp() -> (seconds: i64) {
    time::OffsetDateTime::now_utc().unix_timestamp()
}

/// `OffsetDateTime::now_utc` and `OffsetDateTime::unix_timestamp_nanos` of
/// `time`: the nanoseconds since the Unix epoch on the system clock. Nothing
/// is claimed of the number: it is whatever the clock says. `time` gives up
/// where the clock stands beyond the years that it covers.
#[verifier::external_body]
pub(crate) fn now_unix_nanos() -> (nanos: i128) {
    time::OffsetDateTime::now_utc().unix_timestamp_nanos()
}

/// `OffsetDateTime::format` of `time`, on the moment that
/// `OffsetDateTime::from_unix_timestamp_nanos` makes of `nanos` and with the
/// format that `format_description::parse_borrowed` (version 1) reads from
/// `description`. The text depends on these two alone; it is given the name
/// `utc_text`, and nothing else is claimed of it. An error of any of the
/// three calls gives `None`.
#[verifier::external_body]
pub(crate) fn format_utc(nanos: i128, description: &str) -> (text: Option<String>)
    ensures
        match utc_text(nanos, description@) {
            Some(t) => text is Some && text->0@ == t,
            None => text is None,
        },
{
    let moment = time::OffsetDateTime::from_unix_timestamp_nanos(nanos).ok()?;
    let format = time::format_description::parse_borrowed::<1>(description).ok()?;
    moment.format(&format).ok()
}

/// `OffsetDateTime::format` of `time` with its `Rfc3339` format, on the
/// moment that `OffsetDateTime::from_unix_timestamp_nanos` makes of `nanos`.
/// The text depends on `nanos` alone; it is given the name `rfc3339_text`,
/// and nothing else is claimed of it. An error of either call gives `None`.
#[verifier::external_body]
pub(crate) fn format_rfc3339(nanos: i128) -> (text: Option<String>)
    ensures
        match rfc3339_text(nanos) {
            Some(t) => text is Some && text->0@ == t,
            None => text is None,
        },
{
    let moment = time::OffsetDateTime::from_unix_timestamp_nanos(nanos).ok()?;
    moment.format(&time::format_description::well_known::Rfc3339).ok()
}

/// `OffsetDateTime::parse` of `time` with its `Rfc3339` format, and
/// `OffsetDateTime::unix_timestamp_nanos` on what it reads. The moment
/// depends on `text` alone; it is given the name `rfc3339_moment`, and
/// nothing else is claimed of it. An error of the parser gives `None`.
#[verifier::external_body]
pub(crate) fn parse_rfc3339(text: &str) -> (moment: Option<i128>)
    ensures
        moment == rfc3339_moment(text@),
{
    let read = time::OffsetDateTime::parse(text, &time::format_description::well_known::Rfc3339);
    read.ok().map(|moment| moment.unix_timestamp_nanos())
}

} // verus!
