//! Calendar time for the listing's time column.

use vstd::prelude::*;

verus! {

/// The text that chrono gives for a moment in UTC under a pattern of its
/// `strftime` kind. `None` for a moment that chrono's calendar does not
/// reach, and for a pattern that chrono cannot write out.
pub uninterp spec fn utc_text(secs: i64, nanos: u32, pattern: Seq<char>) -> Option<Seq<char>>;

/// `chrono::DateTime::from_timestamp` for the moment, `DateTime::format` with
/// the pattern, and `DelayedFormat::write_to` for the text. The zone is UTC
/// and no locale is in play, so the text depends on the two numbers and the
/// pattern alone. It is `None` where `from_timestamp` rejects the numbers or
/// `write_to` reports an error. Nothing is claimed of what the text holds.
#[verifier::external_body]
pub(crate) fn utc_text_of(secs: i64, nanos: u32, pattern: &str) -> (text: Option<String>)
    ensures
        match text {
            Some(t) => utc_text(secs, nanos, pattern@) == Some(t@),
            None => utc_text(secs, nanos, pattern@) is None,
        },
{
    let moment = chrono::DateTime::<chrono::Utc>::from_timestamp(secs, nanos)?;
    let mut text = String::new();
    moment.format(pattern).write_to(&mut text).ok()?;
    Some(text)
}

} // verus!
