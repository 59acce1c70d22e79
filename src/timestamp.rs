use vstd::prelude::*;

verus! {

/// One clock value of a file, as the filesystem gave it.
pub enum ClockReading {
    /// Whole seconds since the Unix epoch.
    Secs(u64),
    /// The clock is set before the epoch; the text says why it was refused.
    BeforeEpoch(String),
    /// The platform or the filesystem does not keep this clock; the text says why.
    Unavailable(String),
}

/// The RFC 3339 text that chrono writes for a UTC instant given in whole seconds
/// since the epoch, or `None` where that instant is outside chrono's calendar.
pub uninterp spec fn rfc3339_of_secs(secs: i64) -> Option<Seq<char>>;

/// Relies on chrono's `DateTime::from_timestamp` (which yields `None` on an
/// out-of-range number of seconds) and `DateTime::to_rfc3339`, which formats the
/// instant with its `+00:00` offset.
#[verifier::external_body]
fn rfc3339_at(secs: i64) -> (r: Option<String>)
    ensures
        r is None <==> rfc3339_of_secs(secs) is None,
        r matches Some(t) ==> rfc3339_of_secs(secs) == Some(t@),
{
    match chrono::DateTime::from_timestamp(secs, 0) {
        Some(d) => Some(d.to_rfc3339()),
        None => None,
    }
}

/// The clock a creation time is read from: the creation clock, unless the platform
/// does not keep one, and then the modification clock.
pub open spec fn chosen_clock(created: ClockReading, modified: ClockReading) -> ClockReading {
    if created is Unavailable {
        modified
    } else {
        created
    }
}

/// The seconds of a clock reading, or the text of why there are none.
pub open spec fn reading_secs(reading: ClockReading) -> Result<u64, Seq<char>> {
    match reading {
        ClockReading::Secs(s) => Ok(s),
        ClockReading::BeforeEpoch(m) => Err(m@),
        ClockReading::Unavailable(m) => Err(m@),
    }
}

/// The text of a creation time of `secs` seconds, where `now` is the current time's
/// text: chrono's RFC 3339 text of that instant, or `now` where chrono cannot place
/// it on its calendar.
pub open spec fn created_text(secs: u64, now: Seq<char>) -> Seq<char> {
    if secs <= i64::MAX && rfc3339_of_secs(secs as i64) is Some {
        rfc3339_of_secs(secs as i64)->0
    } else {
        now
    }
}

/// The resolved creation time of an entry, or the text of the error that stops it.
pub open spec fn resolved_created(created: ClockReading, modified: ClockReading, now: Seq<char>) -> Result<Seq<char>, Seq<char>> {
    match reading_secs(chosen_clock(created, modified)) {
        Ok(secs) => Ok(created_text(secs, now)),
        Err(m) => Err(m),
    }
}

/// Formats `secs` seconds since the epoch, falling back to `now` where the instant
/// has no calendar date.
pub fn format_created(secs: u64, now: &String) -> (r: String)
    ensures
        r@ == created_text(secs, now@),
{
    if secs > i64::MAX as u64 {
        return now.clone();
    }
    match rfc3339_at(secs as i64) {
        Some(t) => t,
        None => now.clone(),
    }
}

/// Resolves a creation time: the creation clock when the platform keeps one, else
/// the modification clock; an error of the chosen clock is passed on, and an
/// instant without a calendar date is replaced by `now`.
pub fn resolve_created_with(created: &ClockReading, modified: &ClockReading, now: &String) -> (r: Result<String, String>)
    ensures
        match r {
            Ok(t) => resolved_created(*created, *modified, now@) == Ok::<Seq<char>, Seq<char>>(t@),
            Err(m) => resolved_created(*created, *modified, now@) == Err::<Seq<char>, Seq<char>>(m@),
        },
{
    let chosen = match created {
        ClockReading::Unavailable(_) => modified,
        _ => created,
    };
    match chosen {
        ClockReading::Secs(s) => Ok(format_created(*s, now)),
        ClockReading::BeforeEpoch(m) => Err(m.clone()),
        ClockReading::Unavailable(m) => Err(m.clone()),
    }
}

} // verus!
