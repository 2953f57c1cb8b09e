//! The system clock, read without panicking, and times written in
//! RFC 3339 through `chrono`.
use vstd::prelude::*;

verus! {

#[verifier::external_type_specification]
#[verifier::external_body]
pub struct ExSystemTime(std::time::SystemTime);

/// `std::time::SystemTime::now`: the current time of the system clock.
/// Nothing is stated of it: it depends on the clock.
#[verifier::external_body]
fn system_now() -> (r: std::time::SystemTime)
{
    std::time::SystemTime::now()
}

/// `SystemTime::duration_since(UNIX_EPOCH)`, taken as whole seconds and
/// the nanoseconds past them; `None` where the time lies before the epoch.
/// As `Duration::subsec_nanos` documents, the nanoseconds are below one
/// billion.
#[verifier::external_body]
fn since_unix_epoch(t: std::time::SystemTime) -> (r: Option<(u64, u32)>)
    ensures
        r matches Some(p) ==> p.1 < 1_000_000_000,
{
    match t.duration_since(std::time::UNIX_EPOCH) {
        Ok(d) => Some((d.as_secs(), d.subsec_nanos())),
        Err(_) => None,
    }
}

/// The current time as whole seconds and nanoseconds since the Unix
/// epoch; `None` where the clock reads before the epoch or past what an
/// `i64` of seconds holds.
pub fn clock_now() -> (r: Option<(i64, u32)>)
    ensures
        r matches Some(p) ==> p.0 >= 0 && p.1 < 1_000_000_000,
{
    match since_unix_epoch(system_now()) {
        None => None,
        Some((secs, nanos)) => {
            if secs <= 9223372036854775807u64 {
                Some((secs as i64, nanos))
            } else {
                None
            }
        },
    }
}

/// Result of `chrono::DateTime::<Utc>::from_timestamp(secs, nanos)`
/// written by `to_rfc3339`: the text of that instant in UTC, or `None`
/// where chrono cannot hold it.
pub uninterp spec fn rfc3339_utc(secs: int, nanos: int) -> Option<Seq<char>>;

/// `chrono::DateTime::<Utc>::from_timestamp` then `to_rfc3339`, as named.
/// Neither call panics: an instant out of chrono's range gives `None`.
#[verifier::external_body]
pub(crate) fn rfc3339_at(secs: i64, nanos: u32) -> (r: Option<String>)
    ensures
        match r {
            Some(t) => rfc3339_utc(secs as int, nanos as int) == Some(t@),
            None => rfc3339_utc(secs as int, nanos as int) is None,
        },
{
    match chrono::DateTime::<chrono::Utc>::from_timestamp(secs, nanos) {
        Some(t) => Some(t.to_rfc3339()),
        None => None,
    }
}

/// The current time less `seconds`, in RFC 3339; `None` where the clock
/// cannot be read or the instant lies out of chrono's range.
pub fn rfc3339_seconds_ago(seconds: i64) -> (r: Option<String>)
    requires
        0 <= seconds <= 8_000_000_000_000,
    ensures
        r matches Some(t) ==> exists|secs: int, nanos: int| #[trigger] rfc3339_utc(secs, nanos) == Some(t@),
{
    match clock_now() {
        None => None,
        Some((secs, nanos)) => {
            let r = rfc3339_at(secs - seconds, nanos);
            proof {
                if r is Some {
                    assert(rfc3339_utc((secs - seconds) as int, nanos as int) == Some(r->Some_0@));
                }
            }
            r
        },
    }
}

} // verus!
