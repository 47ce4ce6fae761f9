//! UTC instants, held as the seconds and nanoseconds since the Unix epoch that
//! chrono can represent.

use vstd::prelude::*;

verus! {

/// Whether `chrono::DateTime::<Utc>::from_timestamp(secs, nsecs)` gives a date.
pub uninterp spec fn chrono_accepts(secs: i64, nsecs: u32) -> bool;

/// Calls `chrono::DateTime::<Utc>::from_timestamp`, which returns `None` on an
/// out-of-range number of seconds or an invalid nanosecond; the answer is a
/// function of the two arguments.
#[verifier::external_body]
pub(crate) fn chrono_accepts_exec(secs: i64, nsecs: u32) -> (r: bool)
    ensures
        r == chrono_accepts(secs, nsecs),
{
    chrono::DateTime::from_timestamp(secs, nsecs).is_some()
}

/// The RFC 3339 text (`YYYY-MM-DDTHH:MM:SS+00:00`) of an instant.
pub uninterp spec fn rfc3339_text(secs: i64, nsecs: u32) -> Seq<char>;

/// A UTC instant that chrono can represent.
#[derive(Debug, Clone, Copy, PartialEq, Eq, Structural)]
pub struct UtcTime {
    secs: i64,
    nanos: u32,
}

impl UtcTime {
    #[verifier::type_invariant]
    spec fn representable(self) -> bool {
        chrono_accepts(self.secs, self.nanos)
    }

    /// Seconds since the Unix epoch.
    pub closed spec fn secs(self) -> i64 {
        self.secs
    }

    /// Nanoseconds within the second.
    pub closed spec fn nanos(self) -> u32 {
        self.nanos
    }

    /// The instant `secs` seconds and `nsecs` nanoseconds after the Unix epoch;
    /// `None` where chrono has no such date.
    pub fn from_timestamp(secs: i64, nsecs: u32) -> (r: Option<UtcTime>)
        ensures
            r is Some <==> chrono_accepts(secs, nsecs),
            r matches Some(t) ==> t.secs() == secs && t.nanos() == nsecs,
    {
        if chrono_accepts_exec(secs, nsecs) {
            Some(UtcTime { secs, nanos: nsecs })
        } else {
            None
        }
    }

    /// Seconds since the Unix epoch.
    pub fn timestamp(&self) -> (r: i64)
        ensures
            r == self.secs(),
    {
        self.secs
    }

    /// Nanoseconds within the second.
    pub fn timestamp_subsec_nanos(&self) -> (r: u32)
        ensures
            r == self.nanos(),
    {
        self.nanos
    }

    /// The RFC 3339 text of the instant.
    pub fn to_rfc3339(&self) -> (r: String)
        ensures
            r@ == rfc3339_text(self.secs(), self.nanos()),
    {
        proof {
            use_type_invariant(self);
        }
        rfc3339(self.secs, self.nanos)
    }
}

/// Calls `chrono::DateTime::to_rfc3339` on the date of `secs`/`nsecs`; the
/// text is a function of the instant.
#[verifier::external_body]
fn rfc3339(secs: i64, nsecs: u32) -> (r: String)
    requires
        chrono_accepts(secs, nsecs),
    ensures
        r@ == rfc3339_text(secs, nsecs),
{
    match chrono::DateTime::from_timestamp(secs, nsecs) {
        Some(d) => d.to_rfc3339(),
        None => String::new(),
    }
}

/// Calls `SystemTime::now().duration_since(UNIX_EPOCH)`: the clock's time
/// since the Unix epoch as whole seconds and nanoseconds, `Ok` when the clock
/// is at or after the epoch and `Err` with the time before it otherwise. The
/// value depends on the clock; only the nanoseconds' range is stated.
#[verifier::external_body]
pub(crate) fn clock_since_epoch() -> (r: Result<(u64, u32), (u64, u32)>)
    ensures
        match r {
            Ok((_, n)) => n < 1_000_000_000,
            Err((_, n)) => n < 1_000_000_000,
        },
{
    match std::time::SystemTime::now().duration_since(std::time::UNIX_EPOCH) {
        Ok(d) => Ok((d.as_secs(), d.subsec_nanos())),
        Err(e) => Err((e.duration().as_secs(), e.duration().subsec_nanos())),
    }
}

/// Calls chrono: the local calendar date (year, month, day) of the instant
/// `secs`/`nanos` after the epoch, in the machine's time zone
/// (`DateTime::from_timestamp` then `with_timezone(&Local)`). It depends on
/// the time zone; only the ranges of month and day are stated.
#[verifier::external_body]
pub(crate) fn local_ymd(secs: i64, nanos: u32) -> (r: (i32, u32, u32))
    requires
        chrono_accepts(secs, nanos),
    ensures
        1 <= r.1 <= 12,
        1 <= r.2 <= 31,
{
    let d = chrono::DateTime::from_timestamp(secs, nanos).unwrap().with_timezone(&chrono::Local);
    (chrono::Datelike::year(&d), chrono::Datelike::month(&d), chrono::Datelike::day(&d))
}

} // verus!
