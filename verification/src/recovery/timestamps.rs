//! The three NTFS timestamps that a recovered file gets back, and their
//! conversion to the Win32 FILETIME that `SetFileTime` takes.

use vstd::prelude::*;
use vstd::string::StringExecFns;
use crate::time::UtcTime;
use crate::file::NtfsFile;
use crate::attributes::standard_information::filetime_unix_parts;

verus! {

/// Why writing the timestamps of a file failed.
#[derive(Debug)]
pub enum TimestampError {
    /// The file could not be opened.
    Open(std::io::Error),
    /// `SetFileTime` failed with this `GetLastError` code.
    Win32Error(u32),
    /// The instant has no FILETIME.
    TimeConversion(String),
    /// Timestamps are written on Windows only.
    Unsupported,
}

/// Creation, modification and access time of a file.
#[derive(Debug, Clone, Copy)]
pub struct NtfsTimestamps {
    pub created: UtcTime,
    pub modified: UtcTime,
    pub accessed: UtcTime,
}

/// The three timestamps of a file when it has all three; a file missing one
/// gets none written (its `$STANDARD_INFORMATION` may be damaged).
pub fn timestamps_of(file: &NtfsFile) -> (r: Option<NtfsTimestamps>)
    ensures
        r is Some <==> (file.created is Some && file.modified is Some && file.accessed is Some),
        r matches Some(t) ==> file.created == Some(t.created) && file.modified == Some(t.modified)
            && file.accessed == Some(t.accessed),
{
    match (file.created, file.modified, file.accessed) {
        (Some(created), Some(modified), Some(accessed)) => Some(NtfsTimestamps { created, modified, accessed }),
        _ => None,
    }
}

/// A Win32 FILETIME as its two 32-bit halves.
#[derive(Debug, Clone, Copy, PartialEq, Eq, Structural)]
pub struct Win32FileTime {
    pub low_date_time: u32,
    pub high_date_time: u32,
}

impl Win32FileTime {
    /// The 64-bit tick count of the two halves.
    pub open spec fn ticks(self) -> int {
        self.high_date_time * 0x1_0000_0000 + self.low_date_time
    }
}

/// Seconds from 1601-01-01 to 1970-01-01.
pub const EPOCH_DIFFERENCE_SECONDS: i64 = 11_644_473_600;

/// Where the conversion of an instant to a FILETIME fails.
pub enum FiletimeFailure {
    /// Moving the seconds to the 1601 epoch leaves `i64`.
    EpochShift,
    /// The 100-nanosecond tick count leaves `i64`.
    TickOverflow,
    /// The instant lies before 1601.
    BeforeEpoch,
}

/// The 100-nanosecond ticks since 1601 of `secs` seconds and `nanos`
/// nanoseconds after 1970 (the nanoseconds cut to whole ticks).
pub open spec fn filetime_ticks(secs: int, nanos: int) -> int {
    (secs + EPOCH_DIFFERENCE_SECONDS) * 10_000_000 + nanos / 100
}

/// Where converting `secs`/`nanos` fails, checking in the order the
/// conversion computes: the epoch shift, the ticks, then the sign.
pub open spec fn filetime_failure(secs: int, nanos: int) -> Option<FiletimeFailure> {
    let shifted = secs + EPOCH_DIFFERENCE_SECONDS;
    if shifted > i64::MAX {
        Some(FiletimeFailure::EpochShift)
    } else if shifted * 10_000_000 < i64::MIN || shifted * 10_000_000 > i64::MAX
        || filetime_ticks(secs, nanos) > i64::MAX {
        Some(FiletimeFailure::TickOverflow)
    } else if filetime_ticks(secs, nanos) < 0 {
        Some(FiletimeFailure::BeforeEpoch)
    } else {
        None
    }
}

/// The message of a `TimeConversion` error for each failure.
pub open spec fn failure_message(f: FiletimeFailure) -> Seq<char> {
    match f {
        FiletimeFailure::EpochShift => "時刻オーバーフロー (epoch shift)"@,
        FiletimeFailure::TickOverflow => "FILETIME 換算オーバーフロー (100ns)"@,
        FiletimeFailure::BeforeEpoch => "FILETIME は 1601 年より前の時刻を表現できません"@,
    }
}

fn conversion_error(f: FiletimeFailure) -> (e: TimestampError)
    ensures
        e matches TimestampError::TimeConversion(m) && m@ == failure_message(f),
{
    match f {
        FiletimeFailure::EpochShift => TimestampError::TimeConversion(
            String::from_str("時刻オーバーフロー (epoch shift)"),
        ),
        FiletimeFailure::TickOverflow => TimestampError::TimeConversion(
            String::from_str("FILETIME 換算オーバーフロー (100ns)"),
        ),
        FiletimeFailure::BeforeEpoch => TimestampError::TimeConversion(
            String::from_str("FILETIME は 1601 年より前の時刻を表現できません"),
        ),
    }
}

/// The FILETIME of `secs`/`nanos`, or where that fails.
pub fn filetime_of(secs: i64, nanos: u32) -> (r: Result<Win32FileTime, FiletimeFailure>)
    ensures
        r is Err <==> filetime_failure(secs as int, nanos as int) is Some,
        r matches Err(f) ==> filetime_failure(secs as int, nanos as int) == Some(f),
        r matches Ok(ft) ==> ft.ticks() == filetime_ticks(secs as int, nanos as int),
{
    let shifted = match secs.checked_add(EPOCH_DIFFERENCE_SECONDS) {
        Some(v) => v,
        None => return Err(FiletimeFailure::EpochShift),
    };
    let scaled = match shifted.checked_mul(10_000_000) {
        Some(v) => v,
        None => return Err(FiletimeFailure::TickOverflow),
    };
    let ticks = match scaled.checked_add((nanos / 100) as i64) {
        Some(v) => v,
        None => return Err(FiletimeFailure::TickOverflow),
    };
    if ticks < 0 {
        return Err(FiletimeFailure::BeforeEpoch);
    }
    let t = ticks as u64;
    let low = (t & 0xFFFF_FFFF) as u32;
    let high = ((t >> 32) & 0xFFFF_FFFF) as u32;
    proof {
        assert(t & 0xFFFF_FFFF == t % 0x1_0000_0000) by (bit_vector);
        assert((t >> 32) & 0xFFFF_FFFF == t / 0x1_0000_0000) by (bit_vector);
    }
    Ok(Win32FileTime { low_date_time: low, high_date_time: high })
}

/// The FILETIME of a UTC instant, with the nanoseconds cut to whole
/// 100-nanosecond ticks; `TimeConversion` where the tick count leaves `i64`
/// or the instant lies before 1601.
pub fn datetime_to_filetime(dt: UtcTime) -> (r: Result<Win32FileTime, TimestampError>)
    ensures
        r is Ok <==> filetime_failure(dt.secs() as int, dt.nanos() as int) is None,
        r matches Ok(ft) ==> ft.ticks() == filetime_ticks(dt.secs() as int, dt.nanos() as int),
        r matches Err(e) ==> (e matches TimestampError::TimeConversion(m)
            && filetime_failure(dt.secs() as int, dt.nanos() as int) matches Some(f)
            && m@ == failure_message(f)),
{
    match filetime_of(dt.timestamp(), dt.timestamp_subsec_nanos()) {
        Ok(ft) => Ok(ft),
        Err(f) => Err(conversion_error(f)),
    }
}

/// Converting an instant to a FILETIME and reading that FILETIME back gives
/// the same second and the nanoseconds cut to whole 100-nanosecond ticks
/// (for instants outside a leap second).
pub proof fn lemma_filetime_round_trip(secs: i64, nanos: u32)
    requires
        nanos < 1_000_000_000,
        filetime_failure(secs as int, nanos as int) is None,
    ensures
        0 <= filetime_ticks(secs as int, nanos as int) <= i64::MAX,
        filetime_unix_parts(filetime_ticks(secs as int, nanos as int) as u64)
            == Some((secs, ((nanos / 100) * 100) as u32)),
{
    let t = filetime_ticks(secs as int, nanos as int);
    let shifted = secs + EPOCH_DIFFERENCE_SECONDS;
    assert(t == shifted * 10_000_000 + nanos / 100);
    assert(0 <= nanos / 100 < 10_000_000);
    assert(shifted >= 0) by (nonlinear_arith)
        requires
            t >= 0,
            t == shifted * 10_000_000 + nanos / 100,
            nanos / 100 < 10_000_000,
    ;
    assert(t / 10_000_000 == shifted && t % 10_000_000 == nanos / 100) by (nonlinear_arith)
        requires
            t == shifted * 10_000_000 + nanos / 100,
            0 <= nanos / 100 < 10_000_000,
            shifted >= 0,
    ;
}

} // verus!
