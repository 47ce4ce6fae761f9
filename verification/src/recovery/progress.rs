//! Progress reporting for a recovery run: the reporter interface, a reporter
//! that stays silent, and the pieces of a console progress line (elapsed time
//! as a clock, a path shortened in the middle, and when a line is due).

use vstd::prelude::*;
use core::time::Duration;
use crate::text::{chars_of, string_of, push_char, push_decimal, push_str, decimal};

verus! {

/// Receives the progress of a recovery run. Implementations choose where the
/// progress goes and how often; they are called from worker threads.
pub trait ProgressReporter: Send + Sync {
    /// `current` is the 1-based number of the file being recovered, `total`
    /// the number of files, `current_path` its path (empty when done).
    fn report(&self, current: usize, total: usize, current_path: &str);
}

/// A reporter that reports nothing.
pub struct NoopProgressReporter;

impl ProgressReporter for NoopProgressReporter {
    fn report(&self, _current: usize, _total: usize, _current_path: &str) {
    }
}

/// Two digits for `n < 100`, with a leading zero below ten.
pub open spec fn two_digits(n: nat) -> Seq<char> {
    if n < 10 { seq!['0'] + decimal(n) } else { decimal(n) }
}

/// `H:MM:SS` for an hour or more, `M:SS` below.
pub open spec fn clock_text(total_secs: nat) -> Seq<char> {
    let hours = total_secs / 3600;
    let minutes = (total_secs % 3600) / 60;
    let secs = total_secs % 60;
    if hours > 0 {
        decimal(hours) + seq![':'] + two_digits(minutes) + seq![':'] + two_digits(secs)
    } else {
        decimal(minutes) + seq![':'] + two_digits(secs)
    }
}

fn push_two_digits(s: &mut String, n: u64)
    requires
        n < 100,
    ensures
        final(s)@ == old(s)@ + two_digits(n as nat),
{
    if n < 10 {
        push_char(s, '0');
    }
    push_decimal(s, n);
    proof {
        if n < 10 {
            assert(old(s)@.push('0') + decimal(n as nat) =~= old(s)@ + two_digits(n as nat));
        }
    }
}

/// The elapsed time `total_secs` as a clock: `2:05`, or `1:02:05` from an
/// hour on.
pub fn format_elapsed_secs(total_secs: u64) -> (r: String)
    ensures
        r@ == clock_text(total_secs as nat),
{
    let hours = total_secs / 3600;
    let minutes = (total_secs % 3600) / 60;
    let secs = total_secs % 60;
    let mut s = String::new();
    if hours > 0 {
        push_decimal(&mut s, hours);
        push_char(&mut s, ':');
        push_two_digits(&mut s, minutes);
        push_char(&mut s, ':');
        push_two_digits(&mut s, secs);
    } else {
        push_decimal(&mut s, minutes);
        push_char(&mut s, ':');
        push_two_digits(&mut s, secs);
    }
    proof {
        assert(s@ =~= clock_text(total_secs as nat));
    }
    s
}

/// What `Duration::as_secs` gives for a duration: its whole seconds.
pub uninterp spec fn duration_whole_secs(d: Duration) -> u64;

/// Calls `Duration::as_secs`, the whole seconds of a duration; a function of
/// the duration, named [`duration_whole_secs`].
#[verifier::external_body]
fn whole_secs(d: &Duration) -> (r: u64)
    ensures
        r == duration_whole_secs(*d),
{
    d.as_secs()
}

/// The whole seconds of `d` as a clock (see [`format_elapsed_secs`]).
pub fn format_duration(d: Duration) -> (r: String)
    ensures
        r@ == clock_text(duration_whole_secs(d) as nat),
{
    let secs = whole_secs(&d);
    format_elapsed_secs(secs)
}

/// `p` shortened to at most `max_len` characters: unchanged when it fits;
/// its first `max_len` characters when `max_len < 3`; otherwise the first and
/// last `(max_len - 3) / 2` characters around `...`.
pub open spec fn truncated(p: Seq<char>, max_len: nat) -> Seq<char> {
    if p.len() <= max_len {
        p
    } else if max_len < 3 {
        p.take(max_len as int)
    } else {
        let keep = (max_len - 3) / 2;
        p.take(keep as int) + seq!['.', '.', '.'] + p.skip(p.len() - keep)
    }
}

/// Shortens `path` in the middle to at most `max_len` characters, cutting
/// between characters.
pub fn truncate_path(path: &str, max_len: usize) -> (r: String)
    ensures
        r@ == truncated(path@, max_len as nat),
        path@.len() <= max_len ==> r@ == path@,
        r@.len() <= max_len,
{
    let cs = chars_of(path);
    let n = cs.len();
    if n <= max_len {
        return string_of(cs.as_slice(), 0, n);
    }
    if max_len < 3 {
        return string_of(cs.as_slice(), 0, max_len);
    }
    let keep = (max_len - 3) / 2;
    let mut s = string_of(cs.as_slice(), 0, keep);
    push_char(&mut s, '.');
    push_char(&mut s, '.');
    push_char(&mut s, '.');
    let tail = string_of(cs.as_slice(), n - keep, n);
    push_str(&mut s, tail.as_str());
    proof {
        assert(s@ =~= truncated(path@, max_len as nat));
    }
    s
}

/// Whether a console progress line is due: the reporting interval has passed
/// since the last line, or this is the last file of a non-empty run.
pub fn report_due(since_last_nanos: u128, interval_nanos: u128, current: usize, total: usize) -> (r: bool)
    ensures
        r == (since_last_nanos >= interval_nanos || (total > 0 && current == total)),
{
    since_last_nanos >= interval_nanos || (total > 0 && current == total)
}

} // verus!
