//! Instants, and the seven days of a digest.
//!
//! An instant is a number of seconds since the Unix epoch and a number of
//! nanoseconds past that second. Instants are ordered by their seconds, and
//! within one second by their nanoseconds. In the dates that a feed gives, a
//! nanosecond count of a full second or more marks a leap second.

use vstd::prelude::*;

verus! {

/// The seconds of seven days.
pub const WEEK_SECONDS: i64 = 604_800;

/// The nanoseconds of one second.
pub const SECOND_NANOS: u32 = 1_000_000_000;

/// A point in time.
#[derive(Clone, Copy, Debug, PartialEq, Eq, Structural)]
pub struct Instant {
    /// Seconds since the Unix epoch.
    pub secs: i64,
    /// Nanoseconds since that second began.
    pub nanos: u32,
}

impl Instant {
    /// The nanoseconds from the Unix epoch to this instant.
    pub open spec fn total_nanos(self) -> int {
        self.secs * SECOND_NANOS + self.nanos
    }
}

/// Whether `published` is no earlier than seven days before `now`: the
/// instant with the seconds of `now` less a week, and the nanoseconds of
/// `now`.
pub open spec fn in_window(published: Instant, now: Instant) -> bool {
    let start = now.secs - WEEK_SECONDS;
    published.secs > start || (published.secs == start && published.nanos >= now.nanos)
}

/// The window is closed at its start: the instant exactly seven days before
/// `now` is in it, and so is every instant that is no earlier than one in it.
pub proof fn lemma_window_boundary(published: Instant, later: Instant, now: Instant)
    ensures
        published.secs == now.secs - WEEK_SECONDS && published.nanos == now.nanos ==> in_window(
            published,
            now,
        ),
        in_window(published, now) && (later.secs > published.secs || (later.secs
            == published.secs && later.nanos >= published.nanos)) ==> in_window(later, now),
{
}

/// Away from leap seconds the window is plain arithmetic: an instant is in
/// it when it lies at most seven days of nanoseconds before `now`.
pub proof fn lemma_window_arithmetic(published: Instant, now: Instant)
    requires
        published.nanos < SECOND_NANOS,
        now.nanos < SECOND_NANOS,
    ensures
        in_window(published, now) <==> published.total_nanos() >= now.total_nanos() - WEEK_SECONDS
            * SECOND_NANOS,
{
}

/// Tests whether `published` is no earlier than seven days before `now`.
pub fn is_in_window(published: Instant, now: Instant) -> (r: bool)
    ensures
        r == in_window(published, now),
{
    let start: i128 = now.secs as i128 - WEEK_SECONDS as i128;
    let at: i128 = published.secs as i128;
    at > start || (at == start && published.nanos >= now.nanos)
}

} // verus!
