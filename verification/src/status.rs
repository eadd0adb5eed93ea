//! The outcome of the most recent sync attempt.
use vstd::prelude::*;

use crate::decode::{format_time, iso_time};
use crate::text::opt_view;

verus! {

/// A moment, as nanoseconds since the Unix epoch.
#[derive(Clone, Copy, PartialEq, Eq, Structural, Debug)]
pub struct Timestamp {
    pub nanos: i128,
}

/// Outcome of the most recent sync attempt.
#[derive(Debug)]
pub struct Status {
    /// Ticket of the last finished sync.
    pub completed: u64,
    pub last_attempt: Option<Timestamp>,
    pub last_success: Option<Timestamp>,
    pub error: Option<String>,
}

/// The view of a [`Status`].
#[verifier::ext_equal]
pub struct StatusView {
    pub completed: u64,
    pub last_attempt: Option<Timestamp>,
    pub last_success: Option<Timestamp>,
    pub error: Option<Seq<char>>,
}

impl View for Status {
    type V = StatusView;

    open spec fn view(&self) -> StatusView {
        StatusView {
            completed: self.completed,
            last_attempt: self.last_attempt,
            last_success: self.last_success,
            error: opt_view(self.error),
        }
    }
}

impl StatusView {
    /// Whether the last attempt is less than `ttl` nanoseconds old. A clock that went backwards
    /// reads as stale.
    pub open spec fn fresh(self, now: Timestamp, ttl: nat) -> bool {
        match self.last_attempt {
            Some(t) => t.nanos <= now.nanos && now.nanos - t.nanos < ttl,
            None => false,
        }
    }

    /// Without an error, the last attempt was a success, if there was one.
    pub open spec fn consistent(self) -> bool {
        self.error is None ==> self.last_success == self.last_attempt
    }

    /// The status of a mirror that was never synced.
    pub open spec fn initial() -> StatusView {
        StatusView { completed: 0, last_attempt: None, last_success: None, error: None }
    }

    /// The status after the sync with the number `ticket` ended at `now`, with an error or without.
    pub open spec fn after(
        self,
        ticket: u64,
        now: Timestamp,
        error: Option<Seq<char>>,
    ) -> StatusView {
        StatusView {
            completed: ticket,
            last_attempt: Some(now),
            last_success: if error is None {
                Some(now)
            } else {
                self.last_success
            },
            error,
        }
    }
}

impl Clone for Status {
    fn clone(&self) -> (r: Status)
        ensures
            r@ == self@,
    {
        Status {
            completed: self.completed,
            last_attempt: self.last_attempt,
            last_success: self.last_success,
            error: match &self.error {
                Some(e) => Some(e.clone()),
                None => None,
            },
        }
    }
}

impl Default for Status {
    fn default() -> (r: Status)
        ensures
            r@ == StatusView::initial(),
    {
        Status { completed: 0, last_attempt: None, last_success: None, error: None }
    }
}

impl Status {
    /// Whether the last attempt is less than `ttl` nanoseconds old at `now`.
    pub fn is_fresh(&self, now: Timestamp, ttl: u128) -> (r: bool)
        ensures
            r == self@.fresh(now, ttl as nat),
    {
        match self.last_attempt {
            Some(t) => {
                if t.nanos > now.nanos {
                    // A clock that went backwards reads as stale.
                    return false;
                }
                let age: u128 = if t.nanos >= 0 || now.nanos < 0 {
                    (now.nanos - t.nanos) as u128
                } else {
                    (now.nanos as u128) + (-(t.nanos + 1)) as u128 + 1
                };
                age < ttl
            },
            None => false,
        }
    }

    /// What the status reads for clients.
    pub fn report(&self) -> (r: StatusReport)
        ensures
            opt_view(r.last_sync_at) == iso_text(self.last_attempt),
            opt_view(r.last_success_at) == iso_text(self.last_success),
            opt_view(r.error) == opt_view(self.error),
    {
        StatusReport {
            last_sync_at: iso8601(self.last_attempt),
            last_success_at: iso8601(self.last_success),
            error: match &self.error {
                Some(e) => Some(e.clone()),
                None => None,
            },
        }
    }
}

/// What clients read of a [`Status`].
#[derive(Debug)]
pub struct StatusReport {
    pub last_sync_at: Option<String>,
    pub last_success_at: Option<String>,
    pub error: Option<String>,
}

/// The whole seconds since the epoch: none before it, and no more than fit.
pub open spec fn epoch_seconds(t: Timestamp) -> int {
    if t.nanos < 0 {
        0
    } else if t.nanos as int / 1_000_000_000 > i64::MAX {
        i64::MAX as int
    } else {
        t.nanos as int / 1_000_000_000
    }
}

/// A moment in the strict ISO 8601 format, in UTC.
pub open spec fn iso_text(t: Option<Timestamp>) -> Option<Seq<char>> {
    match t {
        Some(t) => Some(iso_time(epoch_seconds(t) as i64, 0)),
        None => None,
    }
}

/// The whole seconds since the epoch: none before it, and no more than fit.
pub fn seconds_since_epoch(t: Timestamp) -> (r: i64)
    ensures
        r == epoch_seconds(t),
{
    if t.nanos < 0 {
        return 0;
    }
    let seconds: i128 = t.nanos / 1_000_000_000;
    if seconds > i64::MAX as i128 {
        i64::MAX
    } else {
        seconds as i64
    }
}

/// A moment in the strict ISO 8601 format, in UTC.
pub fn iso8601(t: Option<Timestamp>) -> (r: Option<String>)
    ensures
        opt_view(r) == iso_text(t),
{
    match t {
        Some(t) => Some(format_time(seconds_since_epoch(t), 0)),
        None => None,
    }
}

/// A status stays fresh for less than its time to live, and never before the attempt it tells of.
pub proof fn law_fresh_until_the_ttl_ends(status: StatusView, now: Timestamp, ttl: nat)
    requires
        status.last_attempt is Some,
    ensures
        status.fresh(now, ttl) <==> 0 <= now.nanos - status.last_attempt->0.nanos < ttl,
        now.nanos < status.last_attempt->0.nanos ==> !status.fresh(now, ttl),
        ttl == 0 ==> !status.fresh(now, ttl),
{
}

/// A failed sync does not touch the time of the last success; a sync that succeeds clears the
/// error of an earlier one.
pub proof fn law_failure_keeps_the_last_success(
    status: StatusView,
    ticket: u64,
    now: Timestamp,
    error: Seq<char>,
)
    ensures
        status.after(ticket, now, Some(error)).last_success == status.last_success,
        status.after(ticket, now, Some(error)).error == Some(error),
        status.after(ticket, now, Some(error)).last_attempt == Some(now),
        status.after(ticket, now, None).last_success == Some(now),
        status.after(ticket, now, None).error is None,
{
}

/// A status tells of the sync that ended last: its ticket, its time and its error, whatever the
/// status told before.
pub proof fn law_status_tells_of_the_last_sync(
    status: StatusView,
    ticket: u64,
    now: Timestamp,
    error: Option<Seq<char>>,
)
    ensures
        status.after(ticket, now, error).completed == ticket,
        status.after(ticket, now, error).last_attempt == Some(now),
        status.after(ticket, now, error).error == error,
        status.after(ticket, now, error).last_success == (if error is None {
            Some(now)
        } else {
            status.last_success
        }),
        status.after(ticket, now, error).consistent(),
{
}

/// A status is consistent exactly if an error is told or the last attempt is the last success.
pub proof fn law_success_or_error(status: StatusView)
    ensures
        status.consistent() <==> status.error is Some || status.last_success
            == status.last_attempt,
{
}

/// A mirror that was never synced tells of nothing, and counts as stale at any time.
pub proof fn law_unsynced_mirror_is_stale(status: StatusView, now: Timestamp, ttl: nat)
    ensures
        StatusView::initial().completed == 0,
        StatusView::initial().last_attempt is None,
        StatusView::initial().last_success is None,
        StatusView::initial().error is None,
        status.last_attempt is None ==> !status.fresh(now, ttl),
{
}

/// A moment between the epoch and the last one that fits is shown by the whole seconds that have
/// passed at it: no more than have passed, and less than one second short.
pub proof fn law_seconds_are_whole(t: Timestamp)
    ensures
        0 <= epoch_seconds(t) <= i64::MAX,
        0 <= t.nanos < 1_000_000_000 * (i64::MAX + 1) ==> 1_000_000_000 * epoch_seconds(t)
            <= t.nanos < 1_000_000_000 * (epoch_seconds(t) + 1),
        t.nanos < 0 ==> epoch_seconds(t) == 0,
        t.nanos >= 1_000_000_000 * (i64::MAX + 1) ==> epoch_seconds(t) == i64::MAX,
{
}

/// A moment is shown in UTC exactly if there is one.
pub proof fn law_moments_are_shown_in_utc(t: Timestamp, seconds: i64)
    ensures
        iso_text(None) is None,
        0 <= seconds && 1_000_000_000 * seconds <= t.nanos < 1_000_000_000 * (seconds + 1)
            ==> iso_text(Some(t)) == Some(iso_time(seconds, 0)),
        t.nanos < 0 ==> iso_text(Some(t)) == Some(iso_time(0, 0)),
{
}

/// A status is seen with all its parts.
pub proof fn law_status_is_seen_in_full(status: Status)
    ensures
        status@.completed == status.completed,
        status@.last_attempt == status.last_attempt,
        status@.last_success == status.last_success,
        status.error matches Some(e) ==> status@.error == Some(e@),
        status.error is None ==> status@.error is None,
{
}

} // verus!
