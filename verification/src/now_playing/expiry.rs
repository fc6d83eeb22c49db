//! When now-playing metadata stops being true.
//!
//! Metadata is written when a track starts and nothing announces that it
//! ended, so each track's metadata gets a deadline: the track's duration
//! plus some slack, or a fallback when the duration is unknown.

use vstd::prelude::*;
use crate::now_playing::sink::{decided, recorded, OutputFile, Presence, SinkAction};
use crate::time::{saturating_sum, Duration, Instant};

verus! {

/// When the current metadata expires, if ever.
#[derive(Clone, Copy, Debug, PartialEq, Eq)]
pub struct Expiry {
    deadline: Option<Instant>,
}

/// How long metadata for a track lasts: its duration plus `slack`, or
/// `fallback` when the duration is unknown.
pub open spec fn metadata_ttl(track_duration: Option<Duration>, slack: nat, fallback: nat) -> nat {
    match track_duration {
        Some(d) => saturating_sum(d@, slack),
        None => fallback,
    }
}

/// The deadline of metadata for a track that started at `started_at`: the
/// end of its time to live, or none when that is past the end of the clock.
pub open spec fn deadline_after(started_at: nat, track_duration: Option<Duration>, slack: nat, fallback: nat) -> Option<nat> {
    if started_at + metadata_ttl(track_duration, slack, fallback) <= u128::MAX {
        Some(started_at + metadata_ttl(track_duration, slack, fallback))
    } else {
        None
    }
}

impl Expiry {
    /// The deadline as an instant on the caller's clock.
    pub closed spec fn deadline_at(&self) -> Option<nat> {
        match self.deadline {
            Some(t) => Some(t@),
            None => None,
        }
    }

    /// Metadata that never expires.
    pub fn none() -> (e: Self)
        ensures
            e.deadline_at() is None,
    {
        Expiry { deadline: None }
    }

    /// Metadata for a track that started at `started_at`: it expires after the
    /// track's duration plus `slack`, or after `fallback` when the duration is
    /// unknown. A deadline past the end of the clock means never.
    pub fn duration(
        started_at: Instant,
        track_duration: Option<Duration>,
        slack: Duration,
        fallback: Duration,
    ) -> (e: Self)
        ensures
            e.deadline_at() == deadline_after(started_at@, track_duration, slack@, fallback@),
    {
        let ttl = match track_duration {
            Some(d) => d.saturating_add(slack),
            None => fallback,
        };
        Expiry { deadline: started_at.checked_add(ttl) }
    }

    /// The deadline, if there is one.
    pub fn deadline(&self) -> (t: Option<Instant>)
        ensures
            match (t, self.deadline_at()) {
                (Some(a), Some(b)) => a@ == b,
                (None, None) => true,
                _ => false,
            },
    {
        self.deadline
    }

    /// Whether the metadata has expired at `now`: it has a deadline and `now`
    /// has reached it.
    pub fn expired_at(&self, now: Instant) -> (b: bool)
        ensures
            b == (self.deadline_at() matches Some(d) && now@ >= d),
    {
        match self.deadline {
            Some(deadline) => now.is_at_or_after(&deadline),
            None => false,
        }
    }
}

/// Whether expiry `e` has passed at `now`.
pub open spec fn expired(e: Expiry, now: nat) -> bool {
    e.deadline_at() matches Some(d) && now >= d
}

/// The removal that expired metadata needs: when `expiry` has passed at
/// `now`, the removal of the metadata file; otherwise nothing. Nothing is
/// changed here: once the removal succeeded, the caller records it with
/// [`record_expired_removal`], so a failed removal leaves the expiry and the
/// file's record as they were.
pub fn expire_metadata_at(expiry: &Expiry, metadata: &OutputFile, now: Instant) -> (action: Option<SinkAction>)
    ensures
        expired(*expiry, now@) ==> (action matches Some(a) && decided(*metadata, Presence::Absent, a)),
        !expired(*expiry, now@) ==> action is None,
{
    if expiry.expired_at(now) {
        Some(metadata.set(Presence::Absent))
    } else {
        None
    }
}

/// Records that the removal of expired metadata succeeded: the file holds
/// nothing and the expiry is cleared.
pub fn record_expired_removal(expiry: &mut Expiry, metadata: &mut OutputFile, removal: SinkAction)
    ensures
        final(expiry).deadline_at() is None,
        recorded(*old(metadata), removal, *final(metadata)),
{
    metadata.record(removal);
    *expiry = Expiry::none();
}

} // verus!
