//! Stream-delay scheduling for outgoing live value payloads.
//!
//! Listeners hear a track several seconds after the producer announces it:
//! the encoder, the icecast queue and the player's buffer all sit between.
//! A relay payload travels out of band, so publishing on sight would switch
//! the value block while listeners still hear the previous track. The
//! schedule holds each payload for its target's stream delay, so the block a
//! listener boosts is the block they are hearing.
//!
//! The clock is a parameter of every operation, so callers drive the queue
//! from one instant per loop iteration.

use vstd::prelude::*;
use crate::keyed::KeyedList;
use crate::livevalue::LiveValuePayload;
use crate::time::{saturating_sum, Duration, Instant};

verus! {

/// A payload waiting for its deadline.
struct Scheduled {
    due_at: Instant,
    payload: LiveValuePayload,
}

/// Holds outgoing payloads until their target's stream delay has elapsed.
///
/// Delays are keyed by `event_guid`, the key the relay publisher routes on.
/// A payload for an unknown key is scheduled with no delay.
pub struct PublishSchedule {
    delays: KeyedList<Duration>,
    pending: Vec<Scheduled>,
}

/// A pending payload as (deadline, payload).
pub type PendingView = Seq<(nat, LiveValuePayload)>;

/// Whether `p` belongs to block `block_guid` of live item `event_guid`.
pub open spec fn in_block(p: LiveValuePayload, event_guid: Seq<char>, block_guid: Seq<char>) -> bool {
    p.event_guid@ == event_guid && p.block_guid@ == block_guid
}

/// The index of the first pending payload in the given block.
pub open spec fn first_in_block(s: PendingView, event_guid: Seq<char>, block_guid: Seq<char>) -> Option<
    int,
> {
    if exists|i: int| 0 <= i < s.len() && in_block(#[trigger] s[i].1, event_guid, block_guid) {
        Some(
            choose|i: int|
                0 <= i < s.len() && in_block(#[trigger] s[i].1, event_guid, block_guid) && forall|
                    j: int,
                | 0 <= j < i ==> !in_block(#[trigger] s[j].1, event_guid, block_guid),
        )
    } else {
        None
    }
}

/// The payloads whose deadline has been reached at `now`, in queue order.
pub open spec fn due_at(s: PendingView, now: nat) -> Seq<LiveValuePayload>
    decreases s.len(),
{
    if s.len() == 0 {
        Seq::empty()
    } else if s.last().0 <= now {
        due_at(s.drop_last(), now).push(s.last().1)
    } else {
        due_at(s.drop_last(), now)
    }
}

/// The entries still waiting at `now`, in queue order.
pub open spec fn waiting_at(s: PendingView, now: nat) -> PendingView
    decreases s.len(),
{
    if s.len() == 0 {
        Seq::empty()
    } else if s.last().0 > now {
        waiting_at(s.drop_last(), now).push(s.last())
    } else {
        waiting_at(s.drop_last(), now)
    }
}

/// The earliest deadline in the queue.
pub open spec fn earliest(s: PendingView) -> Option<nat>
    decreases s.len(),
{
    if s.len() == 0 {
        None
    } else {
        match earliest(s.drop_last()) {
            Some(d) => Some(if s.last().0 < d { s.last().0 } else { d }),
            None => Some(s.last().0),
        }
    }
}

/// When a payload queued at `now` with stream delay `delay` is released:
/// `now + delay`, or `now` itself if that instant is not representable.
pub open spec fn deadline_for(now: nat, delay: nat) -> nat {
    if now + delay <= u128::MAX {
        now + delay
    } else {
        now
    }
}

impl PublishSchedule {
    /// The queue as (deadline, payload) pairs, in the order they were queued.
    pub closed spec fn pending(&self) -> PendingView {
        self.pending@.map_values(|e: Scheduled| (e.due_at@, e.payload))
    }

    /// The stream delay configured for `event_guid`, in nanoseconds.
    pub closed spec fn delay_of(&self, event_guid: Seq<char>) -> nat {
        match self.delays.spec_get(event_guid) {
            Some(d) => d@,
            None => 0,
        }
    }

    /// Creates a schedule from (event GUID, stream delay) pairs. When a GUID
    /// repeats, its last delay applies.
    pub fn new(delays: Vec<(String, Duration)>) -> (s: Self)
        ensures
            s.pending() == Seq::<(nat, LiveValuePayload)>::empty(),
            forall|k: Seq<char>|
                #[trigger] s.delay_of(k) == match crate::keyed::lookup(
                    crate::keyed::entries_view(delays@),
                    k,
                ) {
                    Some(d) => d@,
                    None => 0,
                },
    {
        let mut map: KeyedList<Duration> = KeyedList::new();
        let ghost entries = crate::keyed::entries_view(delays@);
        let ghost src = delays@;
        for entry in it: delays
            invariant
                src == it.seq(),
                entries == crate::keyed::entries_view(src),
                forall|k: Seq<char>|
                    #[trigger] map.spec_get(k) == crate::keyed::lookup(
                        entries.take(it.index() as int),
                        k,
                    ),
        {
            let (key, delay) = entry;
            let ghost kv = key@;
            map.insert(key, delay);
            proof {
                let t = entries.take(it.index() + 1);
                assert(t.drop_last() =~= entries.take(it.index() as int));
                assert(t.last() == (kv, delay));
                assert forall|k: Seq<char>|
                    #[trigger] map.spec_get(k) == crate::keyed::lookup(t, k) by {}
            }
        }
        proof {
            assert(entries.take(entries.len() as int) =~= entries);
        }
        let s = PublishSchedule { delays: map, pending: Vec::new() };
        assert(s.pending() =~= Seq::<(nat, LiveValuePayload)>::empty());
        s
    }

    /// Whether no payload is waiting to be released.
    pub fn is_empty(&self) -> (b: bool)
        ensures
            b == (self.pending().len() == 0),
    {
        self.pending.len() == 0
    }

    /// The stream delay for `event_guid`, zero when it is not configured.
    pub fn delay_for(&self, event_guid: &str) -> (d: Duration)
        ensures
            d@ == self.delay_of(event_guid@),
    {
        match self.delays.get(event_guid) {
            Some(d) => *d,
            None => Duration::zero(),
        }
    }

    /// Queues one payload for release after its target's stream delay.
    ///
    /// A payload in the same (event GUID, block GUID) pair as a pending one
    /// replaces the first such payload in place and keeps its deadline: a
    /// value-route upgrade rewrites one track inside its own block, so it
    /// publishes once and does not push the block later. Anything else is
    /// appended with deadline `now + delay`.
    pub fn schedule(&mut self, payload: LiveValuePayload, now: Instant)
        ensures
            forall|k: Seq<char>| #[trigger] final(self).delay_of(k) == old(self).delay_of(k),
            ({
                let e = payload.event_guid@;
                let b = payload.block_guid@;
                match first_in_block(old(self).pending(), e, b) {
                    Some(i) => final(self).pending() == old(self).pending().update(
                        i,
                        (old(self).pending()[i].0, payload),
                    ),
                    None => final(self).pending() == old(self).pending().push(
                        (deadline_for(now@, old(self).delay_of(e)), payload),
                    ),
                }
            }),
    {
        let ghost before = self.pending();
        let ghost e = payload.event_guid@;
        let ghost b = payload.block_guid@;
        let delay = self.delay_for(payload.event_guid.as_str());
        let mut i: usize = 0;
        while i < self.pending.len()
            invariant
                i <= self.pending@.len(),
                before == self.pending(),
                self.delays == old(self).delays,
                self.pending == old(self).pending,
                delay@ == old(self).delay_of(e),
                e == payload.event_guid@,
                b == payload.block_guid@,
                forall|j: int| 0 <= j < i ==> !in_block(#[trigger] before[j].1, e, b),
            decreases self.pending.len() - i,
        {
            let entry = &self.pending[i];
            if entry.payload.event_guid == payload.event_guid
                && entry.payload.block_guid == payload.block_guid {
                let due = entry.due_at;
                proof {
                    assert(before[i as int].1 == entry.payload);
                    assert(in_block(before[i as int].1, e, b));
                    assert(0 <= i < before.len() && in_block(before[i as int].1, e, b) && forall|
                        j: int,
                    | 0 <= j < i ==> !in_block(#[trigger] before[j].1, e, b));
                    let k = first_in_block(before, e, b)->0;
                    assert(0 <= k < before.len() && in_block(before[k].1, e, b));
                    assert(k == i) by {
                        if k < i {
                        } else if k > i {
                        }
                    }
                }
                self.pending.set(i, Scheduled { due_at: due, payload });
                proof {
                    assert(self.pending() =~= before.update(i as int, (before[i as int].0, payload)));
                }
                return;
            }
            i = i + 1;
        }
        let due = match now.checked_add(delay) {
            Some(t) => t,
            None => now,
        };
        self.pending.push(Scheduled { due_at: due, payload });
        proof {
            assert(forall|j: int| 0 <= j < before.len() ==> !in_block(#[trigger] before[j].1, e, b));
            assert(first_in_block(before, e, b) is None);
            assert(self.pending() =~= before.push((deadline_for(now@, self.delay_of(e)), payload)));
        }
    }

    /// Removes and returns every payload whose deadline has been reached.
    ///
    /// Due payloads come out in the order they were queued and the rest stay
    /// queued in order. The whole queue is scanned, so a target with no delay
    /// never waits behind a target with a long one.
    pub fn take_due(&mut self, now: Instant) -> (due: Vec<LiveValuePayload>)
        ensures
            forall|k: Seq<char>| #[trigger] final(self).delay_of(k) == old(self).delay_of(k),
            due@ == due_at(old(self).pending(), now@),
            final(self).pending() == waiting_at(old(self).pending(), now@),
    {
        let ghost before = self.pending();
        let mut entries: Vec<Scheduled> = Vec::new();
        std::mem::swap(&mut entries, &mut self.pending);
        let mut due: Vec<LiveValuePayload> = Vec::new();
        let mut waiting: Vec<Scheduled> = Vec::new();
        let ghost src = entries@;
        for entry in it: entries
            invariant
                src == it.seq(),
                before == src.map_values(|e: Scheduled| (e.due_at@, e.payload)),
                due@ == due_at(before.take(it.index() as int), now@),
                waiting@.map_values(|e: Scheduled| (e.due_at@, e.payload)) == waiting_at(
                    before.take(it.index() as int),
                    now@,
                ),
        {
            proof {
                let t = before.take(it.index() + 1);
                assert(t.drop_last() =~= before.take(it.index() as int));
                assert(t.last() == (entry.due_at@, entry.payload));
            }
            if entry.due_at.is_after(&now) {
                let ghost w = waiting@;
                waiting.push(entry);
                proof {
                    assert(waiting@.map_values(|e: Scheduled| (e.due_at@, e.payload)) =~= w.map_values(
                        |e: Scheduled| (e.due_at@, e.payload),
                    ).push((entry.due_at@, entry.payload)));
                }
            } else {
                due.push(entry.payload);
            }
        }
        proof {
            assert(before.take(before.len() as int) =~= before);
        }
        self.pending = waiting;
        due
    }

    /// The earliest pending deadline, if anything is waiting.
    pub fn next_deadline(&self) -> (t: Option<Instant>)
        ensures
            t is Some == earliest(self.pending()) is Some,
            t matches Some(t) ==> earliest(self.pending()) == Some(t@),
    {
        let ghost s = self.pending();
        let mut best: Option<Instant> = None;
        let mut i: usize = 0;
        while i < self.pending.len()
            invariant
                i <= self.pending@.len(),
                s == self.pending(),
                best is Some == earliest(s.take(i as int)) is Some,
                best matches Some(t) ==> earliest(s.take(i as int)) == Some(t@),
            decreases self.pending.len() - i,
        {
            let due = self.pending[i].due_at;
            proof {
                let t = s.take(i + 1);
                assert(t.drop_last() =~= s.take(i as int));
                assert(t.last().0 == due@);
            }
            best = match best {
                Some(b) => if due.is_after(&b) || due == b { Some(b) } else { Some(due) },
                None => Some(due),
            };
            i = i + 1;
        }
        proof {
            assert(s.take(s.len() as int) =~= s);
        }
        best
    }
}

/// After `take_due(now)`, nothing left in the queue is due at `now`.
pub proof fn lemma_waiting_not_due(s: PendingView, now: nat)
    ensures
        forall|i: int| 0 <= i < waiting_at(s, now).len() ==> #[trigger] waiting_at(s, now)[i].0 > now,
        due_at(waiting_at(s, now), now).len() == 0,
    decreases s.len(),
{
    if s.len() > 0 {
        lemma_waiting_not_due(s.drop_last(), now);
        let w = waiting_at(s.drop_last(), now);
        if s.last().0 > now {
            assert(w.push(s.last()).drop_last() =~= w);
            lemma_waiting_not_due_all(w.push(s.last()), now);
        }
    }
}

proof fn lemma_waiting_not_due_all(s: PendingView, now: nat)
    requires
        forall|i: int| 0 <= i < s.len() ==> #[trigger] s[i].0 > now,
    ensures
        due_at(s, now).len() == 0,
    decreases s.len(),
{
    if s.len() > 0 {
        lemma_waiting_not_due_all(s.drop_last(), now);
    }
}

/// How often an idle watch loop checks that relay publishing is still alive, in seconds.
pub const HEALTH_CHECK_INTERVAL_SECS: u64 = 1;

/// How long the watch loop may block before it must act again: until the
/// earliest pending deadline, but never longer than the health-check interval.
pub open spec fn wakeup_after(s: PendingView, now: nat) -> nat {
    let interval = HEALTH_CHECK_INTERVAL_SECS * crate::time::NANOS_PER_SEC;
    match earliest(s) {
        None => interval as nat,
        Some(deadline) => {
            let left: nat = if deadline >= now { (deadline - now) as nat } else { 0 };
            if left <= interval { left } else { interval as nat }
        },
    }
}

/// Returns how long the watch loop may block before it must act again.
pub fn next_wakeup(schedule: &PublishSchedule, now: Instant) -> (d: Duration)
    ensures
        d@ == wakeup_after(schedule.pending(), now@),
{
    let interval = Duration::from_secs(HEALTH_CHECK_INTERVAL_SECS);
    match schedule.next_deadline() {
        None => interval,
        Some(deadline) => deadline.saturating_duration_since(now).min(interval),
    }
}

/// A payload queued in a new block is released by the first `take_due` at or
/// after its deadline, after everything due before it, and not earlier.
pub proof fn law_release_at_deadline(s: PendingView, deadline: nat, p: LiveValuePayload, t: nat)
    ensures
        deadline <= t ==> due_at(s.push((deadline, p)), t) == due_at(s, t).push(p),
        deadline > t ==> due_at(s.push((deadline, p)), t) == due_at(s, t),
        deadline > t ==> waiting_at(s.push((deadline, p)), t) == waiting_at(s, t).push((deadline, p)),
{
    assert(s.push((deadline, p)).drop_last() =~= s);
}

/// With no stream delay a payload is due on the very tick it was queued.
pub proof fn law_zero_delay_same_tick(now: nat)
    ensures
        deadline_for(now, 0) == now,
{
}

/// A delayed payload is due exactly once its delay has elapsed.
pub proof fn law_delay_withholds(now: nat, delay: nat, t: nat)
    requires
        now + delay <= u128::MAX,
    ensures
        deadline_for(now, delay) <= t <==> now + delay <= t,
{
}

/// Replacing a pending payload in place keeps every deadline: the queue keeps
/// its length, its earliest deadline, and the number of payloads due at any time.
pub proof fn law_replacement_keeps_deadlines(s: PendingView, i: int, p: LiveValuePayload, t: nat)
    requires
        0 <= i < s.len(),
    ensures
        s.update(i, (s[i].0, p)).len() == s.len(),
        earliest(s.update(i, (s[i].0, p))) == earliest(s),
        due_at(s.update(i, (s[i].0, p)), t).len() == due_at(s, t).len(),
    decreases s.len(),
{
    let u = s.update(i, (s[i].0, p));
    if i == s.len() - 1 {
        assert(u.drop_last() =~= s.drop_last());
    } else {
        law_replacement_keeps_deadlines(s.drop_last(), i, p, t);
        assert(u.drop_last() =~= s.drop_last().update(i, (s[i].0, p)));
        assert(u.last() == s.last());
    }
}

/// The next deadline is one of the pending deadlines and no later than any
/// of them; there is none exactly when nothing is pending.
pub proof fn law_next_deadline_is_earliest(s: PendingView)
    ensures
        earliest(s) is None <==> s.len() == 0,
        earliest(s) matches Some(d) ==> (exists|i: int| 0 <= i < s.len() && s[i].0 == d) && forall|
            j: int,
        | 0 <= j < s.len() ==> d <= #[trigger] s[j].0,
    decreases s.len(),
{
    if s.len() > 0 {
        let rest = s.drop_last();
        law_next_deadline_is_earliest(rest);
        assert forall|j: int| 0 <= j < rest.len() implies #[trigger] rest[j] == s[j] by {}
        match earliest(rest) {
            Some(d) => {
                let i = choose|i: int| 0 <= i < rest.len() && rest[i].0 == d;
                assert(s[i].0 == d);
                if s.last().0 < d {
                    assert(s[s.len() - 1].0 == s.last().0);
                }
                assert forall|j: int| 0 <= j < s.len() implies earliest(s)->0 <= #[trigger] s[j].0 by {
                    if j < rest.len() {
                        assert(rest[j] == s[j]);
                    }
                }
            },
            None => {
                assert(s[s.len() - 1].0 == s.last().0);
            },
        }
    }
}

/// Every payload released or still waiting was queued: taking the due
/// payloads splits the queue and loses nothing.
pub proof fn law_take_due_loses_nothing(s: PendingView, t: nat)
    ensures
        due_at(s, t).len() + waiting_at(s, t).len() == s.len(),
    decreases s.len(),
{
    if s.len() > 0 {
        law_take_due_loses_nothing(s.drop_last(), t);
    }
}

} // verus!
