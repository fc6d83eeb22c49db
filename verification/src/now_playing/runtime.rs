//! The now-playing producer's decisions from one poll to the next.
//!
//! Polling Mixxx, reading tags, asking the MusicIndex API and touching files
//! happen around this module. Here is the state that ties them together: the
//! track whose metadata is published, when that metadata expires, and
//! whether a late route lookup may still change it.

use vstd::prelude::*;
use crate::now_playing::expiry::{expired, Expiry};
use crate::now_playing::history::TrackRow;
use crate::now_playing::musicindex::{
    apply_resolution_to_tags, ResolvedRouteResult, RouteRequestStatus, ValueRoutesSource,
};
use crate::now_playing::render::{now_playing_line, render_now_playing_line};
use crate::now_playing::sink::{decided, recorded, OutputFile, Presence, SinkAction};
use crate::now_playing::tags::{items_view, TrackTags};
use crate::time::{Duration, Instant};

verus! {

/// How published metadata expires.
#[derive(Clone, Copy, Debug, PartialEq, Eq, Structural)]
pub enum ExpiryMode {
    /// After the track's duration plus slack, or a fallback.
    Duration,
    /// Never.
    Never,
}

/// The track whose metadata is published.
#[derive(Debug)]
pub struct CurrentTrack {
    pub hist_id: i64,
    pub artist: String,
    pub title: String,
    pub tags: TrackTags,
}

/// What the producer knows between polls.
#[derive(Debug)]
pub struct RuntimeState {
    pub current: Option<CurrentTrack>,
    pub expiry: Expiry,
    pub pending_route_lookup: bool,
}

/// The state with no track published.
pub open spec fn is_clear(s: RuntimeState) -> bool {
    &&& s.current is None
    &&& s.expiry.deadline_at() is None
    &&& !s.pending_route_lookup
}

/// Recording a carried-out `removal` of the metadata takes the state `s0`
/// and metadata file `m0` to `s1` and `m1`: nothing is published any more.
pub open spec fn withdraw_step(
    s0: RuntimeState,
    m0: OutputFile,
    removal: SinkAction,
    s1: RuntimeState,
    m1: OutputFile,
) -> bool {
    &&& is_clear(s1)
    &&& recorded(m0, removal, m1)
}

/// Recording the carried-out `written` action of a new track's metadata
/// takes `s0` and `m0` to `s1` and `m1`: the track of `row` with `tags`
/// becomes current under `expiry`.
pub open spec fn publish_track_step(
    s0: RuntimeState,
    m0: OutputFile,
    row: TrackRow,
    tags: TrackTags,
    written: SinkAction,
    expiry: Expiry,
    s1: RuntimeState,
    m1: OutputFile,
) -> bool {
    &&& s1.expiry == expiry
    &&& s1.pending_route_lookup == s0.pending_route_lookup
    &&& s1.current matches Some(c) && c.hist_id == row.hist_id && c.artist == row.artist && c.title == row.title
        && c.tags == tags
    &&& recorded(m0, written, m1)
}

/// Recording the carried-out `written` action of looked-up routes takes
/// `s0` and `m0` to `s1` and `m1`: the current track keeps its identity and
/// takes `tags`.
pub open spec fn publish_routes_step(
    s0: RuntimeState,
    m0: OutputFile,
    tags: TrackTags,
    written: SinkAction,
    s1: RuntimeState,
    m1: OutputFile,
) -> bool {
    &&& s1.expiry == s0.expiry
    &&& s1.pending_route_lookup == s0.pending_route_lookup
    &&& match s0.current {
        Some(c) => s1.current matches Some(n) && n.hist_id == c.hist_id && n.artist == c.artist
            && n.title == c.title && n.tags == tags,
        None => s1.current is None,
    }
    &&& recorded(m0, written, m1)
}

/// Taking in the finished lookup `result` takes `s0` to `s1` and yields the
/// tags to publish, `tags`: nothing for a result about another history row
/// or when no track is published; for the current track its lookup ends,
/// and routes from the API replace its `Value Routes` item.
pub open spec fn route_update_step(s0: RuntimeState, result: ResolvedRouteResult, s1: RuntimeState, tags: Option<TrackTags>) -> bool {
    &&& s1.current == s0.current
    &&& s1.expiry == s0.expiry
    &&& match s0.current {
        None => tags is None && s1.pending_route_lookup == s0.pending_route_lookup,
        Some(c) => if c.hist_id != result.hist_id {
            tags is None && s1.pending_route_lookup == s0.pending_route_lookup
        } else {
            &&& !s1.pending_route_lookup
            &&& result.resolution.source != ValueRoutesSource::MusicIndexApi ==> tags is None
            &&& result.resolution.source == ValueRoutesSource::MusicIndexApi ==> (tags matches Some(t)
                && t.tags@ == c.tags.tags@ && t.duration == c.tags.duration
                && items_view(t.musicindex@) == match result.resolution.routes_json {
                Some(json) => match crate::now_playing::tags::first_with_key(
                    items_view(c.tags.musicindex@),
                    "Value Routes"@,
                ) {
                    Some(i) => items_view(c.tags.musicindex@).update(i, ("Value Routes"@, json@)),
                    None => items_view(c.tags.musicindex@).push(("Value Routes"@, json@)),
                },
                None => crate::now_playing::tags::without_key(items_view(c.tags.musicindex@), "Value Routes"@),
            })
        },
    }
}

/// What a newly started track's metadata needs.
#[derive(Clone, Copy, Debug, PartialEq, Eq, Structural)]
pub enum TrackAction {
    /// Remove it: the track is not a V4V track, or its tags could not be read.
    Withdraw,
    /// Publish it from the track's tags.
    Publish,
}

/// What a new track's metadata needs: publishing when it is a V4V track whose
/// tags were read, withdrawal otherwise. A track that is not a V4V track has
/// its tags left unread.
pub fn track_action(is_v4v: bool, tags_read: bool) -> (a: TrackAction)
    ensures
        a == if is_v4v && tags_read {
            TrackAction::Publish
        } else {
            TrackAction::Withdraw
        },
{
    if is_v4v && tags_read {
        TrackAction::Publish
    } else {
        TrackAction::Withdraw
    }
}

/// The expiry for a track started at `now` under `mode`.
pub fn expiry_for(mode: ExpiryMode, now: Instant, track_duration: Option<Duration>, slack: Duration, fallback: Duration) -> (e: Expiry)
    ensures
        mode == ExpiryMode::Never ==> e.deadline_at() is None,
        mode == ExpiryMode::Duration ==> e.deadline_at() == crate::now_playing::expiry::deadline_after(
            now@,
            track_duration,
            slack@,
            fallback@,
        ),
{
    match mode {
        ExpiryMode::Duration => Expiry::duration(now, track_duration, slack, fallback),
        ExpiryMode::Never => Expiry::none(),
    }
}

/// What the now-playing file needs for a history row: its line, written
/// unless the file already holds it. Nothing is recorded here.
pub fn now_playing_action(now_playing: &OutputFile, row: &TrackRow, strip_hyphens: bool) -> (action: SinkAction)
    ensures
        now_playing.last_content() == Some(now_playing_line(row.artist@, row.title@, strip_hyphens)) ==> action
            == SinkAction::Keep,
        now_playing.last_content() != Some(now_playing_line(row.artist@, row.title@, strip_hyphens)) ==> (
        action matches SinkAction::Write { path, content } && path@ == now_playing.path_text() && content@
            == now_playing_line(row.artist@, row.title@, strip_hyphens)),
{
    let line = render_now_playing_line(row.artist.as_str(), row.title.as_str(), strip_hyphens);
    now_playing.set(Presence::Present(line))
}

impl RuntimeState {
    /// Nothing published.
    pub fn new() -> (s: Self)
        ensures
            is_clear(s),
    {
        RuntimeState { current: None, expiry: Expiry::none(), pending_route_lookup: false }
    }

    /// Forgets the published track.
    pub fn clear(&mut self)
        ensures
            is_clear(*final(self)),
    {
        self.current = None;
        self.expiry = Expiry::none();
        self.pending_route_lookup = false;
    }

    /// Records that the metadata was removed: the track is not a V4V track,
    /// its tags could not be read, or its metadata expired. Call it once
    /// `removal` (what the metadata file needed to be absent) was carried
    /// out; until then nothing is recorded.
    pub fn withdraw(&mut self, metadata: &mut OutputFile, removal: SinkAction)
        ensures
            withdraw_step(*old(self), *old(metadata), removal, *final(self), *final(metadata)),
    {
        metadata.record(removal);
        self.clear();
    }

    /// Records that a newly started V4V track's metadata was written:
    /// `written` is what the metadata file needed to hold it, carried out.
    pub fn publish_track(
        &mut self,
        metadata: &mut OutputFile,
        row: &TrackRow,
        tags: TrackTags,
        written: SinkAction,
        expiry: Expiry,
    )
        ensures
            publish_track_step(*old(self), *old(metadata), *row, tags, written, expiry, *final(self), *final(metadata)),
    {
        metadata.record(written);
        self.expiry = expiry;
        self.current = Some(
            CurrentTrack { hist_id: row.hist_id, artist: row.artist.clone(), title: row.title.clone(), tags },
        );
    }

    /// Notes what asking for the new track's routes led to, and returns a
    /// cached answer to apply at once.
    pub fn note_route_request(&mut self, status: RouteRequestStatus) -> (apply: Option<ResolvedRouteResult>)
        ensures
            final(self).current == old(self).current,
            final(self).expiry == old(self).expiry,
            match status {
                RouteRequestStatus::Spawned => final(self).pending_route_lookup && apply is None,
                RouteRequestStatus::Cached(r) => final(self).pending_route_lookup == old(self).pending_route_lookup
                    && apply == Some(r),
                _ => final(self).pending_route_lookup == old(self).pending_route_lookup && apply is None,
            },
    {
        match status {
            RouteRequestStatus::Spawned => {
                self.pending_route_lookup = true;
                None
            },
            RouteRequestStatus::Cached(result) => Some(result),
            _ => None,
        }
    }

    /// Takes in a finished route lookup and returns the tags to publish, with
    /// the looked-up routes in place, when it changes the published track.
    ///
    /// A result for another history row (a superseded track) changes
    /// nothing. A result for the current track ends its pending lookup, and
    /// changes its tags only when the routes came from the API.
    pub fn route_update(&mut self, result: &ResolvedRouteResult) -> (tags: Option<TrackTags>)
        ensures
            route_update_step(*old(self), *result, *final(self), tags),
    {
        let current = match &self.current {
            Some(c) => c,
            None => {
                return None;
            },
        };
        if current.hist_id != result.hist_id {
            return None;
        }
        let updated = if result.resolution.source == ValueRoutesSource::MusicIndexApi {
            Some(apply_resolution_to_tags(&current.tags, &result.resolution))
        } else {
            None
        };
        self.pending_route_lookup = false;
        updated
    }

    /// Records that the metadata rendered from `tags`, with looked-up routes,
    /// was written for the current track (`written`, carried out), and keeps
    /// `tags` as its tags.
    pub fn publish_routes(&mut self, metadata: &mut OutputFile, tags: TrackTags, written: SinkAction)
        ensures
            publish_routes_step(*old(self), *old(metadata), tags, written, *final(self), *final(metadata)),
    {
        metadata.record(written);
        match self.current.take() {
            Some(c) => {
                self.current = Some(CurrentTrack { hist_id: c.hist_id, artist: c.artist, title: c.title, tags });
            },
            None => {},
        }
    }
}

/// How often Mixxx's liveness is checked, in seconds.
pub const LIVENESS_CHECK_INTERVAL_SECS: u64 = 1;

/// A cached answer to "is Mixxx still running", good for an interval.
#[derive(Debug)]
pub struct MixxxLiveness {
    interval: Duration,
    last_checked: Option<Instant>,
    last_result: bool,
}

impl MixxxLiveness {
    /// When the answer was last refreshed.
    pub closed spec fn checked_at(&self) -> Option<nat> {
        match self.last_checked {
            Some(t) => Some(t@),
            None => None,
        }
    }

    /// The cached answer.
    pub closed spec fn cached_answer(&self) -> bool {
        self.last_result
    }

    /// The refresh interval.
    pub closed spec fn interval_length(&self) -> nat {
        self.interval@
    }

    /// A cache that has not checked yet and assumes Mixxx is running.
    pub fn new(interval: Duration) -> (l: Self)
        ensures
            l.checked_at() is None,
            l.cached_answer(),
            l.interval_length() == interval@,
    {
        MixxxLiveness { interval, last_checked: None, last_result: true }
    }

    /// Whether the answer must be refreshed at `now`: it never was, or the
    /// interval has passed since.
    pub fn check_due(&self, now: Instant) -> (due: bool)
        ensures
            due == match self.checked_at() {
                None => true,
                Some(t) => (if now@ >= t { now@ - t } else { 0 }) >= self.interval_length(),
            },
    {
        match self.last_checked {
            None => true,
            Some(last) => !now.saturating_duration_since(last).is_shorter_than(&self.interval),
        }
    }

    /// Records a fresh answer taken at `now`.
    pub fn record(&mut self, now: Instant, running: bool)
        ensures
            final(self).checked_at() == Some(now@),
            final(self).cached_answer() == running,
            final(self).interval_length() == old(self).interval_length(),
    {
        self.last_checked = Some(now);
        self.last_result = running;
    }

    /// The cached answer.
    pub fn answer(&self) -> (b: bool)
        ensures
            b == self.cached_answer(),
    {
        self.last_result
    }
}

/// The metadata file is present exactly while a track is published.
pub open spec fn metadata_in_step(s: RuntimeState, metadata: OutputFile) -> bool {
    (s.current is Some) == (metadata.last_content() is Some)
}

/// Withdrawing leaves no track and no metadata, whatever came before: the
/// removal of the metadata file, once carried out and recorded.
pub proof fn law_withdraw_leaves_nothing(
    s0: RuntimeState,
    m0: OutputFile,
    removal: SinkAction,
    s1: RuntimeState,
    m1: OutputFile,
)
    requires
        decided(m0, Presence::Absent, removal),
        withdraw_step(s0, m0, removal, s1, m1),
    ensures
        metadata_in_step(s1, m1),
        s1.current is None,
        m1.last_content() is None,
{
}

/// Expiry keeps the metadata in step with the published track: before the
/// deadline it asks for nothing; past it, the removal it asks for, once
/// recorded, removes both.
pub proof fn law_expiry_keeps_metadata_in_step(
    s0: RuntimeState,
    m0: OutputFile,
    now: nat,
    removal: Option<SinkAction>,
    s1: RuntimeState,
    m1: OutputFile,
)
    requires
        metadata_in_step(s0, m0),
        expired(s0.expiry, now) ==> (removal matches Some(a) && decided(m0, Presence::Absent, a)),
        !expired(s0.expiry, now) ==> removal is None,
        removal matches Some(a) ==> withdraw_step(s0, m0, a, s1, m1),
        removal is None ==> s1 == s0 && m1 == m0,
    ensures
        metadata_in_step(s1, m1),
        expired(s0.expiry, now) ==> s1.current is None,
{
}

/// Publishing a track leaves its metadata on disk once the write is
/// recorded.
pub proof fn law_published_track_has_metadata(
    s0: RuntimeState,
    m0: OutputFile,
    row: TrackRow,
    tags: TrackTags,
    content: String,
    written: SinkAction,
    expiry: Expiry,
    s1: RuntimeState,
    m1: OutputFile,
)
    requires
        decided(m0, Presence::Present(content), written),
        publish_track_step(s0, m0, row, tags, written, expiry, s1, m1),
    ensures
        metadata_in_step(s1, m1),
        m1.last_content() == Some(content@),
{
}

/// Routes are published only for the current track, and then leave both the
/// track and its metadata in place.
pub proof fn law_routes_publish_for_current_track(
    s0: RuntimeState,
    result: ResolvedRouteResult,
    s1: RuntimeState,
    tags: TrackTags,
    m1: OutputFile,
    content: String,
    written: SinkAction,
    s2: RuntimeState,
    m2: OutputFile,
)
    requires
        route_update_step(s0, result, s1, Some(tags)),
        decided(m1, Presence::Present(content), written),
        publish_routes_step(s1, m1, tags, written, s2, m2),
    ensures
        s0.current matches Some(c) && c.hist_id == result.hist_id,
        metadata_in_step(s2, m2),
        m2.last_content() == Some(content@),
        s2.current matches Some(c) && c.tags == tags,
{
}

} // verus!
