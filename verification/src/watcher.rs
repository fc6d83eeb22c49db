//! Drop-directory event processing.
//!
//! The watcher turns normalized filesystem events into live value payloads.
//! Reading and decoding a drop file is the caller's work; the watcher decides
//! which events count, which target a file publishes to, which block GUID a
//! track publishes under, and what a removal publishes.

use vstd::prelude::*;
use crate::dropfile::{clone_opt_string, DropFile};
use crate::keyed::{entries_view, has_key, lemma_lookup_found_iff_has_key, lookup, KeyedList};
use crate::paths::{file_name, path_file_name, path_key, path_key_of};
use crate::livevalue::{fallback_payload, payload_from_dropfile, LiveValue, LiveValuePayload};
use crate::text::{
    all_whitespace, chars_of, is_blank, is_prefix, lemma_text_le_total, lemma_text_le_transitive, string_eq_text,
    text_at_or_before, text_le,
};
use crate::time::{Duration, Instant};

verus! {

/// The debounce window for repeated filesystem notifications on one path, in milliseconds.
pub const DEFAULT_DEBOUNCE_WINDOW_MILLIS: u64 = 75;

/// A configured publish target as the watcher needs it.
#[derive(Debug, PartialEq)]
pub struct WatchTarget {
    pub name: String,
    pub event_guid: String,
    pub fallback: FallbackConfig,
}

/// The station value block published when no track is playing.
#[derive(Debug, PartialEq)]
pub struct FallbackConfig {
    pub title: String,
    pub image: Option<String>,
    pub value: LiveValue,
}

/// Filesystem actions that can affect the published payload.
#[derive(Clone, Copy, Debug, PartialEq, Eq, Hash, Structural)]
pub enum DropEventKind {
    Upsert,
    Remove,
}

/// A normalized filesystem event for the drop directory.
#[derive(Debug, PartialEq, Eq)]
pub struct DropEvent {
    pub kind: DropEventKind,
    pub path: String,
}

/// What reading a drop file produced.
#[derive(Debug)]
pub enum DropFileRead {
    /// A well-formed file in the supported schema.
    Parsed(DropFile),
    /// Malformed JSON, a schema mismatch, or an unknown schema version:
    /// skipped without publishing anything.
    Skipped,
}

/// What makes two drop files the same track.
///
/// A MusicIndex track GUID identifies the track on its own; artist and title
/// identify a file that carries no GUID. Whole-file equality would not do:
/// a value-route upgrade rewrites one track and must stay in its block.
#[derive(Debug)]
pub enum TrackIdentity {
    Guid(String),
    ArtistTitle(String, String),
}

/// The track a path is publishing and the block GUID it publishes under.
#[derive(Debug)]
pub struct BlockIdentity {
    pub track: TrackIdentity,
    pub block_guid: String,
}

/// The last accepted notification of each kind on one path.
#[derive(Clone, Copy, Debug)]
struct DebounceMarks {
    upsert: Option<Instant>,
    remove: Option<Instant>,
}

/// Stateful drop-event processor.
pub struct DropWatcher {
    targets: KeyedList<WatchTarget>,
    path_targets: KeyedList<String>,
    blocks: KeyedList<BlockIdentity>,
    window: Duration,
    marks: KeyedList<DebounceMarks>,
}

/// The identity of the track a drop file describes.
pub open spec fn track_of(d: DropFile) -> TrackIdentity {
    match d.track_guid {
        Some(g) => if !all_whitespace(g@) {
            TrackIdentity::Guid(g)
        } else {
            TrackIdentity::ArtistTitle(d.artist, d.title)
        },
        None => TrackIdentity::ArtistTitle(d.artist, d.title),
    }
}

/// Whether two identities name the same track.
pub open spec fn same_track(a: TrackIdentity, b: TrackIdentity) -> bool {
    match (a, b) {
        (TrackIdentity::Guid(x), TrackIdentity::Guid(y)) => x@ == y@,
        (TrackIdentity::ArtistTitle(a1, t1), TrackIdentity::ArtistTitle(a2, t2)) => a1@ == a2@
            && t1@ == t2@,
        _ => false,
    }
}

/// The index of the last occurrence of `c` in `s`.
pub open spec fn last_index_of(s: Seq<char>, c: char) -> Option<int>
    decreases s.len(),
{
    if s.len() == 0 {
        None
    } else if s.last() == c {
        Some(s.len() - 1)
    } else {
        last_index_of(s.drop_last(), c)
    }
}

/// The extension of a file name, as `Path::extension` documents it: none
/// without an embedded `.`, none for a name that begins with `.` and has no
/// other `.`, and otherwise the text after the final `.`.
pub open spec fn file_extension(name: Seq<char>) -> Option<Seq<char>> {
    match last_index_of(name, '.') {
        None => None,
        Some(i) => if i == 0 {
            None
        } else {
            Some(name.subrange(i + 1, name.len() as int))
        },
    }
}

/// A final drop file: a visible file name with the `json` extension.
pub open spec fn is_final_drop_path(path: Seq<char>) -> bool {
    match path_file_name(path) {
        None => false,
        Some(name) => !is_prefix(seq!['.'], name) && file_extension(name) == Some("json"@),
    }
}

/// Calls `Uuid::new_v4` and renders the GUID in hyphenated form.
#[verifier::external_body]
fn fresh_guid() -> (g: String) {
    uuid::Uuid::new_v4().to_string()
}

fn last_dot(name: &Vec<char>) -> (r: Option<usize>)
    ensures
        r is Some == last_index_of(name@, '.') is Some,
        r matches Some(i) ==> last_index_of(name@, '.') == Some(i as int) && i < name@.len(),
{
    let mut i = name.len();
    assert(name@.take(i as int) =~= name@);
    while i > 0
        invariant
            i <= name@.len(),
            last_index_of(name@, '.') == last_index_of(name@.take(i as int), '.'),
        decreases i,
    {
        proof {
            let t = name@.take(i as int);
            assert(t.drop_last() =~= name@.take(i - 1));
        }
        if name[i - 1] == '.' {
            return Some(i - 1);
        }
        i = i - 1;
    }
    None
}

/// Returns true for final JSON drop files, false for temporary or hidden files.
pub fn is_final_drop_file(path: &str) -> (b: bool)
    ensures
        b == is_final_drop_path(path@),
{
    let name = match file_name(path) {
        Some(n) => n,
        None => return false,
    };
    let chars = chars_of(name.as_str());
    if chars.len() > 0 && chars[0] == '.' {
        assert(is_prefix(seq!['.'], name@)) by {
            assert(name@.subrange(0, 1) =~= seq!['.']);
        }
        return false;
    }
    if chars.len() > 0 {
        assert(name@.subrange(0, 1)[0] == chars@[0]);
    }
    assert(!is_prefix(seq!['.'], name@));
    match last_dot(&chars) {
        None => false,
        Some(i) => {
            if i == 0 {
                false
            } else {
                let ext = crate::text::string_from_range(&chars, i + 1, chars.len());
                string_eq_text(ext.as_str(), "json")
            }
        },
    }
}

/// The identity of the track `d` describes.
fn track_identity(d: &DropFile) -> (t: TrackIdentity)
    ensures
        same_track(t, track_of(*d)),
{
    match &d.track_guid {
        Some(g) => {
            if !is_blank(g.as_str()) {
                return TrackIdentity::Guid(g.clone());
            }
        },
        None => {},
    }
    TrackIdentity::ArtistTitle(d.artist.clone(), d.title.clone())
}

fn same_track_exec(a: &TrackIdentity, b: &TrackIdentity) -> (r: bool)
    ensures
        r == same_track(*a, *b),
{
    match (a, b) {
        (TrackIdentity::Guid(x), TrackIdentity::Guid(y)) => *x == *y,
        (TrackIdentity::ArtistTitle(a1, t1), TrackIdentity::ArtistTitle(a2, t2)) => *a1 == *a2
            && *t1 == *t2,
        _ => false,
    }
}

/// Whether `p` is the track payload for `d` in live item `event_guid` and block `block_guid`.
pub open spec fn is_track_payload(
    p: LiveValuePayload,
    d: DropFile,
    event_guid: Seq<char>,
    block_guid: Seq<char>,
) -> bool {
    &&& p.title == d.title
    &&& p.image == d.image
    &&& crate::livevalue::is_music_block(p)
    &&& p.duration == d.duration_secs
    &&& p.event_guid@ == event_guid
    &&& p.block_guid@ == block_guid
    &&& p.feed_guid == d.feed_guid
    &&& p.item_guid == d.track_guid
    &&& crate::livevalue::is_keysend_model(p.value.model)
    &&& p.value.destinations@ == d.value_routes@.map_values(
        |r: crate::dropfile::PaymentRoute| crate::livevalue::destination_of(r),
    )
}

/// Whether `p` is the fallback payload of target `t` in block `block_guid`.
pub open spec fn is_fallback_payload(p: LiveValuePayload, t: WatchTarget, block_guid: Seq<char>) -> bool {
    &&& p.title@ == t.fallback.title@
    &&& crate::text::opt_text(p.image) == crate::text::opt_text(t.fallback.image)
    &&& crate::livevalue::is_music_block(p)
    &&& p.duration is None
    &&& p.event_guid@ == t.event_guid@
    &&& p.block_guid@ == block_guid
    &&& p.feed_guid is None
    &&& p.item_guid is None
    &&& p.value@ == t.fallback.value@
}

/// The fallback payload of target `t`, in block `block_guid`.
fn fallback_payload_for_target(t: &WatchTarget, block_guid: &str) -> (p: LiveValuePayload)
    ensures
        is_fallback_payload(p, *t, block_guid@),
{
    let image = match &t.fallback.image {
        Some(i) => Some(i.as_str()),
        None => None,
    };
    let p = fallback_payload(
        t.fallback.title.as_str(),
        image,
        t.event_guid.as_str(),
        block_guid,
        &t.fallback.value,
    );
    p
}

impl DropWatcher {
    /// The configured target named `name`.
    pub closed spec fn target_named(&self, name: Seq<char>) -> Option<WatchTarget> {
        self.targets.spec_get(name)
    }

    /// The target the file at `path` last published to. Paths name the same
    /// file when they have the same components.
    pub closed spec fn path_target(&self, path: Seq<char>) -> Option<String> {
        self.path_targets.spec_get(path_key(path))
    }

    /// The block the file at `path` is publishing.
    pub closed spec fn block_at(&self, path: Seq<char>) -> Option<BlockIdentity> {
        self.blocks.spec_get(path_key(path))
    }

    /// The debounce window.
    pub closed spec fn window(&self) -> nat {
        self.window@
    }

    /// The last accepted notification of `kind` on the file at `path`.
    pub closed spec fn last_mark(&self, path: Seq<char>, kind: DropEventKind) -> Option<Instant> {
        match self.marks.spec_get(path_key(path)) {
            None => None,
            Some(m) => match kind {
                DropEventKind::Upsert => m.upsert,
                DropEventKind::Remove => m.remove,
            },
        }
    }

    /// The number of configured targets.
    pub closed spec fn target_count(&self) -> nat {
        self.targets.spec_len()
    }

    /// The `i`th configured target.
    pub closed spec fn target_at(&self, i: int) -> WatchTarget {
        self.targets.spec_value_at(i)
    }

    /// Whether a notification of `kind` on `path` at `now` repeats an accepted
    /// one inside the debounce window.
    pub open spec fn is_duplicate_at(&self, path: Seq<char>, kind: DropEventKind, now: Instant) -> bool {
        match self.last_mark(path, kind) {
            Some(last) => (if now@ >= last@ { now@ - last@ } else { 0 }) < self.window(),
            None => false,
        }
    }

    /// Creates a drop-event processor for one target.
    pub fn new(target: WatchTarget, debounce_window: Duration) -> (w: Self)
        ensures
            w.window() == debounce_window@,
            names_consistent(w),
            forall|k: Seq<char>| #[trigger] w.target_named(k) == if k == target.name@ {
                Some(target)
            } else {
                None
            },
            forall|p: Seq<char>| #[trigger] w.path_target(p) is None,
            forall|p: Seq<char>| #[trigger] w.block_at(p) is None,
            forall|p: Seq<char>, k: DropEventKind| #[trigger] w.last_mark(p, k) is None,
    {
        let ghost t = target;
        let mut targets = Vec::new();
        targets.push(target);
        let w = Self::new_targets(targets, debounce_window);
        proof {
            assert forall|k: Seq<char>| #[trigger] w.target_named(k) == if k == t.name@ {
                Some(t)
            } else {
                None
            } by {
                let es = seq![(t.name@, t)];
                assert(es.drop_last() =~= Seq::<(Seq<char>, WatchTarget)>::empty());
                assert(es.last() == (t.name@, t));
                assert(lookup(es.drop_last(), k) is None);
                assert(lookup(es, k) == if k == t.name@ { Some(t) } else { None });
                assert(entries_view(seq![(t.name, t)]) =~= es);
                let tv = targets_view(seq![t]);
                assert(tv =~= es);
            }
        }
        w
    }

    /// Creates a drop-event processor for the configured targets. When two
    /// targets share a name, the later one is kept.
    pub fn new_targets(targets: Vec<WatchTarget>, debounce_window: Duration) -> (w: Self)
        ensures
            w.window() == debounce_window@,
            names_consistent(w),
            forall|k: Seq<char>| #[trigger] w.target_named(k) == lookup(targets_view(targets@), k),
            forall|i: int|
                0 <= i < w.target_count() ==> w.target_named(#[trigger] w.target_at(i).name@) == Some(w.target_at(i)),
            forall|i: int, j: int|
                0 <= i < w.target_count() && 0 <= j < w.target_count() && i != j ==> #[trigger] w.target_at(i).name@
                    != #[trigger] w.target_at(j).name@,
            forall|k: Seq<char>|
                #[trigger] w.target_named(k) is Some ==> exists|i: int| 0 <= i < w.target_count() && w.target_at(i).name@ == k,
            names_distinct(targets@) ==> w.target_count() == targets@.len(),
            forall|p: Seq<char>| #[trigger] w.path_target(p) is None,
            forall|p: Seq<char>| #[trigger] w.block_at(p) is None,
            forall|p: Seq<char>, k: DropEventKind| #[trigger] w.last_mark(p, k) is None,
    {
        let mut map: KeyedList<WatchTarget> = KeyedList::new();
        let ghost src = targets@;
        let ghost tv = targets_view(targets@);
        for target in it: targets
            invariant
                src == it.seq(),
                tv == targets_view(src),
                forall|k: Seq<char>| #[trigger] map.spec_get(k) == lookup(tv.take(it.index() as int), k),
                map.distinct(),
                names_distinct(src) ==> map.spec_len() == it.index(),
        {
            let ghost tg = target;
            let ghost idx = it.index() as int;
            proof {
                if names_distinct(src) {
                    let t = tv.take(idx);
                    lemma_lookup_found_iff_has_key(t, tg.name@);
                    if has_key(t, tg.name@) {
                        let j = choose|j: int| 0 <= j < t.len() && #[trigger] t[j].0 == tg.name@;
                        assert(t[j].0 == src[j].name@);
                        assert(src[idx] == tg);
                    }
                }
            }
            let name = target.name.clone();
            map.insert(name, target);
            proof {
                let t = tv.take(idx + 1);
                assert(t.drop_last() =~= tv.take(idx));
                assert(t.last() == (tg.name@, tg));
            }
        }
        proof {
            assert(tv.take(tv.len() as int) =~= tv);
            assert forall|k: Seq<char>| map.spec_get(k) is Some implies #[trigger] map.spec_get(k)->0.name@
                == k by {
                lemma_lookup_targets_named(src, k);
            }
            map.lemma_entries();
            assert forall|i: int| 0 <= i < map.spec_len() implies #[trigger] map.spec_value_at(i).name@
                == map.spec_key_at(i) by {
                assert(map.spec_get(map.spec_key_at(i)) == Some(map.spec_value_at(i)));
                lemma_lookup_targets_named(src, map.spec_key_at(i));
            }
            assert forall|k: Seq<char>| #[trigger] map.spec_get(k) is Some implies exists|i: int|
                0 <= i < map.spec_len() && map.spec_value_at(i).name@ == k by {
                let i = choose|i: int| 0 <= i < map.spec_len() && map.spec_key_at(i) == k;
                assert(map.spec_value_at(i).name@ == map.spec_key_at(i));
            }
        }
        let w = DropWatcher {
            targets: map,
            path_targets: KeyedList::new(),
            blocks: KeyedList::new(),
            window: debounce_window,
            marks: KeyedList::new(),
        };
        proof {
            assert forall|k: Seq<char>| #[trigger] w.target_named(k) is Some implies exists|i: int|
                0 <= i < w.target_count() && w.target_at(i).name@ == k by {
                assert(w.targets.spec_get(k) is Some);
                let i = choose|i: int| 0 <= i < w.targets.spec_len() && w.targets.spec_value_at(i).name@ == k;
                assert(w.target_at(i).name@ == k);
            }
        }
        w
    }
}

/// Whether paths `a` and `b` name the same file: they have the same key,
/// which is when they have the same components (`lemma_path_key_identifies`).
pub open spec fn same_file(a: Seq<char>, b: Seq<char>) -> bool {
    path_key(a) == path_key(b)
}

/// Whether `a` and `b` publish alike: same targets, same path targets, same
/// blocks and the same debounce window.
pub open spec fn same_publishing(a: DropWatcher, b: DropWatcher) -> bool {
    &&& a.window() == b.window()
    &&& forall|k: Seq<char>| #[trigger] a.target_named(k) == b.target_named(k)
    &&& forall|p: Seq<char>| #[trigger] a.path_target(p) == b.path_target(p)
    &&& forall|p: Seq<char>| #[trigger] a.block_at(p) == b.block_at(p)
    &&& a.target_count() == b.target_count()
    &&& forall|i: int| 0 <= i < a.target_count() ==> #[trigger] a.target_at(i) == b.target_at(i)
}

/// Whether `a` and `b` remember the same accepted notifications.
pub open spec fn same_marks(a: DropWatcher, b: DropWatcher) -> bool {
    forall|p: Seq<char>, k: DropEventKind| #[trigger] a.last_mark(p, k) == b.last_mark(p, k)
}

/// One accepted-or-dropped notification: `accepted` says whether `event`
/// counts, and `new` is the watcher afterwards.
pub open spec fn accept_step(old: DropWatcher, new: DropWatcher, event: DropEvent, now: Instant, accepted: bool) -> bool {
    &&& accepted == (is_final_drop_path(event.path@) && !old.is_duplicate_at(event.path@, event.kind, now))
    &&& same_publishing(old, new)
    &&& if accepted {
        &&& new.last_mark(event.path@, event.kind) == Some(now)
        &&& forall|p: Seq<char>, k: DropEventKind|
            (!same_file(p, event.path@) || k != event.kind) ==> #[trigger] new.last_mark(p, k) == old.last_mark(
                p,
                k,
            )
    } else {
        same_marks(old, new)
    }
}

/// The block GUID a track in `d` at `path` publishes under: the path's
/// current block when it holds the same track, otherwise `minted`.
pub open spec fn block_guid_for(w: DropWatcher, path: Seq<char>, d: DropFile, minted: Seq<char>) -> Seq<char> {
    match w.block_at(path) {
        Some(b) => if same_track(b.track, track_of(d)) {
            b.block_guid@
        } else {
            minted
        },
        None => minted,
    }
}

/// One drop-file upsert at `path`, with `minted` as the GUID for a new block.
pub open spec fn upsert_step(
    old: DropWatcher,
    new: DropWatcher,
    path: Seq<char>,
    read: DropFileRead,
    minted: Seq<char>,
    r: Option<LiveValuePayload>,
) -> bool {
    &&& same_marks(old, new)
    &&& match read {
        DropFileRead::Skipped => r is None && same_publishing(old, new),
        DropFileRead::Parsed(d) => match old.target_named(d.target@) {
            None => r is None && same_publishing(old, new),
            Some(t) => {
                let guid = block_guid_for(old, path, d, minted);
                &&& r matches Some(p) && is_track_payload(p, d, t.event_guid@, guid)
                &&& new.block_at(path) matches Some(b) && same_track(b.track, track_of(d))
                    && b.block_guid@ == guid
                &&& new.path_target(path) == Some(t.name)
                &&& forall|q: Seq<char>| !same_file(q, path) ==> #[trigger] new.block_at(q) == old.block_at(q)
                &&& forall|q: Seq<char>| !same_file(q, path) ==> #[trigger] new.path_target(q) == old.path_target(q)
                &&& new.window() == old.window()
                &&& forall|k: Seq<char>| #[trigger] new.target_named(k) == old.target_named(k)
                &&& new.target_count() == old.target_count()
                &&& forall|i: int| 0 <= i < old.target_count() ==> #[trigger] new.target_at(i) == old.target_at(i)
            },
        },
    }
}

/// One drop-file removal at `path`, with `minted` as the fallback block GUID.
pub open spec fn remove_step(
    old: DropWatcher,
    new: DropWatcher,
    path: Seq<char>,
    minted: Seq<char>,
    out: Seq<LiveValuePayload>,
) -> bool {
    &&& same_marks(old, new)
    &&& new.window() == old.window()
    &&& forall|k: Seq<char>| #[trigger] new.target_named(k) == old.target_named(k)
    &&& new.target_count() == old.target_count()
    &&& forall|i: int| 0 <= i < old.target_count() ==> #[trigger] new.target_at(i) == old.target_at(i)
    &&& new.block_at(path) is None
    &&& new.path_target(path) is None
    &&& forall|q: Seq<char>| !same_file(q, path) ==> #[trigger] new.block_at(q) == old.block_at(q)
    &&& forall|q: Seq<char>| !same_file(q, path) ==> #[trigger] new.path_target(q) == old.path_target(q)
    &&& match old.path_target(path) {
        Some(name) => match old.target_named(name@) {
            Some(t) => out.len() == 1 && is_fallback_payload(out[0], t, minted),
            None => out.len() == 0,
        },
        None => out.len() == 0,
    }
}

impl DropWatcher {
    /// Decides whether `event` counts: it must name a final drop file and
    /// must not repeat the same kind of notification on the same path inside
    /// the debounce window. An accepted notification restarts the window.
    pub fn accept_event(&mut self, event: &DropEvent, now: Instant) -> (accepted: bool)
        ensures
            accept_step(*old(self), *final(self), *event, now, accepted),
    {
        if !is_final_drop_file(event.path.as_str()) {
            return false;
        }
        let key = path_key_of(event.path.as_str());
        let current = self.marks.get(key.as_str());
        let marks = match current {
            Some(m) => *m,
            None => DebounceMarks { upsert: None, remove: None },
        };
        let last = match event.kind {
            DropEventKind::Upsert => marks.upsert,
            DropEventKind::Remove => marks.remove,
        };
        let duplicate = match last {
            Some(last) => now.saturating_duration_since(last).is_shorter_than(&self.window),
            None => false,
        };
        if duplicate {
            return false;
        }
        let updated = match event.kind {
            DropEventKind::Upsert => DebounceMarks { upsert: Some(now), remove: marks.remove },
            DropEventKind::Remove => DebounceMarks { upsert: marks.upsert, remove: Some(now) },
        };
        let ghost before = *self;
        self.marks.insert(key, updated);
        proof {
            assert forall|p: Seq<char>, k: DropEventKind|
                (!same_file(p, event.path@) || k != event.kind) implies #[trigger] self.last_mark(p, k)
                == before.last_mark(p, k) by {
                if same_file(p, event.path@) {
                    assert(self.marks.spec_get(path_key(p)) == Some(updated));
                }
            }
        }
        true
    }

    /// Publishes the drop file read at `path`, minting `minted` for a new block.
    ///
    /// A skipped read, or a file for a target that is not configured,
    /// publishes nothing and changes nothing. Otherwise the payload goes to
    /// the file's target: a rewrite of the track the path already holds keeps
    /// its block GUID, and any other track starts block `minted`.
    pub fn upsert_with_block(&mut self, path: &str, read: DropFileRead, minted: String) -> (r:
        Option<LiveValuePayload>)
        ensures
            upsert_step(*old(self), *final(self), path@, read, minted@, r),
    {
        let ghost old_read = read;
        let d = match read {
            DropFileRead::Skipped => return None,
            DropFileRead::Parsed(d) => d,
        };
        let ghost before = *self;
        let (event_guid, name) = match self.targets.get(d.target.as_str()) {
            None => return None,
            Some(t) => (t.event_guid.clone(), t.name.clone()),
        };
        let track = track_identity(&d);
        let key = path_key_of(path);
        let reused = match self.blocks.get(key.as_str()) {
            Some(b) => if same_track_exec(&b.track, &track) {
                Some(b.block_guid.clone())
            } else {
                None
            },
            None => None,
        };
        let guid = match reused {
            Some(g) => g,
            None => {
                let g = minted.clone();
                self.blocks.insert(key.clone(), BlockIdentity { track, block_guid: minted });
                g
            },
        };
        self.path_targets.insert(key, name);
        let p = payload_from_dropfile(&d, event_guid.as_str(), guid.as_str());
        proof {
            assert forall|q: Seq<char>| !same_file(q, path@) implies #[trigger] self.block_at(q)
                == before.block_at(q) by {}
        }
        Some(p)
    }

    /// Publishes the drop file read at `path`, minting a fresh GUID when the
    /// track starts a new block.
    pub fn upsert(&mut self, path: &str, read: DropFileRead) -> (r: Option<LiveValuePayload>)
        ensures
            exists|minted: Seq<char>| upsert_step(*old(self), *final(self), path@, read, minted, r),
    {
        let minted = fresh_guid();
        let ghost m = minted@;
        let r = self.upsert_with_block(path, read, minted);
        assert(upsert_step(*old(self), *self, path@, read, m, r));
        r
    }

    /// Handles the removal of the drop file at `path`, publishing the
    /// fallback block `minted` for the target the path was publishing to.
    ///
    /// The path forgets its block, so a track that returns later starts a new
    /// block. A path that never published emits nothing.
    pub fn remove_with_block(&mut self, path: &str, minted: String) -> (out: Vec<LiveValuePayload>)
        ensures
            remove_step(*old(self), *final(self), path@, minted@, out@),
    {
        let key = path_key_of(path);
        let _ = self.blocks.remove(key.as_str());
        let name = self.path_targets.remove(key.as_str());
        let mut out: Vec<LiveValuePayload> = Vec::new();
        match name {
            None => {},
            Some(n) => match self.targets.get(n.as_str()) {
                Some(t) => out.push(fallback_payload_for_target(t, minted.as_str())),
                None => {},
            },
        }
        out
    }

    /// Handles the removal of the drop file at `path`, publishing the
    /// fallback under a fresh block GUID.
    pub fn remove(&mut self, path: &str) -> (out: Vec<LiveValuePayload>)
        ensures
            exists|minted: Seq<char>| remove_step(*old(self), *final(self), path@, minted, out@),
    {
        let minted = fresh_guid();
        let ghost m = minted@;
        let out = self.remove_with_block(path, minted);
        assert(remove_step(*old(self), *self, path@, m, out@));
        out
    }

    /// The payloads for the drop directory as it stands at startup, given
    /// what reading each of its final drop files produced: the files in path
    /// order, each published as [`DropWatcher::upsert`] publishes it; or,
    /// when there is no drop file, every target's fallback.
    pub fn initial_payloads(&mut self, files: Vec<(String, DropFileRead)>) -> (out: Vec<LiveValuePayload>)
        ensures
            files@.len() == 0 ==> {
                &&& *final(self) == *old(self)
                &&& out@.len() == old(self).target_count()
                &&& forall|i: int|
                    0 <= i < out@.len() ==> is_fallback_payload(
                        #[trigger] out@[i],
                        old(self).target_at(i),
                        out@[i].block_guid@,
                    )
            },
            files@.len() > 0 ==> exists|
                order: Seq<(Seq<char>, DropFileRead)>,
                states: Seq<DropWatcher>,
                mints: Seq<Seq<char>>,
                outs: Seq<Option<LiveValuePayload>>,
            |
                {
                    &&& order.to_multiset() == reads_view(files@).to_multiset()
                    &&& in_path_order(order)
                    &&& upsert_chain(states, order, mints, outs)
                    &&& states[0] == *old(self)
                    &&& states.last() == *final(self)
                    &&& out@ == published(outs)
                },
    {
        if files.len() == 0 {
            return self.fallback_payloads();
        }
        let ghost n = files@.len();
        let sorted = sort_by_path(files);
        proof {
            vstd::seq_lib::to_multiset_len(reads_view(sorted@));
            vstd::seq_lib::to_multiset_len(reads_view(files@));
        }
        let ghost order = reads_view(sorted@);
        let ghost start = *self;
        let ghost mut states: Seq<DropWatcher> = seq![*self];
        let ghost mut mints: Seq<Seq<char>> = Seq::empty();
        let ghost mut outs: Seq<Option<LiveValuePayload>> = Seq::empty();
        let mut out: Vec<LiveValuePayload> = Vec::new();
        for entry in it: sorted
            invariant
                order == reads_view(it.seq()),
                upsert_chain(states, order.take(it.index() as int), mints, outs),
                states[0] == start,
                states.last() == *self,
                out@ == published(outs),
        {
            let ghost idx = it.index() as int;
            let (path, read) = entry;
            let ghost before = *self;
            let ghost rd = read;
            let ghost o0 = outs;
            proof {
                assert(order[idx] == (path@, rd));
            }
            let r = self.upsert(path.as_str(), read);
            proof {
                let m = choose|m: Seq<char>| upsert_step(before, *self, path@, rd, m, r);
                let s0 = states;
                let t0 = order.take(idx);
                states = states.push(*self);
                mints = mints.push(m);
                outs = outs.push(r);
                let t1 = order.take(idx + 1);
                assert(t1 =~= t0.push((path@, rd)));
                assert forall|i: int| #![trigger t1[i]] 0 <= i < t1.len() implies upsert_step(
                    states[i],
                    states[i + 1],
                    t1[i].0,
                    t1[i].1,
                    mints[i],
                    outs[i],
                ) by {
                    if i < idx {
                        assert(t1[i] == t0[i]);
                        assert(states[i] == s0[i] && states[i + 1] == s0[i + 1]);
                    } else {
                        assert(states[i] == before);
                    }
                }
                assert(outs.drop_last() =~= o0);
            }
            match r {
                Some(p) => {
                    out.push(p);
                },
                None => {},
            }
            proof {
                assert(outs.drop_last() == o0);
                assert(outs.last() == r);
            }
        }
        proof {
            assert(order.take(order.len() as int) =~= order);
        }
        out
    }

    /// The fallback payload of every configured target, each in a fresh block.
    pub fn fallback_payloads(&self) -> (out: Vec<LiveValuePayload>)
        ensures
            out@.len() == self.target_count(),
            forall|i: int|
                0 <= i < out@.len() ==> is_fallback_payload(
                    #[trigger] out@[i],
                    self.target_at(i),
                    out@[i].block_guid@,
                ),
    {
        let mut out: Vec<LiveValuePayload> = Vec::new();
        let mut i: usize = 0;
        while i < self.targets.len()
            invariant
                i <= self.target_count(),
                out@.len() == i,
                forall|j: int|
                    0 <= j < i ==> is_fallback_payload(
                        #[trigger] out@[j],
                        self.target_at(j),
                        out@[j].block_guid@,
                    ),
            decreases self.target_count() - i,
        {
            let guid = fresh_guid();
            let t = self.targets.value_at(i);
            out.push(fallback_payload_for_target(t, guid.as_str()));
            i = i + 1;
        }
        out
    }
}

/// Drop files as (path text, read) pairs.
pub open spec fn reads_view(files: Seq<(String, DropFileRead)>) -> Seq<(Seq<char>, DropFileRead)> {
    files.map_values(|f: (String, DropFileRead)| (f.0@, f.1))
}

/// Whether drop files are in path order. For the files of one directory this
/// is the order of their names.
pub open spec fn in_path_order(files: Seq<(Seq<char>, DropFileRead)>) -> bool {
    forall|i: int, j: int| 0 <= i < j < files.len() ==> text_le(#[trigger] files[i].0, #[trigger] files[j].0)
}

/// The payloads among `outs`, in order.
pub open spec fn published(outs: Seq<Option<LiveValuePayload>>) -> Seq<LiveValuePayload>
    decreases outs.len(),
{
    if outs.len() == 0 {
        Seq::empty()
    } else {
        match outs.last() {
            Some(p) => published(outs.drop_last()).push(p),
            None => published(outs.drop_last()),
        }
    }
}

/// Handling `files` in order takes `states[0]` through one upsert per file
/// to the last state, minting `mints[i]` and publishing `outs[i]` for the
/// `i`th file.
pub open spec fn upsert_chain(
    states: Seq<DropWatcher>,
    files: Seq<(Seq<char>, DropFileRead)>,
    mints: Seq<Seq<char>>,
    outs: Seq<Option<LiveValuePayload>>,
) -> bool {
    &&& states.len() == files.len() + 1
    &&& mints.len() == files.len()
    &&& outs.len() == files.len()
    &&& forall|i: int|
        #![trigger files[i]]
        0 <= i < files.len() ==> upsert_step(states[i], states[i + 1], files[i].0, files[i].1, mints[i], outs[i])
}

/// The drop files in path order; files with the same path keep their order.
pub fn sort_by_path(files: Vec<(String, DropFileRead)>) -> (r: Vec<(String, DropFileRead)>)
    ensures
        reads_view(r@).to_multiset() == reads_view(files@).to_multiset(),
        in_path_order(reads_view(r@)),
{
    broadcast use vstd::seq_lib::to_multiset_build, vstd::seq_lib::to_multiset_insert;
    let ghost src = reads_view(files@);
    let mut r: Vec<(String, DropFileRead)> = Vec::new();
    proof {
        assert(reads_view(r@) =~= Seq::<(Seq<char>, DropFileRead)>::empty());
        assert(src.take(0) =~= Seq::<(Seq<char>, DropFileRead)>::empty());
    }
    for f in it: files
        invariant
            src == reads_view(it.seq()),
            reads_view(r@).to_multiset() == src.take(it.index() as int).to_multiset(),
            in_path_order(reads_view(r@)),
    {
        let ghost idx = it.index() as int;
        let ghost x = (f.0@, f.1);
        let ghost v = reads_view(r@);
        proof {
            assert(src[idx] == x);
        }
        let mut p: usize = 0;
        while p < r.len() && text_at_or_before(r[p].0.as_str(), f.0.as_str())
            invariant
                p <= r@.len(),
                v == reads_view(r@),
                x == (f.0@, f.1),
                forall|i: int| 0 <= i < p ==> text_le(#[trigger] v[i].0, x.0),
            decreases r.len() - p,
        {
            assert(v[p as int].0 == r@[p as int].0@);
            p = p + 1;
        }
        proof {
            if p < r@.len() {
                assert(v[p as int].0 == r@[p as int].0@);
                assert(!text_le(v[p as int].0, x.0));
                lemma_text_le_total(v[p as int].0, x.0);
            }
        }
        r.insert(p, f);
        proof {
            let n = reads_view(r@);
            assert(n =~= v.insert(p as int, x));
            assert(src.take(idx + 1) =~= src.take(idx).push(x));
            vstd::seq_lib::to_multiset_insert(v, p as int, x);
            vstd::seq_lib::to_multiset_build(src.take(idx), x);
            assert(n.to_multiset() =~= src.take(idx + 1).to_multiset());
            assert forall|i: int, j: int| 0 <= i < j < n.len() implies text_le(#[trigger] n[i].0, #[trigger] n[j].0) by {
                if j < p {
                    assert(n[i] == v[i] && n[j] == v[j]);
                } else if j == p {
                    assert(n[i] == v[i] && n[j] == x);
                } else if i < p {
                    assert(n[i] == v[i] && n[j] == v[j - 1]);
                } else if i == p {
                    assert(n[i] == x && n[j] == v[j - 1]);
                    if j - 1 > p {
                        assert(text_le(v[p as int].0, v[j - 1].0));
                        lemma_text_le_transitive(x.0, v[p as int].0, v[j - 1].0);
                    }
                } else {
                    assert(n[i] == v[i - 1] && n[j] == v[j - 1]);
                }
            }
        }
    }
    proof {
        assert(src.take(src.len() as int) =~= src);
    }
    r
}

/// Every configured target is stored under its own name.
pub open spec fn names_consistent(w: DropWatcher) -> bool {
    forall|k: Seq<char>| #[trigger] w.target_named(k) matches Some(t) ==> t.name@ == k
}

/// Looking a target up by name finds one carrying that name.
pub proof fn lemma_lookup_targets_named(ts: Seq<WatchTarget>, k: Seq<char>)
    ensures
        lookup(targets_view(ts), k) matches Some(t) ==> t.name@ == k,
    decreases ts.len(),
{
    if ts.len() > 0 {
        assert(targets_view(ts).drop_last() =~= targets_view(ts.drop_last()));
        lemma_lookup_targets_named(ts.drop_last(), k);
    }
}

proof fn lemma_same_track_chain(a: TrackIdentity, b: TrackIdentity, c: TrackIdentity)
    requires
        same_track(a, b),
        same_track(b, c),
    ensures
        same_track(a, c),
{
}

/// Rewriting the track a path holds keeps its block: the producer's second
/// write for one track (a value-route upgrade) publishes under the block
/// GUID of the first.
pub proof fn law_rewrite_keeps_block(
    w0: DropWatcher,
    w1: DropWatcher,
    w2: DropWatcher,
    path: Seq<char>,
    d1: DropFile,
    d2: DropFile,
    m1: Seq<char>,
    m2: Seq<char>,
    r1: Option<LiveValuePayload>,
    r2: Option<LiveValuePayload>,
)
    requires
        upsert_step(w0, w1, path, DropFileRead::Parsed(d1), m1, r1),
        w0.target_named(d1.target@) is Some,
        upsert_step(w1, w2, path, DropFileRead::Parsed(d2), m2, r2),
        w1.target_named(d2.target@) is Some,
        same_track(track_of(d1), track_of(d2)),
    ensures
        r1 is Some,
        r2 is Some,
        r2->0.block_guid@ == r1->0.block_guid@,
{
    let b = w1.block_at(path)->0;
    lemma_same_track_chain(b.track, track_of(d1), track_of(d2));
}

/// The next track at a path the producer reuses starts a new block: its
/// payload carries the GUID minted for it.
pub proof fn law_next_track_new_block(
    w0: DropWatcher,
    w1: DropWatcher,
    w2: DropWatcher,
    path: Seq<char>,
    d1: DropFile,
    d2: DropFile,
    m1: Seq<char>,
    m2: Seq<char>,
    r1: Option<LiveValuePayload>,
    r2: Option<LiveValuePayload>,
)
    requires
        upsert_step(w0, w1, path, DropFileRead::Parsed(d1), m1, r1),
        w0.target_named(d1.target@) is Some,
        upsert_step(w1, w2, path, DropFileRead::Parsed(d2), m2, r2),
        w1.target_named(d2.target@) is Some,
        !same_track(track_of(d1), track_of(d2)),
    ensures
        r1 is Some,
        r2 is Some,
        r2->0.block_guid@ == m2,
        m2 != r1->0.block_guid@ ==> r2->0.block_guid@ != r1->0.block_guid@,
{
    let b = w1.block_at(path)->0;
    if same_track(b.track, track_of(d2)) {
        assert(same_track(track_of(d1), b.track));
        lemma_same_track_chain(track_of(d1), b.track, track_of(d2));
    }
}

/// A track that returns after its file was removed starts a new block.
pub proof fn law_return_after_removal_new_block(
    w0: DropWatcher,
    w1: DropWatcher,
    w2: DropWatcher,
    w3: DropWatcher,
    path: Seq<char>,
    d1: DropFile,
    d2: DropFile,
    m1: Seq<char>,
    m2: Seq<char>,
    m3: Seq<char>,
    r1: Option<LiveValuePayload>,
    out: Seq<LiveValuePayload>,
    r3: Option<LiveValuePayload>,
)
    requires
        upsert_step(w0, w1, path, DropFileRead::Parsed(d1), m1, r1),
        remove_step(w1, w2, path, m2, out),
        upsert_step(w2, w3, path, DropFileRead::Parsed(d2), m3, r3),
        w2.target_named(d2.target@) is Some,
    ensures
        r3 is Some,
        r3->0.block_guid@ == m3,
        r1 is Some && m3 != r1->0.block_guid@ ==> r3->0.block_guid@ != r1->0.block_guid@,
{
}

/// Removing a file that published a track publishes exactly one payload: the
/// fallback of the track's target, in the block minted for it.
pub proof fn law_removal_publishes_fallback(
    w0: DropWatcher,
    w1: DropWatcher,
    w2: DropWatcher,
    path: Seq<char>,
    d: DropFile,
    m1: Seq<char>,
    m2: Seq<char>,
    r: Option<LiveValuePayload>,
    out: Seq<LiveValuePayload>,
)
    requires
        names_consistent(w0),
        upsert_step(w0, w1, path, DropFileRead::Parsed(d), m1, r),
        w0.target_named(d.target@) is Some,
        remove_step(w1, w2, path, m2, out),
    ensures
        out.len() == 1,
        is_fallback_payload(out[0], w0.target_named(d.target@)->0, m2),
        r is Some && m2 != r->0.block_guid@ ==> out[0].block_guid@ != r->0.block_guid@,
{
    let t = w0.target_named(d.target@)->0;
    assert(w1.path_target(path) == Some(t.name));
    assert(t.name@ == d.target@);
    assert(w1.target_named(t.name@) == Some(t));
}

/// A removed path publishes nothing when it is removed again: the first
/// removal forgot it.
pub proof fn law_second_removal_publishes_nothing(
    w0: DropWatcher,
    w1: DropWatcher,
    w2: DropWatcher,
    path: Seq<char>,
    m1: Seq<char>,
    m2: Seq<char>,
    out1: Seq<LiveValuePayload>,
    out2: Seq<LiveValuePayload>,
)
    requires
        remove_step(w0, w1, path, m1, out1),
        remove_step(w1, w2, path, m2, out2),
    ensures
        out2.len() == 0,
{
}

/// A second notification of the same kind on the same file inside the
/// debounce window is dropped, however the path is spelled.
pub proof fn law_debounce_drops_repeat(
    w0: DropWatcher,
    w1: DropWatcher,
    w2: DropWatcher,
    e1: DropEvent,
    e2: DropEvent,
    t1: Instant,
    t2: Instant,
    b2: bool,
)
    requires
        accept_step(w0, w1, e1, t1, true),
        accept_step(w1, w2, e2, t2, b2),
        same_file(e2.path@, e1.path@),
        e2.kind == e1.kind,
        t1@ <= t2@ < t1@ + w1.window(),
    ensures
        !b2,
{
}

/// No two targets share a name.
pub open spec fn names_distinct(ts: Seq<WatchTarget>) -> bool {
    forall|i: int, j: int| 0 <= i < ts.len() && 0 <= j < ts.len() && i != j ==> #[trigger] ts[i].name@ != #[trigger] ts[j].name@
}

/// Targets as (name, target) entries.
pub open spec fn targets_view(ts: Seq<WatchTarget>) -> Seq<(Seq<char>, WatchTarget)> {
    ts.map_values(|t: WatchTarget| (t.name@, t))
}

/// The kinds of filesystem notification the watcher tells apart.
#[derive(Clone, Copy, Debug, PartialEq, Eq, Structural)]
pub enum NotifyKind {
    /// A file was created (or something was, kind unknown).
    Created,
    /// A file's data or metadata changed (or something did, kind unknown).
    Modified,
    /// A file was renamed; the event names its new path.
    RenamedTo,
    /// A file was renamed; the event names its old and its new path.
    RenamedBoth,
    /// A file was removed (or something was, kind unknown).
    Removed,
    /// Anything else: directories, access, other renames.
    Other,
}

/// The drop events a notification stands for.
pub open spec fn drop_events_for(kind: NotifyKind, paths: Seq<Seq<char>>) -> Seq<(DropEventKind, Seq<char>)> {
    match kind {
        NotifyKind::Created | NotifyKind::Modified | NotifyKind::RenamedTo => paths.map_values(
            |p: Seq<char>| (DropEventKind::Upsert, p),
        ),
        NotifyKind::RenamedBoth => if paths.len() >= 2 {
            seq![(DropEventKind::Upsert, paths[1])]
        } else {
            Seq::empty()
        },
        NotifyKind::Removed => paths.map_values(|p: Seq<char>| (DropEventKind::Remove, p)),
        NotifyKind::Other => Seq::empty(),
    }
}

/// Drop events as (kind, path) pairs.
pub open spec fn events_view(events: Seq<DropEvent>) -> Seq<(DropEventKind, Seq<char>)> {
    events.map_values(|e: DropEvent| (e.kind, e.path@))
}

fn events_of_kind(kind: DropEventKind, paths: Vec<String>) -> (events: Vec<DropEvent>)
    ensures
        events_view(events@) == paths@.map_values(|p: String| p@).map_values(
            |p: Seq<char>| (kind, p),
        ),
{
    let ghost src = paths@;
    let mut events: Vec<DropEvent> = Vec::new();
    for path in it: paths
        invariant
            src == it.seq(),
            events_view(events@) == src.take(it.index() as int).map_values(|p: String| p@).map_values(
                |p: Seq<char>| (kind, p),
            ),
    {
        let ghost before = events_view(events@);
        let ghost pv = path@;
        events.push(DropEvent { kind, path });
        proof {
            assert(src.take(it.index() + 1) =~= src.take(it.index() as int).push(src[it.index() as int]));
            assert(events_view(events@) =~= before.push((kind, pv)));
            assert(src.take(it.index() + 1).map_values(|p: String| p@).map_values(
                |p: Seq<char>| (kind, p),
            ) =~= before.push((kind, pv)));
        }
    }
    assert(src.take(src.len() as int) =~= src);
    events
}

/// Turns a filesystem notification into drop events: creations, changes and
/// renames onto a path are upserts of each path (of the new path only, for a
/// rename that names both), removals are removals, and anything else is
/// ignored.
pub fn normalize_notify_event(kind: NotifyKind, paths: Vec<String>) -> (events: Vec<DropEvent>)
    ensures
        events_view(events@) == drop_events_for(kind, paths@.map_values(|p: String| p@)),
{
    match kind {
        NotifyKind::Created | NotifyKind::Modified | NotifyKind::RenamedTo => events_of_kind(
            DropEventKind::Upsert,
            paths,
        ),
        NotifyKind::RenamedBoth => {
            let mut events: Vec<DropEvent> = Vec::new();
            if paths.len() >= 2 {
                let path = paths[1].clone();
                events.push(DropEvent { kind: DropEventKind::Upsert, path });
                assert(events_view(events@) =~= seq![(DropEventKind::Upsert, paths@[1]@)]);
            } else {
                assert(events_view(events@) =~= Seq::<(DropEventKind, Seq<char>)>::empty());
            }
            events
        },
        NotifyKind::Removed => events_of_kind(DropEventKind::Remove, paths),
        NotifyKind::Other => {
            let events: Vec<DropEvent> = Vec::new();
            assert(events_view(events@) =~= Seq::<(DropEventKind, Seq<char>)>::empty());
            events
        },
    }
}


/// What a filesystem notification asks of the drop directory: a file
/// created, changed in its data or metadata, or renamed onto a path gives one
/// upsert per path, in order; a removal gives one removal per path; a rename
/// that names both paths gives one upsert of the new path (and nothing when
/// the new path is missing); anything else gives nothing.
pub proof fn law_notify_kinds(kind: NotifyKind, paths: Seq<Seq<char>>)
    ensures
        kind == NotifyKind::Created || kind == NotifyKind::Modified || kind == NotifyKind::RenamedTo
            ==> {
            &&& drop_events_for(kind, paths).len() == paths.len()
            &&& forall|i: int|
                0 <= i < paths.len() ==> #[trigger] drop_events_for(kind, paths)[i] == (
                    DropEventKind::Upsert,
                    paths[i],
                )
        },
        kind == NotifyKind::Removed ==> {
            &&& drop_events_for(kind, paths).len() == paths.len()
            &&& forall|i: int|
                0 <= i < paths.len() ==> #[trigger] drop_events_for(kind, paths)[i] == (
                    DropEventKind::Remove,
                    paths[i],
                )
        },
        kind == NotifyKind::RenamedBoth && paths.len() >= 2 ==> drop_events_for(kind, paths).len()
            == 1 && drop_events_for(kind, paths)[0] == (DropEventKind::Upsert, paths[1]),
        kind == NotifyKind::RenamedBoth && paths.len() < 2 ==> drop_events_for(kind, paths).len()
            == 0,
        kind == NotifyKind::Other ==> drop_events_for(kind, paths).len() == 0,
{
}

} // verus!
