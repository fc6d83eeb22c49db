//! Where a track's payment routes come from.
//!
//! Routes embedded in the file's tags are used at once; when the track or
//! its feed has a MusicIndex GUID, the MusicIndex API is asked too, and
//! routes it returns take over. The HTTP exchange happens around this
//! module; here are the decisions: what to ask, in which order, what an
//! answer means, and whether a late answer still applies.

use vstd::prelude::*;
use crate::dropfile::clone_opt_string;
use crate::relay::{build_url, endpoint_url, RelayError};
use crate::now_playing::tags::{first_with_key, items_view, without_key, TrackTags};
use crate::text::{all_whitespace, collapse_spaces, collapse_whitespace, is_blank, is_control_char, opt_text};

verus! {

/// Where a track's value routes came from.
#[derive(Clone, Copy, Debug, PartialEq, Eq, Structural)]
pub enum ValueRoutesSource {
    EmbeddedId3,
    MusicIndexApi,
}

/// How a routes source is written in output.
pub open spec fn source_text(source: ValueRoutesSource) -> Seq<char> {
    match source {
        ValueRoutesSource::EmbeddedId3 => "embedded-id3"@,
        ValueRoutesSource::MusicIndexApi => "musicindex-api"@,
    }
}

impl ValueRoutesSource {
    /// How this source is written in output.
    pub fn as_str(self) -> (s: &'static str)
        ensures
            s@ == source_text(self),
    {
        match self {
            ValueRoutesSource::EmbeddedId3 => "embedded-id3",
            ValueRoutesSource::MusicIndexApi => "musicindex-api",
        }
    }
}

/// A track's value routes as JSON text, and where they came from.
#[derive(Debug, PartialEq, Eq)]
pub struct RouteResolution {
    pub source: ValueRoutesSource,
    pub routes_json: Option<String>,
}

impl Clone for RouteResolution {
    fn clone(&self) -> (r: Self)
        ensures
            r == *self,
    {
        RouteResolution { source: self.source, routes_json: clone_opt_string(&self.routes_json) }
    }
}

/// What a route lookup for a track starts from: its MusicIndex GUIDs and the
/// routes embedded in its tags.
#[derive(Debug, PartialEq, Eq)]
pub struct RouteRequest {
    pub track_guid: Option<String>,
    pub feed_guid: Option<String>,
    pub embedded_routes_json: Option<String>,
}

/// A finished route lookup for the history row `hist_id`.
#[derive(Debug, PartialEq, Eq)]
pub struct ResolvedRouteResult {
    pub hist_id: i64,
    pub resolution: RouteResolution,
}

/// What asking for a track's routes led to.
#[derive(Debug, PartialEq, Eq)]
pub enum RouteRequestStatus {
    /// Lookups are turned off.
    Disabled,
    /// The track has no MusicIndex GUID to look up.
    NoLookupKey,
    /// A lookup was started; its result arrives later.
    Spawned,
    /// An earlier lookup for the same track answered already.
    Cached(ResolvedRouteResult),
}

/// The text of the first MusicIndex item labelled `key`.
pub open spec fn musicindex_text(tags: TrackTags, key: Seq<char>) -> Option<Seq<char>> {
    match first_with_key(items_view(tags.musicindex@), key) {
        Some(i) => Some(tags.musicindex@[i].value@),
        None => None,
    }
}

/// The routes embedded in a track's tags: its `Value Routes` item, unless blank.
pub open spec fn embedded_routes(tags: TrackTags) -> Option<Seq<char>> {
    match musicindex_text(tags, "Value Routes"@) {
        Some(v) => if all_whitespace(v) {
            None
        } else {
            Some(v)
        },
        None => None,
    }
}

/// The routes embedded in a track's tags, unless blank.
pub fn embedded_value_routes(tags: &TrackTags) -> (r: Option<&str>)
    ensures
        opt_str(r) == embedded_routes(*tags),
{
    match tags.musicindex_value("Value Routes") {
        Some(v) => {
            if is_blank(v) {
                None
            } else {
                Some(v)
            }
        },
        None => None,
    }
}

/// The text of an optional string slice.
pub open spec fn opt_str(o: Option<&str>) -> Option<Seq<char>> {
    match o {
        Some(s) => Some(s@),
        None => None,
    }
}

fn owned(o: Option<&str>) -> (r: Option<String>)
    ensures
        opt_text(r) == opt_str(o),
{
    match o {
        Some(s) => Some(s.to_owned()),
        None => None,
    }
}

impl RouteResolution {
    /// The routes embedded in a track's tags.
    pub fn embedded(tags: &TrackTags) -> (r: Self)
        ensures
            r.source == ValueRoutesSource::EmbeddedId3,
            opt_text(r.routes_json) == embedded_routes(*tags),
    {
        RouteResolution {
            source: ValueRoutesSource::EmbeddedId3,
            routes_json: owned(embedded_value_routes(tags)),
        }
    }

    /// Routes the MusicIndex API returned.
    pub fn api(routes_json: String) -> (r: Self)
        ensures
            r.source == ValueRoutesSource::MusicIndexApi,
            r.routes_json == Some(routes_json),
    {
        RouteResolution { source: ValueRoutesSource::MusicIndexApi, routes_json: Some(routes_json) }
    }
}

impl RouteRequest {
    /// The lookup a track's tags call for.
    pub fn from_tags(tags: &TrackTags) -> (r: Self)
        ensures
            opt_text(r.track_guid) == musicindex_text(*tags, "Track Guid"@),
            opt_text(r.feed_guid) == musicindex_text(*tags, "Feed Guid"@),
            opt_text(r.embedded_routes_json) == embedded_routes(*tags),
    {
        RouteRequest {
            track_guid: owned(tags.musicindex_value("Track Guid")),
            feed_guid: owned(tags.musicindex_value("Feed Guid")),
            embedded_routes_json: owned(embedded_value_routes(tags)),
        }
    }

    /// Whether there is a GUID to look up.
    pub fn has_lookup_key(&self) -> (b: bool)
        ensures
            b == (self.track_guid is Some || self.feed_guid is Some),
    {
        self.track_guid.is_some() || self.feed_guid.is_some()
    }

    /// The embedded routes, as a resolution.
    pub fn embedded_resolution(&self) -> (r: RouteResolution)
        ensures
            r.source == ValueRoutesSource::EmbeddedId3,
            r.routes_json == self.embedded_routes_json,
    {
        RouteResolution {
            source: ValueRoutesSource::EmbeddedId3,
            routes_json: clone_opt_string(&self.embedded_routes_json),
        }
    }
}

/// Whether a finished lookup belongs to the track now playing.
pub fn result_matches_current(result: &ResolvedRouteResult, current_hist_id: i64) -> (b: bool)
    ensures
        b == (result.hist_id == current_hist_id),
{
    result.hist_id == current_hist_id
}

/// The tags with a resolution's routes in place: its routes as the
/// `Value Routes` item, or no such item when it has none.
pub fn apply_resolution_to_tags(tags: &TrackTags, resolution: &RouteResolution) -> (r: TrackTags)
    ensures
        r.tags@ == tags.tags@,
        r.duration == tags.duration,
        items_view(r.musicindex@) == match resolution.routes_json {
            Some(json) => match first_with_key(items_view(tags.musicindex@), "Value Routes"@) {
                Some(i) => items_view(tags.musicindex@).update(i, ("Value Routes"@, json@)),
                None => items_view(tags.musicindex@).push(("Value Routes"@, json@)),
            },
            None => without_key(items_view(tags.musicindex@), "Value Routes"@),
        },
{
    let mut updated = tags.clone();
    match &resolution.routes_json {
        Some(json) => updated.set_musicindex_value("Value Routes", json.clone()),
        None => updated.remove_musicindex_value("Value Routes"),
    }
    updated
}

/// What asking for a track's routes leads to: nothing when lookups are off
/// or the track has no GUID, the cached answer for its track GUID when there
/// is one, and a new lookup otherwise.
///
/// `cached` is what the cache holds for the request's track GUID.
pub fn route_request_status(
    enabled: bool,
    hist_id: i64,
    request: &RouteRequest,
    cached: Option<RouteResolution>,
) -> (s: RouteRequestStatus)
    ensures
        !enabled ==> s == RouteRequestStatus::Disabled,
        enabled && request.track_guid is None && request.feed_guid is None ==> s
            == RouteRequestStatus::NoLookupKey,
        enabled && (request.track_guid is Some || request.feed_guid is Some) ==> match (
            request.track_guid,
            cached,
        ) {
            (Some(_), Some(c)) => s == RouteRequestStatus::Cached(
                ResolvedRouteResult { hist_id, resolution: c },
            ),
            _ => s == RouteRequestStatus::Spawned,
        },
{
    if !enabled {
        return RouteRequestStatus::Disabled;
    }
    if !request.has_lookup_key() {
        return RouteRequestStatus::NoLookupKey;
    }
    if request.track_guid.is_some() {
        if let Some(resolution) = cached {
            return RouteRequestStatus::Cached(ResolvedRouteResult { hist_id, resolution });
        }
    }
    RouteRequestStatus::Spawned
}

/// The cache key under which a finished lookup is remembered: its track
/// GUID, when the routes came from the API.
pub fn cache_key(request: &RouteRequest, resolution: &RouteResolution) -> (k: Option<String>)
    ensures
        resolution.source == ValueRoutesSource::MusicIndexApi ==> k == request.track_guid,
        resolution.source != ValueRoutesSource::MusicIndexApi ==> k is None,
{
    if resolution.source == ValueRoutesSource::MusicIndexApi {
        clone_opt_string(&request.track_guid)
    } else {
        None
    }
}

/// The next thing a route lookup does.
#[derive(Debug, PartialEq, Eq)]
pub enum LookupStep {
    /// Ask the API for the routes of this track GUID.
    FetchTrack(String),
    /// Ask the API for the routes of this feed GUID.
    FetchFeed(String),
    /// The lookup is over, with this resolution.
    Finish(RouteResolution),
}

/// What one API request for routes gave.
#[derive(Debug, PartialEq, Eq)]
pub enum FetchOutcome {
    /// Non-empty routes, as JSON text.
    Found(String),
    /// The API does not know the GUID.
    NotFound,
    /// Anything else: a network or HTTP failure, an unreadable answer, or no routes.
    Failed,
}

/// The first step of a lookup: the track GUID first, then the feed GUID,
/// and without either the embedded routes.
pub fn first_lookup_step(request: &RouteRequest) -> (step: LookupStep)
    ensures
        match (request.track_guid, request.feed_guid) {
            (Some(t), _) => step == LookupStep::FetchTrack(t),
            (None, Some(f)) => step == LookupStep::FetchFeed(f),
            (None, None) => step matches LookupStep::Finish(r) && r.source == ValueRoutesSource::EmbeddedId3
                && r.routes_json == request.embedded_routes_json,
        },
{
    match &request.track_guid {
        Some(t) => LookupStep::FetchTrack(t.clone()),
        None => match &request.feed_guid {
            Some(f) => LookupStep::FetchFeed(f.clone()),
            None => LookupStep::Finish(request.embedded_resolution()),
        },
    }
}

/// The step after the track lookup: its routes when found; the feed lookup
/// when the API does not know the track; otherwise the embedded routes,
/// without asking about the feed.
pub fn after_track_fetch(request: &RouteRequest, outcome: FetchOutcome) -> (step: LookupStep)
    ensures
        match outcome {
            FetchOutcome::Found(json) => step == LookupStep::Finish(
                RouteResolution { source: ValueRoutesSource::MusicIndexApi, routes_json: Some(json) },
            ),
            FetchOutcome::NotFound => match request.feed_guid {
                Some(f) => step == LookupStep::FetchFeed(f),
                None => step matches LookupStep::Finish(r) && r.source == ValueRoutesSource::EmbeddedId3
                    && r.routes_json == request.embedded_routes_json,
            },
            FetchOutcome::Failed => step matches LookupStep::Finish(r) && r.source
                == ValueRoutesSource::EmbeddedId3 && r.routes_json == request.embedded_routes_json,
        },
{
    match outcome {
        FetchOutcome::Found(json) => LookupStep::Finish(RouteResolution::api(json)),
        FetchOutcome::NotFound => match &request.feed_guid {
            Some(f) => LookupStep::FetchFeed(f.clone()),
            None => LookupStep::Finish(request.embedded_resolution()),
        },
        FetchOutcome::Failed => LookupStep::Finish(request.embedded_resolution()),
    }
}

/// The resolution after the feed lookup: its routes when found, else the
/// embedded routes.
pub fn after_feed_fetch(request: &RouteRequest, outcome: FetchOutcome) -> (r: RouteResolution)
    ensures
        match outcome {
            FetchOutcome::Found(json) => r == RouteResolution::api_spec(json),
            _ => r.source == ValueRoutesSource::EmbeddedId3 && r.routes_json
                == request.embedded_routes_json,
        },
{
    match outcome {
        FetchOutcome::Found(json) => RouteResolution::api(json),
        _ => request.embedded_resolution(),
    }
}

impl RouteResolution {
    /// Routes the API returned, as a value.
    pub open spec fn api_spec(json: String) -> RouteResolution {
        RouteResolution { source: ValueRoutesSource::MusicIndexApi, routes_json: Some(json) }
    }
}

/// A GUID made safe as a URL path segment: NUL, backslash and control
/// characters become spaces, and runs of whitespace collapse to single
/// spaces between words.
pub open spec fn sanitized_segment(value: Seq<char>) -> Seq<char> {
    collapse_whitespace(value.map_values(|c: char| if c == '\0' || c == '\\' || is_control_char(c) { ' ' } else { c }))
}

/// Sanitizes a GUID for use as an API path segment; nothing is left of an
/// all-blank one.
pub fn sanitize_api_path_segment(value: &str) -> (r: Option<String>)
    ensures
        sanitized_segment(value@).len() == 0 ==> r is None,
        sanitized_segment(value@).len() > 0 ==> (r matches Some(s) && s@ == sanitized_segment(value@)),
{
    let chars = crate::text::chars_of(value);
    let ghost mapped = value@.map_values(|c: char| if c == '\0' || c == '\\' || is_control_char(c) { ' ' } else { c });
    let mut cleaned = String::new();
    let mut i: usize = 0;
    while i < chars.len()
        invariant
            i <= chars@.len(),
            chars@ == value@,
            mapped == value@.map_values(|c: char| if c == '\0' || c == '\\' || is_control_char(c) { ' ' } else { c }),
            cleaned@ == mapped.take(i as int),
        decreases chars.len() - i,
    {
        let c = chars[i];
        let replaced = if c == '\0' || c == '\\' || crate::text::char_is_control(c) {
            ' '
        } else {
            c
        };
        crate::text::push_char(&mut cleaned, replaced);
        i = i + 1;
        assert(cleaned@ =~= mapped.take(i as int));
    }
    assert(mapped.take(mapped.len() as int) =~= mapped);
    let collapsed = collapse_spaces(cleaned.as_str());
    if collapsed.as_str().is_empty() {
        None
    } else {
        Some(collapsed)
    }
}

/// Why the URL of a route lookup could not be built.
#[derive(Debug, PartialEq, Eq)]
pub enum RouteUrlError {
    /// Nothing is left of the GUID once it is made safe as a path segment.
    EmptyGuid,
    /// The API base URL does not take path segments.
    BaseUrl(RelayError),
    /// The URL with its path did not parse again to take the query; the
    /// parser's explanation.
    Query(String),
}

/// What `url::Url::parse` makes of `url` with the query pair `key=value`
/// appended by `form_urlencoded` rules, serialized; or the parser's error.
pub uninterp spec fn url_with_query_pair(url: Seq<char>, key: Seq<char>, value: Seq<char>) -> Result<Seq<char>, Seq<char>>;

/// Calls `reqwest::Url::parse` on `url` and `query_pairs_mut().append_pair`
/// with `key` and `value`, and renders the URL.
#[verifier::external_body]
fn append_query_pair(url: &str, key: &str, value: &str) -> (r: Result<String, String>)
    ensures
        match (r, url_with_query_pair(url@, key@, value@)) {
            (Ok(a), Ok(b)) => a@ == b,
            (Err(e), Err(m)) => e@ == m,
            _ => false,
        },
{
    match reqwest::Url::parse(url) {
        Ok(mut parsed) => {
            parsed.query_pairs_mut().append_pair(key, value);
            Ok(parsed.to_string())
        },
        Err(error) => Err(error.to_string()),
    }
}

/// The URL that asks the API at `base_url` for the routes of `guid` under
/// `entity_path` (`tracks` or `feeds`): `v1`, the entity path and the
/// sanitized GUID appended to the base URL's path, and the query
/// `include=payment_routes`.
pub fn route_lookup_url(base_url: &str, entity_path: &str, guid: &str) -> (r: Result<String, RouteUrlError>)
    ensures
        sanitized_segment(guid@).len() == 0 ==> r == Err::<String, RouteUrlError>(RouteUrlError::EmptyGuid),
        sanitized_segment(guid@).len() > 0 ==> match endpoint_url(
            base_url@,
            seq!["v1"@, entity_path@, sanitized_segment(guid@)],
        ) {
            Err(f) => r matches Err(RouteUrlError::BaseUrl(e)) && e@ == f,
            Ok(v) => match url_with_query_pair(v, "include"@, "payment_routes"@) {
                Ok(q) => r matches Ok(u) && u@ == q,
                Err(m) => r matches Err(RouteUrlError::Query(e)) && e@ == m,
            },
        },
{
    let segment = match sanitize_api_path_segment(guid) {
        Some(segment) => segment,
        None => {
            return Err(RouteUrlError::EmptyGuid);
        },
    };
    let ghost seg = segment@;
    let mut segments: Vec<String> = Vec::new();
    segments.push("v1".to_owned());
    segments.push(entity_path.to_owned());
    segments.push(segment);
    proof {
        assert(segments@.map_values(|s: String| s@) =~= seq!["v1"@, entity_path@, seg]);
    }
    let url = match build_url(base_url, &segments) {
        Ok(url) => url,
        Err(error) => {
            return Err(RouteUrlError::BaseUrl(error));
        },
    };
    match append_query_pair(url.as_str(), "include", "payment_routes") {
        Ok(full) => Ok(full),
        Err(detail) => Err(RouteUrlError::Query(detail)),
    }
}

/// What one API answer for routes means. `status` is its HTTP status;
/// `routes` is, for a success status, the routes its body holds, as their
/// count and JSON text (none when the body named no routes or could not be
/// read). Not found is its own outcome; any other failure status, or a
/// success without routes, is a failure.
pub fn route_fetch_outcome(status: u16, routes: Option<(usize, String)>) -> (o: FetchOutcome)
    ensures
        status == 404 ==> o == FetchOutcome::NotFound,
        status != 404 && !(200 <= status <= 299) ==> o == FetchOutcome::Failed,
        200 <= status <= 299 ==> match routes {
            Some((n, json)) => if n > 0 {
                o == FetchOutcome::Found(json)
            } else {
                o == FetchOutcome::Failed
            },
            None => o == FetchOutcome::Failed,
        },
{
    if status == 404 {
        return FetchOutcome::NotFound;
    }
    if !(200 <= status && status <= 299) {
        return FetchOutcome::Failed;
    }
    match routes {
        Some((n, json)) => if n > 0 {
            FetchOutcome::Found(json)
        } else {
            FetchOutcome::Failed
        },
        None => FetchOutcome::Failed,
    }
}

} // verus!
