//! MusicIndex relay publishing rules.
//!
//! The HTTP exchange itself happens around this module. Here are the rules
//! around it: which requests may be sent, what each HTTP status means, how
//! long to back off between retries, and the per-target publish worker that
//! decides, event by event, what to do next.

use vstd::prelude::*;
use crate::config::PublisherTarget;
use crate::livevalue::{same_payload, LiveValuePayload};
use crate::text::{
    all_whitespace, chars_of, decimal, decimal_text, has_substring, is_blank, is_control_char,
    push_str, string_eq_text,
};
use crate::time::{saturating_product, Duration, NANOS_PER_MILLI};

verus! {

/// Default per-request timeout for relay calls, in seconds.
pub const DEFAULT_REQUEST_TIMEOUT_SECS: u64 = 10;

/// First retry delay after a retryable relay failure, in milliseconds.
pub const DEFAULT_INITIAL_BACKOFF_MILLIS: u64 = 250;

/// Maximum retry delay after repeated relay failures, in seconds.
pub const DEFAULT_MAX_BACKOFF_SECS: u64 = 30;

/// A configured relay publish target.
#[derive(PartialEq)]
pub struct RelayTarget {
    pub name: String,
    pub endpoint: String,
    pub event_id: String,
    pub token: String,
}

/// Result of one publish attempt.
#[derive(Debug, PartialEq, Eq)]
pub enum PublishOutcome {
    Accepted { seq: u64 },
    Retryable { reason: String },
    Dropped { reason: String },
    Fatal { reason: String },
}

/// Response from `POST /v1/liveitems`.
#[derive(Debug, PartialEq)]
pub struct ProvisionedLiveItem {
    pub event_id: String,
    pub broadcaster_token: String,
    pub metadata_url: String,
    pub remote_value_url: String,
    pub events_url: String,
    pub socket_io_url: String,
}

/// Why a publish request was refused before it was sent.
#[derive(Debug, PartialEq, Eq)]
pub enum RelayError {
    /// The payload has the relay's wrapped `{event_id, metadata}` shape.
    WrappedPayload,
    EmptyBearerToken,
    BearerTokenControlBytes,
    /// The endpoint is not a URL; the parser's explanation.
    EndpointUnparsable { endpoint: String, detail: String },
    EndpointCannotBeBase { endpoint: String },
    EmptyPathSegment,
}

impl RelayError {
    /// The message that explains this error.
    pub fn message(&self) -> (m: String)
        ensures
            m@ == match self {
                RelayError::WrappedPayload => "refusing to publish wrapped {event_id, metadata} relay payload"@,
                RelayError::EmptyBearerToken => "relay bearer token is empty"@,
                RelayError::BearerTokenControlBytes => "relay bearer token contains control bytes"@,
                RelayError::EndpointUnparsable { endpoint, detail: _ } => "parse relay endpoint "@
                    + endpoint@,
                RelayError::EndpointCannotBeBase { endpoint } => "relay endpoint cannot be a base URL: "@
                    + endpoint@,
                RelayError::EmptyPathSegment => "relay URL path segment must not be empty"@,
            },
    {
        let mut out = String::new();
        match self {
            RelayError::WrappedPayload => push_str(
                &mut out,
                "refusing to publish wrapped {event_id, metadata} relay payload",
            ),
            RelayError::EmptyBearerToken => push_str(&mut out, "relay bearer token is empty"),
            RelayError::BearerTokenControlBytes => push_str(
                &mut out,
                "relay bearer token contains control bytes",
            ),
            RelayError::EndpointUnparsable { endpoint, detail: _ } => {
                push_str(&mut out, "parse relay endpoint ");
                push_str(&mut out, endpoint.as_str());
            },
            RelayError::EndpointCannotBeBase { endpoint } => {
                push_str(&mut out, "relay endpoint cannot be a base URL: ");
                push_str(&mut out, endpoint.as_str());
            },
            RelayError::EmptyPathSegment => push_str(
                &mut out,
                "relay URL path segment must not be empty",
            ),
        }
        out
    }
}

impl RelayTarget {
    /// The target as its debugging text, with the broadcaster token left
    /// out: `RelayTarget { name: .., endpoint: .., event_id: .., token:
    /// "<redacted>" }`, each text quoted as `{:?}` quotes it.
    pub fn redacted_debug(&self) -> (r: String)
        ensures
            r@ == "RelayTarget { name: "@ + crate::text::debug_text(self.name@) + ", endpoint: "@
                + crate::text::debug_text(self.endpoint@) + ", event_id: "@ + crate::text::debug_text(
                self.event_id@,
            ) + ", token: \"<redacted>\" }"@,
    {
        let mut out = String::new();
        push_str(&mut out, "RelayTarget { name: ");
        push_str(&mut out, crate::text::debug_quoted(self.name.as_str()).as_str());
        push_str(&mut out, ", endpoint: ");
        push_str(&mut out, crate::text::debug_quoted(self.endpoint.as_str()).as_str());
        push_str(&mut out, ", event_id: ");
        push_str(&mut out, crate::text::debug_quoted(self.event_id.as_str()).as_str());
        push_str(&mut out, ", token: \"<redacted>\" }");
        out
    }

    /// Builds relay target settings from service configuration.
    pub fn from_config(endpoint: &str, target: &PublisherTarget) -> (r: Self)
        ensures
            r.name == target.name,
            r.endpoint@ == endpoint@,
            r.event_id == target.event_id,
            r.token == target.token,
    {
        RelayTarget {
            name: target.name.clone(),
            endpoint: endpoint.to_owned(),
            event_id: target.event_id.clone(),
            token: target.token.clone(),
        }
    }
}

// ---------------------------------------------------------------------------
// Requests

/// Whether a bearer token may be sent: not blank, and free of NUL and other
/// control characters.
pub open spec fn is_sendable_token(token: Seq<char>) -> bool {
    !all_whitespace(token) && forall|i: int|
        0 <= i < token.len() ==> #[trigger] token[i] != '\0' && !is_control_char(token[i])
}

/// Checks that a bearer token is not blank and holds no control bytes.
pub fn validate_bearer_token(token: &str) -> (r: Result<(), RelayError>)
    ensures
        all_whitespace(token@) ==> r == Err::<(), RelayError>(RelayError::EmptyBearerToken),
        !all_whitespace(token@) && !is_sendable_token(token@) ==> r == Err::<(), RelayError>(
            RelayError::BearerTokenControlBytes,
        ),
        r is Ok <==> is_sendable_token(token@),
{
    if is_blank(token) {
        return Err(RelayError::EmptyBearerToken);
    }
    let chars = chars_of(token);
    let mut i: usize = 0;
    while i < chars.len()
        invariant
            i <= chars@.len(),
            chars@ == token@,
            !all_whitespace(token@),
            forall|j: int| 0 <= j < i ==> #[trigger] chars@[j] != '\0' && !is_control_char(chars@[j]),
        decreases chars.len() - i,
    {
        if chars[i] == '\0' || crate::text::char_is_control(chars[i]) {
            return Err(RelayError::BearerTokenControlBytes);
        }
        i = i + 1;
    }
    Ok(())
}

/// Whether a JSON object's keys are exactly `event_id` and `metadata`: the
/// wrapped shape the relay stores, which must never be published as a payload.
pub open spec fn is_wrapped_shape(keys: Seq<Seq<char>>) -> bool {
    keys.len() == 2 && keys.contains("event_id"@) && keys.contains("metadata"@)
}

/// Whether the keys of a JSON object form the wrapped `{event_id, metadata}` shape.
pub fn has_wrapped_shape(keys: &Vec<String>) -> (b: bool)
    ensures
        b == is_wrapped_shape(keys@.map_values(|k: String| k@)),
{
    let ghost view = keys@.map_values(|k: String| k@);
    if keys.len() != 2 {
        return false;
    }
    let mut has_event_id = false;
    let mut has_metadata = false;
    let mut i: usize = 0;
    while i < keys.len()
        invariant
            i <= keys@.len(),
            view == keys@.map_values(|k: String| k@),
            has_event_id == view.take(i as int).contains("event_id"@),
            has_metadata == view.take(i as int).contains("metadata"@),
        decreases keys.len() - i,
    {
        proof {
            assert(view.take(i + 1) =~= view.take(i as int).push(view[i as int]));
            lemma_push_contains(view.take(i as int), view[i as int], "event_id"@);
            lemma_push_contains(view.take(i as int), view[i as int], "metadata"@);
            assert(view[i as int] == keys@[i as int]@);
        }
        if string_eq_text(keys[i].as_str(), "event_id") {
            has_event_id = true;
        }
        if string_eq_text(keys[i].as_str(), "metadata") {
            has_metadata = true;
        }
        i = i + 1;
    }
    assert(view.take(view.len() as int) =~= view);
    has_event_id && has_metadata
}

proof fn lemma_push_contains<A>(s: Seq<A>, x: A, y: A)
    ensures
        s.push(x).contains(y) == (s.contains(y) || x == y),
{
    if s.push(x).contains(y) {
        let j = choose|j: int| 0 <= j < s.push(x).len() && s.push(x)[j] == y;
        if j < s.len() {
            assert(s[j] == y);
        }
    }
    if s.contains(y) {
        let j = choose|j: int| 0 <= j < s.len() && s[j] == y;
        assert(s.push(x)[j] == y);
    }
    if x == y {
        assert(s.push(x)[s.len() as int] == y);
    }
}

/// Refuses a payload whose top-level JSON object has the wrapped shape.
///
/// `keys` are the payload's top-level object keys, or `None` when the
/// payload is not a JSON object.
pub fn reject_wrapped_payload(keys: &Option<Vec<String>>) -> (r: Result<(), RelayError>)
    ensures
        r == match keys {
            Some(k) => if is_wrapped_shape(k@.map_values(|s: String| s@)) {
                Err::<(), RelayError>(RelayError::WrappedPayload)
            } else {
                Ok(())
            },
            None => Ok(()),
        },
{
    match keys {
        Some(k) => {
            if has_wrapped_shape(k) {
                Err(RelayError::WrappedPayload)
            } else {
                Ok(())
            }
        },
        None => Ok(()),
    }
}

/// `s` without trailing `c` characters (`str::trim_end_matches(c)`).
pub open spec fn trim_end_char(s: Seq<char>, c: char) -> Seq<char>
    decreases s.len(),
{
    if s.len() > 0 && s.last() == c {
        trim_end_char(s.drop_last(), c)
    } else {
        s
    }
}

/// What `url::Url::parse` makes of `base`: whether the URL it parses can be
/// a base for path segments, or the parser's error text.
pub uninterp spec fn url_base_check(base: Seq<char>) -> Result<bool, Seq<char>>;

/// The URL `base` parses to, with `segments` appended to its path, each
/// percent-encoded as `url::PathSegmentsMut::extend` encodes it.
pub uninterp spec fn url_with_segments(base: Seq<char>, segments: Seq<Seq<char>>) -> Seq<char>;

/// Calls `reqwest::Url::parse` and, when it parses, `path_segments_mut` to
/// learn whether the URL can take path segments.
#[verifier::external_body]
fn check_url_base(base: &str) -> (r: Result<bool, String>)
    ensures
        match (r, url_base_check(base@)) {
            (Ok(a), Ok(b)) => a == b,
            (Err(e), Err(m)) => e@ == m,
            _ => false,
        },
{
    match reqwest::Url::parse(base) {
        Ok(mut url) => Ok(url.path_segments_mut().is_ok()),
        Err(error) => Err(error.to_string()),
    }
}

/// Calls `reqwest::Url::parse` on `base` and `PathSegmentsMut::extend` with
/// `segments`, and renders the URL.
#[verifier::external_body]
fn join_url_segments(base: &str, segments: &Vec<String>) -> (r: String)
    requires
        url_base_check(base@) == Ok::<bool, Seq<char>>(true),
    ensures
        r@ == url_with_segments(base@, segments@.map_values(|s: String| s@)),
{
    match reqwest::Url::parse(base) {
        Ok(mut url) => {
            if let Ok(mut path) = url.path_segments_mut() {
                path.extend(segments.iter().map(String::as_str));
            }
            url.to_string()
        },
        Err(_) => base.to_owned(),
    }
}

/// The URL for `segments` under `endpoint`: the endpoint without trailing
/// slashes, plus one, must parse as a URL that can take path segments, and
/// no segment may be blank.
pub open spec fn endpoint_url(endpoint: Seq<char>, segments: Seq<Seq<char>>) -> Result<Seq<char>, RelayFault> {
    let base = trim_end_char(endpoint, '/') + "/"@;
    match url_base_check(base) {
        Err(detail) => Err(RelayFault::EndpointUnparsable(endpoint, detail)),
        Ok(false) => Err(RelayFault::EndpointCannotBeBase(endpoint)),
        Ok(true) => if exists|i: int| 0 <= i < segments.len() && all_whitespace(#[trigger] segments[i]) {
            Err(RelayFault::EmptyPathSegment)
        } else {
            Ok(url_with_segments(base, segments))
        },
    }
}

/// The meaning of a [`RelayError`], with its texts taken by value.
pub enum RelayFault {
    WrappedPayload,
    EmptyBearerToken,
    BearerTokenControlBytes,
    EndpointUnparsable(Seq<char>, Seq<char>),
    EndpointCannotBeBase(Seq<char>),
    EmptyPathSegment,
}

impl View for RelayError {
    type V = RelayFault;

    open spec fn view(&self) -> RelayFault {
        match self {
            RelayError::WrappedPayload => RelayFault::WrappedPayload,
            RelayError::EmptyBearerToken => RelayFault::EmptyBearerToken,
            RelayError::BearerTokenControlBytes => RelayFault::BearerTokenControlBytes,
            RelayError::EndpointUnparsable { endpoint, detail } => RelayFault::EndpointUnparsable(
                endpoint@,
                detail@,
            ),
            RelayError::EndpointCannotBeBase { endpoint } => RelayFault::EndpointCannotBeBase(
                endpoint@,
            ),
            RelayError::EmptyPathSegment => RelayFault::EmptyPathSegment,
        }
    }
}

/// `s` without trailing slashes.
pub fn trim_end_slashes(s: &str) -> (r: String)
    ensures
        r@ == trim_end_char(s@, '/'),
{
    let chars = chars_of(s);
    let mut end = chars.len();
    assert(chars@.take(end as int) =~= chars@);
    while end > 0 && chars[end - 1] == '/'
        invariant
            end <= chars@.len(),
            chars@ == s@,
            trim_end_char(s@, '/') == trim_end_char(chars@.take(end as int), '/'),
        decreases end,
    {
        assert(chars@.take(end as int).drop_last() =~= chars@.take(end - 1));
        end = end - 1;
    }
    assert(chars@.take(end as int) =~= chars@.subrange(0, end as int));
    crate::text::string_from_range(&chars, 0, end)
}

/// Builds the URL for `segments` under a relay endpoint.
pub fn build_url(endpoint: &str, segments: &Vec<String>) -> (r: Result<String, RelayError>)
    ensures
        match (r, endpoint_url(endpoint@, segments@.map_values(|s: String| s@))) {
            (Ok(u), Ok(v)) => u@ == v,
            (Err(e), Err(f)) => e@ == f,
            _ => false,
        },
{
    let ghost segs = segments@.map_values(|s: String| s@);
    let mut base = trim_end_slashes(endpoint);
    push_str(&mut base, "/");
    match check_url_base(base.as_str()) {
        Err(detail) => {
            return Err(RelayError::EndpointUnparsable { endpoint: endpoint.to_owned(), detail });
        },
        Ok(false) => {
            return Err(RelayError::EndpointCannotBeBase { endpoint: endpoint.to_owned() });
        },
        Ok(true) => {},
    }
    let mut i: usize = 0;
    while i < segments.len()
        invariant
            i <= segments@.len(),
            segs == segments@.map_values(|s: String| s@),
            url_base_check(base@) == Ok::<bool, Seq<char>>(true),
            base@ == trim_end_char(endpoint@, '/') + "/"@,
            forall|j: int| 0 <= j < i ==> !all_whitespace(#[trigger] segs[j]),
        decreases segments.len() - i,
    {
        assert(segs[i as int] == segments@[i as int]@);
        if is_blank(segments[i].as_str()) {
            assert(all_whitespace(segs[i as int]));
            return Err(RelayError::EmptyPathSegment);
        }
        i = i + 1;
    }
    Ok(join_url_segments(base.as_str(), segments))
}

/// The text of a relay URL for publishing to live item `event_id`.
pub fn metadata_url(endpoint: &str, event_id: &str) -> (r: Result<String, RelayError>)
    ensures
        match (r, endpoint_url(endpoint@, seq!["v1"@, "liveitems"@, event_id@, "metadata"@])) {
            (Ok(u), Ok(v)) => u@ == v,
            (Err(e), Err(f)) => e@ == f,
            _ => false,
        },
{
    let mut segments: Vec<String> = Vec::new();
    segments.push("v1".to_owned());
    segments.push("liveitems".to_owned());
    segments.push(event_id.to_owned());
    segments.push("metadata".to_owned());
    assert(segments@.map_values(|s: String| s@) =~= seq!["v1"@, "liveitems"@, event_id@, "metadata"@]);
    build_url(endpoint, &segments)
}

/// The URL for provisioning a live item.
pub fn provision_url(endpoint: &str) -> (r: Result<String, RelayError>)
    ensures
        match (r, endpoint_url(endpoint@, seq!["v1"@, "liveitems"@])) {
            (Ok(u), Ok(v)) => u@ == v,
            (Err(e), Err(f)) => e@ == f,
            _ => false,
        },
{
    let mut segments: Vec<String> = Vec::new();
    segments.push("v1".to_owned());
    segments.push("liveitems".to_owned());
    assert(segments@.map_values(|s: String| s@) =~= seq!["v1"@, "liveitems"@]);
    build_url(endpoint, &segments)
}

/// Checks a publish request before it is sent and returns the URL to post
/// it to: the payload must not have the wrapped shape, the token must be
/// sendable, and the endpoint must give a URL.
///
/// `payload_keys` are the payload's top-level JSON object keys, or `None`
/// when it is not a JSON object.
pub fn prepare_publish(target: &RelayTarget, payload_keys: &Option<Vec<String>>) -> (r: Result<
    String,
    RelayError,
>)
    ensures
        match payload_keys {
            Some(k) => is_wrapped_shape(k@.map_values(|s: String| s@)),
            None => false,
        } ==> r == Err::<String, RelayError>(RelayError::WrappedPayload),
        !match payload_keys {
            Some(k) => is_wrapped_shape(k@.map_values(|s: String| s@)),
            None => false,
        } ==> {
            &&& all_whitespace(target.token@) ==> r == Err::<String, RelayError>(
                RelayError::EmptyBearerToken,
            )
            &&& !all_whitespace(target.token@) && !is_sendable_token(target.token@) ==> r
                == Err::<String, RelayError>(RelayError::BearerTokenControlBytes)
            &&& is_sendable_token(target.token@) ==> match (
                r,
                endpoint_url(
                    target.endpoint@,
                    seq!["v1"@, "liveitems"@, target.event_id@, "metadata"@],
                ),
            ) {
                (Ok(u), Ok(v)) => u@ == v,
                (Err(e), Err(f)) => e@ == f,
                _ => false,
            }
        },
{
    reject_wrapped_payload(payload_keys)?;
    validate_bearer_token(target.token.as_str())?;
    metadata_url(target.endpoint.as_str(), target.event_id.as_str())
}

// ---------------------------------------------------------------------------
// Responses

/// The canonical reason phrase of an HTTP status code, when it has one.
pub uninterp spec fn http_reason_phrase(code: u16) -> Option<Seq<char>>;

/// Calls `reqwest::StatusCode::canonical_reason` for `code`.
#[verifier::external_body]
fn canonical_reason(code: u16) -> (r: Option<&'static str>)
    requires
        100 <= code <= 999,
    ensures
        match (r, http_reason_phrase(code)) {
            (Some(s), Some(t)) => s@ == t,
            (None, None) => true,
            _ => false,
        },
{
    match reqwest::StatusCode::from_u16(code) {
        Ok(status) => status.canonical_reason(),
        Err(_) => None,
    }
}

/// How an HTTP status is written: its code and its reason phrase.
pub open spec fn status_text(code: u16) -> Seq<char> {
    decimal(code as nat) + " "@ + match http_reason_phrase(code) {
        Some(reason) => reason,
        None => "<unknown status code>"@,
    }
}

/// Writes an HTTP status as `StatusCode`'s `Display` does.
pub fn status_display(code: u16) -> (s: String)
    requires
        100 <= code <= 999,
    ensures
        s@ == status_text(code),
{
    let mut s = decimal_text(code as u64);
    push_str(&mut s, " ");
    match canonical_reason(code) {
        Some(reason) => push_str(&mut s, reason),
        None => push_str(&mut s, "<unknown status code>"),
    }
    s
}

/// The meaning of a [`PublishOutcome`], with its reason taken by value.
pub enum OutcomeView {
    Accepted(u64),
    Retryable(Seq<char>),
    Dropped(Seq<char>),
    Fatal(Seq<char>),
}

impl View for PublishOutcome {
    type V = OutcomeView;

    open spec fn view(&self) -> OutcomeView {
        match self {
            PublishOutcome::Accepted { seq } => OutcomeView::Accepted(*seq),
            PublishOutcome::Retryable { reason } => OutcomeView::Retryable(reason@),
            PublishOutcome::Dropped { reason } => OutcomeView::Dropped(reason@),
            PublishOutcome::Fatal { reason } => OutcomeView::Fatal(reason@),
        }
    }
}

/// What a relay response status other than `200 OK` means.
///
/// Revoked or unknown credentials and a missing live item are fatal; an
/// oversized payload is dropped; rate limiting and server errors are
/// retried; any other status is fatal as unexpected.
pub open spec fn status_meaning(code: u16) -> OutcomeView {
    let returned = "relay returned HTTP "@ + status_text(code);
    if code == 401 || code == 403 || code == 404 {
        OutcomeView::Fatal(returned)
    } else if code == 413 {
        OutcomeView::Dropped(returned)
    } else if code == 429 || (500 <= code < 600) {
        OutcomeView::Retryable(returned)
    } else {
        OutcomeView::Fatal("relay returned unexpected HTTP "@ + status_text(code))
    }
}

/// The outcome of a publish attempt answered with HTTP status `code`.
///
/// `200 OK` gives `None`: the response body, which carries the accepted
/// sequence number, decides that outcome.
pub fn status_outcome(code: u16) -> (o: Option<PublishOutcome>)
    requires
        100 <= code <= 999,
    ensures
        code == 200 <==> o is None,
        o matches Some(outcome) ==> outcome@ == status_meaning(code),
        code == 429 || 500 <= code < 600 ==> o matches Some(PublishOutcome::Retryable { .. }),
        code == 401 || code == 403 || code == 404 ==> o matches Some(PublishOutcome::Fatal { .. }),
        code == 413 ==> o matches Some(PublishOutcome::Dropped { .. }),
        !(o matches Some(PublishOutcome::Accepted { .. })),
{
    if code == 200 {
        return None;
    }
    let status = status_display(code);
    if code == 401 || code == 403 || code == 404 || code == 413 || code == 429 || (500 <= code
        && code < 600) {
        let mut reason = String::new();
        push_str(&mut reason, "relay returned HTTP ");
        push_str(&mut reason, status.as_str());
        if code == 413 {
            return Some(PublishOutcome::Dropped { reason });
        }
        if code == 429 || (500 <= code && code < 600) {
            return Some(PublishOutcome::Retryable { reason });
        }
        return Some(PublishOutcome::Fatal { reason });
    }
    let mut reason = String::new();
    push_str(&mut reason, "relay returned unexpected HTTP ");
    push_str(&mut reason, status.as_str());
    Some(PublishOutcome::Fatal { reason })
}

/// How the relay's answer decides a publish attempt: every server error
/// (`5xx`) and rate limiting (`429`) is retried, revoked or unknown
/// credentials (`401`, `403`) and a missing live item (`404`) are fatal, an
/// oversized payload (`413`) is dropped, and any other status but `200 OK`
/// is fatal as unexpected; the reason names the status.
pub proof fn law_status_kinds(code: u16)
    requires
        100 <= code <= 999,
        code != 200,
    ensures
        500 <= code < 600 ==> status_meaning(code) == OutcomeView::Retryable(
            "relay returned HTTP "@ + status_text(code),
        ),
        code == 429 ==> status_meaning(code) == OutcomeView::Retryable(
            "relay returned HTTP "@ + status_text(code),
        ),
        code == 401 || code == 403 || code == 404 ==> status_meaning(code) == OutcomeView::Fatal(
            "relay returned HTTP "@ + status_text(code),
        ),
        code == 413 ==> status_meaning(code) == OutcomeView::Dropped(
            "relay returned HTTP "@ + status_text(code),
        ),
        status_meaning(code) is Retryable <==> (code == 429 || 500 <= code < 600),
        status_meaning(code) is Dropped <==> code == 413,
        !(code == 401 || code == 403 || code == 404 || code == 413 || code == 429 || 500 <= code
            < 600) ==> status_meaning(code) == OutcomeView::Fatal(
            "relay returned unexpected HTTP "@ + status_text(code),
        ),
{
}

/// The outcome of a publish attempt the relay never answered.
pub fn network_error_outcome(detail: &str) -> (o: PublishOutcome)
    ensures
        o@ == OutcomeView::Retryable("network error: "@ + detail@),
{
    let mut reason = String::new();
    push_str(&mut reason, "network error: ");
    push_str(&mut reason, detail);
    PublishOutcome::Retryable { reason }
}

// ---------------------------------------------------------------------------
// Backoff

/// The retry delay after `current`: doubled, but never above `max`.
pub open spec fn next_backoff_spec(current: nat, max: nat) -> nat {
    let doubled = saturating_product(current, 2);
    if doubled <= max {
        doubled
    } else {
        max
    }
}

/// The retry delay that follows `current`.
pub fn next_backoff(current: Duration, max: Duration) -> (d: Duration)
    ensures
        d@ == next_backoff_spec(current@, max@),
{
    current.saturating_mul(2).min(max)
}

/// The random spread added to a retry delay of `millis` milliseconds: up to
/// a tenth of it, and at least one millisecond.
pub open spec fn jitter_span(millis: nat) -> nat {
    if millis / 10 >= 1 {
        millis / 10
    } else {
        1
    }
}

/// The retry delay for `base` with the jitter that `seed` picks, in milliseconds.
pub open spec fn jittered_millis(base: nat, seed: nat) -> nat {
    let millis = base / (NANOS_PER_MILLI as nat);
    let total = millis + seed % (jitter_span(millis) + 1);
    if total <= u64::MAX {
        total
    } else {
        u64::MAX as nat
    }
}

/// The retry delay for `base` with the jitter that `seed` picks: `base`
/// itself when it is under a millisecond, else its whole milliseconds plus
/// `seed` modulo one more than the jitter span.
pub fn jittered_delay_with_seed(base: Duration, seed: u128) -> (d: Duration)
    ensures
        base@ < NANOS_PER_MILLI ==> d == base,
        base@ >= NANOS_PER_MILLI ==> d@ == jittered_millis(base@, seed as nat) * NANOS_PER_MILLI,
{
    let millis = base.as_millis();
    if millis == 0 {
        return base;
    }
    let span = if millis / 10 >= 1 {
        millis / 10
    } else {
        1
    };
    let jitter = seed % (span + 1);
    let total = millis.saturating_add(jitter);
    let capped: u64 = if total <= u64::MAX as u128 {
        total as u64
    } else {
        u64::MAX
    };
    Duration::from_millis(capped)
}

/// Nanoseconds since the Unix epoch by the system clock, or zero when the
/// clock reads before the epoch.
#[verifier::external_body]
fn clock_seed() -> u128 {
    std::time::SystemTime::now().duration_since(std::time::UNIX_EPOCH).map(|d| d.as_nanos()).unwrap_or(0)
}

/// The retry delay for `base` with jitter from the system clock.
pub fn jittered_delay(base: Duration) -> (d: Duration)
    ensures
        base@ < NANOS_PER_MILLI ==> d == base,
        base@ >= NANOS_PER_MILLI ==> exists|seed: nat| d@ == jittered_millis(base@, seed) * NANOS_PER_MILLI,
{
    let seed = clock_seed();
    jittered_delay_with_seed(base, seed)
}

// ---------------------------------------------------------------------------
// The per-target publish worker

/// Where a publish worker is in its cycle.
#[derive(Clone, Copy, Debug, PartialEq, Eq, Structural)]
pub enum WorkerPhase {
    /// Waiting for the next payload.
    Idle,
    /// Publishing the current payload.
    Publishing,
    /// Waiting out a retry delay, ready to take a newer payload instead.
    Waiting,
    /// Finished for good.
    Stopped,
}

/// What happened since the worker's last action.
#[derive(Debug)]
pub enum WorkerEvent {
    /// A payload arrived on the worker's queue.
    Payload(LiveValuePayload),
    /// The relay answered the publish attempt.
    Outcome(PublishOutcome),
    /// The publish request could not be made; the explanation.
    Invalid(String),
    /// The retry delay ran out with no newer payload.
    RetryTimeout,
    /// The queue closed.
    Disconnected,
}

/// What the worker does next.
#[derive(Debug, PartialEq, Eq)]
pub enum WorkerAction {
    /// Wait for the next payload.
    AwaitPayload,
    /// Publish the current payload.
    Publish,
    /// Wait up to this long for a newer payload, then retry the current one.
    AwaitRetry(Duration),
    /// Record this failure for the service and stop.
    StopFatal(String),
    /// Stop.
    Stop,
}

/// The decisions of one target's relay publish worker.
///
/// A payload is published until the relay accepts it, drops it, or fails
/// fatally. Retryable failures back off, doubling up to a ceiling, and a
/// newer payload that arrives during a backoff replaces the pending one and
/// resets the backoff. A fatal failure stops the worker for good, so the
/// service cannot go on looking healthy while publishing nothing.
pub struct PublishWorker {
    target_name: String,
    initial_backoff: Duration,
    max_backoff: Duration,
    phase: WorkerPhase,
    current: Option<LiveValuePayload>,
    backoff: Duration,
}

impl PublishWorker {
    /// The worker's phase.
    pub closed spec fn phase(&self) -> WorkerPhase {
        self.phase
    }

    /// The payload being published or retried.
    pub closed spec fn current_payload(&self) -> Option<LiveValuePayload> {
        self.current
    }

    /// The delay before the next retry, before jitter.
    pub closed spec fn backoff_delay(&self) -> nat {
        self.backoff@
    }

    /// The first retry delay after a new payload.
    pub closed spec fn initial_delay(&self) -> nat {
        self.initial_backoff@
    }

    /// The ceiling on retry delays.
    pub closed spec fn max_delay(&self) -> nat {
        self.max_backoff@
    }

    /// The name of the worker's target.
    pub closed spec fn target(&self) -> Seq<char> {
        self.target_name@
    }

    /// The worker's standing invariant: it holds a payload exactly while
    /// publishing or waiting to retry, and its backoff is the initial delay
    /// or within the ceiling.
    pub open spec fn wf(&self) -> bool {
        &&& (self.current_payload() is Some <==> (self.phase() == WorkerPhase::Publishing
            || self.phase() == WorkerPhase::Waiting))
        &&& (self.backoff_delay() == self.initial_delay() || self.backoff_delay()
            <= self.max_delay())
    }

    /// Whether the worker expects `event` in its phase.
    pub open spec fn expects(&self, event: WorkerEvent) -> bool {
        match self.phase() {
            WorkerPhase::Idle => event is Payload || event is Disconnected,
            WorkerPhase::Publishing => event is Outcome || event is Invalid,
            WorkerPhase::Waiting => event is Payload || event is RetryTimeout
                || event is Disconnected,
            WorkerPhase::Stopped => false,
        }
    }

    /// A worker for target `target_name`, idle.
    pub fn new(target_name: &str, initial_backoff: Duration, max_backoff: Duration) -> (w: Self)
        ensures
            w.wf(),
            w.phase() == WorkerPhase::Idle,
            w.target() == target_name@,
            w.initial_delay() == initial_backoff@,
            w.max_delay() == max_backoff@,
            w.backoff_delay() == initial_backoff@,
    {
        PublishWorker {
            target_name: target_name.to_owned(),
            initial_backoff,
            max_backoff,
            phase: WorkerPhase::Idle,
            current: None,
            backoff: initial_backoff,
        }
    }

    /// The payload being published or retried.
    pub fn current(&self) -> (p: Option<&LiveValuePayload>)
        ensures
            match (p, self.current_payload()) {
                (Some(a), Some(b)) => *a == b,
                (None, None) => true,
                _ => false,
            },
    {
        match &self.current {
            Some(p) => Some(p),
            None => None,
        }
    }

    /// The delay before the next retry, before jitter.
    pub fn backoff(&self) -> (d: Duration)
        ensures
            d@ == self.backoff_delay(),
    {
        self.backoff
    }

    /// Whether the worker expects `event` now.
    pub fn accepts(&self, event: &WorkerEvent) -> (b: bool)
        ensures
            b == self.expects(*event),
    {
        match self.phase {
            WorkerPhase::Idle => match event {
                WorkerEvent::Payload(_) | WorkerEvent::Disconnected => true,
                _ => false,
            },
            WorkerPhase::Publishing => match event {
                WorkerEvent::Outcome(_) | WorkerEvent::Invalid(_) => true,
                _ => false,
            },
            WorkerPhase::Waiting => match event {
                WorkerEvent::Payload(_) | WorkerEvent::RetryTimeout | WorkerEvent::Disconnected => true,
                _ => false,
            },
            WorkerPhase::Stopped => false,
        }
    }

    /// Takes in what happened and decides what to do next.
    pub fn step(&mut self, event: WorkerEvent) -> (action: WorkerAction)
        requires
            old(self).wf(),
            old(self).expects(event),
        ensures
            final(self).wf(),
            worker_step(*old(self), event, *final(self), action),
    {
        let ghost before = *self;
        match event {
            WorkerEvent::Payload(payload) => {
                self.current = Some(payload);
                self.backoff = self.initial_backoff;
                self.phase = WorkerPhase::Publishing;
                WorkerAction::Publish
            },
            WorkerEvent::Outcome(PublishOutcome::Accepted { seq: _ }) | WorkerEvent::Outcome(
                PublishOutcome::Dropped { reason: _ },
            ) | WorkerEvent::Invalid(_) => {
                self.current = None;
                self.phase = WorkerPhase::Idle;
                WorkerAction::AwaitPayload
            },
            WorkerEvent::Outcome(PublishOutcome::Fatal { reason }) => {
                self.current = None;
                self.phase = WorkerPhase::Stopped;
                let mut message = String::new();
                push_str(&mut message, "target ");
                push_str(&mut message, self.target_name.as_str());
                push_str(&mut message, ": ");
                push_str(&mut message, reason.as_str());
                WorkerAction::StopFatal(message)
            },
            WorkerEvent::Outcome(PublishOutcome::Retryable { reason: _ }) => {
                self.phase = WorkerPhase::Waiting;
                WorkerAction::AwaitRetry(jittered_delay(self.backoff))
            },
            WorkerEvent::RetryTimeout => {
                self.backoff = next_backoff(self.backoff, self.max_backoff);
                self.phase = WorkerPhase::Publishing;
                WorkerAction::Publish
            },
            WorkerEvent::Disconnected => {
                self.current = None;
                self.phase = WorkerPhase::Stopped;
                WorkerAction::Stop
            },
        }
    }
}

/// Whether `d` is a jittered retry delay for `base`.
pub open spec fn is_jittered(base: nat, d: Duration) -> bool {
    if base < NANOS_PER_MILLI {
        d@ == base
    } else {
        exists|seed: nat| d@ == jittered_millis(base, seed) * NANOS_PER_MILLI
    }
}

/// One step of a publish worker: from `w0`, `event` leads to `w1` and `action`.
pub open spec fn worker_step(w0: PublishWorker, event: WorkerEvent, w1: PublishWorker, action: WorkerAction) -> bool {
    &&& w1.target() == w0.target()
    &&& w1.initial_delay() == w0.initial_delay()
    &&& w1.max_delay() == w0.max_delay()
    &&& match event {
        WorkerEvent::Payload(p) => {
            &&& w1.phase() == WorkerPhase::Publishing
            &&& w1.current_payload() == Some(p)
            &&& w1.backoff_delay() == w0.initial_delay()
            &&& action == WorkerAction::Publish
        },
        WorkerEvent::Outcome(o) => match o {
            PublishOutcome::Accepted { .. } | PublishOutcome::Dropped { .. } => {
                &&& w1.phase() == WorkerPhase::Idle
                &&& w1.current_payload() is None
                &&& w1.backoff_delay() == w0.backoff_delay()
                &&& action == WorkerAction::AwaitPayload
            },
            PublishOutcome::Fatal { reason } => {
                &&& w1.phase() == WorkerPhase::Stopped
                &&& w1.current_payload() is None
                &&& w1.backoff_delay() == w0.backoff_delay()
                &&& action matches WorkerAction::StopFatal(m) && m@ == "target "@ + w0.target()
                    + ": "@ + reason@
            },
            PublishOutcome::Retryable { .. } => {
                &&& w1.phase() == WorkerPhase::Waiting
                &&& w1.current_payload() == w0.current_payload()
                &&& w1.backoff_delay() == w0.backoff_delay()
                &&& action matches WorkerAction::AwaitRetry(d) && is_jittered(w0.backoff_delay(), d)
            },
        },
        WorkerEvent::Invalid(_) => {
            &&& w1.phase() == WorkerPhase::Idle
            &&& w1.current_payload() is None
            &&& w1.backoff_delay() == w0.backoff_delay()
            &&& action == WorkerAction::AwaitPayload
        },
        WorkerEvent::RetryTimeout => {
            &&& w1.phase() == WorkerPhase::Publishing
            &&& w1.current_payload() == w0.current_payload()
            &&& w1.backoff_delay() == next_backoff_spec(w0.backoff_delay(), w0.max_delay())
            &&& action == WorkerAction::Publish
        },
        WorkerEvent::Disconnected => {
            &&& w1.phase() == WorkerPhase::Stopped
            &&& w1.current_payload() is None
            &&& w1.backoff_delay() == w0.backoff_delay()
            &&& action == WorkerAction::Stop
        },
    }
}

/// A newer payload that arrives while a retry is pending replaces the
/// pending one, is published at once, and starts again from the initial
/// backoff.
pub proof fn law_newer_payload_supersedes_retry(
    w0: PublishWorker,
    newer: LiveValuePayload,
    w1: PublishWorker,
    action: WorkerAction,
)
    requires
        w0.phase() == WorkerPhase::Waiting,
        worker_step(w0, WorkerEvent::Payload(newer), w1, action),
    ensures
        w1.current_payload() == Some(newer),
        w1.backoff_delay() == w0.initial_delay(),
        action == WorkerAction::Publish,
{
}

/// After a fatal outcome the worker stops and expects nothing more: no
/// later payload is ever published.
pub proof fn law_fatal_stops_for_good(w0: PublishWorker, reason: String, w1: PublishWorker, action: WorkerAction)
    requires
        worker_step(w0, WorkerEvent::Outcome(PublishOutcome::Fatal { reason }), w1, action),
    ensures
        action is StopFatal,
        forall|e: WorkerEvent| !w1.expects(e),
{
}

/// A retryable failure keeps the payload: when the backoff runs out, the same
/// payload is published again after a longer, capped backoff.
pub proof fn law_retry_republishes_same_payload(
    w0: PublishWorker,
    reason: String,
    w1: PublishWorker,
    wait: WorkerAction,
    w2: PublishWorker,
    again: WorkerAction,
)
    requires
        w0.phase() == WorkerPhase::Publishing,
        worker_step(w0, WorkerEvent::Outcome(PublishOutcome::Retryable { reason }), w1, wait),
        worker_step(w1, WorkerEvent::RetryTimeout, w2, again),
    ensures
        wait is AwaitRetry,
        again == WorkerAction::Publish,
        w2.current_payload() == w0.current_payload(),
        w2.backoff_delay() == next_backoff_spec(w0.backoff_delay(), w0.max_delay()),
        w2.backoff_delay() <= w0.max_delay(),
{
}

/// A dropped payload or an invalid request costs only that payload: the
/// worker goes back to waiting for the next one.
pub proof fn law_worker_survives_dropped_payload(w0: PublishWorker, event: WorkerEvent, w1: PublishWorker, action: WorkerAction)
    requires
        event matches WorkerEvent::Outcome(PublishOutcome::Dropped { .. }) || event is Invalid,
        worker_step(w0, event, w1, action),
    ensures
        action == WorkerAction::AwaitPayload,
        forall|p: LiveValuePayload| w1.expects(WorkerEvent::Payload(p)),
{
}

/// Backing off never waits past the ceiling once it has grown: the delay
/// after any retry is at most the larger of the ceiling and the initial delay.
pub proof fn law_backoff_capped(w: PublishWorker)
    requires
        w.wf(),
    ensures
        w.backoff_delay() <= if w.max_delay() >= w.initial_delay() {
            w.max_delay()
        } else {
            w.initial_delay()
        },
{
}

} // verus!
