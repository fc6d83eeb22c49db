use musicindex_live_publisher::livevalue::{LiveValue, LiveValueDestination, LiveValueModel, LiveValuePayload};
use musicindex_live_publisher::relay::{
    build_url, has_wrapped_shape, jittered_delay, jittered_delay_with_seed, metadata_url, network_error_outcome,
    next_backoff, prepare_publish, provision_url, reject_wrapped_payload, status_display, status_outcome,
    validate_bearer_token, PublishOutcome, PublishWorker, RelayError, RelayTarget, WorkerAction, WorkerEvent,
};
use musicindex_live_publisher::time::Duration;

fn target(endpoint: &str) -> RelayTarget {
    RelayTarget {
        name: "default".to_owned(),
        endpoint: endpoint.to_owned(),
        event_id: "event-guid".to_owned(),
        token: "secret-token".to_owned(),
    }
}

fn payload(title: &str) -> LiveValuePayload {
    LiveValuePayload {
        title: title.to_owned(),
        image: None,
        description: String::new(),
        kind: "music".to_owned(),
        start_time: 0,
        duration: None,
        event_guid: "event-guid".to_owned(),
        block_guid: "block-guid".to_owned(),
        feed_guid: None,
        item_guid: None,
        value: LiveValue {
            model: LiveValueModel { kind: "lightning".to_owned(), method: "keysend".to_owned(), suggested: None },
            destinations: vec![LiveValueDestination {
                kind: Some("node".to_owned()),
                name: Some("Station".to_owned()),
                address: Some("03station".to_owned()),
                split: Some("100".to_owned()),
                custom_key: None,
                custom_value: None,
                fee: None,
            }],
        },
    }
}

fn keys(names: &[&str]) -> Option<Vec<String>> {
    Some(names.iter().map(|k| (*k).to_owned()).collect())
}

#[test]
fn relay_status_codes_map_to_documented_outcomes() {
    for status in [401_u16, 403, 404] {
        assert!(matches!(status_outcome(status), Some(PublishOutcome::Fatal { .. })));
    }
    assert!(matches!(status_outcome(413), Some(PublishOutcome::Dropped { .. })));
    for status in [429_u16, 500] {
        assert!(matches!(status_outcome(status), Some(PublishOutcome::Retryable { .. })));
    }
    assert_eq!(status_outcome(200), None);
}

#[test]
fn relay_status_reasons_name_the_status() {
    assert_eq!(status_display(429), "429 Too Many Requests");
    assert_eq!(
        status_outcome(429),
        Some(PublishOutcome::Retryable { reason: "relay returned HTTP 429 Too Many Requests".to_owned() })
    );
    assert_eq!(
        status_outcome(401),
        Some(PublishOutcome::Fatal { reason: "relay returned HTTP 401 Unauthorized".to_owned() })
    );
    assert_eq!(
        status_outcome(201),
        Some(PublishOutcome::Fatal { reason: "relay returned unexpected HTTP 201 Created".to_owned() })
    );
    assert_eq!(
        status_outcome(599),
        Some(PublishOutcome::Retryable { reason: "relay returned HTTP 599 <unknown status code>".to_owned() })
    );
}

#[test]
fn relay_network_error_is_retryable() {
    let outcome = network_error_outcome("connection refused");
    assert_eq!(outcome, PublishOutcome::Retryable { reason: "network error: connection refused".to_owned() });
}

#[test]
fn relay_rejects_exact_wrapped_payload_shape_before_sending() {
    let wrapped = keys(&["event_id", "metadata"]);
    assert_eq!(reject_wrapped_payload(&wrapped), Err(RelayError::WrappedPayload));
    assert_eq!(prepare_publish(&target("https://relay.example.test"), &wrapped), Err(RelayError::WrappedPayload));
    assert!(reject_wrapped_payload(&keys(&["event_id", "metadata", "title"])).is_ok());
    assert!(reject_wrapped_payload(&keys(&["metadata", "title"])).is_ok());
    assert!(reject_wrapped_payload(&None).is_ok());
    assert!(has_wrapped_shape(&vec!["metadata".to_owned(), "event_id".to_owned()]));
    assert_eq!(
        RelayError::WrappedPayload.message(),
        "refusing to publish wrapped {event_id, metadata} relay payload"
    );
}

#[test]
fn relay_bearer_tokens_must_be_sendable() {
    assert_eq!(validate_bearer_token(" \t"), Err(RelayError::EmptyBearerToken));
    assert_eq!(validate_bearer_token("secret\u{0}token"), Err(RelayError::BearerTokenControlBytes));
    assert_eq!(validate_bearer_token("secret\ntoken"), Err(RelayError::BearerTokenControlBytes));
    assert!(validate_bearer_token("secret-token").is_ok());
}

#[test]
fn relay_publish_url_names_the_live_item() {
    assert_eq!(
        metadata_url("https://relay.example.test///", "event-guid").unwrap(),
        "https://relay.example.test/v1/liveitems/event-guid/metadata"
    );
    assert_eq!(
        prepare_publish(&target("https://relay.example.test/base"), &keys(&["title"])).unwrap(),
        "https://relay.example.test/base//v1/liveitems/event-guid/metadata"
    );
    assert_eq!(provision_url("https://relay.example.test").unwrap(), "https://relay.example.test/v1/liveitems");
    assert_eq!(
        metadata_url("https://relay.example.test", "a b/c").unwrap(),
        "https://relay.example.test/v1/liveitems/a%20b%2Fc/metadata"
    );
}

#[test]
fn relay_bad_endpoints_and_segments_are_refused() {
    assert!(matches!(metadata_url("not a url", "event-guid"), Err(RelayError::EndpointUnparsable { .. })));
    assert!(matches!(metadata_url("mailto:someone@example.test", "e"), Err(RelayError::EndpointCannotBeBase { .. })));
    assert_eq!(metadata_url("https://relay.example.test", " "), Err(RelayError::EmptyPathSegment));
    assert_eq!(build_url("https://relay.example.test", &vec!["v1".to_owned()]).unwrap(), "https://relay.example.test/v1");
}

#[test]
fn relay_backoff_doubles_up_to_the_ceiling() {
    let max = Duration::from_secs(30);
    assert_eq!(next_backoff(Duration::from_millis(250), max), Duration::from_millis(500));
    assert_eq!(next_backoff(Duration::from_secs(20), max), max);
    assert_eq!(next_backoff(max, max), max);
}

#[test]
fn relay_jitter_adds_up_to_a_tenth() {
    let base = Duration::from_millis(250);
    assert_eq!(jittered_delay_with_seed(base, 0), Duration::from_millis(250));
    assert_eq!(jittered_delay_with_seed(base, 7), Duration::from_millis(257));
    assert_eq!(jittered_delay_with_seed(base, 25), Duration::from_millis(275));
    assert_eq!(jittered_delay_with_seed(base, 26), Duration::from_millis(250));
    assert_eq!(jittered_delay_with_seed(Duration::from_millis(5), 1), Duration::from_millis(6));
    assert_eq!(jittered_delay_with_seed(Duration::from_nanos(999_999), 9), Duration::from_nanos(999_999));
    let d = jittered_delay(base);
    assert!(Duration::from_millis(250).as_nanos() <= d.as_nanos() && d.as_nanos() <= Duration::from_millis(275).as_nanos());
}

fn worker() -> PublishWorker {
    PublishWorker::new("default", Duration::from_millis(200), Duration::from_secs(1))
}

fn retryable() -> WorkerEvent {
    WorkerEvent::Outcome(PublishOutcome::Retryable { reason: "relay returned HTTP 429 Too Many Requests".to_owned() })
}

#[test]
fn relay_worker_retries_429_and_new_payload_supersedes_pending_retry() {
    let mut w = worker();
    assert_eq!(w.step(WorkerEvent::Payload(payload("First"))), WorkerAction::Publish);
    let wait = w.step(retryable());
    assert!(matches!(wait, WorkerAction::AwaitRetry(_)));
    assert_eq!(w.step(WorkerEvent::Payload(payload("Second"))), WorkerAction::Publish);
    assert_eq!(w.current().unwrap().title, "Second");
    assert_eq!(w.backoff(), Duration::from_millis(200));
    assert_eq!(w.step(WorkerEvent::Outcome(PublishOutcome::Accepted { seq: 2 })), WorkerAction::AwaitPayload);
    assert!(w.current().is_none());
}

#[test]
fn relay_worker_retries_429_until_payload_is_accepted() {
    let mut w = worker();
    w.step(WorkerEvent::Payload(payload("Retry Me")));
    for expected in [400_u64, 800, 1000, 1000] {
        assert!(matches!(w.step(retryable()), WorkerAction::AwaitRetry(_)));
        assert_eq!(w.step(WorkerEvent::RetryTimeout), WorkerAction::Publish);
        assert_eq!(w.current().unwrap().title, "Retry Me");
        assert_eq!(w.backoff(), Duration::from_millis(expected));
    }
    assert_eq!(w.step(WorkerEvent::Outcome(PublishOutcome::Accepted { seq: 9 })), WorkerAction::AwaitPayload);
}

#[test]
fn relay_worker_stops_after_fatal_so_the_process_cannot_publish_silently() {
    let mut w = worker();
    w.step(WorkerEvent::Payload(payload("Fatal")));
    let action = w.step(WorkerEvent::Outcome(PublishOutcome::Fatal { reason: "relay returned HTTP 401 Unauthorized".to_owned() }));
    assert_eq!(action, WorkerAction::StopFatal("target default: relay returned HTTP 401 Unauthorized".to_owned()));
    assert!(!w.accepts(&WorkerEvent::Payload(payload("After Fatal"))));
}

#[test]
fn relay_worker_survives_a_dropped_payload() {
    let mut w = worker();
    w.step(WorkerEvent::Payload(payload("Too Large")));
    assert_eq!(
        w.step(WorkerEvent::Outcome(PublishOutcome::Dropped { reason: "relay returned HTTP 413 Payload Too Large".to_owned() })),
        WorkerAction::AwaitPayload
    );
    assert!(w.accepts(&WorkerEvent::Payload(payload("Next Track"))));
    assert_eq!(w.step(WorkerEvent::Payload(payload("Next Track"))), WorkerAction::Publish);
    assert_eq!(w.current().unwrap().title, "Next Track");
}

#[test]
fn relay_worker_invalid_request_drops_the_payload_and_disconnect_stops() {
    let mut w = worker();
    w.step(WorkerEvent::Payload(payload("Bad")));
    assert_eq!(w.step(WorkerEvent::Invalid("relay bearer token is empty".to_owned())), WorkerAction::AwaitPayload);
    assert_eq!(w.step(WorkerEvent::Disconnected), WorkerAction::Stop);
    assert!(!w.accepts(&WorkerEvent::Disconnected));
}

#[test]
fn relay_target_debug_redacts_token() {
    let rendered = target("https://relay.example.test").redacted_debug();

    assert!(rendered.contains("<redacted>"));
    assert!(!rendered.contains("secret-token"));
    assert_eq!(
        rendered,
        "RelayTarget { name: \"default\", endpoint: \"https://relay.example.test\", event_id: \"event-guid\", token: \"<redacted>\" }"
    );
}
