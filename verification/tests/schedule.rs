use musicindex_live_publisher::dropfile::{DropFile, FloatBits, PaymentRoute};
use musicindex_live_publisher::livevalue::{LiveValue, LiveValueDestination, LiveValueModel, LiveValuePayload};
use musicindex_live_publisher::schedule::{next_wakeup, PublishSchedule};
use musicindex_live_publisher::time::{Duration, Instant};
use musicindex_live_publisher::watcher::{DropEvent, DropEventKind, DropFileRead, DropWatcher, FallbackConfig, WatchTarget};

fn delay() -> Duration {
    Duration::from_secs(12)
}

fn target(name: &str, event_guid: &str) -> WatchTarget {
    WatchTarget {
        name: name.to_owned(),
        event_guid: event_guid.to_owned(),
        fallback: FallbackConfig {
            title: "Station".to_owned(),
            image: None,
            value: LiveValue {
                model: LiveValueModel { kind: "lightning".to_owned(), method: "keysend".to_owned(), suggested: None },
                destinations: vec![LiveValueDestination {
                    kind: Some("node".to_owned()),
                    name: Some("Station".to_owned()),
                    address: Some("03station".to_owned()),
                    split: Some("100".to_owned()),
                    custom_key: None,
                    custom_value: None,
                    fee: None,
                }],
            },
        },
    }
}

fn dropfile(target: &str, title: &str, track_guid: &str, split: &str, source: &str) -> DropFile {
    DropFile {
        schema: "musicindex.nowplaying/1".to_owned(),
        target: target.to_owned(),
        artist: "Alice".to_owned(),
        title: title.to_owned(),
        duration_secs: Some(FloatBits { bits: 187.326f64.to_bits() }),
        image: None,
        feed_guid: Some("feed-guid".to_owned()),
        track_guid: Some(track_guid.to_owned()),
        value_routes: vec![PaymentRoute {
            recipient_name: Some("Alice".to_owned()),
            route_type: Some("node".to_owned()),
            split: Some(split.to_owned()),
            fee: Some(false),
            address: Some("03alice".to_owned()),
            custom_key: None,
            custom_value: None,
        }],
        value_routes_source: Some(source.to_owned()),
    }
}

fn track(target: &str, title: &str, track_guid: &str) -> DropFileRead {
    DropFileRead::Parsed(dropfile(target, title, track_guid, "90", "embedded-id3"))
}

fn upsert(path: &str) -> DropEvent {
    DropEvent { kind: DropEventKind::Upsert, path: path.to_owned() }
}

fn remove(path: &str) -> DropEvent {
    DropEvent { kind: DropEventKind::Remove, path: path.to_owned() }
}

fn schedule_for(delays: &[(&str, Duration)]) -> PublishSchedule {
    PublishSchedule::new(delays.iter().map(|(event_guid, delay)| ((*event_guid).to_owned(), *delay)).collect())
}

fn titles(payloads: &[LiveValuePayload]) -> Vec<&str> {
    payloads.iter().map(|payload| payload.title.as_str()).collect()
}

fn block_guids(payloads: &[LiveValuePayload]) -> Vec<&str> {
    payloads.iter().map(|payload| payload.block_guid.as_str()).collect()
}

fn later(t: Instant, d: Duration) -> Instant {
    t.checked_add(d).unwrap()
}

fn earlier_by_a_milli(t: Instant) -> Instant {
    Instant::from_nanos(t.as_nanos() - 1_000_000)
}

/// Drives one drop event through the watcher and into the schedule.
fn feed(watcher: &mut DropWatcher, schedule: &mut PublishSchedule, event: DropEvent, read: DropFileRead, now: Instant) {
    if !watcher.accept_event(&event, now) {
        return;
    }
    let payloads: Vec<LiveValuePayload> = match event.kind {
        DropEventKind::Upsert => watcher.upsert(&event.path, read).into_iter().collect(),
        DropEventKind::Remove => watcher.remove(&event.path),
    };
    for payload in payloads {
        schedule.schedule(payload, now);
    }
}

const PATH: &str = "/drop/default.json";

fn start() -> Instant {
    Instant::from_nanos(1_000_000_000_000)
}

#[test]
fn schedule_zero_delay_releases_on_the_same_tick() {
    let mut watcher = DropWatcher::new(target("default", "event-default"), Duration::zero());
    let mut schedule = schedule_for(&[("event-default", Duration::zero())]);
    let now = start();

    feed(&mut watcher, &mut schedule, upsert(PATH), track("default", "Track One", "track-1"), now);

    let due = schedule.take_due(now);
    assert_eq!(titles(&due), vec!["Track One"]);
    assert!(schedule.is_empty());
    assert_eq!(schedule.next_deadline(), None);
}

#[test]
fn schedule_delayed_payload_is_withheld_until_its_deadline() {
    let mut watcher = DropWatcher::new(target("default", "event-default"), Duration::zero());
    let mut schedule = schedule_for(&[("event-default", delay())]);
    let now = start();

    feed(&mut watcher, &mut schedule, upsert(PATH), track("default", "Track One", "track-1"), now);

    assert!(schedule.take_due(now).is_empty());
    assert!(schedule.take_due(earlier_by_a_milli(later(now, delay()))).is_empty());
    assert_eq!(schedule.next_deadline(), Some(later(now, delay())));

    let due = schedule.take_due(later(now, delay()));
    assert_eq!(titles(&due), vec!["Track One"]);
    assert!(schedule.is_empty());
}

#[test]
fn schedule_removal_fallback_is_delayed_like_the_track() {
    let mut watcher = DropWatcher::new(target("default", "event-default"), Duration::zero());
    let mut schedule = schedule_for(&[("event-default", delay())]);
    let start = start();

    feed(&mut watcher, &mut schedule, upsert(PATH), track("default", "Track One", "track-1"), start);
    assert_eq!(titles(&schedule.take_due(later(start, delay()))), vec!["Track One"]);

    let removed_at = later(start, delay());
    feed(&mut watcher, &mut schedule, remove(PATH), DropFileRead::Skipped, removed_at);

    assert!(schedule.take_due(earlier_by_a_milli(later(removed_at, delay()))).is_empty());
    let due = schedule.take_due(later(removed_at, delay()));
    assert_eq!(titles(&due), vec!["Station"]);
}

#[test]
fn schedule_two_tracks_inside_one_window_both_publish_in_order() {
    let mut watcher = DropWatcher::new(target("default", "event-default"), Duration::zero());
    let mut schedule = schedule_for(&[("event-default", delay())]);
    let start = start();
    let second_at = later(start, Duration::from_secs(4));

    feed(&mut watcher, &mut schedule, upsert(PATH), track("default", "Track One", "track-1"), start);
    feed(&mut watcher, &mut schedule, upsert(PATH), track("default", "Track Two", "track-2"), second_at);

    let first = schedule.take_due(later(start, delay()));
    assert_eq!(titles(&first), vec!["Track One"]);
    assert!(!schedule.is_empty());

    let second = schedule.take_due(later(second_at, delay()));
    assert_eq!(titles(&second), vec!["Track Two"]);
    assert_ne!(block_guids(&first), block_guids(&second));
}

#[test]
fn schedule_route_upgrade_in_the_same_block_publishes_once_on_time() {
    let mut watcher = DropWatcher::new(target("default", "event-default"), Duration::zero());
    let mut schedule = schedule_for(&[("event-default", delay())]);
    let start = start();

    feed(&mut watcher, &mut schedule, upsert(PATH), track("default", "Track One", "track-1"), start);
    let upgraded = DropFileRead::Parsed(dropfile("default", "Track One", "track-1", "95", "musicindex-api"));
    feed(&mut watcher, &mut schedule, upsert(PATH), upgraded, later(start, Duration::from_secs(1)));

    assert_eq!(schedule.next_deadline(), Some(later(start, delay())));
    let due = schedule.take_due(later(start, delay()));
    assert_eq!(due.len(), 1);
    assert_eq!(
        due[0].value.destinations[0].split.as_deref(),
        Some("95"),
        "the released payload should be the upgraded one"
    );
    assert!(schedule.is_empty());
}

#[test]
fn schedule_zero_delay_target_is_not_blocked_by_a_delayed_one() {
    let mut watcher = DropWatcher::new_targets(
        vec![target("slow", "event-slow"), target("fast", "event-fast")],
        Duration::zero(),
    );
    let mut schedule = schedule_for(&[("event-slow", delay()), ("event-fast", Duration::zero())]);
    let now = start();

    feed(&mut watcher, &mut schedule, upsert("/drop/slow.json"), track("slow", "Slow Track", "track-slow"), now);
    feed(&mut watcher, &mut schedule, upsert("/drop/fast.json"), track("fast", "Fast Track", "track-fast"), now);

    let due = schedule.take_due(now);
    assert_eq!(titles(&due), vec!["Fast Track"]);
    assert_eq!(schedule.next_deadline(), Some(later(now, delay())));

    let due = schedule.take_due(later(now, delay()));
    assert_eq!(titles(&due), vec!["Slow Track"]);
}

#[test]
fn schedule_unknown_event_guid_is_not_held() {
    let mut watcher = DropWatcher::new(target("default", "event-unconfigured"), Duration::zero());
    let mut schedule = schedule_for(&[("event-other", delay())]);
    let now = start();

    feed(&mut watcher, &mut schedule, upsert(PATH), track("default", "Track One", "track-1"), now);

    let due = schedule.take_due(now);
    assert_eq!(titles(&due), vec!["Track One"]);
}

#[test]
fn schedule_take_due_on_an_empty_queue_is_empty() {
    let mut schedule = schedule_for(&[("event-default", delay())]);
    assert!(schedule.take_due(start()).is_empty());
    assert_eq!(schedule.next_deadline(), None);
    assert!(schedule.is_empty());
}

#[test]
fn schedule_holds_nothing_that_the_watcher_did_not_emit() {
    let mut watcher = DropWatcher::new(target("default", "event-default"), Duration::zero());
    let mut schedule = schedule_for(&[("event-default", delay())]);
    let now = start();

    feed(&mut watcher, &mut schedule, upsert(PATH), DropFileRead::Skipped, now);

    assert!(schedule.is_empty());
    assert!(
        schedule.take_due(later(now, delay())).is_empty(),
        "a malformed drop file must not publish anything, delayed or otherwise"
    );
}

#[test]
fn schedule_unknown_event_guid_is_released_immediately() {
    let schedule = schedule_for(&[("event-default", delay())]);
    assert_eq!(schedule.delay_for("event-unknown"), Duration::zero());
    assert_eq!(schedule.delay_for("event-default"), delay());
}

#[test]
fn schedule_next_deadline_is_none_when_empty() {
    let schedule = schedule_for(&[]);
    assert_eq!(schedule.next_deadline(), None);
    assert_eq!(next_wakeup(&schedule, start()), Duration::from_secs(1));
}

#[test]
fn schedule_next_deadline_is_the_earliest_of_several() {
    let mut watcher = DropWatcher::new_targets(
        vec![target("slow", "event-slow"), target("mid", "event-mid")],
        Duration::zero(),
    );
    let mut schedule = schedule_for(&[("event-slow", Duration::from_secs(20)), ("event-mid", Duration::from_secs(5))]);
    let now = start();
    feed(&mut watcher, &mut schedule, upsert("/drop/slow.json"), track("slow", "Slow", "s"), now);
    feed(&mut watcher, &mut schedule, upsert("/drop/mid.json"), track("mid", "Mid", "m"), now);
    assert_eq!(schedule.next_deadline(), Some(later(now, Duration::from_secs(5))));
}

#[test]
fn schedule_wakeup_is_capped_by_the_health_check_interval() {
    let mut watcher = DropWatcher::new(target("default", "event-default"), Duration::zero());
    let mut schedule = schedule_for(&[("event-default", delay())]);
    let now = start();
    feed(&mut watcher, &mut schedule, upsert(PATH), track("default", "Track One", "track-1"), now);
    assert_eq!(next_wakeup(&schedule, now), Duration::from_secs(1));
    let near = Instant::from_nanos(later(now, delay()).as_nanos() - 250_000_000);
    assert_eq!(next_wakeup(&schedule, near), Duration::from_millis(250));
    assert_eq!(next_wakeup(&schedule, later(now, Duration::from_secs(30))), Duration::zero());
}

#[test]
fn schedule_last_delay_wins_for_a_repeated_event_guid() {
    let schedule = schedule_for(&[("event-default", delay()), ("event-default", Duration::from_secs(3))]);
    assert_eq!(schedule.delay_for("event-default"), Duration::from_secs(3));
}
