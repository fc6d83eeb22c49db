use musicindex_live_publisher::text::{char_is_control, char_is_whitespace};
use musicindex_live_publisher::now_playing::classify::is_v4v_track;
use musicindex_live_publisher::paths::path_components_of;
use musicindex_live_publisher::now_playing::expiry::{expire_metadata_at, record_expired_removal, Expiry};
use musicindex_live_publisher::now_playing::history::{percent_encode_path, sqlite_uri, HistoryGate, TrackRow};
use musicindex_live_publisher::now_playing::musicindex::{
    after_feed_fetch, after_track_fetch, apply_resolution_to_tags, cache_key, first_lookup_step, result_matches_current,
    route_fetch_outcome, route_lookup_url, route_request_status, sanitize_api_path_segment, FetchOutcome, LookupStep, ResolvedRouteResult,
    RouteRequest, RouteRequestStatus, RouteResolution, RouteUrlError, ValueRoutesSource,
};
use musicindex_live_publisher::dropfile::{FloatBits, PaymentRoute};
use musicindex_live_publisher::livevalue::payload_from_dropfile;
use musicindex_live_publisher::now_playing::render::{
    metadata_drop_file, render_metadata_text, render_metadata_text_with_routes, render_now_playing_line, TrackDisplay,
};
use musicindex_live_publisher::now_playing::runtime::{
    now_playing_action, track_action, MixxxLiveness, RuntimeState, TrackAction,
};
use musicindex_live_publisher::now_playing::settings::{
    default_output_dir, expand_home, musicindex_endpoint, normalize_musicindex_endpoint, resolve_output_paths,
    v4v_root_candidate, SettingsError,
};
use musicindex_live_publisher::now_playing::sink::{OutputFile, Presence, SinkAction};
use musicindex_live_publisher::now_playing::tags::{
    canonical_musicindex_key, collect_tag_item, is_transcript_key, nonzero_duration, render_item_value, ItemValue,
    TagText, TrackTags,
};
use musicindex_live_publisher::time::{Duration, Instant};

fn plus(t: Instant, d: Duration) -> Instant {
    t.checked_add(d).unwrap()
}

fn now() -> Instant {
    Instant::from_nanos(3_600_000_000_000)
}

#[test]
fn expiry_adds_slack_to_track_duration() {
    let started_at = now();
    let expiry = Expiry::duration(
        started_at,
        Some(Duration::from_secs(180)),
        Duration::from_secs(5),
        Duration::from_secs(600),
    );

    assert_eq!(expiry.deadline(), started_at.checked_add(Duration::from_secs(185)));
    assert!(!expiry.expired_at(plus(started_at, Duration::from_secs(184))));
    assert!(expiry.expired_at(plus(started_at, Duration::from_secs(185))));
}

#[test]
fn expiry_none_never_expires() {
    let started_at = now();
    let expiry = Expiry::none();

    assert_eq!(expiry.deadline(), None);
    assert!(!expiry.expired_at(plus(started_at, Duration::from_secs(60 * 60))));
}

#[test]
fn expiry_uses_fallback_without_duration() {
    let started_at = now();
    let expiry = Expiry::duration(started_at, None, Duration::from_secs(5), Duration::from_secs(600));

    assert_eq!(expiry.deadline(), started_at.checked_add(Duration::from_secs(600)));
}

#[test]
fn expiry_rearm_replaces_old_deadline() {
    let started_at = now();
    let old = Expiry::duration(
        started_at,
        Some(Duration::from_secs(180)),
        Duration::from_secs(5),
        Duration::from_secs(600),
    );
    let new_started_at = plus(started_at, Duration::from_secs(30));
    let new = Expiry::duration(
        new_started_at,
        Some(Duration::from_secs(240)),
        Duration::from_secs(5),
        Duration::from_secs(600),
    );

    assert!(old.expired_at(plus(started_at, Duration::from_secs(185))));
    assert!(!new.expired_at(plus(started_at, Duration::from_secs(185))));
    assert_eq!(new.deadline(), started_at.checked_add(Duration::from_secs(275)));
}

#[test]
fn expiry_removes_metadata_after_deadline_without_new_track() {
    let mut metadata = OutputFile::new("/run/np/metadata.txt");
    let written = metadata.set(Presence::Present("metadata".to_string()));
    assert_eq!(
        written,
        SinkAction::Write { path: "/run/np/metadata.txt".to_owned(), content: "metadata".to_owned() }
    );
    metadata.record(written);

    let started_at = now();
    let mut expiry = Expiry::duration(
        started_at,
        Some(Duration::from_millis(50)),
        Duration::from_millis(10),
        Duration::from_secs(600),
    );

    assert_eq!(expire_metadata_at(&expiry, &metadata, plus(started_at, Duration::from_millis(59))), None);
    let removal = expire_metadata_at(&expiry, &metadata, plus(started_at, Duration::from_millis(60)));
    assert_eq!(removal, Some(SinkAction::Remove { path: "/run/np/metadata.txt".to_owned() }));
    // Until the removal is recorded as done, nothing changes: a failed
    // removal is asked for again.
    assert!(expiry.deadline().is_some());
    assert_eq!(
        expire_metadata_at(&expiry, &metadata, plus(started_at, Duration::from_millis(61))),
        Some(SinkAction::Remove { path: "/run/np/metadata.txt".to_owned() })
    );
    record_expired_removal(&mut expiry, &mut metadata, removal.unwrap());
    assert_eq!(expiry.deadline(), None);
    assert_eq!(expire_metadata_at(&expiry, &metadata, plus(started_at, Duration::from_millis(62))), None);
    assert!(matches!(metadata.set(Presence::Present("metadata".to_owned())), SinkAction::Write { .. }));
}

#[test]
fn expiry_past_the_end_of_the_clock_is_never() {
    let expiry = Expiry::duration(Instant::from_nanos(u128::MAX - 5), None, Duration::zero(), Duration::from_secs(1));
    assert_eq!(expiry.deadline(), None);
}

#[test]
fn sink_writes_removes_and_ignores_redundant_content() {
    let mut output = OutputFile::new("/run/np/metadata.txt");
    let written = output.set(Presence::Present("one".to_string()));
    assert!(matches!(written, SinkAction::Write { .. }));
    output.record(written);
    assert_eq!(output.set(Presence::Present("one".to_string())), SinkAction::Keep);
    let removed = output.set(Presence::Absent);
    assert_eq!(removed, SinkAction::Remove { path: "/run/np/metadata.txt".to_owned() });
    output.record(removed);
    assert_eq!(output.set(Presence::Absent), SinkAction::Remove { path: "/run/np/metadata.txt".to_owned() });
    assert!(matches!(output.set(Presence::Present("one".to_string())), SinkAction::Write { .. }))
}

#[test]
fn render_now_playing_line_preserves_shell_quirk() {
    assert_eq!(render_now_playing_line("Test-Artist", "Test-Title", true), "TestArtist - TestTitle");
    assert_eq!(render_now_playing_line("Test-Artist", "Test-Title", false), "Test-Artist - Test-Title");
}

#[test]
fn render_now_playing_line_turns_every_bar_into_a_dash() {
    assert_eq!(render_now_playing_line("AC|DC", "T.N.T.", true), "AC - DC - T.N.T.");
}

#[test]
fn render_metadata_text_includes_musicindex_then_tags() {
    let tags = TrackTags {
        musicindex: vec![
            TagText::new("Feed Guid", "feed-guid"),
            TagText::new("Value Routes", r#"[{"recipient_name":"Alice","route_type":"node","split":90}]"#),
        ],
        tags: vec![TagText::new("TIT2", "Test Title")],
        duration: None,
    };

    let rendered = render_metadata_text(TrackDisplay { artist: "Artist", title: "Title", tags: &tags });

    assert_eq!(
        rendered,
        [
            "Artist - Title\n\n",
            "[MusicIndex]\n",
            "Feed Guid    = feed-guid\n",
            "Value Routes = embedded-id3\n",
            r#"[{"recipient_name":"Alice","route_type":"node","split":90}]"#,
            "\n\n",
            "[Tags]\n",
            "TIT2 = Test Title\n",
        ]
        .concat()
    );
}

#[test]
fn render_metadata_text_omits_empty_sections() {
    let tags = TrackTags::default();
    let rendered = render_metadata_text(TrackDisplay { artist: "Artist", title: "Title", tags: &tags });
    assert_eq!(rendered, "Artist - Title\n\n");
}

#[test]
fn render_metadata_text_can_mark_api_value_routes() {
    let tags = TrackTags { musicindex: vec![TagText::new("Value Routes", "[]")], tags: Vec::new(), duration: None };
    let rendered = render_metadata_text_with_routes(
        TrackDisplay { artist: "Artist", title: "Title", tags: &tags },
        ValueRoutesSource::MusicIndexApi,
    );
    assert!(rendered.contains("Value Routes = musicindex-api\n[]\n"));
}

#[test]
fn render_pads_keys_by_their_byte_width() {
    let tags = TrackTags {
        musicindex: Vec::new(),
        tags: vec![TagText::new("é", "1"), TagText::new("ab", "2")],
        duration: None,
    };
    let rendered = render_metadata_text(TrackDisplay { artist: "A", title: "T", tags: &tags });
    assert_eq!(rendered, "A - T\n\n[Tags]\né  = 1\nab = 2\n");
}

#[test]
fn musicindex_result_match_checks_hist_id() {
    let result = ResolvedRouteResult { hist_id: 10, resolution: RouteResolution::api("[]".to_string()) };

    assert!(result_matches_current(&result, 10));
    assert!(!result_matches_current(&result, 11));
}

#[test]
fn musicindex_extracts_route_request_from_tags() {
    let tags = TrackTags {
        musicindex: vec![
            TagText::new("Track Guid", "track-guid"),
            TagText::new("Feed Guid", "feed-guid"),
            TagText::new("Value Routes", "[]"),
        ],
        tags: Vec::new(),
        duration: None,
    };

    let request = RouteRequest::from_tags(&tags);

    assert_eq!(request.track_guid.as_deref(), Some("track-guid"));
    assert_eq!(request.feed_guid.as_deref(), Some("feed-guid"));
    assert_eq!(request.embedded_routes_json.as_deref(), Some("[]"));
}

#[test]
fn musicindex_applies_absent_routes_by_removing_value_routes() {
    let tags = TrackTags { musicindex: vec![TagText::new("Value Routes", "[]")], tags: Vec::new(), duration: None };
    let resolution = RouteResolution { source: ValueRoutesSource::EmbeddedId3, routes_json: None };

    let tags = apply_resolution_to_tags(&tags, &resolution);

    assert!(tags.musicindex_value("Value Routes").is_none());
}

#[test]
fn musicindex_applies_api_routes_in_place() {
    let tags = TrackTags {
        musicindex: vec![TagText::new("Value Routes", "[old]"), TagText::new("Feed Guid", "f")],
        tags: Vec::new(),
        duration: None,
    };
    let updated = apply_resolution_to_tags(&tags, &RouteResolution::api("[new]".to_owned()));
    assert_eq!(updated.musicindex[0], TagText::new("Value Routes", "[new]"));
    assert_eq!(updated.musicindex.len(), 2);
    let none = TrackTags { musicindex: Vec::new(), tags: Vec::new(), duration: None };
    let added = apply_resolution_to_tags(&none, &RouteResolution::api("[new]".to_owned()));
    assert_eq!(added.musicindex_value("Value Routes"), Some("[new]"));
}

fn request(track: Option<&str>, feed: Option<&str>) -> RouteRequest {
    RouteRequest {
        track_guid: track.map(str::to_owned),
        feed_guid: feed.map(str::to_owned),
        embedded_routes_json: Some("[embedded]".to_owned()),
    }
}

fn embedded() -> RouteResolution {
    RouteResolution { source: ValueRoutesSource::EmbeddedId3, routes_json: Some("[embedded]".to_owned()) }
}

#[test]
fn musicindex_api_track_routes_are_authoritative() {
    let req = request(Some("track-1"), Some("feed-1"));
    assert_eq!(first_lookup_step(&req), LookupStep::FetchTrack("track-1".to_owned()));
    assert_eq!(
        after_track_fetch(&req, FetchOutcome::Found("[api]".to_owned())),
        LookupStep::Finish(RouteResolution::api("[api]".to_owned()))
    );
}

#[test]
fn musicindex_track_404_falls_back_to_feed_lookup() {
    let req = request(Some("track-1"), Some("feed-1"));
    assert_eq!(after_track_fetch(&req, FetchOutcome::NotFound), LookupStep::FetchFeed("feed-1".to_owned()));
    assert_eq!(after_feed_fetch(&req, FetchOutcome::Found("[feed]".to_owned())), RouteResolution::api("[feed]".to_owned()));
    assert_eq!(after_feed_fetch(&req, FetchOutcome::NotFound), embedded());
}

#[test]
fn musicindex_unreachable_api_falls_back_to_embedded_without_waiting_for_timeout() {
    let req = request(Some("track-1"), Some("feed-1"));
    assert_eq!(after_track_fetch(&req, FetchOutcome::Failed), LookupStep::Finish(embedded()));
}

#[test]
fn musicindex_no_embedded_frame_and_no_api_routes_omits_value_routes_line() {
    let req = RouteRequest { track_guid: Some("t".to_owned()), feed_guid: None, embedded_routes_json: None };
    let step = after_track_fetch(&req, FetchOutcome::NotFound);
    let LookupStep::Finish(resolution) = step else { panic!("expected a finished lookup") };
    assert_eq!(resolution.routes_json, None);
    let tags = TrackTags { musicindex: vec![TagText::new("Value Routes", " ")], tags: Vec::new(), duration: None };
    let updated = apply_resolution_to_tags(&tags, &resolution);
    let rendered = render_metadata_text(TrackDisplay { artist: "A", title: "T", tags: &updated });
    assert!(!rendered.contains("Value Routes"));
}

#[test]
fn musicindex_empty_or_missing_api_routes_are_not_rendered_as_authoritative() {
    let req = request(None, Some("feed-1"));
    assert_eq!(first_lookup_step(&req), LookupStep::FetchFeed("feed-1".to_owned()));
    let resolution = after_feed_fetch(&req, FetchOutcome::Failed);
    assert_eq!(resolution.source, ValueRoutesSource::EmbeddedId3);
}

#[test]
fn musicindex_repeat_track_uses_cache_without_second_api_request() {
    let req = request(Some("track-1"), None);
    let api = RouteResolution::api("[api]".to_owned());
    assert_eq!(cache_key(&req, &api), Some("track-1".to_owned()));
    assert_eq!(cache_key(&req, &embedded()), None);
    assert_eq!(
        route_request_status(true, 42, &req, Some(api.clone())),
        RouteRequestStatus::Cached(ResolvedRouteResult { hist_id: 42, resolution: api })
    );
    assert_eq!(route_request_status(true, 42, &req, None), RouteRequestStatus::Spawned);
    assert_eq!(route_request_status(false, 42, &req, None), RouteRequestStatus::Disabled);
    let keyless = RouteRequest { track_guid: None, feed_guid: None, embedded_routes_json: None };
    assert_eq!(route_request_status(true, 42, &keyless, None), RouteRequestStatus::NoLookupKey);
    assert_eq!(first_lookup_step(&keyless), LookupStep::Finish(RouteResolution { source: ValueRoutesSource::EmbeddedId3, routes_json: None }));
}

#[test]
fn musicindex_path_segments_are_sanitized() {
    assert_eq!(sanitize_api_path_segment("  a\\b\u{0}c  d "), Some("a b c d".to_owned()));
    assert_eq!(sanitize_api_path_segment(" \t\n"), None);
    assert_eq!(ValueRoutesSource::EmbeddedId3.as_str(), "embedded-id3");
    assert_eq!(ValueRoutesSource::MusicIndexApi.as_str(), "musicindex-api");
}

#[test]
fn musicindex_late_result_for_superseded_history_is_not_written() {
    let mut state = RuntimeState::new();
    let mut metadata = OutputFile::new("/run/np/metadata.txt");
    let row = TrackRow { hist_id: 2, artist: "A".to_owned(), title: "T".to_owned(), path: "/music/t.mp3".to_owned() };
    let tags = TrackTags { musicindex: vec![TagText::new("Track Guid", "g")], tags: Vec::new(), duration: None };
    let written = metadata.set(Presence::Present("content".to_owned()));
    state.publish_track(&mut metadata, &row, tags, written, Expiry::none());
    let late = ResolvedRouteResult { hist_id: 1, resolution: RouteResolution::api("[api]".to_owned()) };
    assert!(state.route_update(&late).is_none());
    let current = ResolvedRouteResult { hist_id: 2, resolution: RouteResolution::api("[api]".to_owned()) };
    let updated = state.route_update(&current).expect("the current track takes API routes");
    assert_eq!(updated.musicindex_value("Value Routes"), Some("[api]"));
    assert!(!state.pending_route_lookup);
    let action = metadata.set(Presence::Present("content with routes".to_owned()));
    assert!(matches!(action, SinkAction::Write { .. }));
    state.publish_routes(&mut metadata, updated, action);
    assert_eq!(state.current.as_ref().unwrap().tags.musicindex_value("Value Routes"), Some("[api]"));
}

#[test]
fn lifecycle_toggles_metadata_presence_for_v4v_and_non_v4v_tracks() {
    let mut state = RuntimeState::new();
    let mut now_playing = OutputFile::new("/run/np/now-playing.txt");
    let mut metadata = OutputFile::new("/run/np/metadata.txt");
    let row = TrackRow { hist_id: 1, artist: "Test-Artist".to_owned(), title: "Test-Title".to_owned(), path: "/m/a.mp3".to_owned() };
    let line = now_playing_action(&now_playing, &row, true);
    assert_eq!(
        line,
        SinkAction::Write { path: "/run/np/now-playing.txt".to_owned(), content: "TestArtist - TestTitle".to_owned() }
    );
    now_playing.record(line);
    assert_eq!(now_playing_action(&now_playing, &row, true), SinkAction::Keep);
    let action = metadata.set(Presence::Present("meta".to_owned()));
    assert!(matches!(action, SinkAction::Write { .. }));
    state.publish_track(&mut metadata, &row, TrackTags::default(), action, Expiry::none());
    assert!(state.current.is_some());
    let removed = metadata.set(Presence::Absent);
    assert_eq!(removed, SinkAction::Remove { path: "/run/np/metadata.txt".to_owned() });
    state.withdraw(&mut metadata, removed);
    assert!(state.current.is_none());
    assert!(matches!(metadata.set(Presence::Present("meta".to_owned())), SinkAction::Write { .. }));
}

#[test]
fn lifecycle_expiry_withdraws_metadata() {
    let mut state = RuntimeState::new();
    let mut metadata = OutputFile::new("/run/np/metadata.txt");
    let row = TrackRow { hist_id: 1, artist: "A".to_owned(), title: "T".to_owned(), path: "/m/a.mp3".to_owned() };
    let start = now();
    let expiry = Expiry::duration(start, Some(Duration::from_secs(10)), Duration::from_secs(5), Duration::from_secs(600));
    let written = metadata.set(Presence::Present("meta".to_owned()));
    state.publish_track(&mut metadata, &row, TrackTags::default(), written, expiry);
    assert_eq!(expire_metadata_at(&state.expiry, &metadata, plus(start, Duration::from_secs(14))), None);
    let removal = expire_metadata_at(&state.expiry, &metadata, plus(start, Duration::from_secs(15)))
        .expect("the metadata has expired");
    state.withdraw(&mut metadata, removal);
    assert!(state.current.is_none());
    assert_eq!(expire_metadata_at(&state.expiry, &metadata, plus(start, Duration::from_secs(16))), None);
}

#[test]
fn liveness_is_rechecked_after_its_interval() {
    let mut liveness = MixxxLiveness::new(Duration::from_secs(1));
    let start = now();
    assert!(liveness.check_due(start));
    liveness.record(start, false);
    assert!(!liveness.answer());
    assert!(!liveness.check_due(plus(start, Duration::from_millis(999))));
    assert!(liveness.check_due(plus(start, Duration::from_secs(1))));
}

#[test]
fn history_repeated_poll_returns_none_until_hist_id_changes() {
    let mut gate = HistoryGate::new();
    let row = |id: i64| TrackRow { hist_id: id, artist: "A".to_owned(), title: "T".to_owned(), path: String::new() };
    assert!(gate.database_changed(Some(7)));
    assert!(gate.observe_row(row(1)).is_some());
    assert!(!gate.database_changed(Some(7)));
    assert!(gate.database_changed(Some(8)));
    assert!(gate.observe_row(row(1)).is_none());
    assert!(gate.observe_row(row(2)).is_some());
    assert!(gate.database_changed(None));
    assert!(gate.database_changed(None));
}

#[test]
fn history_database_uri_is_read_only_and_encoded() {
    assert_eq!(percent_encode_path("/home/dj/.mixxx/mixxxdb.sqlite"), "/home/dj/.mixxx/mixxxdb.sqlite");
    assert_eq!(percent_encode_path("/a b/é?"), "/a%20b/%C3%A9%3F");
    assert_eq!(sqlite_uri("/a b/db"), "file:/a%20b/db?mode=ro");
}

#[test]
fn config_expands_home_in_paths() {
    assert_eq!(expand_home("~/V4Vmusic", "/home/dj").unwrap(), "/home/dj/V4Vmusic");
    assert_eq!(expand_home(" ~ ", "/home/dj").unwrap(), "/home/dj");
    assert_eq!(expand_home("/srv/music", "/home/dj").unwrap(), "/srv/music");
    assert_eq!(expand_home("  ", "/home/dj"), Err(SettingsError::EmptyPath));
}

#[test]
fn config_resolves_runtime_path_defaults_and_home_overrides() {
    let paths = resolve_output_paths(
        &Some("~/mixxx.sqlite".to_owned()),
        &Some("~/now-playing.txt".to_owned()),
        &Some("~/metadata.txt".to_owned()),
        &Some("/run/user/1000".to_owned()),
        "/home/dj",
    );
    assert_eq!(paths.db_file, "/home/dj/mixxx.sqlite");
    assert_eq!(paths.txt_file, "/home/dj/now-playing.txt");
    assert_eq!(paths.id3_file, "/home/dj/metadata.txt");
}

#[test]
fn config_uses_runtime_dir_for_default_outputs() {
    let paths = resolve_output_paths(&None, &None, &None, &Some("/run/user/1000".to_owned()), "/home/dj");
    assert_eq!(paths.db_file, "/home/dj/.mixxx/mixxxdb.sqlite");
    assert_eq!(paths.txt_file, "/run/user/1000/musicindex-live-publisher/mixxx/nowplaying/now-playing.txt");
    assert_eq!(paths.id3_file, "/run/user/1000/musicindex-live-publisher/mixxx/nowplaying/metadata.txt");
}

#[test]
fn config_uses_home_cache_for_default_outputs_without_runtime_dir() {
    assert_eq!(default_output_dir(&None, "/home/dj"), "/home/dj/.cache/musicindex-live-publisher/mixxx/nowplaying");
}

#[test]
fn config_v4v_root_prefers_flag() {
    let root = v4v_root_candidate(&Some("/flag".to_owned()), &Some("/env".to_owned()), &Some("/config".to_owned()), "/home/dj");
    assert_eq!(root.unwrap(), "/flag");
}

#[test]
fn config_v4v_root_prefers_env_over_config() {
    let root = v4v_root_candidate(&None, &Some("/env".to_owned()), &Some("/config".to_owned()), "/home/dj");
    assert_eq!(root.unwrap(), "/env");
}

#[test]
fn config_v4v_root_uses_config_when_no_override() {
    let root = v4v_root_candidate(&None, &None, &Some("~/config-root".to_owned()), "/home/dj");
    assert_eq!(root.unwrap(), "/home/dj/config-root");
    assert_eq!(normalize_musicindex_endpoint("music.example.test/").unwrap(), "https://music.example.test");
}

#[test]
fn config_v4v_root_uses_default_when_unconfigured() {
    assert_eq!(v4v_root_candidate(&None, &None, &None, "/home/dj").unwrap(), "/home/dj/V4Vmusic");
    assert_eq!(musicindex_endpoint(&None).unwrap(), "https://api.musicindex.org");
}

#[test]
fn config_endpoints_are_checked() {
    assert_eq!(normalize_musicindex_endpoint(" http://localhost:8080/// ").unwrap(), "http://localhost:8080");
    assert_eq!(normalize_musicindex_endpoint(" / "), Err(SettingsError::EmptyEndpoint));
    assert_eq!(
        normalize_musicindex_endpoint("ftp://example.test"),
        Err(SettingsError::UnsupportedScheme { scheme: "ftp".to_owned() })
    );
    assert_eq!(
        SettingsError::UnsupportedScheme { scheme: "ftp".to_owned() }.message(),
        "unsupported musicindex_endpoint scheme: ftp"
    );
}

#[test]
fn tags_normalizes_musicindex_keys() {
    assert_eq!(canonical_musicindex_key("MusicIndex Feed Guid"), Some("Feed Guid"));
    assert_eq!(canonical_musicindex_key("MUSICINDEX   FEED   GUID"), Some("Feed Guid"));
    assert_eq!(canonical_musicindex_key("MusicIndex Value Routes"), Some("Value Routes"));
    assert_eq!(canonical_musicindex_key("WOAR"), Some("Website"));
    assert_eq!(canonical_musicindex_key("TIT2"), None);
}

#[test]
fn tags_identifies_transcript_keys() {
    assert!(is_transcript_key("USLT"));
    assert!(is_transcript_key("SYLT:MusicIndex Transcript"));
    assert!(is_transcript_key("MusicIndex Transcript"));
    assert!(!is_transcript_key("MusicIndex Description"));
}

#[test]
fn tags_summarizes_binary_payload_keys() {
    let binary = ItemValue::Binary(vec![0, 1, 2, 3]);
    assert_eq!(render_item_value("PRIV", &binary), "4 bytes");
    assert_eq!(render_item_value("UFID", &binary), "4 bytes");
    assert_eq!(render_item_value("APIC", &binary), "4 bytes");
    assert_eq!(render_item_value("PRIV", &ItemValue::Text("héllo".to_owned())), "PRIV text, 6 bytes");
    assert_eq!(render_item_value("UFID", &ItemValue::Text(String::new())), "0 bytes");
    assert_eq!(render_item_value("TIT2", &ItemValue::Text("Title".to_owned())), "Title");
    assert_eq!(render_item_value("TXXX", &ItemValue::Binary(vec![1])), "1 bytes");
}

#[test]
fn tags_transcript_fields_are_excluded() {
    let mut tags = TrackTags::default();
    collect_tag_item(&mut tags, "USLT".to_owned(), &ItemValue::Text("la la".to_owned()));
    collect_tag_item(&mut tags, "MusicIndex Feed Guid".to_owned(), &ItemValue::Text("feed".to_owned()));
    collect_tag_item(&mut tags, "TIT2".to_owned(), &ItemValue::Text("Title".to_owned()));
    assert_eq!(tags.musicindex, vec![TagText::new("Feed Guid", "feed")]);
    assert_eq!(tags.tags, vec![TagText::new("TIT2", "Title")]);
}

#[test]
fn tags_unknown_non_transcript_keys_pass_through() {
    let mut tags = TrackTags::default();
    collect_tag_item(&mut tags, "CUSTOM KEY".to_owned(), &ItemValue::Locator("https://x".to_owned()));
    assert_eq!(tags.tags, vec![TagText::new("CUSTOM KEY", "https://x")]);
    assert_eq!(nonzero_duration(Duration::zero()), None);
    assert_eq!(nonzero_duration(Duration::from_secs(3)), Some(Duration::from_secs(3)));
}

#[test]
fn tags_set_and_remove_musicindex_values() {
    let mut tags = TrackTags::default();
    tags.set_musicindex_value("Value Routes", "[1]".to_owned());
    tags.set_musicindex_value("Value Routes", "[2]".to_owned());
    assert_eq!(tags.musicindex, vec![TagText::new("Value Routes", "[2]")]);
    tags.musicindex.push(TagText::new("Value Routes", "[3]"));
    tags.remove_musicindex_value("Value Routes");
    assert!(tags.musicindex.is_empty());
}

#[test]
fn classify_accepts_tracks_under_canonical_v4v_root() {
    let track = Some("/home/dj/V4Vmusic/album/track.flac".to_owned());
    assert!(is_v4v_track(&track, "/home/dj/V4Vmusic"));
    assert!(is_v4v_track(&track, "/home/dj/V4Vmusic/"));
    assert!(is_v4v_track(&track, "/home//dj/./V4Vmusic"));
    assert!(is_v4v_track(&track, "/"));
}

#[test]
fn classify_rejects_tracks_outside_root_or_missing_paths() {
    let track = Some("/home/dj/V4Vmusic2/track.flac".to_owned());
    assert!(!is_v4v_track(&track, "/home/dj/V4Vmusic"));
    assert!(!is_v4v_track(&Some("/home/dj".to_owned()), "/home/dj/V4Vmusic"));
    assert!(!is_v4v_track(&Some("home/dj/V4Vmusic/a.flac".to_owned()), "/home/dj/V4Vmusic"));
    assert!(!is_v4v_track(&None, "/home/dj/V4Vmusic"));
}

#[test]
fn classify_path_components_follow_unix_rules() {
    assert_eq!(path_components_of("/a//b/./c/"), vec!["/", "a", "b", "c"]);
    assert_eq!(path_components_of("./a/../b"), vec![".", "a", "..", "b"]);
    assert_eq!(path_components_of("a"), vec!["a"]);
    assert_eq!(path_components_of(""), Vec::<String>::new());
    assert_eq!(path_components_of("."), vec!["."]);
}

#[test]
fn musicindex_route_lookup_url_appends_the_sanitized_guid() {
    assert_eq!(
        route_lookup_url("https://api.musicindex.org/", "tracks", "  track\tguid  "),
        Ok("https://api.musicindex.org/v1/tracks/track%20guid?include=payment_routes".to_owned())
    );
    assert_eq!(
        route_lookup_url("http://localhost:8080", "feeds", "feed-guid"),
        Ok("http://localhost:8080/v1/feeds/feed-guid?include=payment_routes".to_owned())
    );
}

#[test]
fn musicindex_route_lookup_url_refuses_blank_guids_and_bad_bases() {
    assert_eq!(route_lookup_url("https://api.musicindex.org", "tracks", "\\ \u{0}"), Err(RouteUrlError::EmptyGuid));
    assert!(matches!(route_lookup_url("not a url", "tracks", "guid"), Err(RouteUrlError::BaseUrl(_))));
}

#[test]
fn sink_rewrites_content_after_removal() {
    let mut output = OutputFile::new("/run/np/metadata.txt");
    let written = output.set(Presence::Present("one".to_owned()));
    output.record(written);
    let removed = output.set(Presence::Absent);
    assert_eq!(removed, SinkAction::Remove { path: "/run/np/metadata.txt".to_owned() });
    output.record(removed);
    let rewritten = output.set(Presence::Present("one".to_owned()));
    assert_eq!(
        rewritten,
        SinkAction::Write { path: "/run/np/metadata.txt".to_owned(), content: "one".to_owned() }
    );
    output.record(rewritten);
    assert_eq!(output.set(Presence::Present("one".to_owned())), SinkAction::Keep);
}

#[test]
fn sink_failed_write_is_not_recorded() {
    let mut output = OutputFile::new("/run/np/metadata.txt");
    let written = output.set(Presence::Present("one".to_owned()));
    output.record(written);
    // A write of "two" is asked for but never recorded as done: the file is
    // still taken to hold "one", so "two" is asked for again and "one" is
    // kept.
    assert!(matches!(output.set(Presence::Present("two".to_owned())), SinkAction::Write { .. }));
    assert!(matches!(output.set(Presence::Present("two".to_owned())), SinkAction::Write { .. }));
    assert_eq!(output.set(Presence::Present("one".to_owned())), SinkAction::Keep);
}

#[test]
fn render_metadata_json_emits_drop_file_schema() {
    let tags = TrackTags {
        musicindex: vec![
            TagText::new("Feed Guid", "feed-guid"),
            TagText::new("Track Guid", "track-guid"),
            TagText::new(
                "Value Routes",
                r#"[{"recipient_name":"Alice","route_type":"node","address":"03ab","split":90.0,"fee":false,"custom_key":null,"custom_value":null}]"#,
            ),
        ],
        tags: vec![TagText::new("TIT2", "Test Title")],
        duration: Some(Duration::from_millis(187_326)),
    };
    let alice = PaymentRoute {
        recipient_name: Some("Alice".to_owned()),
        route_type: Some("node".to_owned()),
        split: Some("90".to_owned()),
        fee: Some(false),
        address: Some("03ab".to_owned()),
        custom_key: None,
        custom_value: None,
    };
    let duration = Some(FloatBits { bits: 187.326f64.to_bits() });

    let file = metadata_drop_file(
        TrackDisplay { artist: "Artist", title: "Title", tags: &tags },
        "stream-a",
        ValueRoutesSource::MusicIndexApi,
        duration,
        vec![alice.clone()],
    );

    assert_eq!(file.schema, "musicindex.nowplaying/1");
    assert_eq!(file.target, "stream-a");
    assert_eq!(file.artist, "Artist");
    assert_eq!(file.title, "Title");
    assert_eq!(file.duration_secs, duration);
    assert_eq!(file.image, None);
    assert_eq!(file.feed_guid.as_deref(), Some("feed-guid"));
    assert_eq!(file.track_guid.as_deref(), Some("track-guid"));
    assert_eq!(file.value_routes, vec![alice]);
    assert_eq!(file.value_routes[0].recipient_name.as_deref(), Some("Alice"));
    assert_eq!(file.value_routes_source.as_deref(), Some("musicindex-api"));
}

#[test]
fn render_metadata_json_uses_empty_routes_without_source_when_absent() {
    let tags = TrackTags::default();

    let file = metadata_drop_file(
        TrackDisplay { artist: "Artist", title: "Title", tags: &tags },
        "default",
        ValueRoutesSource::EmbeddedId3,
        None,
        Vec::new(),
    );

    assert_eq!(file.target, "default");
    assert!(file.value_routes.is_empty());
    assert_eq!(file.value_routes_source, None);
}

#[test]
fn json_output_parses_as_live_publisher_dropfile_and_transforms() {
    let tags = TrackTags {
        musicindex: vec![
            TagText::new("Feed Guid", "feed-guid"),
            TagText::new("Track Guid", "track-guid"),
            TagText::new(
                "Value Routes",
                r#"[{"recipient_name":"Alice","route_type":"node","address":"03alice","split":90.0,"fee":false,"custom_key":null,"custom_value":null}]"#,
            ),
        ],
        tags: Vec::new(),
        duration: Some(Duration::from_millis(187_326)),
    };
    let alice = PaymentRoute {
        recipient_name: Some("Alice".to_owned()),
        route_type: Some("node".to_owned()),
        split: Some("90".to_owned()),
        fee: Some(false),
        address: Some("03alice".to_owned()),
        custom_key: None,
        custom_value: None,
    };
    let dropfile = metadata_drop_file(
        TrackDisplay { artist: "Alice", title: "Some Track", tags: &tags },
        "default",
        ValueRoutesSource::MusicIndexApi,
        Some(FloatBits { bits: 187.326f64.to_bits() }),
        vec![alice],
    );
    let payload = payload_from_dropfile(&dropfile, "event-guid", "block-guid");

    assert_eq!(dropfile.schema, "musicindex.nowplaying/1");
    assert_eq!(dropfile.target, "default");
    assert_eq!(dropfile.duration_secs, Some(FloatBits { bits: 187.326f64.to_bits() }));
    assert_eq!(payload.title, "Some Track");
    assert_eq!(payload.event_guid, "event-guid");
    assert_eq!(payload.feed_guid.as_deref(), Some("feed-guid"));
    assert_eq!(payload.item_guid.as_deref(), Some("track-guid"));
    assert_eq!(payload.value.destinations.len(), 1);
}

#[test]
fn character_classes_match_std_for_every_char() {
    for c in (0u32..=0x10FFFF).filter_map(char::from_u32) {
        assert_eq!(char_is_whitespace(c), c.is_whitespace(), "{c:?}");
        assert_eq!(char_is_control(c), c.is_control(), "{c:?}");
    }
}

#[test]
fn musicindex_route_answers_are_classified() {
    assert_eq!(route_fetch_outcome(404, None), FetchOutcome::NotFound);
    assert_eq!(route_fetch_outcome(500, None), FetchOutcome::Failed);
    assert_eq!(route_fetch_outcome(200, None), FetchOutcome::Failed);
    assert_eq!(route_fetch_outcome(200, Some((0, "[]".to_owned()))), FetchOutcome::Failed);
    assert_eq!(route_fetch_outcome(200, Some((1, "[{}]".to_owned()))), FetchOutcome::Found("[{}]".to_owned()));
    assert_eq!(route_fetch_outcome(302, Some((1, "[{}]".to_owned()))), FetchOutcome::Failed);
}

#[test]
fn lifecycle_publishes_only_v4v_tracks_with_readable_tags() {
    assert_eq!(track_action(true, true), TrackAction::Publish);
    assert_eq!(track_action(true, false), TrackAction::Withdraw);
    assert_eq!(track_action(false, false), TrackAction::Withdraw);
}
