use musicindex_live_publisher::config::{
    add_target_to_config_text, append_target_config_stanza, remove_target_from_config_text, render_target_config_stanza,
    check_target_names, dead_fallback_reason, resolve_config, resolve_fallback, resolve_target, resolve_token_file_path, split_preserving_newlines,
    table_header_kind, target_stanza_spans, validate_event_id, validate_target_config_edit, validate_target_name,
    CheckedField, ConfigEditError, ConfigError, ConfigOverrides, DestinationField, DestinationSpec, FallbackSpec,
    FallbackValueSpec, SplitCheck, StreamDelaySetting, TableHeaderKind, TargetConfigEdit, TargetSpec,
};
use musicindex_live_publisher::dropfile::{DropFile, PaymentRoute};
use musicindex_live_publisher::livevalue::{LiveValueDestination, LiveValueModel};
use musicindex_live_publisher::time::{Duration, Instant};
use musicindex_live_publisher::watcher::{DropEvent, DropEventKind, DropFileRead, DropWatcher};

#[test]
fn credential_token_path_expands_from_credentials_directory() -> Result<(), ConfigError> {
    let path = resolve_token_file_path(
        "%d/default.token",
        Some("/run/credentials/musicindex-live-publisher.service"),
        None,
    )?;

    assert_eq!(path, "/run/credentials/musicindex-live-publisher.service/default.token");
    Ok(())
}

#[test]
fn credential_token_path_requires_credentials_directory() {
    let error = resolve_token_file_path("%d/default.token", None, None);

    assert!(error.is_err_and(|error| error.message().contains("requires CREDENTIALS_DIRECTORY")));
}

#[test]
fn home_token_path_expands_from_home_directory() -> Result<(), ConfigError> {
    let path = resolve_token_file_path(
        "~/.config/musicindex-live-publisher/tokens/default.token",
        None,
        Some("/home/tester"),
    )?;

    assert_eq!(path, "/home/tester/.config/musicindex-live-publisher/tokens/default.token");
    Ok(())
}

#[test]
fn home_token_path_requires_home_directory() {
    let error = resolve_token_file_path("~/default.token", None, None);

    assert!(error.is_err_and(|error| error.message().contains("requires HOME")));
}

#[test]
fn token_path_credential_needs_a_name() {
    let error = resolve_token_file_path("%d/", Some("/run/credentials/x"), None).unwrap_err();
    assert_eq!(error, ConfigError::CredentialNameRequired { token_file: "%d/".to_owned() });
    assert_eq!(error.message(), "token_file \"%d/\" must name a credential");
}

#[test]
fn token_path_tilde_alone_is_the_home_directory() {
    assert_eq!(resolve_token_file_path("~", None, Some("/home/tester")).unwrap(), "/home/tester/");
    assert_eq!(resolve_token_file_path("/etc/token", Some("/c"), Some("/h")).unwrap(), "/etc/token");
    assert_eq!(resolve_token_file_path("%d//abs.token", Some("/c"), None).unwrap(), "/abs.token");
    assert_eq!(resolve_token_file_path("relative.token", None, None).unwrap(), "relative.token");
}

#[test]
fn target_names_must_be_visible_text() {
    assert_eq!(validate_target_name("  "), Err(ConfigError::EmptyTargetName));
    assert_eq!(
        validate_target_name("late\tnight"),
        Err(ConfigError::ControlCharacters { label: CheckedField::TargetName })
    );
    assert!(validate_target_name("late-night").is_ok());
    assert_eq!(
        ConfigError::ControlCharacters { label: CheckedField::TargetName }.message(),
        "target name must not contain control characters"
    );
}

#[test]
fn event_ids_must_not_be_placeholders() {
    assert_eq!(
        validate_event_id("default", " "),
        Err(ConfigError::EmptyEventId { target: "default".to_owned() })
    );
    for placeholder in ["<event_id>", "the-provisioned-event-guid", "replace-with-anything", "my-provisioned-id"] {
        assert_eq!(
            validate_event_id("default", placeholder),
            Err(ConfigError::PlaceholderEventId { target: "default".to_owned() })
        );
    }
    assert!(validate_event_id("default", " 9f3e-event ").is_ok());
}

fn destination(name: &str, kind: &str, address: &str, split: &str) -> LiveValueDestination {
    LiveValueDestination {
        kind: Some(kind.to_owned()),
        name: Some(name.to_owned()),
        address: Some(address.to_owned()),
        split: Some(split.to_owned()),
        custom_key: None,
        custom_value: None,
        fee: None,
    }
}

fn checked(destination: LiveValueDestination) -> DestinationSpec {
    DestinationSpec { destination, split_check: SplitCheck::FiniteDecimal }
}

fn station_fallback(title: &str) -> FallbackSpec {
    let mut d = destination("Station", "node", "03station", "100");
    d.custom_key = Some("k".to_owned());
    d.custom_value = Some("v".to_owned());
    d.fee = Some(false);
    FallbackSpec { title: Some(title.to_owned()), image: None, model: None, destinations: vec![checked(d)], value: None }
}

fn target_spec(name: &str, event_id: &str, fallback: Option<FallbackSpec>) -> TargetSpec {
    TargetSpec {
        name: name.to_owned(),
        event_id: event_id.to_owned(),
        token_file: format!("/tokens/{name}.token"),
        stream_delay: StreamDelaySetting::Accepted(Duration::zero()),
        fallback,
    }
}

#[test]
fn config_loads_single_target_and_trims_token() -> Result<(), ConfigError> {
    let mut seen = Vec::new();
    let pending = resolve_target(&target_spec("default", "event-default", Some(station_fallback("Default Station"))), &mut seen, None, None)?;
    let target = pending.load_token("secret-token\n\t")?;
    let config = resolve_config("/srv/watch".to_owned(), "https://api.example.test".to_owned(), vec![target], ConfigOverrides::default())?;

    assert_eq!(config.watch_dir, "/srv/watch");
    assert_eq!(config.endpoint, "https://api.example.test");
    assert_eq!(config.targets.len(), 1);
    assert_eq!(config.targets[0].name, "default");
    assert_eq!(config.targets[0].token, "secret-token");
    assert_eq!(config.targets[0].fallback.value.destinations[0].split.as_deref(), Some("100"));
    assert_eq!(config.targets[0].fallback.value.model.kind, "lightning");
    assert_eq!(config.targets[0].fallback.value.model.method, "keysend");
    assert_eq!(config.targets[0].fallback.value.destinations[0].kind.as_deref(), Some("node"));
    Ok(())
}

#[test]
fn config_loads_nested_fallback_value_block() -> Result<(), ConfigError> {
    let mut d = destination("Sharpie", "node", "03a524eb4f2e9f07b4cbb904f265ed21af7e46cebd8dc92eb9682dfd0d54f6349f", "10");
    d.custom_key = Some("696969".to_owned());
    d.custom_value = Some("5".to_owned());
    d.fee = Some(false);
    let fallback = FallbackSpec {
        title: Some("Default Station".to_owned()),
        image: None,
        model: None,
        destinations: Vec::new(),
        value: Some(FallbackValueSpec {
            model: Some(LiveValueModel {
                kind: "lightning".to_owned(),
                method: "keysend".to_owned(),
                suggested: Some("0.0000100000".to_owned()),
            }),
            destinations: vec![checked(d)],
        }),
    };
    let resolved = resolve_fallback("default", &fallback)?;
    let model = &resolved.value.model;
    let destination = &resolved.value.destinations[0];

    assert_eq!(resolved.title, "Default Station");
    assert_eq!(model.kind, "lightning");
    assert_eq!(model.method, "keysend");
    assert_eq!(model.suggested.as_deref(), Some("0.0000100000"));
    assert_eq!(destination.kind.as_deref(), Some("node"));
    assert_eq!(
        destination.address.as_deref(),
        Some("03a524eb4f2e9f07b4cbb904f265ed21af7e46cebd8dc92eb9682dfd0d54f6349f")
    );
    assert_eq!(destination.split.as_deref(), Some("10"));
    assert_eq!(destination.custom_key.as_deref(), Some("696969"));
    assert_eq!(destination.custom_value.as_deref(), Some("5"));
    assert_eq!(destination.fee, Some(false));
    Ok(())
}

fn nested(model: LiveValueModel, d: LiveValueDestination) -> FallbackSpec {
    FallbackSpec {
        title: Some("Station".to_owned()),
        image: None,
        model: None,
        destinations: Vec::new(),
        value: Some(FallbackValueSpec { model: Some(model), destinations: vec![checked(d)] }),
    }
}

fn model(kind: &str, method: &str) -> LiveValueModel {
    LiveValueModel { kind: kind.to_owned(), method: method.to_owned(), suggested: None }
}

#[test]
fn config_accepts_configured_fallback_value_model() -> Result<(), ConfigError> {
    let resolved = resolve_fallback("default", &nested(model("legacy-node", "custom-method"), destination("Station", "node", "03station", "100")))?;
    assert_eq!(resolved.value.model.kind, "legacy-node");
    assert_eq!(resolved.value.model.method, "custom-method");
    Ok(())
}

#[test]
fn config_accepts_lnaddress_fallback_destination() -> Result<(), ConfigError> {
    let resolved = resolve_fallback(
        "default",
        &nested(model("lightning", "lnaddress"), destination("Station", "lnaddress", "station@example.com", "100")),
    )?;
    let destination = &resolved.value.destinations[0];
    assert_eq!(resolved.value.model.method, "lnaddress");
    assert_eq!(destination.kind.as_deref(), Some("lnaddress"));
    assert_eq!(destination.address.as_deref(), Some("station@example.com"));
    Ok(())
}

#[test]
fn config_rejects_empty_fallback_value_model_fields() {
    let error = resolve_fallback("default", &nested(model("", "keysend"), destination("Station", "node", "03station", "100"))).err();
    assert!(error.is_some_and(|error| error.message().contains("fallback value model type must not be empty")));
    let error = resolve_fallback("default", &nested(model("lightning", " "), destination("Station", "node", "03station", "100")));
    assert_eq!(error, Err(ConfigError::FallbackModelMethodEmpty { target: "default".to_owned() }));
}

#[test]
fn config_cli_overrides_watch_dir_and_endpoint() -> Result<(), ConfigError> {
    let mut seen = Vec::new();
    let target = resolve_target(&target_spec("default", "event-default", None), &mut seen, None, None)?.load_token("t")?;
    let config = resolve_config(
        "/srv/watch".to_owned(),
        "https://api.example.test".to_owned(),
        vec![target],
        ConfigOverrides {
            watch_dir: Some("/srv/override".to_owned()),
            endpoint: Some("https://override.example.test".to_owned()),
        },
    )?;
    assert_eq!(config.watch_dir, "/srv/override");
    assert_eq!(config.endpoint, "https://override.example.test");
    Ok(())
}

fn dropfile(target: &str, title: &str) -> DropFile {
    DropFile {
        schema: "musicindex.nowplaying/1".to_owned(),
        target: target.to_owned(),
        artist: "Alice".to_owned(),
        title: title.to_owned(),
        duration_secs: None,
        image: None,
        feed_guid: None,
        track_guid: None,
        value_routes: vec![PaymentRoute {
            recipient_name: Some("Alice".to_owned()),
            route_type: Some("node".to_owned()),
            split: Some("90".to_owned()),
            fee: Some(false),
            address: Some("03alice".to_owned()),
            custom_key: None,
            custom_value: None,
        }],
        value_routes_source: None,
    }
}

fn two_target_watcher() -> Result<DropWatcher, ConfigError> {
    let mut seen = Vec::new();
    let default = resolve_target(&target_spec("default", "event-default", Some(station_fallback("Default Station"))), &mut seen, None, None)?
        .load_token("default-secret")?;
    let aux = resolve_target(&target_spec("aux", "event-aux", Some(station_fallback("Aux Station"))), &mut seen, None, None)?
        .load_token("aux-secret")?;
    let config = resolve_config("/srv/watch".to_owned(), "https://api.example.test".to_owned(), vec![default, aux], ConfigOverrides::default())?;
    let targets = config.targets.iter().map(|target| target.watch_target()).collect();
    Ok(DropWatcher::new_targets(targets, Duration::from_millis(75)))
}

#[test]
fn config_loads_two_targets_and_routes_dropfile_to_matching_target() -> Result<(), ConfigError> {
    let mut watcher = two_target_watcher()?;
    let event = DropEvent { kind: DropEventKind::Upsert, path: "/srv/watch/aux.json".to_owned() };
    assert!(watcher.accept_event(&event, Instant::from_nanos(0)));
    let payload = watcher.upsert(&event.path, DropFileRead::Parsed(dropfile("aux", "Aux Track"))).unwrap();
    assert_eq!(payload.title, "Aux Track");
    assert_eq!(payload.event_guid, "event-aux");
    Ok(())
}

#[test]
fn config_unknown_dropfile_target_is_skipped() -> Result<(), ConfigError> {
    let mut watcher = two_target_watcher()?;
    let payload = watcher.upsert("/srv/watch/unknown.json", DropFileRead::Parsed(dropfile("unknown", "Unknown Track")));
    assert!(payload.is_none());
    Ok(())
}

#[test]
fn config_target_without_fallback_uses_dead_fallback_route() -> Result<(), ConfigError> {
    let mut seen = Vec::new();
    let target = resolve_target(&target_spec("default", "event-default", None), &mut seen, None, None)?;
    let fallback = &target.fallback;
    let destination = &fallback.value.destinations[0];

    assert_eq!(fallback.title, "No V4V track playing");
    assert_eq!(fallback.value.model.kind, "lightning");
    assert_eq!(fallback.value.model.method, "lnaddress");
    assert_eq!(destination.kind.as_deref(), Some("lnaddress"));
    assert_eq!(destination.name.as_deref(), Some("No V4V payment route"));
    assert_eq!(destination.address.as_deref(), Some("no-v4v-track@example.invalid"));
    assert_eq!(destination.split.as_deref(), Some("100"));
    Ok(())
}

#[test]
fn config_empty_fallback_destinations_uses_dead_fallback_route() -> Result<(), ConfigError> {
    let fallback = FallbackSpec { title: Some("Station".to_owned()), image: None, model: None, destinations: Vec::new(), value: None };
    let resolved = resolve_fallback("default", &fallback)?;
    let destination = &resolved.value.destinations[0];
    assert_eq!(resolved.title, "Station");
    assert_eq!(resolved.value.model.method, "lnaddress");
    assert_eq!(destination.kind.as_deref(), Some("lnaddress"));
    assert_eq!(destination.address.as_deref(), Some("no-v4v-track@example.invalid"));
    Ok(())
}

#[test]
fn config_rejects_placeholder_fallback_destination_address() {
    let mut fallback = station_fallback("Default Station");
    fallback.destinations[0].destination.address = Some("YOUR_LIGHTNING_NODE_PUBKEY".to_owned());
    let error = resolve_fallback("default", &fallback).err();
    assert!(error.is_some_and(|error| error.message().contains("fallback destination 0 address is still an example placeholder")));
}

#[test]
fn config_empty_token_file_is_error() -> Result<(), ConfigError> {
    let mut seen = Vec::new();
    let pending = resolve_target(&target_spec("default", "event-default", None), &mut seen, None, None)?;
    let error = pending.load_token("\n\t").err();
    assert!(error.is_some_and(|error| error.message().contains("token file /tokens/default.token is empty")));
    Ok(())
}

#[test]
fn config_placeholder_event_id_is_error() {
    let mut seen = Vec::new();
    let error = resolve_target(&target_spec("default", "replace-with-provisioned-event-guid", None), &mut seen, None, None).err();
    assert!(error.is_some_and(|error| error.message().contains("target default event_id is still an example placeholder")));
}

#[test]
fn config_duplicate_target_names_are_error() -> Result<(), ConfigError> {
    let mut seen = Vec::new();
    resolve_target(&target_spec("default", "event-default", None), &mut seen, None, None)?;
    let error = resolve_target(&target_spec("default", "event-aux", None), &mut seen, None, None).err();
    assert!(error.is_some_and(|error| error.message().contains("duplicate target name default")));
    Ok(())
}

#[test]
fn config_without_targets_is_error() {
    let error = resolve_config("/w".to_owned(), "https://e".to_owned(), Vec::new(), ConfigOverrides::default()).err();
    assert!(error.is_some_and(|error| error.message() == "config must define at least one target"));
}

#[test]
fn config_refused_stream_delay_carries_its_message() {
    let mut spec = target_spec("default", "event-default", None);
    spec.stream_delay = StreamDelaySetting::Refused("target default stream_delay_secs must not be negative".to_owned());
    let mut seen = Vec::new();
    let error = resolve_target(&spec, &mut seen, None, None).unwrap_err();
    assert_eq!(error.message(), "target default stream_delay_secs must not be negative");
    assert_eq!(seen, vec!["default".to_owned()]);
}

#[test]
fn config_fallback_conflicts_are_errors() {
    let mut both_models = nested(model("lightning", "keysend"), destination("Station", "node", "03station", "100"));
    both_models.model = Some(model("lightning", "keysend"));
    assert_eq!(
        resolve_fallback("default", &both_models),
        Err(ConfigError::FallbackModelTwice { target: "default".to_owned() })
    );
    let mut both_lists = nested(model("lightning", "keysend"), destination("Station", "node", "03station", "100"));
    both_lists.destinations = vec![checked(destination("Station", "node", "03station", "100"))];
    assert_eq!(
        resolve_fallback("default", &both_lists),
        Err(ConfigError::FallbackDestinationsTwice { target: "default".to_owned() })
    );
}

#[test]
fn config_destination_fields_are_checked_in_order() {
    let mut fallback = station_fallback("S");
    fallback.destinations[0].destination.name = None;
    fallback.destinations[0].destination.split = Some(" ".to_owned());
    let error = resolve_fallback("default", &fallback).unwrap_err();
    assert_eq!(
        error,
        ConfigError::DestinationFieldMissing { target: "default".to_owned(), index: 0, field: DestinationField::Name }
    );
    assert_eq!(error.message(), "target default fallback destination 0 missing name");

    let mut fallback = station_fallback("S");
    fallback.destinations.push(checked(destination("Two", "node", "03two", " ")));
    let error = resolve_fallback("default", &fallback).unwrap_err();
    assert_eq!(error.message(), "target default fallback destination 1 split must not be empty");

    let mut fallback = station_fallback("S");
    fallback.destinations[0].split_check = SplitCheck::NotDecimal;
    assert_eq!(
        resolve_fallback("default", &fallback).unwrap_err().message(),
        "target default fallback destination 0 split must be decimal"
    );
    fallback.destinations[0].split_check = SplitCheck::NotFinite;
    assert_eq!(
        resolve_fallback("default", &fallback).unwrap_err().message(),
        "target default fallback destination 0 split must be finite"
    );
}

// ---------------------------------------------------------------------------
// Editing target stanzas

fn listed(text: &str) -> Vec<String> {
    let value: toml::Value = toml::from_str(text).expect("valid TOML");
    value
        .get("target")
        .and_then(toml::Value::as_array)
        .map(|targets| {
            targets
                .iter()
                .filter_map(|t| t.get("name").and_then(toml::Value::as_str).map(str::to_owned))
                .collect()
        })
        .unwrap_or_default()
}

fn config_text(second: bool) -> String {
    let mut text = String::from(
        r#"
watch_dir = "/srv/watch"
endpoint = "https://api.example.test"

[[target]]
name = "default"
event_id = "event-default"
token_file = "/tokens/default.token"

  [target.fallback]
  title = "Default Station"
  destinations = [
    { name = "Station", type = "node", address = "03station", split = "100", customKey = "k", customValue = "v", fee = false },
  ]
"#,
    );
    if second {
        text.push_str(
            r#"
[[target]]
name = "aux"
event_id = "event-aux"
token_file = "/tokens/aux.token"

  [target.fallback]
  title = "Aux Station"
  destinations = [
    { name = "Aux", type = "node", address = "03aux", split = "100" },
  ]
"#,
        );
    }
    text
}

fn target_edit(name: &str, event_id: &str, token_file: &str) -> TargetConfigEdit {
    TargetConfigEdit {
        name: name.to_owned(),
        event_id: event_id.to_owned(),
        token_file: token_file.to_owned(),
        stream_delay_secs: None,
    }
}

fn event_id_of(text: &str, name: &str) -> Option<String> {
    let value: toml::Value = toml::from_str(text).ok()?;
    value.get("target")?.as_array()?.iter().find_map(|t| {
        if t.get("name")?.as_str()? == name {
            Some(t.get("event_id")?.as_str()?.to_owned())
        } else {
            None
        }
    })
}

#[test]
fn target_add_appends_to_config_without_targets() -> Result<(), ConfigError> {
    let text = "\n# operator comment\nwatch_dir = \"/srv/watch\"\nendpoint = \"https://api.example.test\"\n";
    let edited = add_target_to_config_text(text, &listed(text), &target_edit("default", "event-default", "/tokens/default.token"), false)?;

    assert!(edited.contains("# operator comment"));
    assert_eq!(listed(&edited), vec!["default".to_owned()]);
    assert_eq!(event_id_of(&edited, "default").as_deref(), Some("event-default"));
    Ok(())
}

#[test]
fn target_add_appends_second_target_without_rewriting_existing_config() -> Result<(), ConfigError> {
    let text = config_text(false);
    let edited = add_target_to_config_text(&text, &listed(&text), &target_edit("aux", "event-aux", "/tokens/aux.token"), false)?;

    assert_eq!(listed(&edited).len(), 2);
    assert!(edited.starts_with(&text));
    assert!(edited.contains("[target.fallback]"));
    assert!(edited.contains("title = \"Default Station\""));
    assert!(edited.contains("name = \"aux\""));
    Ok(())
}

#[test]
fn target_add_duplicate_without_replace_is_distinct_error() {
    let text = config_text(false);
    let error = add_target_to_config_text(&text, &listed(&text), &target_edit("default", "event-new", "/tokens/default.token"), false);
    assert_eq!(error, Err(ConfigError::Edit(ConfigEditError::TargetExists("default".to_owned()))));
}

#[test]
fn target_add_duplicate_with_replace_replaces_stanza() -> Result<(), ConfigError> {
    let text = config_text(false);
    let mut edit = target_edit("default", "event-new", "/tokens/new.token");
    edit.stream_delay_secs = Some("12.5".to_owned());
    let edited = add_target_to_config_text(&text, &listed(&text), &edit, true)?;

    assert_eq!(listed(&edited), vec!["default".to_owned()]);
    assert_eq!(event_id_of(&edited, "default").as_deref(), Some("event-new"));
    assert!(edited.contains("token_file = \"/tokens/new.token\""));
    assert!(edited.contains("stream_delay_secs = 12.5\n"));
    assert!(!edited.contains("Default Station"));
    Ok(())
}

#[test]
fn target_remove_deletes_one_stanza() -> Result<(), ConfigError> {
    let text = config_text(true);
    let edited = remove_target_from_config_text(&text, &listed(&text), "aux")?;
    assert_eq!(listed(&edited), vec!["default".to_owned()]);
    assert!(!edited.contains("Aux Station"));
    Ok(())
}

#[test]
fn target_remove_missing_target_is_distinct_error() {
    let text = config_text(false);
    let error = remove_target_from_config_text(&text, &listed(&text), "missing");
    assert_eq!(error, Err(ConfigError::Edit(ConfigEditError::TargetNotFound("missing".to_owned()))));
    assert_eq!(ConfigEditError::TargetNotFound("missing".to_owned()).message(), "target missing not found");
}

#[test]
fn target_commands_preserve_comments() -> Result<(), ConfigError> {
    let text = r#"
# top-level comment
watch_dir = "/srv/watch"
endpoint = "https://api.example.test"

# default target comment
[[target]]
name = "default"
event_id = "event-default"
token_file = "/tokens/default.token"

# trailing comment
"#;
    let added = add_target_to_config_text(text, &listed(text), &target_edit("aux", "event-aux", "/tokens/aux.token"), false)?;
    let edited = remove_target_from_config_text(&added, &listed(&added), "aux")?;

    assert!(edited.contains("# top-level comment"));
    assert!(edited.contains("# default target comment"));
    assert!(edited.contains("# trailing comment"));
    assert_eq!(listed(&edited), vec!["default".to_owned()]);
    Ok(())
}

#[test]
fn target_add_rejects_event_id_control_characters() {
    let error = validate_target_config_edit(&target_edit("default", "event\nid", "/tokens/default.token")).err();
    assert!(error.is_some_and(|error| error.message().contains("target event_id must not contain control characters")));
}

#[test]
fn stanza_header_kinds() {
    assert_eq!(table_header_kind("[[target]]\n"), Some(TableHeaderKind::Target));
    assert_eq!(table_header_kind("  [[target]] # a comment"), Some(TableHeaderKind::Target));
    assert_eq!(table_header_kind("[target.fallback]"), Some(TableHeaderKind::TargetChild));
    assert_eq!(table_header_kind("[[target.fallback.value.destinations]]"), Some(TableHeaderKind::TargetChild));
    assert_eq!(table_header_kind("[other]"), Some(TableHeaderKind::Other));
    assert_eq!(table_header_kind("name = \"x\""), None);
}

#[test]
fn stanza_spans_end_before_trailing_comments() {
    let text = "a = 1\n[[target]]\nname = \"x\"\n\n# note\n[[target]]\nname = \"y\"\n[other]\nb = 2\n";
    let lines = split_preserving_newlines(text);
    assert_eq!(lines.concat(), text);
    let spans = target_stanza_spans(&lines);
    assert_eq!(spans.len(), 2);
    assert_eq!((spans[0].start, spans[0].end), (1, 3));
    assert_eq!((spans[1].start, spans[1].end), (5, 7));
}

#[test]
fn appending_a_stanza_separates_it_by_a_blank_line() {
    assert_eq!(append_target_config_stanza("", "[[target]]\n"), "[[target]]\n");
    assert_eq!(append_target_config_stanza("a = 1", "[[target]]\n"), "a = 1\n\n[[target]]\n");
    assert_eq!(append_target_config_stanza("a = 1\n", "[[target]]\n"), "a = 1\n\n[[target]]\n");
}

#[test]
fn listed_target_without_a_stanza_cannot_be_located() {
    let text = "target = [{ name = \"inline\", event_id = \"e\", token_file = \"t\" }]\n";
    let error = remove_target_from_config_text(text, &listed(text), "inline").unwrap_err();
    assert_eq!(error, ConfigError::StanzaNotLocated { name: "inline".to_owned() });
    assert_eq!(error.message(), "could not locate target stanza inline");
}

#[test]
fn toml_string_renders_parseable_string() {
    let stanza = render_target_config_stanza(&TargetConfigEdit {
        name: "late \"night\"".to_owned(),
        event_id: "event-guid".to_owned(),
        token_file: "/tmp/late-night.token".to_owned(),
        stream_delay_secs: None,
    });
    let parsed: toml::Value = toml::from_str(&stanza).expect("rendered stanza parses");

    assert_eq!(parsed["target"][0]["name"].as_str(), Some("late \"night\""));
    assert!(stanza.starts_with("[[target]]\nname = "));
    assert!(!stanza.contains("name = late"));
}

#[test]
fn dead_fallback_reason_names_why_the_dead_route_is_used() {
    let mut spec = TargetSpec {
        name: "default".to_owned(),
        event_id: "event-guid".to_owned(),
        token_file: "/tokens/default.token".to_owned(),
        stream_delay: StreamDelaySetting::Accepted(Duration::zero()),
        fallback: None,
    };
    assert_eq!(dead_fallback_reason(&spec), Some("target has no fallback configuration"));
    spec.fallback = Some(FallbackSpec { title: None, image: None, model: None, destinations: Vec::new(), value: None });
    assert_eq!(dead_fallback_reason(&spec), Some("target fallback has no payment destinations"));
}

#[test]
fn target_edits_refuse_duplicate_target_names() {
    let text = "[[target]]\nname = \"default\"\nevent_id = \"a\"\ntoken_file = \"/a\"\n\n[[target]]\nname = \"default\"\nevent_id = \"b\"\ntoken_file = \"/b\"\n";
    let names = vec!["default".to_owned(), "default".to_owned()];
    let duplicate = Err(ConfigError::DuplicateTarget { name: "default".to_owned() });
    assert_eq!(remove_target_from_config_text(text, &names, "default"), duplicate);
    assert_eq!(
        add_target_to_config_text(text, &names, &target_edit("aux", "event-aux", "/tokens/aux.token"), false),
        duplicate
    );
    assert_eq!(check_target_names(&vec!["a".to_owned(), "b".to_owned(), "a".to_owned(), "b".to_owned()]), Err(ConfigError::DuplicateTarget { name: "a".to_owned() }));
    assert_eq!(check_target_names(&vec!["a".to_owned(), "b".to_owned()]), Ok(()));
}
