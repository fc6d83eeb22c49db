use musicindex_live_publisher::dropfile::{is_supported_schema, DropFile, FloatBits, PaymentRoute, SCHEMA_VERSION};
use musicindex_live_publisher::livevalue::{
    destination_from_payment_route, fallback_payload, live_value_from_routes, payload_from_dropfile, LiveValue,
    LiveValueDestination, LiveValueModel,
};

fn route(split: &str) -> PaymentRoute {
    PaymentRoute {
        recipient_name: Some("Alice".to_owned()),
        route_type: Some("node".to_owned()),
        split: Some(split.to_owned()),
        fee: None,
        address: Some("03ab".to_owned()),
        custom_key: None,
        custom_value: None,
    }
}

fn dropfile() -> DropFile {
    DropFile {
        schema: SCHEMA_VERSION.to_owned(),
        target: "default".to_owned(),
        artist: "Alice".to_owned(),
        title: "Some Track".to_owned(),
        duration_secs: Some(FloatBits { bits: 187.326f64.to_bits() }),
        image: Some("https://example.com/art.png".to_owned()),
        feed_guid: Some("feed-guid".to_owned()),
        track_guid: Some("track-guid".to_owned()),
        value_routes: vec![route("90")],
        value_routes_source: Some("musicindex-api".to_owned()),
    }
}

#[test]
fn livevalue_empty_value_routes_keep_empty_destinations() {
    let mut dropfile = dropfile();
    dropfile.value_routes.clear();
    let payload = payload_from_dropfile(&dropfile, "event-guid", "block-guid");
    assert!(payload.value.destinations.is_empty());
    assert_eq!(payload.value.model.method, "keysend");
}

#[test]
fn livevalue_duration_is_omitted_when_absent() {
    let mut dropfile = dropfile();
    dropfile.duration_secs = None;
    let payload = payload_from_dropfile(&dropfile, "event-guid", "block-guid");
    assert!(payload.duration.is_none());
}

#[test]
fn livevalue_carries_sourceable_musicindex_identity_fields() {
    let payload = payload_from_dropfile(&dropfile(), "event-guid", "block-guid");
    assert_eq!(payload.feed_guid.as_deref(), Some("feed-guid"));
    assert_eq!(payload.item_guid.as_deref(), Some("track-guid"));
    assert_eq!(payload.duration, Some(FloatBits { bits: 187.326f64.to_bits() }));
    assert_eq!(payload.kind, "music");
    assert_eq!(payload.description, "");
    assert_eq!(payload.start_time, 0);
}

#[test]
fn livevalue_different_block_guids_only_change_block_guid() {
    let dropfile = dropfile();
    let mut first = payload_from_dropfile(&dropfile, "event-guid", "block-guid-1");
    let mut second = payload_from_dropfile(&dropfile, "event-guid", "block-guid-2");
    assert_eq!(first.block_guid, "block-guid-1");
    assert_eq!(second.block_guid, "block-guid-2");
    first.block_guid.clear();
    second.block_guid.clear();
    assert_eq!(first, second);
}

#[test]
fn livevalue_fallback_payload_preserves_configured_value_block() {
    let value = LiveValue {
        model: LiveValueModel {
            kind: "custom-model".to_owned(),
            method: "custom-method".to_owned(),
            suggested: Some("0.0000100000".to_owned()),
        },
        destinations: vec![LiveValueDestination {
            kind: Some("node".to_owned()),
            name: Some("Station".to_owned()),
            address: Some("03station".to_owned()),
            split: Some("100".to_owned()),
            custom_key: None,
            custom_value: None,
            fee: None,
        }],
    };
    let payload = fallback_payload("Station", None, "event-guid", "block-guid", &value);

    assert_eq!(payload.title, "Station");
    assert!(payload.image.is_none());
    assert!(payload.duration.is_none());
    assert_eq!(payload.value, value);
    assert_eq!(payload.value.destinations[0].split.as_deref(), Some("100"));
}

#[test]
fn livevalue_routes_map_field_by_field() {
    let mut r = route("49.51");
    r.custom_key = Some("696969".to_owned());
    r.custom_value = Some("5".to_owned());
    r.fee = Some(true);
    let d = destination_from_payment_route(&r);
    assert_eq!(d.kind.as_deref(), Some("node"));
    assert_eq!(d.name.as_deref(), Some("Alice"));
    assert_eq!(d.address.as_deref(), Some("03ab"));
    assert_eq!(d.split.as_deref(), Some("49.51"));
    assert_eq!(d.custom_key.as_deref(), Some("696969"));
    assert_eq!(d.custom_value.as_deref(), Some("5"));
    assert_eq!(d.fee, Some(true));
    let v = live_value_from_routes(&vec![route("90"), route("10")]);
    assert_eq!(v.destinations.len(), 2);
    assert_eq!(v.destinations[1].split.as_deref(), Some("10"));
}

#[test]
fn dropfile_unknown_schema_returns_none() {
    assert!(is_supported_schema("musicindex.nowplaying/1"));
    assert!(!is_supported_schema("musicindex.nowplaying/2"));
}
