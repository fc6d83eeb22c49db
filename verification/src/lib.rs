//! MusicIndex live publishing: the now-playing drop-file contract, live value
//! payload assembly, stream-delay scheduling, drop-directory event handling,
//! publisher configuration rules, relay publishing rules, and the Mixxx
//! now-playing producer's rendering and route-resolution rules.

pub mod time;
pub mod text;
pub mod keyed;
pub mod paths;
pub mod dropfile;
pub mod livevalue;
pub mod schedule;
pub mod watcher;
pub mod config;
pub mod relay;
pub mod now_playing;

pub use config::{
    ConfigEditError, ConfigError, ConfigOverrides, PublisherConfig, PublisherTarget, TargetConfigEdit,
    DEFAULT_CONFIG_PATH, remove_target_from_config_text, add_target_to_config_text,
};
pub use dropfile::{DropFile, PaymentRoute, SCHEMA_VERSION};
pub use livevalue::{
    destination_from_payment_route, fallback_payload, payload_from_dropfile, LiveValue, LiveValueDestination,
    LiveValueModel, LiveValuePayload,
};
pub use relay::{ProvisionedLiveItem, PublishOutcome, RelayTarget};
pub use schedule::PublishSchedule;
pub use watcher::{
    is_final_drop_file, DropEvent, DropEventKind, DropWatcher, FallbackConfig, WatchTarget,
    DEFAULT_DEBOUNCE_WINDOW_MILLIS,
};
