//! The Mixxx now-playing producer: what it writes for the track Mixxx is
//! playing, when that metadata expires, and where its payment routes come from.

pub mod classify;
pub mod expiry;
pub mod history;
pub mod musicindex;
pub mod render;
pub mod runtime;
pub mod settings;
pub mod sink;
pub mod tags;
