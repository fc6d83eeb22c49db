//! Which tracks are V4V tracks: those that lie under the V4V music root.
//!
//! Resolving paths to their canonical form happens around this module. Here
//! is the rule on the resolved paths: a track is under the root when the
//! root's path components begin the track's, as `Path::starts_with` compares
//! Unix paths.

use vstd::prelude::*;
use crate::paths::{path_is_under, path_starts_with};

verus! {

/// Whether a track is a V4V track: it has a canonical path, `canonical_track`
/// (none when the file cannot be resolved, for one when it is missing), and
/// that path lies under `v4v_root` (the root's canonical path, or the root as
/// configured when it has none).
pub fn is_v4v_track(canonical_track: &Option<String>, v4v_root: &str) -> (b: bool)
    ensures
        b == match canonical_track {
            Some(t) => path_starts_with(t@, v4v_root@),
            None => false,
        },
{
    match canonical_track {
        Some(track) => path_is_under(track.as_str(), v4v_root),
        None => false,
    }
}

} // verus!
