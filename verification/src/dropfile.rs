//! The now-playing drop-file contract.
//!
//! Producers write one JSON file per target into the watched drop directory.
//! Presence of a file means the track is playing; removing it means it
//! stopped. Decoding the JSON is left to the embedding program; the library
//! holds the decoded fields.

use vstd::prelude::*;
use crate::text::string_eq_text;

verus! {

/// The supported now-playing drop-file schema version.
pub const SCHEMA_VERSION: &'static str = "musicindex.nowplaying/1";

/// A floating-point number carried unchanged, as its IEEE-754 bit pattern.
#[derive(Clone, Copy, Debug, PartialEq, Eq, Structural)]
pub struct FloatBits {
    pub bits: u64,
}

/// A MusicIndex now-playing drop file.
#[derive(Debug, PartialEq)]
pub struct DropFile {
    pub schema: String,
    pub target: String,
    pub artist: String,
    pub title: String,
    /// Track length in seconds.
    pub duration_secs: Option<FloatBits>,
    pub image: Option<String>,
    pub feed_guid: Option<String>,
    pub track_guid: Option<String>,
    pub value_routes: Vec<PaymentRoute>,
    pub value_routes_source: Option<String>,
}

/// A payment route with the producer-facing MusicIndex field names.
#[derive(Debug, PartialEq)]
pub struct PaymentRoute {
    pub recipient_name: Option<String>,
    pub route_type: Option<String>,
    /// The route's split, written as the shortest decimal text of the
    /// producer's number (`90.0` is `"90"`, `0.49` is `"0.49"`).
    pub split: Option<String>,
    pub fee: Option<bool>,
    pub address: Option<String>,
    pub custom_key: Option<String>,
    pub custom_value: Option<String>,
}

/// Whether a drop file declaring `schema` follows the supported contract.
/// Files with any other schema are ignored rather than rejected.
pub fn is_supported_schema(schema: &str) -> (b: bool)
    ensures
        b == (schema@ == SCHEMA_VERSION@),
{
    string_eq_text(schema, SCHEMA_VERSION)
}

/// A copy of an optional string.
pub fn clone_opt_string(o: &Option<String>) -> (r: Option<String>)
    ensures
        r == *o,
{
    match o {
        Some(s) => Some(s.clone()),
        None => None,
    }
}

impl Clone for PaymentRoute {
    fn clone(&self) -> (r: Self)
        ensures
            r == *self,
    {
        PaymentRoute {
            recipient_name: clone_opt_string(&self.recipient_name),
            route_type: clone_opt_string(&self.route_type),
            split: clone_opt_string(&self.split),
            fee: self.fee,
            address: clone_opt_string(&self.address),
            custom_key: clone_opt_string(&self.custom_key),
            custom_value: clone_opt_string(&self.custom_value),
        }
    }
}

/// Whether two drop files carry the same fields and the same routes.
pub open spec fn same_dropfile(a: DropFile, b: DropFile) -> bool {
    &&& a.schema == b.schema
    &&& a.target == b.target
    &&& a.artist == b.artist
    &&& a.title == b.title
    &&& a.duration_secs == b.duration_secs
    &&& a.image == b.image
    &&& a.feed_guid == b.feed_guid
    &&& a.track_guid == b.track_guid
    &&& a.value_routes@ == b.value_routes@
    &&& a.value_routes_source == b.value_routes_source
}

impl Clone for DropFile {
    fn clone(&self) -> (r: Self)
        ensures
            same_dropfile(r, *self),
    {
        let mut routes: Vec<PaymentRoute> = Vec::new();
        let mut i: usize = 0;
        while i < self.value_routes.len()
            invariant
                i <= self.value_routes@.len(),
                routes@ == self.value_routes@.take(i as int),
            decreases self.value_routes.len() - i,
        {
            routes.push(self.value_routes[i].clone());
            i = i + 1;
            assert(routes@ =~= self.value_routes@.take(i as int));
        }
        assert(self.value_routes@.take(self.value_routes@.len() as int) =~= self.value_routes@);
        DropFile {
            schema: self.schema.clone(),
            target: self.target.clone(),
            artist: self.artist.clone(),
            title: self.title.clone(),
            duration_secs: self.duration_secs,
            image: clone_opt_string(&self.image),
            feed_guid: clone_opt_string(&self.feed_guid),
            track_guid: clone_opt_string(&self.track_guid),
            value_routes: routes,
            value_routes_source: clone_opt_string(&self.value_routes_source),
        }
    }
}

} // verus!
