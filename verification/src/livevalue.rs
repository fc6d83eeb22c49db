//! Podcasting 2.0 live value payload assembly.

use vstd::prelude::*;
use crate::dropfile::{clone_opt_string, DropFile, FloatBits, PaymentRoute};

verus! {

/// A direct live value payload for the MusicIndex relay.
///
/// This is the raw payload consumed by remote value listeners, not the
/// relay's wrapped `{event_id, metadata}` form.
#[derive(Debug, PartialEq)]
pub struct LiveValuePayload {
    pub title: String,
    pub image: Option<String>,
    pub description: String,
    pub kind: String,
    pub start_time: u32,
    /// Block length in seconds.
    pub duration: Option<FloatBits>,
    pub event_guid: String,
    pub block_guid: String,
    pub feed_guid: Option<String>,
    pub item_guid: Option<String>,
    pub value: LiveValue,
}

/// Live value payment routing information.
#[derive(Debug, PartialEq)]
pub struct LiveValue {
    pub model: LiveValueModel,
    pub destinations: Vec<LiveValueDestination>,
}

/// Live value payment model metadata.
#[derive(Debug, PartialEq)]
pub struct LiveValueModel {
    pub kind: String,
    pub method: String,
    pub suggested: Option<String>,
}

/// A live value payment destination.
#[derive(Debug, PartialEq)]
pub struct LiveValueDestination {
    pub kind: Option<String>,
    pub name: Option<String>,
    pub address: Option<String>,
    pub split: Option<String>,
    pub custom_key: Option<String>,
    pub custom_value: Option<String>,
    pub fee: Option<bool>,
}

impl Clone for LiveValueModel {
    fn clone(&self) -> (r: Self)
        ensures
            r == *self,
    {
        LiveValueModel {
            kind: self.kind.clone(),
            method: self.method.clone(),
            suggested: clone_opt_string(&self.suggested),
        }
    }
}

impl Clone for LiveValueDestination {
    fn clone(&self) -> (r: Self)
        ensures
            r == *self,
    {
        LiveValueDestination {
            kind: clone_opt_string(&self.kind),
            name: clone_opt_string(&self.name),
            address: clone_opt_string(&self.address),
            split: clone_opt_string(&self.split),
            custom_key: clone_opt_string(&self.custom_key),
            custom_value: clone_opt_string(&self.custom_value),
            fee: self.fee,
        }
    }
}

impl View for LiveValue {
    type V = (LiveValueModel, Seq<LiveValueDestination>);

    open spec fn view(&self) -> (LiveValueModel, Seq<LiveValueDestination>) {
        (self.model, self.destinations@)
    }
}

/// Whether two payloads carry the same fields and the same value block.
pub open spec fn same_payload(a: LiveValuePayload, b: LiveValuePayload) -> bool {
    &&& a.title == b.title
    &&& a.image == b.image
    &&& a.description == b.description
    &&& a.kind == b.kind
    &&& a.start_time == b.start_time
    &&& a.duration == b.duration
    &&& a.event_guid == b.event_guid
    &&& a.block_guid == b.block_guid
    &&& a.feed_guid == b.feed_guid
    &&& a.item_guid == b.item_guid
    &&& a.value@ == b.value@
}

impl Clone for LiveValue {
    fn clone(&self) -> (r: Self)
        ensures
            r@ == self@,
    {
        let mut destinations: Vec<LiveValueDestination> = Vec::new();
        let mut i: usize = 0;
        while i < self.destinations.len()
            invariant
                i <= self.destinations@.len(),
                destinations@ == self.destinations@.take(i as int),
            decreases self.destinations.len() - i,
        {
            destinations.push(self.destinations[i].clone());
            i = i + 1;
            assert(destinations@ =~= self.destinations@.take(i as int));
        }
        assert(self.destinations@.take(self.destinations@.len() as int) =~= self.destinations@);
        LiveValue { model: self.model.clone(), destinations }
    }
}

impl Clone for LiveValuePayload {
    fn clone(&self) -> (r: Self)
        ensures
            same_payload(r, *self),
    {
        LiveValuePayload {
            title: self.title.clone(),
            image: clone_opt_string(&self.image),
            description: self.description.clone(),
            kind: self.kind.clone(),
            start_time: self.start_time,
            duration: self.duration,
            event_guid: self.event_guid.clone(),
            block_guid: self.block_guid.clone(),
            feed_guid: clone_opt_string(&self.feed_guid),
            item_guid: clone_opt_string(&self.item_guid),
            value: self.value.clone(),
        }
    }
}

/// The destination a producer payment route maps to: every field is carried
/// over under its live value name.
pub open spec fn destination_of(route: PaymentRoute) -> LiveValueDestination {
    LiveValueDestination {
        kind: route.route_type,
        name: route.recipient_name,
        address: route.address,
        split: route.split,
        custom_key: route.custom_key,
        custom_value: route.custom_value,
        fee: route.fee,
    }
}

/// The payment model of every track payload: Lightning keysend.
pub open spec fn is_keysend_model(model: LiveValueModel) -> bool {
    &&& model.kind@ == "lightning"@
    &&& model.method@ == "keysend"@
    &&& model.suggested is None
}

/// The shape every music block shares: an empty description, type
/// `"music"`, and a start time of zero.
pub open spec fn is_music_block(p: LiveValuePayload) -> bool {
    &&& p.description@ == Seq::<char>::empty()
    &&& p.kind@ == "music"@
    &&& p.start_time == 0
}

/// Maps a producer payment route to a live value destination.
pub fn destination_from_payment_route(route: &PaymentRoute) -> (d: LiveValueDestination)
    ensures
        d == destination_of(*route),
{
    LiveValueDestination {
        kind: clone_opt_string(&route.route_type),
        name: clone_opt_string(&route.recipient_name),
        address: clone_opt_string(&route.address),
        split: clone_opt_string(&route.split),
        custom_key: clone_opt_string(&route.custom_key),
        custom_value: clone_opt_string(&route.custom_value),
        fee: route.fee,
    }
}

/// The keysend value block paying each route in order.
pub fn live_value_from_routes(routes: &Vec<PaymentRoute>) -> (v: LiveValue)
    ensures
        is_keysend_model(v.model),
        v.destinations@ == routes@.map_values(|r: PaymentRoute| destination_of(r)),
{
    let mut destinations: Vec<LiveValueDestination> = Vec::new();
    let mut i: usize = 0;
    while i < routes.len()
        invariant
            i <= routes@.len(),
            destinations@ == routes@.take(i as int).map_values(|r: PaymentRoute| destination_of(r)),
        decreases routes.len() - i,
    {
        destinations.push(destination_from_payment_route(&routes[i]));
        i = i + 1;
        assert(destinations@ =~= routes@.take(i as int).map_values(
            |r: PaymentRoute| destination_of(r),
        ));
    }
    assert(routes@.take(routes@.len() as int) =~= routes@);
    let kind = "lightning".to_owned();
    let method = "keysend".to_owned();
    LiveValue { model: LiveValueModel { kind, method, suggested: None }, destinations }
}

/// Builds a track live value payload from a drop file.
///
/// The caller supplies `event_guid` for the live item and `block_guid` for
/// the current track block, so retries can reuse one block identity.
pub fn payload_from_dropfile(dropfile: &DropFile, event_guid: &str, block_guid: &str) -> (p:
    LiveValuePayload)
    ensures
        p.title == dropfile.title,
        p.image == dropfile.image,
        is_music_block(p),
        p.duration == dropfile.duration_secs,
        p.event_guid@ == event_guid@,
        p.block_guid@ == block_guid@,
        p.feed_guid == dropfile.feed_guid,
        p.item_guid == dropfile.track_guid,
        is_keysend_model(p.value.model),
        p.value.destinations@ == dropfile.value_routes@.map_values(
            |r: PaymentRoute| destination_of(r),
        ),
{
    LiveValuePayload {
        title: dropfile.title.clone(),
        image: clone_opt_string(&dropfile.image),
        description: String::new(),
        kind: "music".to_owned(),
        start_time: 0,
        duration: dropfile.duration_secs,
        event_guid: event_guid.to_owned(),
        block_guid: block_guid.to_owned(),
        feed_guid: clone_opt_string(&dropfile.feed_guid),
        item_guid: clone_opt_string(&dropfile.track_guid),
        value: live_value_from_routes(&dropfile.value_routes),
    }
}

/// Builds a fallback live value payload from a configured station value block.
///
/// It has the music block shape of track payloads, no duration and no
/// MusicIndex identity, and pays exactly the configured value block.
pub fn fallback_payload(
    title: &str,
    image: Option<&str>,
    event_guid: &str,
    block_guid: &str,
    value: &LiveValue,
) -> (p: LiveValuePayload)
    ensures
        p.title@ == title@,
        crate::text::opt_text(p.image) == match image {
            Some(i) => Some(i@),
            None => None::<Seq<char>>,
        },
        is_music_block(p),
        p.duration is None,
        p.event_guid@ == event_guid@,
        p.block_guid@ == block_guid@,
        p.feed_guid is None,
        p.item_guid is None,
        p.value@ == value@,
{
    let image = match image {
        Some(i) => Some(i.to_owned()),
        None => None,
    };
    LiveValuePayload {
        title: title.to_owned(),
        image,
        description: String::new(),
        kind: "music".to_owned(),
        start_time: 0,
        duration: None,
        event_guid: event_guid.to_owned(),
        block_guid: block_guid.to_owned(),
        feed_guid: None,
        item_guid: None,
        value: value.clone(),
    }
}

} // verus!
