//! Track tags as the now-playing producer reads them.
//!
//! Decoding tag frames from audio files happens around this module. Here are
//! the rules that decide what a decoded tag item becomes: which frames carry
//! MusicIndex metadata and under which canonical label, which are transcripts
//! to leave out, and how binary payloads are summarized.

use vstd::prelude::*;
use crate::text::{collapse_spaces, collapse_whitespace, decimal, decimal_text, push_str, string_eq_text};
use crate::time::Duration;

verus! {

/// One tag item: its key and its text.
#[derive(Debug, PartialEq, Eq)]
pub struct TagText {
    pub key: String,
    pub value: String,
}

impl Clone for TagText {
    fn clone(&self) -> (r: Self)
        ensures
            r == *self,
    {
        TagText { key: self.key.clone(), value: self.value.clone() }
    }
}

impl TagText {
    /// A tag item with key `key` and text `value`.
    pub fn new(key: &str, value: &str) -> (t: Self)
        ensures
            t.key@ == key@,
            t.value@ == value@,
    {
        TagText { key: key.to_owned(), value: value.to_owned() }
    }
}

/// A MusicIndex metadata frame: the label the producer shows and the ID3
/// frame it is read from.
#[derive(Clone, Copy, Debug, PartialEq, Eq)]
pub struct MusicIndexFrame {
    pub canonical: &'static str,
    pub frame_label: &'static str,
}

/// The tags of one track: its MusicIndex metadata under canonical labels,
/// every other tag item, and its duration when known.
#[derive(Debug, PartialEq, Eq)]
pub struct TrackTags {
    pub musicindex: Vec<TagText>,
    pub tags: Vec<TagText>,
    pub duration: Option<Duration>,
}

/// The value of a decoded tag item.
#[derive(Debug, PartialEq, Eq)]
pub enum ItemValue {
    Text(String),
    Locator(String),
    Binary(Vec<u8>),
}

/// Tag items as (key, text) pairs.
pub open spec fn items_view(items: Seq<TagText>) -> Seq<(Seq<char>, Seq<char>)> {
    items.map_values(|t: TagText| (t.key@, t.value@))
}

/// The index of the first item with key `key`.
pub open spec fn first_with_key(items: Seq<(Seq<char>, Seq<char>)>, key: Seq<char>) -> Option<int>
    decreases items.len(),
{
    if items.len() == 0 {
        None
    } else {
        match first_with_key(items.drop_last(), key) {
            Some(i) => Some(i),
            None => if items.last().0 == key {
                Some(items.len() - 1)
            } else {
                None
            },
        }
    }
}

/// The items whose key is not `key`, in order.
pub open spec fn without_key(items: Seq<(Seq<char>, Seq<char>)>, key: Seq<char>) -> Seq<(Seq<char>, Seq<char>)>
    decreases items.len(),
{
    if items.len() == 0 {
        Seq::empty()
    } else if items.last().0 == key {
        without_key(items.drop_last(), key)
    } else {
        without_key(items.drop_last(), key).push(items.last())
    }
}

proof fn lemma_first_with_key_bounds(items: Seq<(Seq<char>, Seq<char>)>, key: Seq<char>)
    ensures
        first_with_key(items, key) matches Some(i) ==> 0 <= i < items.len() && items[i].0 == key
            && forall|j: int| 0 <= j < i ==> #[trigger] items[j].0 != key,
        first_with_key(items, key) is None ==> forall|j: int| 0 <= j < items.len() ==> #[trigger] items[j].0 != key,
    decreases items.len(),
{
    if items.len() > 0 {
        let rest = items.drop_last();
        lemma_first_with_key_bounds(rest, key);
        assert forall|j: int| 0 <= j < rest.len() implies #[trigger] rest[j] == items[j] by {}
        match first_with_key(rest, key) {
            Some(i) => {
                assert forall|j: int| 0 <= j < i implies #[trigger] items[j].0 != key by {
                    assert(rest[j] == items[j]);
                }
                assert(rest[i] == items[i]);
            },
            None => {
                assert forall|j: int| 0 <= j < items.len() - 1 implies #[trigger] items[j].0 != key by {
                    assert(rest[j] == items[j]);
                }
                if items.last().0 != key {
                    assert forall|j: int| 0 <= j < items.len() implies #[trigger] items[j].0 != key by {
                        if j < items.len() - 1 {
                            assert(rest[j] == items[j]);
                        }
                    }
                }
            },
        }
    }
}

impl Clone for TrackTags {
    fn clone(&self) -> (r: Self)
        ensures
            r.musicindex@ == self.musicindex@,
            r.tags@ == self.tags@,
            r.duration == self.duration,
    {
        TrackTags {
            musicindex: clone_items(&self.musicindex),
            tags: clone_items(&self.tags),
            duration: self.duration,
        }
    }
}

fn clone_items(items: &Vec<TagText>) -> (r: Vec<TagText>)
    ensures
        r@ == items@,
{
    let mut out: Vec<TagText> = Vec::new();
    let mut i: usize = 0;
    while i < items.len()
        invariant
            i <= items@.len(),
            out@ == items@.take(i as int),
        decreases items.len() - i,
    {
        out.push(items[i].clone());
        i = i + 1;
        assert(out@ =~= items@.take(i as int));
    }
    assert(items@.take(items@.len() as int) =~= items@);
    out
}

impl Default for TrackTags {
    fn default() -> (t: Self)
        ensures
            t.musicindex@.len() == 0,
            t.tags@.len() == 0,
            t.duration is None,
    {
        TrackTags { musicindex: Vec::new(), tags: Vec::new(), duration: None }
    }
}

fn find_key(items: &Vec<TagText>, key: &str) -> (r: Option<usize>)
    ensures
        match r {
            Some(i) => i < items@.len() && first_with_key(items_view(items@), key@) == Some(i as int),
            None => first_with_key(items_view(items@), key@) is None,
        },
{
    let ghost v = items_view(items@);
    proof {
        lemma_first_with_key_bounds(v, key@);
    }
    let mut i: usize = 0;
    while i < items.len()
        invariant
            i <= items@.len(),
            v == items_view(items@),
            forall|j: int| 0 <= j < i ==> #[trigger] v[j].0 != key@,
            first_with_key(v, key@) matches Some(k) ==> 0 <= k < v.len() && v[k].0 == key@ && forall|
                j: int,
            | 0 <= j < k ==> #[trigger] v[j].0 != key@,
            first_with_key(v, key@) is None ==> forall|j: int| 0 <= j < v.len() ==> #[trigger] v[j].0 != key@,
        decreases items.len() - i,
    {
        assert(v[i as int].0 == items@[i as int].key@);
        if string_eq_text(items[i].key.as_str(), key) {
            return Some(i);
        }
        i = i + 1;
    }
    None
}

impl TrackTags {
    /// The text of the first MusicIndex item labelled `key`.
    pub fn musicindex_value(&self, key: &str) -> (r: Option<&str>)
        ensures
            match first_with_key(items_view(self.musicindex@), key@) {
                Some(i) => r matches Some(v) && v@ == self.musicindex@[i].value@,
                None => r is None,
            },
    {
        match find_key(&self.musicindex, key) {
            Some(i) => Some(self.musicindex[i].value.as_str()),
            None => None,
        }
    }

    /// Sets the MusicIndex item labelled `key`: the first such item takes the
    /// new text, or a new item is appended.
    pub fn set_musicindex_value(&mut self, key: &str, value: String)
        ensures
            final(self).tags == old(self).tags,
            final(self).duration == old(self).duration,
            items_view(final(self).musicindex@) == match first_with_key(
                items_view(old(self).musicindex@),
                key@,
            ) {
                Some(i) => items_view(old(self).musicindex@).update(i, (key@, value@)),
                None => items_view(old(self).musicindex@).push((key@, value@)),
            },
    {
        let ghost before = items_view(self.musicindex@);
        match find_key(&self.musicindex, key) {
            Some(i) => {
                proof {
                    lemma_first_with_key_bounds(before, key@);
                }
                let k = self.musicindex[i].key.clone();
                self.musicindex.set(i, TagText { key: k, value });
                assert(items_view(self.musicindex@) =~= before.update(i as int, (key@, value@)));
            },
            None => {
                self.musicindex.push(TagText { key: key.to_owned(), value });
                assert(items_view(self.musicindex@) =~= before.push((key@, value@)));
            },
        }
    }

    /// Removes every MusicIndex item labelled `key`.
    pub fn remove_musicindex_value(&mut self, key: &str)
        ensures
            final(self).tags == old(self).tags,
            final(self).duration == old(self).duration,
            items_view(final(self).musicindex@) == without_key(items_view(old(self).musicindex@), key@),
    {
        let ghost before = items_view(self.musicindex@);
        let mut kept: Vec<TagText> = Vec::new();
        let mut i: usize = 0;
        while i < self.musicindex.len()
            invariant
                i <= self.musicindex@.len(),
                before == items_view(self.musicindex@),
                items_view(kept@) == without_key(before.take(i as int), key@),
            decreases self.musicindex.len() - i,
        {
            proof {
                let t = before.take(i + 1);
                assert(t.drop_last() =~= before.take(i as int));
                assert(t.last() == (self.musicindex@[i as int].key@, self.musicindex@[i as int].value@));
            }
            if !string_eq_text(self.musicindex[i].key.as_str(), key) {
                let ghost k0 = items_view(kept@);
                kept.push(self.musicindex[i].clone());
                assert(items_view(kept@) =~= k0.push(before[i as int]));
            }
            i = i + 1;
        }
        assert(before.take(before.len() as int) =~= before);
        self.musicindex = kept;
    }
}

/// The number of MusicIndex metadata frames.
pub const MUSICINDEX_VOCABULARY_LEN: usize = 16;

/// The MusicIndex metadata frames as (canonical label, frame label) pairs, in
/// the order they are matched.
pub open spec fn musicindex_vocabulary() -> Seq<(Seq<char>, Seq<char>)> {
    seq![
        ("Publisher"@, "TXXX:V4V_PUBLISHER"@),
        ("Feed Guid"@, "TXXX:MusicIndex Feed Guid"@),
        ("Track Guid"@, "TXXX:MusicIndex Track Guid"@),
        ("Nostr Handle"@, "TXXX:RSS Nostr Handle"@),
        ("Website"@, "WOAR"@),
        ("Description"@, "COMM:MusicIndex Description"@),
        ("Contributors"@, "TXXX:MusicIndex Contributors"@),
        ("Value Routes"@, "TXXX:MusicIndex Value Routes"@),
        ("MusicBrainz Recording"@, "UFID:http://musicbrainz.org"@),
        ("MusicBrainz Release"@, "TXXX:MusicBrainz Album Id"@),
        ("MusicBrainz Release Group"@, "TXXX:MusicBrainz Release Group Id"@),
        ("Release Country"@, "TXXX:MusicBrainz Album Release Country"@),
        ("Release Status"@, "TXXX:MusicBrainz Album Status"@),
        ("Barcode"@, "TXXX:BARCODE"@),
        ("Release Type"@, "TXXX:MusicBrainz Album Type"@),
        ("Disc Subtitle"@, "TSST"@)
    ]
}

/// The `i`th MusicIndex metadata frame.
pub fn musicindex_frame(i: usize) -> (f: MusicIndexFrame)
    requires
        i < MUSICINDEX_VOCABULARY_LEN,
    ensures
        (f.canonical@, f.frame_label@) == musicindex_vocabulary()[i as int],
{
    match i {
        0 => MusicIndexFrame { canonical: "Publisher", frame_label: "TXXX:V4V_PUBLISHER" },
        1 => MusicIndexFrame { canonical: "Feed Guid", frame_label: "TXXX:MusicIndex Feed Guid" },
        2 => MusicIndexFrame { canonical: "Track Guid", frame_label: "TXXX:MusicIndex Track Guid" },
        3 => MusicIndexFrame { canonical: "Nostr Handle", frame_label: "TXXX:RSS Nostr Handle" },
        4 => MusicIndexFrame { canonical: "Website", frame_label: "WOAR" },
        5 => MusicIndexFrame { canonical: "Description", frame_label: "COMM:MusicIndex Description" },
        6 => MusicIndexFrame { canonical: "Contributors", frame_label: "TXXX:MusicIndex Contributors" },
        7 => MusicIndexFrame { canonical: "Value Routes", frame_label: "TXXX:MusicIndex Value Routes" },
        8 => MusicIndexFrame { canonical: "MusicBrainz Recording", frame_label: "UFID:http://musicbrainz.org" },
        9 => MusicIndexFrame { canonical: "MusicBrainz Release", frame_label: "TXXX:MusicBrainz Album Id" },
        10 => MusicIndexFrame { canonical: "MusicBrainz Release Group", frame_label: "TXXX:MusicBrainz Release Group Id" },
        11 => MusicIndexFrame { canonical: "Release Country", frame_label: "TXXX:MusicBrainz Album Release Country" },
        12 => MusicIndexFrame { canonical: "Release Status", frame_label: "TXXX:MusicBrainz Album Status" },
        13 => MusicIndexFrame { canonical: "Barcode", frame_label: "TXXX:BARCODE" },
        14 => MusicIndexFrame { canonical: "Release Type", frame_label: "TXXX:MusicBrainz Album Type" },
        _ => MusicIndexFrame { canonical: "Disc Subtitle", frame_label: "TSST" },
    }
}

/// `s` in upper case, as `str::to_uppercase` maps it.
pub uninterp spec fn upper_text(s: Seq<char>) -> Seq<char>;

/// Calls `str::to_uppercase`, which maps each character to its Unicode upper case.
#[verifier::external_body]
fn to_uppercase(s: &str) -> (r: String)
    ensures
        r@ == upper_text(s@),
{
    s.to_uppercase()
}

/// A key compared without regard to spacing or case: its words joined by
/// single spaces, in upper case.
pub open spec fn normalized(key: Seq<char>) -> Seq<char> {
    upper_text(collapse_whitespace(key))
}

/// Normalizes a tag key for comparison.
pub fn normalize_key(key: &str) -> (r: String)
    ensures
        r@ == normalized(key@),
{
    let collapsed = collapse_spaces(key);
    to_uppercase(collapsed.as_str())
}

/// The index of the last `c` in `s`.
pub open spec fn last_index(s: Seq<char>, c: char) -> Option<int>
    decreases s.len(),
{
    if s.len() == 0 {
        None
    } else if s.last() == c {
        Some(s.len() - 1)
    } else {
        last_index(s.drop_last(), c)
    }
}

/// The part of a frame label that a decoded tag key carries: what follows
/// its last `:`, or the whole label.
pub open spec fn frame_key(label: Seq<char>) -> Seq<char> {
    match last_index(label, ':') {
        Some(i) => label.subrange(i + 1, label.len() as int),
        None => label,
    }
}

proof fn lemma_last_index_bounds(s: Seq<char>, c: char)
    ensures
        last_index(s, c) matches Some(i) ==> 0 <= i < s.len(),
    decreases s.len(),
{
    if s.len() > 0 {
        lemma_last_index_bounds(s.drop_last(), c);
    }
}

/// The part of a frame label a tag key is matched against.
pub fn frame_match_key(frame_label: &str) -> (r: String)
    ensures
        r@ == frame_key(frame_label@),
{
    let chars = crate::text::chars_of(frame_label);
    let mut end = chars.len();
    assert(chars@.take(end as int) =~= chars@);
    while end > 0 && chars[end - 1] != ':'
        invariant
            end <= chars@.len(),
            chars@ == frame_label@,
            last_index(frame_label@, ':') == last_index(chars@.take(end as int), ':'),
        decreases end,
    {
        assert(chars@.take(end as int).drop_last() =~= chars@.take(end - 1));
        end = end - 1;
    }
    if end == 0 {
        assert(last_index(chars@.take(0), ':') is None);
        return frame_label.to_owned();
    }
    crate::text::string_from_range(&chars, end, chars.len())
}

/// The canonical MusicIndex label for a tag key: the first frame whose label
/// key matches it, spacing and case aside.
pub open spec fn canonical_key(key: Seq<char>) -> Option<Seq<char>> {
    canonical_key_from(key, 0)
}

/// The canonical label among frames `i..` for `key`.
pub open spec fn canonical_key_from(key: Seq<char>, i: int) -> Option<Seq<char>>
    decreases musicindex_vocabulary().len() - i,
{
    if i < 0 || i >= musicindex_vocabulary().len() {
        None
    } else if normalized(frame_key(musicindex_vocabulary()[i].1)) == normalized(key) {
        Some(musicindex_vocabulary()[i].0)
    } else {
        canonical_key_from(key, i + 1)
    }
}

/// The canonical MusicIndex label for a tag key, if it names a MusicIndex frame.
pub fn canonical_musicindex_key(key: &str) -> (r: Option<&'static str>)
    ensures
        match (r, canonical_key(key@)) {
            (Some(a), Some(b)) => a@ == b,
            (None, None) => true,
            _ => false,
        },
{
    let wanted = normalize_key(key);
    let mut i: usize = 0;
    while i < MUSICINDEX_VOCABULARY_LEN
        invariant
            i <= MUSICINDEX_VOCABULARY_LEN,
            MUSICINDEX_VOCABULARY_LEN == musicindex_vocabulary().len(),
            wanted@ == normalized(key@),
            canonical_key(key@) == canonical_key_from(key@, i as int),
        decreases MUSICINDEX_VOCABULARY_LEN - i,
    {
        let frame = musicindex_frame(i);
        let label_key = frame_match_key(frame.frame_label);
        let normalized_label = normalize_key(label_key.as_str());
        if string_eq_text(normalized_label.as_str(), wanted.as_str()) {
            return Some(frame.canonical);
        }
        i = i + 1;
    }
    None
}

/// A decoded tag key is what follows the last `:` of its frame label: for
/// a label made of any text, a `:` and a rest without `:`, the key is that
/// rest, and a label without `:` is its own key.
pub proof fn law_frame_key_after_last_colon(head: Seq<char>, rest: Seq<char>)
    requires
        !rest.contains(':'),
    ensures
        frame_key(head.push(':') + rest) == rest,
        frame_key(rest) == rest,
{
    lemma_last_index_after(head.push(':'), rest);
    lemma_last_index_none(rest);
    assert((head.push(':') + rest).subrange(head.len() + 1int, (head.push(':') + rest).len() as int)
        =~= rest);
}

proof fn lemma_last_index_after(head: Seq<char>, rest: Seq<char>)
    requires
        head.len() > 0,
        head.last() == ':',
        !rest.contains(':'),
    ensures
        last_index(head + rest, ':') == Some(head.len() - 1),
    decreases rest.len(),
{
    if rest.len() == 0 {
        assert(head + rest =~= head);
    } else {
        assert(rest.last() != ':') by {
            if rest.last() == ':' {
                assert(rest.contains(':') == (rest[rest.len() - 1] == ':'));
            }
        }
        assert((head + rest).drop_last() =~= head + rest.drop_last());
        assert(!rest.drop_last().contains(':')) by {
            if rest.drop_last().contains(':') {
                let k = choose|k: int| 0 <= k < rest.drop_last().len() && rest.drop_last()[k] == ':';
                assert(rest[k] == ':');
            }
        }
        lemma_last_index_after(head, rest.drop_last());
    }
}

proof fn lemma_last_index_none(s: Seq<char>)
    requires
        !s.contains(':'),
    ensures
        last_index(s, ':') is None,
    decreases s.len(),
{
    if s.len() > 0 {
        assert(s.last() != ':') by {
            if s.last() == ':' {
                assert(s[s.len() - 1] == ':');
            }
        }
        assert(!s.drop_last().contains(':')) by {
            if s.drop_last().contains(':') {
                let k = choose|k: int| 0 <= k < s.drop_last().len() && s.drop_last()[k] == ':';
                assert(s[k] == ':');
            }
        }
        lemma_last_index_none(s.drop_last());
    }
}

/// The keys that decoded tag items carry for the MusicIndex frames.
proof fn lemma_vocabulary_frame_keys()
    ensures
        frame_key("TXXX:V4V_PUBLISHER"@) == "V4V_PUBLISHER"@,
        frame_key("TXXX:MusicIndex Feed Guid"@) == "MusicIndex Feed Guid"@,
        frame_key("TXXX:MusicIndex Track Guid"@) == "MusicIndex Track Guid"@,
        frame_key("TXXX:RSS Nostr Handle"@) == "RSS Nostr Handle"@,
        frame_key("WOAR"@) == "WOAR"@,
        frame_key("COMM:MusicIndex Description"@) == "MusicIndex Description"@,
        frame_key("TXXX:MusicIndex Contributors"@) == "MusicIndex Contributors"@,
        frame_key("TXXX:MusicIndex Value Routes"@) == "MusicIndex Value Routes"@,
        frame_key("UFID:http://musicbrainz.org"@) == "//musicbrainz.org"@,
        frame_key("TXXX:MusicBrainz Album Id"@) == "MusicBrainz Album Id"@,
        frame_key("TXXX:MusicBrainz Release Group Id"@) == "MusicBrainz Release Group Id"@,
        frame_key("TXXX:MusicBrainz Album Release Country"@) == "MusicBrainz Album Release Country"@,
        frame_key("TXXX:MusicBrainz Album Status"@) == "MusicBrainz Album Status"@,
        frame_key("TXXX:BARCODE"@) == "BARCODE"@,
        frame_key("TXXX:MusicBrainz Album Type"@) == "MusicBrainz Album Type"@,
        frame_key("TSST"@) == "TSST"@,
{
    reveal_strlit("COMM");
    reveal_strlit("TXXX");
    reveal_strlit("UFID:http");
    reveal_strlit("V4V_PUBLISHER");
    reveal_strlit("TXXX:V4V_PUBLISHER");
    reveal_strlit("MusicIndex Feed Guid");
    reveal_strlit("TXXX:MusicIndex Feed Guid");
    reveal_strlit("MusicIndex Track Guid");
    reveal_strlit("TXXX:MusicIndex Track Guid");
    reveal_strlit("RSS Nostr Handle");
    reveal_strlit("TXXX:RSS Nostr Handle");
    reveal_strlit("WOAR");
    reveal_strlit("MusicIndex Description");
    reveal_strlit("COMM:MusicIndex Description");
    reveal_strlit("MusicIndex Contributors");
    reveal_strlit("TXXX:MusicIndex Contributors");
    reveal_strlit("MusicIndex Value Routes");
    reveal_strlit("TXXX:MusicIndex Value Routes");
    reveal_strlit("//musicbrainz.org");
    reveal_strlit("UFID:http://musicbrainz.org");
    reveal_strlit("MusicBrainz Album Id");
    reveal_strlit("TXXX:MusicBrainz Album Id");
    reveal_strlit("MusicBrainz Release Group Id");
    reveal_strlit("TXXX:MusicBrainz Release Group Id");
    reveal_strlit("MusicBrainz Album Release Country");
    reveal_strlit("TXXX:MusicBrainz Album Release Country");
    reveal_strlit("MusicBrainz Album Status");
    reveal_strlit("TXXX:MusicBrainz Album Status");
    reveal_strlit("BARCODE");
    reveal_strlit("TXXX:BARCODE");
    reveal_strlit("MusicBrainz Album Type");
    reveal_strlit("TXXX:MusicBrainz Album Type");
    reveal_strlit("TSST");
    assert("TXXX:V4V_PUBLISHER"@ =~= "TXXX"@.push(':') + "V4V_PUBLISHER"@);
    lemma_frame_key_of("TXXX"@, "V4V_PUBLISHER"@);
    assert("TXXX:MusicIndex Feed Guid"@ =~= "TXXX"@.push(':') + "MusicIndex Feed Guid"@);
    lemma_frame_key_of("TXXX"@, "MusicIndex Feed Guid"@);
    assert("TXXX:MusicIndex Track Guid"@ =~= "TXXX"@.push(':') + "MusicIndex Track Guid"@);
    lemma_frame_key_of("TXXX"@, "MusicIndex Track Guid"@);
    assert("TXXX:RSS Nostr Handle"@ =~= "TXXX"@.push(':') + "RSS Nostr Handle"@);
    lemma_frame_key_of("TXXX"@, "RSS Nostr Handle"@);
    lemma_frame_key_plain("WOAR"@);
    assert("COMM:MusicIndex Description"@ =~= "COMM"@.push(':') + "MusicIndex Description"@);
    lemma_frame_key_of("COMM"@, "MusicIndex Description"@);
    assert("TXXX:MusicIndex Contributors"@ =~= "TXXX"@.push(':') + "MusicIndex Contributors"@);
    lemma_frame_key_of("TXXX"@, "MusicIndex Contributors"@);
    assert("TXXX:MusicIndex Value Routes"@ =~= "TXXX"@.push(':') + "MusicIndex Value Routes"@);
    lemma_frame_key_of("TXXX"@, "MusicIndex Value Routes"@);
    assert("UFID:http://musicbrainz.org"@ =~= "UFID:http"@.push(':') + "//musicbrainz.org"@);
    lemma_frame_key_of("UFID:http"@, "//musicbrainz.org"@);
    assert("TXXX:MusicBrainz Album Id"@ =~= "TXXX"@.push(':') + "MusicBrainz Album Id"@);
    lemma_frame_key_of("TXXX"@, "MusicBrainz Album Id"@);
    assert("TXXX:MusicBrainz Release Group Id"@ =~= "TXXX"@.push(':') + "MusicBrainz Release Group Id"@);
    lemma_frame_key_of("TXXX"@, "MusicBrainz Release Group Id"@);
    assert("TXXX:MusicBrainz Album Release Country"@ =~= "TXXX"@.push(':') + "MusicBrainz Album Release Country"@);
    lemma_frame_key_of("TXXX"@, "MusicBrainz Album Release Country"@);
    assert("TXXX:MusicBrainz Album Status"@ =~= "TXXX"@.push(':') + "MusicBrainz Album Status"@);
    lemma_frame_key_of("TXXX"@, "MusicBrainz Album Status"@);
    assert("TXXX:BARCODE"@ =~= "TXXX"@.push(':') + "BARCODE"@);
    lemma_frame_key_of("TXXX"@, "BARCODE"@);
    assert("TXXX:MusicBrainz Album Type"@ =~= "TXXX"@.push(':') + "MusicBrainz Album Type"@);
    lemma_frame_key_of("TXXX"@, "MusicBrainz Album Type"@);
    lemma_frame_key_plain("TSST"@);
}

/// `frame_key(rest)` is `rest` when `rest` holds no `:`.
proof fn lemma_frame_key_plain(rest: Seq<char>)
    requires
        forall|k: int| 0 <= k < rest.len() ==> rest[k] != ':',
    ensures
        frame_key(rest) == rest,
{
    law_frame_key_after_last_colon(Seq::empty(), rest);
}

/// The MusicIndex frame table: a tag key is filed under the canonical label
/// of the first of these frames whose key it matches, spacing and case aside,
/// and under none when it matches none of them. The keys are those that the
/// frames `TXXX:V4V_PUBLISHER`, `TXXX:MusicIndex Feed Guid`, `TXXX:MusicIndex
/// Track Guid`, `TXXX:RSS Nostr Handle`, `WOAR`, `COMM:MusicIndex Description`,
/// `TXXX:MusicIndex Contributors`, `TXXX:MusicIndex Value Routes`,
/// `UFID:http://musicbrainz.org`, `TXXX:MusicBrainz Album Id`,
/// `TXXX:MusicBrainz Release Group Id`, `TXXX:MusicBrainz Album Release
/// Country`, `TXXX:MusicBrainz Album Status`, `TXXX:BARCODE`,
/// `TXXX:MusicBrainz Album Type` and `TSST` decode to.
pub proof fn law_frame_table(key: Seq<char>)
    ensures
        canonical_key(key) ==
        if normalized(key) == normalized("V4V_PUBLISHER"@) {
            Some("Publisher"@)
        } else if normalized(key) == normalized("MusicIndex Feed Guid"@) {
            Some("Feed Guid"@)
        } else if normalized(key) == normalized("MusicIndex Track Guid"@) {
            Some("Track Guid"@)
        } else if normalized(key) == normalized("RSS Nostr Handle"@) {
            Some("Nostr Handle"@)
        } else if normalized(key) == normalized("WOAR"@) {
            Some("Website"@)
        } else if normalized(key) == normalized("MusicIndex Description"@) {
            Some("Description"@)
        } else if normalized(key) == normalized("MusicIndex Contributors"@) {
            Some("Contributors"@)
        } else if normalized(key) == normalized("MusicIndex Value Routes"@) {
            Some("Value Routes"@)
        } else if normalized(key) == normalized("//musicbrainz.org"@) {
            Some("MusicBrainz Recording"@)
        } else if normalized(key) == normalized("MusicBrainz Album Id"@) {
            Some("MusicBrainz Release"@)
        } else if normalized(key) == normalized("MusicBrainz Release Group Id"@) {
            Some("MusicBrainz Release Group"@)
        } else if normalized(key) == normalized("MusicBrainz Album Release Country"@) {
            Some("Release Country"@)
        } else if normalized(key) == normalized("MusicBrainz Album Status"@) {
            Some("Release Status"@)
        } else if normalized(key) == normalized("BARCODE"@) {
            Some("Barcode"@)
        } else if normalized(key) == normalized("MusicBrainz Album Type"@) {
            Some("Release Type"@)
        } else if normalized(key) == normalized("TSST"@) {
            Some("Disc Subtitle"@)
        } else {
            None
        },
{
    lemma_vocabulary_frame_keys();
    reveal_with_fuel(canonical_key_from, 17);
}

/// A key that matches the Track Guid frame (`TXXX:MusicIndex Track Guid`),
/// spacing and case aside, and neither frame before it in the table, is filed
/// as the MusicIndex item "Track Guid"; likewise a key matching the Feed Guid
/// frame and not the Publisher frame is filed as "Feed Guid", and one matching
/// the Publisher frame as "Publisher".
pub proof fn law_guid_frames_filed(key: Seq<char>)
    ensures
        normalized(key) == normalized("V4V_PUBLISHER"@) ==> canonical_key(key) == Some(
            "Publisher"@,
        ),
        normalized(key) == normalized("MusicIndex Feed Guid"@) && normalized(key) != normalized(
            "V4V_PUBLISHER"@,
        ) ==> canonical_key(key) == Some("Feed Guid"@),
        normalized(key) == normalized("MusicIndex Track Guid"@) && normalized(key) != normalized(
            "V4V_PUBLISHER"@,
        ) && normalized(key) != normalized("MusicIndex Feed Guid"@) ==> canonical_key(key) == Some(
            "Track Guid"@,
        ),
{
    lemma_vocabulary_frame_keys();
    reveal_with_fuel(canonical_key_from, 4);
}

/// `frame_key(head:rest)` is `rest` when `rest` holds no `:`, checked on
/// the characters of `rest` one by one.
proof fn lemma_frame_key_of(head: Seq<char>, rest: Seq<char>)
    requires
        forall|k: int| 0 <= k < rest.len() ==> rest[k] != ':',
    ensures
        frame_key(head.push(':') + rest) == rest,
{
    law_frame_key_after_last_colon(head, rest);
}

/// Whether a tag key names a lyrics or transcript frame, which the producer leaves out.
pub open spec fn is_transcript(key: Seq<char>) -> bool {
    let n = normalized(frame_key(key));
    n == "USLT"@ || n == "MUSICINDEX TRANSCRIPT"@
}

/// Whether a tag key names a transcript frame.
pub fn is_transcript_key(key: &str) -> (b: bool)
    ensures
        b == is_transcript(key@),
{
    let k = frame_match_key(key);
    let n = normalize_key(k.as_str());
    string_eq_text(n.as_str(), "USLT") || string_eq_text(n.as_str(), "MUSICINDEX TRANSCRIPT")
}

/// Whether a tag key names a binary frame shown only as a size.
pub open spec fn is_binary_summary(key: Seq<char>) -> bool {
    let n = normalized(key);
    n == "APIC"@ || n == "PRIV"@ || n == "UFID"@
}

/// Whether a tag key names a binary frame.
pub fn is_binary_summary_key(key: &str) -> (b: bool)
    ensures
        b == is_binary_summary(key@),
{
    let n = normalize_key(key);
    string_eq_text(n.as_str(), "APIC") || string_eq_text(n.as_str(), "PRIV") || string_eq_text(
        n.as_str(),
        "UFID",
    )
}

/// The number of bytes of `s` in UTF-8, as `str::len` reports it.
pub open spec fn utf8_len(s: Seq<char>) -> nat {
    (vstd::utf8::encode_utf8(s).len() as usize) as nat
}

/// `"<n> bytes"`.
pub open spec fn bytes_text(n: nat) -> Seq<char> {
    decimal(n) + " bytes"@
}

/// How a binary frame's value is shown: its size, or for a frame that came
/// with text, the key and the text's size.
pub open spec fn binary_summary_text(key: Seq<char>, value: ItemValue) -> Seq<char> {
    match value {
        ItemValue::Binary(b) => bytes_text(b@.len()),
        ItemValue::Text(t) | ItemValue::Locator(t) => if t@.len() == 0 {
            "0 bytes"@
        } else {
            key + " text, "@ + bytes_text(utf8_len(t@))
        },
    }
}

/// How a tag item's value is shown.
pub open spec fn item_value_text(key: Seq<char>, value: ItemValue) -> Seq<char> {
    if is_binary_summary(key) {
        binary_summary_text(key, value)
    } else {
        match value {
            ItemValue::Text(t) | ItemValue::Locator(t) => t@,
            ItemValue::Binary(b) => bytes_text(b@.len()),
        }
    }
}

fn bytes_phrase(out: &mut String, n: usize)
    ensures
        final(out)@ == old(out)@ + bytes_text(n as nat),
{
    push_str(out, decimal_text(n as u64).as_str());
    push_str(out, " bytes");
}

/// Summarizes a binary frame's value.
pub fn binary_summary(key: &str, value: &ItemValue) -> (r: String)
    ensures
        r@ == binary_summary_text(key@, *value),
{
    let mut out = String::new();
    match value {
        ItemValue::Binary(b) => bytes_phrase(&mut out, b.len()),
        ItemValue::Text(t) | ItemValue::Locator(t) => {
            if t.as_str().is_empty() {
                push_str(&mut out, "0 bytes");
            } else {
                push_str(&mut out, key);
                push_str(&mut out, " text, ");
                bytes_phrase(&mut out, t.as_str().len());
            }
        },
    }
    out
}

/// Renders a tag item's value as text.
pub fn render_item_value(key: &str, value: &ItemValue) -> (r: String)
    ensures
        r@ == item_value_text(key@, *value),
{
    if is_binary_summary_key(key) {
        return binary_summary(key, value);
    }
    match value {
        ItemValue::Text(t) | ItemValue::Locator(t) => t.clone(),
        ItemValue::Binary(b) => {
            let mut out = String::new();
            bytes_phrase(&mut out, b.len());
            out
        },
    }
}

/// Files a tag item: under its canonical label among the MusicIndex items
/// when its key names a MusicIndex frame, else among the other tags.
pub fn push_tag_text(track_tags: &mut TrackTags, key: String, value: String)
    ensures
        final(track_tags).duration == old(track_tags).duration,
        match canonical_key(key@) {
            Some(c) => items_view(final(track_tags).musicindex@) == items_view(
                old(track_tags).musicindex@,
            ).push((c, value@)) && final(track_tags).tags == old(track_tags).tags,
            None => items_view(final(track_tags).tags@) == items_view(old(track_tags).tags@).push(
                (key@, value@),
            ) && final(track_tags).musicindex == old(track_tags).musicindex,
        },
{
    match canonical_musicindex_key(key.as_str()) {
        Some(canonical) => {
            let ghost before = items_view(track_tags.musicindex@);
            track_tags.musicindex.push(TagText { key: canonical.to_owned(), value });
            assert(items_view(track_tags.musicindex@) =~= before.push((canonical@, value@)));
        },
        None => {
            let ghost before = items_view(track_tags.tags@);
            let ghost k = key@;
            track_tags.tags.push(TagText { key, value });
            assert(items_view(track_tags.tags@) =~= before.push((k, value@)));
        },
    }
}

/// Adds one decoded tag item to a track's tags: transcripts are left out,
/// and every other item is filed with its value rendered as text.
pub fn collect_tag_item(track_tags: &mut TrackTags, key: String, value: &ItemValue)
    ensures
        is_transcript(key@) ==> *final(track_tags) == *old(track_tags),
        !is_transcript(key@) ==> final(track_tags).duration == old(track_tags).duration && match canonical_key(key@) {
            Some(c) => items_view(final(track_tags).musicindex@) == items_view(
                old(track_tags).musicindex@,
            ).push((c, item_value_text(key@, *value))) && final(track_tags).tags == old(track_tags).tags,
            None => items_view(final(track_tags).tags@) == items_view(old(track_tags).tags@).push(
                (key@, item_value_text(key@, *value)),
            ) && final(track_tags).musicindex == old(track_tags).musicindex,
        },
{
    if is_transcript_key(key.as_str()) {
        return;
    }
    let rendered = render_item_value(key.as_str(), value);
    push_tag_text(track_tags, key, rendered);
}

/// A track duration, or none when it is zero (the file did not say).
pub fn nonzero_duration(duration: Duration) -> (r: Option<Duration>)
    ensures
        duration@ == 0 ==> r is None,
        duration@ != 0 ==> r == Some(duration),
{
    if duration.is_zero() {
        None
    } else {
        Some(duration)
    }
}

} // verus!
