//! The text the now-playing producer writes, and the drop file it hands to
//! the publisher.

use vstd::prelude::*;
use crate::dropfile::{DropFile, FloatBits, PaymentRoute, SCHEMA_VERSION};
use crate::now_playing::musicindex::{musicindex_text, source_text, ValueRoutesSource};
use crate::now_playing::tags::{utf8_len, TagText, TrackTags};
use crate::text::{chars_of, opt_text, push_char, push_str, string_eq_text};

verus! {

/// What the metadata text describes: the track's artist and title, and its tags.
#[derive(Clone, Copy)]
pub struct TrackDisplay<'a> {
    pub artist: &'a str,
    pub title: &'a str,
    pub tags: &'a TrackTags,
}

/// `s` without any `c`.
pub open spec fn drop_char(s: Seq<char>, c: char) -> Seq<char>
    decreases s.len(),
{
    if s.len() == 0 {
        Seq::empty()
    } else if s.last() == c {
        drop_char(s.drop_last(), c)
    } else {
        drop_char(s.drop_last(), c).push(s.last())
    }
}

/// `s` with each `|` written as ` - `.
pub open spec fn bars_as_dashes(s: Seq<char>) -> Seq<char>
    decreases s.len(),
{
    if s.len() == 0 {
        Seq::empty()
    } else if s.last() == '|' {
        bars_as_dashes(s.drop_last()) + " - "@
    } else {
        bars_as_dashes(s.drop_last()).push(s.last())
    }
}

/// The now-playing line that streaming tools read: `artist|title`, with
/// hyphens stripped when asked, and then every `|` (the joining one and any
/// in the names) written as ` - `.
pub open spec fn now_playing_line(artist: Seq<char>, title: Seq<char>, strip_hyphens: bool) -> Seq<char> {
    let joined = artist + "|"@ + title;
    bars_as_dashes(if strip_hyphens { drop_char(joined, '-') } else { joined })
}

/// Renders the now-playing line for a track.
pub fn render_now_playing_line(artist: &str, title: &str, strip_hyphens: bool) -> (line: String)
    ensures
        line@ == now_playing_line(artist@, title@, strip_hyphens),
{
    proof {
        reveal_strlit(" - ");
    }
    let mut joined = artist.to_owned();
    push_str(&mut joined, "|");
    push_str(&mut joined, title);
    let chars = chars_of(joined.as_str());
    let ghost source = if strip_hyphens { drop_char(joined@, '-') } else { joined@ };
    let mut stripped = String::new();
    let mut line = String::new();
    let mut i: usize = 0;
    while i < chars.len()
        invariant
            i <= chars@.len(),
            chars@ == joined@,
            stripped@ == if strip_hyphens { drop_char(chars@.take(i as int), '-') } else { chars@.take(i as int) },
            line@ == bars_as_dashes(stripped@),
        decreases chars.len() - i,
    {
        let c = chars[i];
        proof {
            assert(chars@.take(i + 1).drop_last() =~= chars@.take(i as int));
            assert(chars@.take(i + 1).last() == c);
        }
        if !(strip_hyphens && c == '-') {
            let ghost before = stripped@;
            push_char(&mut stripped, c);
            assert(stripped@.drop_last() =~= before);
            if c == '|' {
                push_str(&mut line, " - ");
            } else {
                push_char(&mut line, c);
            }
        }
        i = i + 1;
    }
    assert(chars@.take(chars@.len() as int) =~= chars@);
    line
}

/// The largest UTF-8 length of the items' keys, or zero.
pub open spec fn key_width(items: Seq<TagText>) -> nat
    decreases items.len(),
{
    if items.len() == 0 {
        0
    } else {
        let rest = key_width(items.drop_last());
        let here = utf8_len(items.last().key@);
        if here > rest { here } else { rest }
    }
}

/// `n` spaces.
pub open spec fn spaces(n: nat) -> Seq<char> {
    Seq::new(n, |i: int| ' ')
}

/// `key` padded with spaces to `width` characters (`{:<width$}`).
pub open spec fn padded(key: Seq<char>, width: nat) -> Seq<char> {
    key + spaces(if width > key.len() { (width - key.len()) as nat } else { 0 })
}

/// The line for one tag item: `key = value`, with the key padded to
/// `width`; the `Value Routes` item of a MusicIndex section names its source
/// and puts the routes on a line of their own.
pub open spec fn item_line(item: TagText, width: nat, source: Option<ValueRoutesSource>) -> Seq<char> {
    match source {
        Some(s) => if item.key@ == "Value Routes"@ {
            padded(item.key@, width) + " = "@ + source_text(s) + "\n"@ + item.value@ + "\n"@
        } else {
            padded(item.key@, width) + " = "@ + item.value@ + "\n"@
        },
        None => padded(item.key@, width) + " = "@ + item.value@ + "\n"@,
    }
}

/// The lines for `items`, each key padded to `width`.
pub open spec fn items_text(items: Seq<TagText>, width: nat, source: Option<ValueRoutesSource>) -> Seq<char>
    decreases items.len(),
{
    if items.len() == 0 {
        Seq::empty()
    } else {
        items_text(items.drop_last(), width, source) + item_line(items.last(), width, source)
    }
}

/// The metadata text for a track: `artist - title`, a blank line, then a
/// `[MusicIndex]` section and a `[Tags]` section, each only when it has items.
pub open spec fn metadata_text(artist: Seq<char>, title: Seq<char>, tags: TrackTags, source: ValueRoutesSource) -> Seq<char> {
    let mi = tags.musicindex@;
    let other = tags.tags@;
    artist + " - "@ + title + "\n\n"@ + (if mi.len() > 0 {
        "[MusicIndex]\n"@ + items_text(mi, key_width(mi), Some(source)) + "\n"@
    } else {
        Seq::empty()
    }) + (if other.len() > 0 {
        "[Tags]\n"@ + items_text(other, key_width(other), None)
    } else {
        Seq::empty()
    })
}

fn items_key_width(items: &Vec<TagText>) -> (w: usize)
    ensures
        w as nat == key_width(items@),
{
    let mut w: usize = 0;
    let mut i: usize = 0;
    while i < items.len()
        invariant
            i <= items@.len(),
            w as nat == key_width(items@.take(i as int)),
        decreases items.len() - i,
    {
        proof {
            assert(items@.take(i + 1).drop_last() =~= items@.take(i as int));
            assert(items@.take(i + 1).last() == items@[i as int]);
        }
        let len = items[i].key.as_str().len();
        if len > w {
            w = len;
        }
        i = i + 1;
    }
    assert(items@.take(items@.len() as int) =~= items@);
    w
}

fn push_padded(out: &mut String, key: &str, width: usize)
    ensures
        final(out)@ == old(out)@ + padded(key@, width as nat),
{
    push_str(out, key);
    let count = chars_of(key).len();
    let ghost start = out@;
    let mut k = count;
    while k < width
        invariant
            count == key@.len(),
            count <= k <= width || (k == count && count >= width),
            out@ == start + spaces((k - count) as nat),
        decreases width - k,
    {
        push_char(out, ' ');
        k = k + 1;
        assert(out@ =~= start + spaces((k - count) as nat));
    }
    proof {
        if width > key@.len() {
            assert(k == width);
        } else {
            assert(spaces(0) =~= Seq::<char>::empty());
        }
        assert(old(out)@ + padded(key@, width as nat) =~= start + spaces(
            if width > key@.len() { (width - key@.len()) as nat } else { 0 },
        ));
    }
}

/// Appends the lines for `items`, each key padded to the widest key.
pub fn render_items(output: &mut String, items: &Vec<TagText>, value_routes_source: Option<ValueRoutesSource>)
    ensures
        final(output)@ == old(output)@ + items_text(items@, key_width(items@), value_routes_source),
{
    let width = items_key_width(items);
    let ghost start = output@;
    let mut i: usize = 0;
    while i < items.len()
        invariant
            i <= items@.len(),
            width as nat == key_width(items@),
            output@ == start + items_text(items@.take(i as int), width as nat, value_routes_source),
        decreases items.len() - i,
    {
        let item = &items[i];
        let ghost before = output@;
        push_padded(output, item.key.as_str(), width);
        push_str(output, " = ");
        let routes_line = match value_routes_source {
            Some(source) => if string_eq_text(item.key.as_str(), "Value Routes") {
                Some(source)
            } else {
                None
            },
            None => None,
        };
        match routes_line {
            Some(source) => {
                push_str(output, source.as_str());
                push_str(output, "\n");
                push_str(output, item.value.as_str());
                push_str(output, "\n");
            },
            None => {
                push_str(output, item.value.as_str());
                push_str(output, "\n");
            },
        }
        proof {
            assert(items@.take(i + 1).drop_last() =~= items@.take(i as int));
            assert(items@.take(i + 1).last() == *item);
            assert(output@ =~= before + item_line(*item, width as nat, value_routes_source));
        }
        i = i + 1;
    }
    assert(items@.take(items@.len() as int) =~= items@);
}

/// Renders the metadata text for a track, marking where its value routes came from.
pub fn render_metadata_text_with_routes(display: TrackDisplay, value_routes_source: ValueRoutesSource) -> (text: String)
    ensures
        text@ == metadata_text(display.artist@, display.title@, *display.tags, value_routes_source),
{
    let mut output = String::new();
    push_str(&mut output, display.artist);
    push_str(&mut output, " - ");
    push_str(&mut output, display.title);
    push_str(&mut output, "\n\n");
    let ghost head = output@;
    if display.tags.musicindex.len() > 0 {
        push_str(&mut output, "[MusicIndex]\n");
        render_items(&mut output, &display.tags.musicindex, Some(value_routes_source));
        push_str(&mut output, "\n");
    } else {
        assert(output@ =~= head + Seq::<char>::empty());
    }
    let ghost middle = output@;
    if display.tags.tags.len() > 0 {
        push_str(&mut output, "[Tags]\n");
        render_items(&mut output, &display.tags.tags, None);
    } else {
        assert(output@ =~= middle + Seq::<char>::empty());
    }
    output
}

/// Renders the metadata text for a track whose routes, if any, are embedded.
pub fn render_metadata_text(display: TrackDisplay) -> (text: String)
    ensures
        text@ == metadata_text(display.artist@, display.title@, *display.tags, ValueRoutesSource::EmbeddedId3),
{
    render_metadata_text_with_routes(display, ValueRoutesSource::EmbeddedId3)
}

fn owned_value(tags: &TrackTags, key: &str) -> (r: Option<String>)
    ensures
        opt_text(r) == musicindex_text(*tags, key@),
{
    match tags.musicindex_value(key) {
        Some(v) => Some(v.to_owned()),
        None => None,
    }
}

/// The drop file the producer writes for a track: the supported schema, the
/// target, the track's artist and title, its length `duration_secs` in
/// seconds, its `Image`, `Feed Guid` and `Track Guid` MusicIndex items, the
/// payment routes `value_routes` read from its `Value Routes` item, and,
/// when it has that item, where the routes came from.
pub fn metadata_drop_file(
    display: TrackDisplay,
    target: &str,
    value_routes_source: ValueRoutesSource,
    duration_secs: Option<FloatBits>,
    value_routes: Vec<PaymentRoute>,
) -> (d: DropFile)
    ensures
        d.schema@ == SCHEMA_VERSION@,
        d.target@ == target@,
        d.artist@ == display.artist@,
        d.title@ == display.title@,
        d.duration_secs == duration_secs,
        opt_text(d.image) == musicindex_text(*display.tags, "Image"@),
        opt_text(d.feed_guid) == musicindex_text(*display.tags, "Feed Guid"@),
        opt_text(d.track_guid) == musicindex_text(*display.tags, "Track Guid"@),
        d.value_routes == value_routes,
        opt_text(d.value_routes_source) == match musicindex_text(*display.tags, "Value Routes"@) {
            Some(_) => Some(source_text(value_routes_source)),
            None => None,
        },
{
    let source = match display.tags.musicindex_value("Value Routes") {
        Some(_) => Some(value_routes_source.as_str().to_owned()),
        None => None,
    };
    DropFile {
        schema: SCHEMA_VERSION.to_owned(),
        target: target.to_owned(),
        artist: display.artist.to_owned(),
        title: display.title.to_owned(),
        duration_secs,
        image: owned_value(display.tags, "Image"),
        feed_guid: owned_value(display.tags, "Feed Guid"),
        track_guid: owned_value(display.tags, "Track Guid"),
        value_routes,
        value_routes_source: source,
    }
}

} // verus!
