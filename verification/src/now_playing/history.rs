//! Mixxx play-history polling rules.
//!
//! Querying the Mixxx database happens around this module. Here are the
//! rules around the query: when a poll may skip it, which row counts as a
//! new track, and the read-only URI the database is opened with.

use vstd::prelude::*;
use crate::text::{push_char, push_str};

verus! {

/// The newest row of the Mixxx play history.
#[derive(Debug, PartialEq, Eq)]
pub struct TrackRow {
    pub hist_id: i64,
    pub artist: String,
    pub title: String,
    pub path: String,
}

/// What a history poller remembers between polls: the last history row it
/// reported and the last database version it saw.
#[derive(Clone, Copy, Debug, PartialEq, Eq, Structural)]
pub struct HistoryGate {
    pub last_hist_id: Option<i64>,
    pub last_data_version: Option<i64>,
}

impl HistoryGate {
    /// A gate that has seen nothing.
    pub fn new() -> (g: Self)
        ensures
            g.last_hist_id is None,
            g.last_data_version is None,
    {
        HistoryGate { last_hist_id: None, last_data_version: None }
    }

    /// Whether the database may have changed since the last poll, given the
    /// `PRAGMA data_version` it reports now (`None` when that could not be
    /// read). Any uncertainty counts as a change: missing a track change is
    /// far worse than one wasted query.
    pub fn database_changed(&mut self, version: Option<i64>) -> (changed: bool)
        ensures
            final(self).last_hist_id == old(self).last_hist_id,
            final(self).last_data_version == version,
            changed == (version is None || old(self).last_data_version != version),
    {
        match version {
            None => {
                self.last_data_version = None;
                true
            },
            Some(v) => {
                let changed = self.last_data_version != Some(v);
                self.last_data_version = Some(v);
                changed
            },
        }
    }

    /// Passes on the newest history row only when it is a different row
    /// from the last one reported.
    pub fn observe_row(&mut self, row: TrackRow) -> (r: Option<TrackRow>)
        ensures
            observed(*old(self), row, *final(self), r),
    {
        if self.last_hist_id == Some(row.hist_id) {
            return None;
        }
        self.last_hist_id = Some(row.hist_id);
        Some(row)
    }
}

/// Observing `row` takes gate `g0` to `g1` and reports `r`.
pub open spec fn observed(g0: HistoryGate, row: TrackRow, g1: HistoryGate, r: Option<TrackRow>) -> bool {
    &&& g1.last_data_version == g0.last_data_version
    &&& g0.last_hist_id == Some(row.hist_id) ==> r is None && g1.last_hist_id == g0.last_hist_id
    &&& g0.last_hist_id != Some(row.hist_id) ==> r == Some(row) && g1.last_hist_id == Some(row.hist_id)
}

/// A history row is reported once: however it was observed, observing a row
/// with the same history ID again reports nothing.
pub proof fn law_row_reported_once(
    g0: HistoryGate,
    first: TrackRow,
    g1: HistoryGate,
    r1: Option<TrackRow>,
    again: TrackRow,
    g2: HistoryGate,
    r2: Option<TrackRow>,
)
    requires
        observed(g0, first, g1, r1),
        observed(g1, again, g2, r2),
        again.hist_id == first.hist_id,
    ensures
        r2 is None,
        g2.last_hist_id == Some(first.hist_id),
{
}

/// Whether a byte is left as it is in a database URI path.
pub open spec fn is_unreserved(b: u8) -> bool {
    (0x41 <= b <= 0x5A) || (0x61 <= b <= 0x7A) || (0x30 <= b <= 0x39) || b == 0x2D || b == 0x2E
        || b == 0x5F || b == 0x7E || b == 0x2F
}

/// The uppercase hexadecimal digit for `d`, which is below sixteen.
pub open spec fn hex_digit(d: nat) -> char {
    if d < 10 {
        (d + 48) as char
    } else {
        (d + 55) as char
    }
}

/// A path's UTF-8 bytes percent-encoded: unreserved bytes as themselves, the
/// rest as `%` and two uppercase hexadecimal digits.
pub open spec fn percent_encoded(bytes: Seq<u8>) -> Seq<char>
    decreases bytes.len(),
{
    if bytes.len() == 0 {
        Seq::empty()
    } else {
        let b = bytes.last();
        percent_encoded(bytes.drop_last()) + if is_unreserved(b) {
            seq![(b as u32) as char]
        } else {
            seq!['%', hex_digit(b as nat / 16), hex_digit(b as nat % 16)]
        }
    }
}

fn hex_char(d: u8) -> (c: char)
    requires
        d < 16,
    ensures
        c == hex_digit(d as nat),
{
    if d < 10 {
        (d + 48) as char
    } else {
        (d + 55) as char
    }
}

/// Percent-encodes a path for a SQLite URI.
pub fn percent_encode_path(path: &str) -> (r: String)
    ensures
        r@ == percent_encoded(vstd::utf8::encode_utf8(path@)),
{
    let bytes = path.as_bytes();
    let ghost bs = bytes@;
    let mut encoded = String::new();
    let mut i: usize = 0;
    while i < bytes.len()
        invariant
            i <= bs.len(),
            bs == bytes@,
            bs == vstd::utf8::encode_utf8(path@),
            encoded@ == percent_encoded(bs.take(i as int)),
        decreases bytes.len() - i,
    {
        let b = bytes[i];
        proof {
            assert(bs.take(i + 1).drop_last() =~= bs.take(i as int));
            assert(bs.take(i + 1).last() == b);
        }
        let ghost before = encoded@;
        if (0x41 <= b && b <= 0x5A) || (0x61 <= b && b <= 0x7A) || (0x30 <= b && b <= 0x39) || b
            == 0x2D || b == 0x2E || b == 0x5F || b == 0x7E || b == 0x2F {
            push_char(&mut encoded, b as char);
            assert(encoded@ =~= before + seq![(b as u32) as char]);
        } else {
            push_char(&mut encoded, '%');
            push_char(&mut encoded, hex_char(b / 16));
            push_char(&mut encoded, hex_char(b % 16));
            assert(encoded@ =~= before + seq!['%', hex_digit(b as nat / 16), hex_digit(b as nat % 16)]);
        }
        i = i + 1;
    }
    assert(bs.take(bs.len() as int) =~= bs);
    encoded
}

/// The read-only SQLite URI for a database path.
pub fn sqlite_uri(path: &str) -> (r: String)
    ensures
        r@ == "file:"@ + percent_encoded(vstd::utf8::encode_utf8(path@)) + "?mode=ro"@,
{
    let mut uri = String::new();
    push_str(&mut uri, "file:");
    push_str(&mut uri, percent_encode_path(path).as_str());
    push_str(&mut uri, "?mode=ro");
    uri
}

} // verus!
