//! The uniform records the client core returns: the video record, the
//! resolved channel reference, the one-page listing response, and the two
//! small settings/statistics records the surrounding application stores.

use vstd::prelude::*;
use vstd::string::*;
use crate::text;

verus! {

/// One normalized video record. A record lacking an id is never
/// constructed: every producer in this crate establishes `wf`. An empty
/// optional field means "unknown", never "error".
#[derive(Debug, Clone, PartialEq)]
pub struct Video {
    pub id: String,
    pub title: String,
    pub thumbnail: String,
    pub published_at: String,
    pub view_count: String,
    pub author: Option<String>,
    pub status: Option<String>,
    pub date_added: Option<String>,
}

impl Video {
    /// Every emitted record carries a non-empty id.
    pub open spec fn wf(self) -> bool {
        self.id@.len() > 0
    }
}

/// A resolved channel reference: the canonical channel id plus the query
/// text it was resolved from.
#[derive(Debug, Clone, PartialEq)]
pub struct ChannelInfo {
    pub channel_id: String,
    pub channel_name: String,
}

/// One page of a listing: the records found plus the opaque token for the
/// next page, when the response carried one.
#[derive(Debug, Clone, PartialEq)]
pub struct VideoResponse {
    pub videos: Vec<Video>,
    pub continuation: Option<String>,
}

/// Window display settings kept by the surrounding application.
#[derive(Debug, Clone, PartialEq)]
pub struct DisplaySettings {
    pub resolution: String,
    pub fullscreen: bool,
}

impl Default for DisplaySettings {
    fn default() -> (r: Self)
        ensures
            r.resolution@ == "1440x900"@,
            !r.fullscreen,
    {
        DisplaySettings { resolution: String::from_str("1440x900"), fullscreen: false }
    }
}

/// One stored row of the collaborator-owned cache, as handed back by it:
/// everything a saved video carries, transcript included.
#[derive(Debug, Clone, PartialEq)]
pub struct SavedRow {
    pub id: String,
    pub title: String,
    pub author: String,
    pub length_seconds: i32,
    pub transcript: String,
    pub view_count: String,
    pub published_at: String,
}

/// Statistics about the persistent store, reported by the application.
#[derive(Debug, Clone, PartialEq)]
pub struct DbDetails {
    pub path: String,
    pub size_bytes: u64,
    pub video_count: i64,
}

/// The derived fallback address of a video's preview image.
pub open spec fn spec_canonical_thumbnail(id: Seq<char>) -> Seq<char> {
    "https://i.ytimg.com/vi/"@ + id + "/hqdefault.jpg"@
}

pub fn canonical_thumbnail(id: &str) -> (r: String)
    ensures
        r@ == spec_canonical_thumbnail(id@),
{
    let mut s = String::from_str("https://i.ytimg.com/vi/");
    s.append(id);
    s.append("/hqdefault.jpg");
    s
}

/// A `"<width>x<height>"` resolution string parsed at the first `x`;
/// `None` unless both sides are non-empty digit strings within `u32`.
pub open spec fn spec_parse_resolution(s: Seq<char>) -> Option<(u32, u32)> {
    match text::find_at(s, seq!['x'], 0) {
        Some(k) => {
            let w = s.subrange(0, k);
            let h = s.subrange(k + 1, s.len() as int);
            if w.len() > 0 && h.len() > 0 && text::all_digits(w) && text::all_digits(h)
                && text::digits_val(w) <= u32::MAX && text::digits_val(h) <= u32::MAX {
                Some((text::digits_val(w) as u32, text::digits_val(h) as u32))
            } else {
                None
            }
        },
        None => None,
    }
}

pub fn parse_resolution(s: &str) -> (r: Option<(u32, u32)>)
    ensures
        r == spec_parse_resolution(s@),
{
    proof {
        reveal_strlit("x");
        assert("x"@ =~= seq!['x']);
    }
    let n = s.unicode_len();
    match text::find_from(s, "x", 0) {
        Some(k) => {
            proof {
                text::lemma_find_at_props(s@, "x"@, 0);
            }
            let w = s.substring_char(0, k);
            let h = s.substring_char(k + 1, n);
            let wv = match text::parse_u64_digits(w) {
                Some(v) => v,
                None => {
                    return None;
                },
            };
            let hv = match text::parse_u64_digits(h) {
                Some(v) => v,
                None => {
                    return None;
                },
            };
            if wv <= u32::MAX as u64 && hv <= u32::MAX as u64 {
                Some((wv as u32, hv as u32))
            } else {
                None
            }
        },
        None => None,
    }
}

} // verus!
