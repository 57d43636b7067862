//! Identifier handling: pulling video/playlist ids out of address text,
//! the uploads-playlist and browse-id transforms, and the ordered
//! pattern chain that resolves a channel page to its canonical id.

use vstd::prelude::*;
use vstd::string::*;
use crate::errors::ApiError;
use crate::records::ChannelInfo;
use crate::text;

verus! {

/// The position of the first of the `stops` characters at or after `i`,
/// or the length when none occurs.
pub open spec fn first_stop_from(t: Seq<char>, stops: Seq<char>, i: int) -> int
    decreases t.len() - i,
{
    if i < 0 || i >= t.len() {
        t.len() as int
    } else if stops.contains(t[i]) {
        i
    } else {
        first_stop_from(t, stops, i + 1)
    }
}

/// `t` cut just before the first of the `stops` characters.
pub open spec fn cut_at_stops(t: Seq<char>, stops: Seq<char>) -> Seq<char> {
    t.take(first_stop_from(t, stops, 0))
}

fn contains_char(stops: &Vec<char>, c: char) -> (r: bool)
    ensures
        r == stops@.contains(c),
{
    let mut i: usize = 0;
    while i < stops.len()
        invariant
            i <= stops@.len(),
            forall|k: int| 0 <= k < i ==> stops@[k] != c,
        decreases stops@.len() - i,
    {
        if stops[i] == c {
            return true;
        }
        i += 1;
    }
    false
}

/// The prefix of `t` up to (not including) the first stop character.
pub(crate) fn cut_prefix<'a>(t: &'a str, stops: &Vec<char>) -> (r: &'a str)
    ensures
        r@ == cut_at_stops(t@, stops@),
{
    let n = t.unicode_len();
    let mut i: usize = 0;
    while i < n
        invariant
            n == t@.len(),
            i <= n,
            first_stop_from(t@, stops@, 0) == first_stop_from(t@, stops@, i as int),
        decreases n - i,
    {
        if contains_char(stops, t.get_char(i)) {
            proof {
                assert(first_stop_from(t@, stops@, i as int) == i as int);
            }
            return t.substring_char(0, i);
        }
        i += 1;
    }
    proof {
        assert(first_stop_from(t@, stops@, i as int) == n as int);
    }
    t.substring_char(0, i)
}

/// The id named by a watch address: the text after the first `v=` up to
/// the next `&`; text without a `v=` is returned whole, taken to be the
/// id itself.
pub open spec fn spec_extract_video_id(s: Seq<char>) -> Seq<char> {
    match text::find_at(s, "v="@, 0) {
        Some(i) => cut_at_stops(s.subrange(i + "v="@.len(), s.len() as int), "&"@),
        None => s,
    }
}

pub fn extract_video_id(url_or_id: &str) -> (r: String)
    ensures
        r@ == spec_extract_video_id(url_or_id@),
{
    let n = url_or_id.unicode_len();
    match text::find_from(url_or_id, "v=", 0) {
        Some(i) => {
            proof {
                text::lemma_find_at_props(url_or_id@, "v="@, 0);
            }
            let m = "v=".unicode_len();
            let tail = url_or_id.substring_char(i + m, n);
            let stops = vec!['&'];
            proof {
                reveal_strlit("&");
                assert(stops@ =~= "&"@);
            }
            cut_prefix(tail, &stops).to_owned()
        },
        None => url_or_id.to_owned(),
    }
}

/// The id named by a playlist address: as `spec_extract_video_id`, with
/// the `list=` marker.
pub open spec fn spec_extract_playlist_id(s: Seq<char>) -> Seq<char> {
    match text::find_at(s, "list="@, 0) {
        Some(i) => cut_at_stops(s.subrange(i + "list="@.len(), s.len() as int), "&"@),
        None => s,
    }
}

pub fn extract_playlist_id(url_or_id: &str) -> (r: String)
    ensures
        r@ == spec_extract_playlist_id(url_or_id@),
{
    let n = url_or_id.unicode_len();
    match text::find_from(url_or_id, "list=", 0) {
        Some(i) => {
            proof {
                text::lemma_find_at_props(url_or_id@, "list="@, 0);
            }
            let m = "list=".unicode_len();
            let tail = url_or_id.substring_char(i + m, n);
            let stops = vec!['&'];
            proof {
                reveal_strlit("&");
                assert(stops@ =~= "&"@);
            }
            cut_prefix(tail, &stops).to_owned()
        },
        None => url_or_id.to_owned(),
    }
}

/// A channel id maps to its uploads playlist by swapping the `UC` prefix
/// for `UU`; other text passes through unchanged.
pub open spec fn spec_uploads_playlist(s: Seq<char>) -> Seq<char> {
    if text::occurs_at(s, "UC"@, 0) {
        "UU"@ + s.subrange("UC"@.len() as int, s.len() as int)
    } else {
        s
    }
}

pub fn channel_id_to_uploads_playlist(channel_id: &str) -> (r: String)
    ensures
        r@ == spec_uploads_playlist(channel_id@),
{
    if text::starts_with_str(channel_id, "UC") {
        let n = channel_id.unicode_len();
        let m = "UC".unicode_len();
        let mut s = String::from_str("UU");
        s.append(channel_id.substring_char(m, n));
        s
    } else {
        channel_id.to_owned()
    }
}

/// A playlist id becomes a browse id by prefixing `VL`; an id that
/// already starts with `VL` is kept, so the transform never
/// double-prefixes.
pub open spec fn spec_to_browse_id(s: Seq<char>) -> Seq<char> {
    if text::occurs_at(s, "VL"@, 0) {
        s
    } else {
        "VL"@ + s
    }
}

pub fn to_browse_id(playlist_id: &str) -> (r: String)
    ensures
        r@ == spec_to_browse_id(playlist_id@),
{
    if text::starts_with_str(playlist_id, "VL") {
        playlist_id.to_owned()
    } else {
        let mut s = String::from_str("VL");
        s.append(playlist_id);
        s
    }
}

/// Applying the browse-id transform twice adds the prefix only once.
pub proof fn lemma_to_browse_id_idempotent(s: Seq<char>)
    ensures
        spec_to_browse_id(spec_to_browse_id(s)) == spec_to_browse_id(s),
{
    if !text::occurs_at(s, "VL"@, 0) {
        let r = "VL"@ + s;
        assert(r.subrange(0, "VL"@.len() as int) =~= "VL"@);
    }
}

/// What a channel query names before any page fetch: either a literal
/// channel id, or a handle whose profile page must be scanned.
#[derive(Debug, Clone, PartialEq)]
pub enum ChannelQuery {
    /// A canonical id, usable directly.
    Direct(String),
    /// A handle; its profile page decides the id.
    Handle(String),
}

/// The query is a literal id: either the canonical 24-character `UC` form
/// itself or a channel-path address that carries one.
pub open spec fn spec_channel_is_direct(s: Seq<char>) -> bool {
    (text::occurs_at(s, "UC"@, 0) && s.len() == 24) || text::contains_seq(
        s,
        "youtube.com/channel/"@,
    )
}

/// The id or handle text a channel query resolves to, before any fetch:
/// the known address shapes are tried in order, then a leading `@` is
/// stripped, and any remaining text is taken as a handle.
pub open spec fn spec_channel_target(s: Seq<char>) -> Seq<char> {
    if text::occurs_at(s, "UC"@, 0) && s.len() == 24 {
        s
    } else {
        match text::find_at(s, "youtube.com/channel/"@, 0) {
            Some(i) => cut_at_stops(
                s.subrange(i + "youtube.com/channel/"@.len(), s.len() as int),
                seq!['/', '?'],
            ),
            None => match text::find_at(s, "youtube.com/@"@, 0) {
                Some(i) => cut_at_stops(
                    s.subrange(i + "youtube.com/@"@.len(), s.len() as int),
                    seq!['/', '?'],
                ),
                None => if text::occurs_at(s, "@"@, 0) {
                    s.subrange("@"@.len() as int, s.len() as int)
                } else {
                    match text::find_at(s, "youtube.com/c/"@, 0) {
                        Some(i) => cut_at_stops(
                            s.subrange(i + "youtube.com/c/"@.len(), s.len() as int),
                            seq!['/', '?'],
                        ),
                        None => s,
                    }
                },
            },
        }
    }
}

pub fn classify_channel_query(query: &str) -> (r: ChannelQuery)
    ensures
        (match r {
            ChannelQuery::Direct(id) => spec_channel_is_direct(query@) && id@
                == spec_channel_target(query@),
            ChannelQuery::Handle(h) => !spec_channel_is_direct(query@) && h@
                == spec_channel_target(query@),
        }),
{
    let n = query.unicode_len();
    if text::starts_with_str(query, "UC") && n == 24 {
        return ChannelQuery::Direct(query.to_owned());
    }
    let stops = vec!['/', '?'];
    proof {
        assert(stops@ =~= seq!['/', '?']);
    }
    if let Some(i) = text::find_from(query, "youtube.com/channel/", 0) {
        proof {
            text::lemma_find_at_props(query@, "youtube.com/channel/"@, 0);
        }
        let m = "youtube.com/channel/".unicode_len();
        let tail = query.substring_char(i + m, n);
        return ChannelQuery::Direct(cut_prefix(tail, &stops).to_owned());
    }
    if let Some(i) = text::find_from(query, "youtube.com/@", 0) {
        proof {
            text::lemma_find_at_props(query@, "youtube.com/@"@, 0);
        }
        let m = "youtube.com/@".unicode_len();
        let tail = query.substring_char(i + m, n);
        return ChannelQuery::Handle(cut_prefix(tail, &stops).to_owned());
    }
    if text::starts_with_str(query, "@") {
        let m = "@".unicode_len();
        return ChannelQuery::Handle(query.substring_char(m, n).to_owned());
    }
    if let Some(i) = text::find_from(query, "youtube.com/c/", 0) {
        proof {
            text::lemma_find_at_props(query@, "youtube.com/c/"@, 0);
        }
        let m = "youtube.com/c/".unicode_len();
        let tail = query.substring_char(i + m, n);
        return ChannelQuery::Handle(cut_prefix(tail, &stops).to_owned());
    }
    ChannelQuery::Handle(query.to_owned())
}

/// The terminal outcome of channel resolution: a reference once an id
/// is in hand, the not-found error when the fallback chain is
/// exhausted — a single pattern miss never raises.
pub fn channel_resolution(query: &str, found: Option<String>) -> (r: Result<ChannelInfo, ApiError>)
    ensures
        (match found {
            Some(id) => r matches Ok(c) && c.channel_id@ == id@ && c.channel_name@ == query@,
            None => r matches Err(e) && e matches ApiError::NotFound(m) && m@
                == "Could not resolve channel."@,
        }),
{
    match found {
        Some(id) => Ok(ChannelInfo { channel_id: id, channel_name: query.to_owned() }),
        None => Err(ApiError::NotFound(String::from_str("Could not resolve channel."))),
    }
}

/// The capture at position `i`: when `prefix` occurs exactly there, the
/// text from its end to the next double quote, accepted when it is a
/// `UC`-prefixed id of at least three characters.
pub open spec fn spec_capture_at(page: Seq<char>, prefix: Seq<char>, i: int) -> Option<
    Seq<char>,
> {
    if text::occurs_at(page, prefix, i) {
        let rest = page.subrange(i + prefix.len(), page.len() as int);
        match text::find_at(rest, "\""@, 0) {
            Some(q) => {
                let cap = rest.take(q);
                if cap.len() >= 3 && text::occurs_at(cap, "UC"@, 0) {
                    Some(cap)
                } else {
                    None
                }
            },
            None => None,
        }
    } else {
        None
    }
}

/// The first accepted capture at or after `from`.
pub open spec fn spec_scan_capture(page: Seq<char>, prefix: Seq<char>, from: int) -> Option<
    Seq<char>,
>
    decreases page.len() - from,
{
    if from < 0 || from > page.len() {
        None
    } else if spec_capture_at(page, prefix, from) is Some {
        spec_capture_at(page, prefix, from)
    } else if from == page.len() {
        None
    } else {
        spec_scan_capture(page, prefix, from + 1)
    }
}

fn scan_capture(page: &str, prefix: &str) -> (r: Option<String>)
    ensures
        (match r {
            Some(id) => spec_scan_capture(page@, prefix@, 0) == Some(id@),
            None => spec_scan_capture(page@, prefix@, 0) is None,
        }),
{
    let n = page.unicode_len();
    let m = prefix.unicode_len();
    let mut i: usize = 0;
    loop
        invariant
            n == page@.len(),
            m == prefix@.len(),
            i <= n,
            spec_scan_capture(page@, prefix@, 0) == spec_scan_capture(page@, prefix@, i as int),
        decreases n - i,
    {
        if text::match_at(page, prefix, i) {
            let rest = page.substring_char(i + m, n);
            match text::find_from(rest, "\"", 0) {
                Some(q) => {
                    proof {
                        text::lemma_find_at_props(rest@, "\""@, 0);
                    }
                    let cap = rest.substring_char(0, q);
                    let cl = cap.unicode_len();
                    if cl >= 3 && text::starts_with_str(cap, "UC") {
                        proof {
                            assert(rest@.take(q as int) =~= cap@);
                        }
                        return Some(cap.to_owned());
                    }
                },
                None => {},
            }
        }
        proof {
            if spec_capture_at(page@, prefix@, i as int) matches Some(c) {
                let rest = page@.subrange(i + m, n as int);
                text::lemma_find_at_props(rest, "\""@, 0);
            }
        }
        if i == n {
            return None;
        }
        i += 1;
    }
}

/// The ordered structural patterns that name a channel id inside a
/// profile page; the first accepted capture wins.
pub open spec fn spec_find_channel_id(page: Seq<char>) -> Option<Seq<char>> {
    match spec_scan_capture(page, "\"channelId\":\""@, 0) {
        Some(c) => Some(c),
        None => match spec_scan_capture(
            page,
            "meta property=\"og:url\" content=\"https://www.youtube.com/channel/"@,
            0,
        ) {
            Some(c) => Some(c),
            None => spec_scan_capture(
                page,
                "link rel=\"canonical\" href=\"https://www.youtube.com/channel/"@,
                0,
            ),
        },
    }
}

/// Scans a profile page for the channel id, trying the structural
/// patterns in order.
pub fn find_channel_id_in_page(page: &str) -> (r: Option<String>)
    ensures
        (match r {
            Some(id) => spec_find_channel_id(page@) == Some(id@),
            None => spec_find_channel_id(page@) is None,
        }),
{
    match scan_capture(page, "\"channelId\":\"") {
        Some(id) => Some(id),
        None => match scan_capture(
            page,
            "meta property=\"og:url\" content=\"https://www.youtube.com/channel/",
        ) {
            Some(id) => Some(id),
            None => scan_capture(
                page,
                "link rel=\"canonical\" href=\"https://www.youtube.com/channel/",
            ),
        },
    }
}

} // verus!
