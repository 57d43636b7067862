//! The response normalizer: one uniform video record extracted from the
//! several nested item shapes the platform uses. Each field is read
//! through an ordered list of alternatives, first present wins.

use vstd::prelude::*;
use vstd::string::*;
use crate::json::{self, Json};
use crate::records::{self, Video};
use crate::text;

verus! {

/// The text of `key.runs[0].text` — the structured-run form.
pub open spec fn spec_runs0_text(j: Json, key: Seq<char>) -> Option<Seq<char>> {
    json::opt_str(json::opt_get(json::opt_idx(json::opt_get(j.spec_get(key), "runs"@), 0), "text"@))
}

/// The `text` fields of a run list, concatenated in order.
pub open spec fn spec_runs_concat(runs: Seq<Json>) -> Seq<char>
    decreases runs.len(),
{
    if runs.len() == 0 {
        Seq::empty()
    } else {
        spec_runs_concat(runs.drop_last()) + (match runs.last().spec_get_str("text"@) {
            Some(t) => t,
            None => Seq::empty(),
        })
    }
}

/// The concatenated runs under `key.runs`, empty when absent.
pub open spec fn spec_field_runs_concat(j: Json, key: Seq<char>) -> Seq<char> {
    match json::opt_arr(json::opt_get(j.spec_get(key), "runs"@)) {
        Some(rs) => spec_runs_concat(rs),
        None => Seq::empty(),
    }
}

/// The ordered alternatives for a counter or date field: the simple
/// text when it has content, else the concatenated runs, else empty.
pub open spec fn spec_text_field(j: Json, key: Seq<char>) -> Seq<char> {
    match json::opt_str(json::opt_get(j.spec_get(key), "simpleText"@)) {
        Some(s) => if s.len() > 0 {
            s
        } else {
            spec_field_runs_concat(j, key)
        },
        None => spec_field_runs_concat(j, key),
    }
}

/// The title alternatives: run text, else simple text, else `Unknown`.
pub open spec fn spec_title(j: Json) -> Seq<char> {
    match spec_runs0_text(j, "title"@) {
        Some(t) => t,
        None => match json::opt_str(json::opt_get(j.spec_get("title"@), "simpleText"@)) {
            Some(t) => t,
            None => "Unknown"@,
        },
    }
}

/// The last (highest-resolution) thumbnail candidate's address, else
/// the derived canonical address for the id.
pub open spec fn spec_thumbnail(j: Json, id: Seq<char>) -> Seq<char> {
    match json::opt_arr(json::opt_get(j.spec_get("thumbnail"@), "thumbnails"@)) {
        Some(ts) => if ts.len() > 0 {
            match json::opt_str(json::opt_get(Some(ts.last()), "url"@)) {
                Some(u) => u,
                None => records::spec_canonical_thumbnail(id),
            }
        } else {
            records::spec_canonical_thumbnail(id)
        },
        None => records::spec_canonical_thumbnail(id),
    }
}

/// The byline author text under `key.runs[0].text`, empty when absent.
pub open spec fn spec_owner_author(j: Json, key: Seq<char>) -> Seq<char> {
    match spec_runs0_text(j, key) {
        Some(t) => t,
        None => Seq::empty(),
    }
}

/// The item's id — present and non-empty, or the item is dropped.
pub open spec fn spec_video_id(j: Json) -> Option<Seq<char>> {
    match j.spec_get_str("videoId"@) {
        Some(s) => if s.len() > 0 {
            Some(s)
        } else {
            None
        },
        None => None,
    }
}

fn runs0_text<'a>(j: &'a Json, key: &str) -> (r: Option<&'a String>)
    ensures
        (match r {
            Some(s) => spec_runs0_text(*j, key@) == Some(s@),
            None => spec_runs0_text(*j, key@) is None,
        }),
{
    let rs = json::opt_get_ref(j.get(key), "runs");
    let first = json::opt_idx_ref(rs, 0);
    match first {
        Some(x) => x.get_str("text"),
        None => None,
    }
}

fn runs_concat_of(j: &Json, key: &str) -> (r: String)
    ensures
        r@ == spec_field_runs_concat(*j, key@),
{
    let runs = match json::opt_get_ref(j.get(key), "runs") {
        Some(x) => match x.as_arr() {
            Some(a) => a,
            None => {
                return String::new();
            },
        },
        None => {
            return String::new();
        },
    };
    let n = runs.len();
    let mut acc = String::new();
    let mut i: usize = 0;
    while i < n
        invariant
            n == runs@.len(),
            i <= n,
            acc@ == spec_runs_concat(runs@.take(i as int)),
        decreases n - i,
    {
        proof {
            assert(runs@.take(i + 1).drop_last() =~= runs@.take(i as int));
            assert(runs@.take(i + 1).last() == runs@[i as int]);
        }
        match runs[i].get_str("text") {
            Some(t) => {
                acc.append(t.as_str());
            },
            None => {},
        }
        i += 1;
    }
    proof {
        assert(runs@.take(n as int) =~= runs@);
    }
    acc
}

fn text_field(j: &Json, key: &str) -> (r: String)
    ensures
        r@ == spec_text_field(*j, key@),
{
    match json::opt_get_ref(j.get(key), "simpleText") {
        Some(x) => match x.as_str() {
            Some(s) => {
                if s.unicode_len() > 0 {
                    s.clone()
                } else {
                    runs_concat_of(j, key)
                }
            },
            None => runs_concat_of(j, key),
        },
        None => runs_concat_of(j, key),
    }
}

fn title_of(j: &Json) -> (r: String)
    ensures
        r@ == spec_title(*j),
{
    match runs0_text(j, "title") {
        Some(t) => t.clone(),
        None => match json::opt_get_ref(j.get("title"), "simpleText") {
            Some(x) => match x.as_str() {
                Some(s) => s.clone(),
                None => String::from_str("Unknown"),
            },
            None => String::from_str("Unknown"),
        },
    }
}

fn thumbnail_of(j: &Json, id: &str) -> (r: String)
    ensures
        r@ == spec_thumbnail(*j, id@),
{
    match json::opt_get_ref(j.get("thumbnail"), "thumbnails") {
        Some(x) => match x.as_arr() {
            Some(ts) => {
                if ts.len() > 0 {
                    proof {
                        assert((*j).spec_get("thumbnail"@) is Some);
                    }
                    let last = &ts[ts.len() - 1];
                    proof {
                        assert(ts@[ts@.len() - 1] == ts@.last());
                    }
                    match last.get_str("url") {
                        Some(u) => u.clone(),
                        None => records::canonical_thumbnail(id),
                    }
                } else {
                    records::canonical_thumbnail(id)
                }
            },
            None => records::canonical_thumbnail(id),
        },
        None => records::canonical_thumbnail(id),
    }
}

fn author_of(j: &Json, key: &str) -> (r: String)
    ensures
        r@ == spec_owner_author(*j, key@),
{
    match runs0_text(j, key) {
        Some(t) => t.clone(),
        None => String::new(),
    }
}

fn video_id_of(j: &Json) -> (r: Option<String>)
    ensures
        (match r {
            Some(s) => spec_video_id(*j) == Some(s@),
            None => spec_video_id(*j) is None,
        }),
{
    match j.get_str("videoId") {
        Some(s) => {
            if s.unicode_len() > 0 {
                Some(s.clone())
            } else {
                None
            }
        },
        None => None,
    }
}

/// Extracts the uniform record from a plain video item (search and feed
/// shapes). An item with no usable id yields `None` — dropped, not an
/// error.
pub fn extract_video_basic_info(renderer: &Json) -> (r: Option<Video>)
    ensures
        (match r {
            Some(v) => {
                &&& spec_video_id(*renderer) == Some(v.id@)
                &&& v.wf()
                &&& v.title@ == spec_title(*renderer)
                &&& v.thumbnail@ == spec_thumbnail(*renderer, v.id@)
                &&& v.published_at@ == spec_text_field(*renderer, "publishedTimeText"@)
                &&& v.view_count@ == spec_text_field(*renderer, "viewCountText"@)
                &&& v.author matches Some(a) && a@ == spec_owner_author(*renderer, "ownerText"@)
                &&& v.status is None
                &&& v.date_added is None
            },
            None => spec_video_id(*renderer) is None,
        }),
{
    let id = match video_id_of(renderer) {
        Some(s) => s,
        None => {
            return None;
        },
    };
    let thumbnail = thumbnail_of(renderer, id.as_str());
    Some(
        Video {
            title: title_of(renderer),
            thumbnail,
            published_at: text_field(renderer, "publishedTimeText"),
            view_count: text_field(renderer, "viewCountText"),
            author: Some(author_of(renderer, "ownerText")),
            status: None,
            date_added: None,
            id,
        },
    )
}

/// Extracts the uniform record from a playlist item: no published date
/// or view count on this shape, author from the short byline.
pub fn extract_playlist_video_info(renderer: &Json) -> (r: Option<Video>)
    ensures
        (match r {
            Some(v) => {
                &&& spec_video_id(*renderer) == Some(v.id@)
                &&& v.wf()
                &&& v.title@ == spec_title(*renderer)
                &&& v.thumbnail@ == spec_thumbnail(*renderer, v.id@)
                &&& v.published_at@.len() == 0
                &&& v.view_count@.len() == 0
                &&& v.author matches Some(a) && a@ == spec_owner_author(
                    *renderer,
                    "shortBylineText"@,
                )
                &&& v.status is None
                &&& v.date_added is None
            },
            None => spec_video_id(*renderer) is None,
        }),
{
    let id = match video_id_of(renderer) {
        Some(s) => s,
        None => {
            return None;
        },
    };
    let thumbnail = thumbnail_of(renderer, id.as_str());
    Some(
        Video {
            title: title_of(renderer),
            thumbnail,
            published_at: String::new(),
            view_count: String::new(),
            author: Some(author_of(renderer, "shortBylineText")),
            status: None,
            date_added: None,
            id,
        },
    )
}

/// A detail field of the player response, with its fallback.
pub open spec fn spec_detail_str(player: Json, key: Seq<char>, default: Seq<char>) -> Seq<
    char,
> {
    match json::opt_str(json::opt_get(player.spec_get("videoDetails"@), key)) {
        Some(s) => s,
        None => default,
    }
}

/// The publish date under the player microformat, empty when absent.
pub open spec fn spec_publish_date(player: Json) -> Seq<char> {
    match json::opt_str(
        json::opt_get(
            json::opt_get(player.spec_get("microformat"@), "playerMicroformatRenderer"@),
            "publishDate"@,
        ),
    ) {
        Some(s) => s,
        None => Seq::empty(),
    }
}

/// The id a player response answers for: its own when present and
/// non-empty, else the id that was asked about.
pub open spec fn spec_player_id(player: Json, fallback: Seq<char>) -> Seq<char> {
    match json::opt_str(json::opt_get(player.spec_get("videoDetails"@), "videoId"@)) {
        Some(s) => if s.len() > 0 {
            s
        } else {
            fallback
        },
        None => fallback,
    }
}

fn detail_str(player: &Json, key: &str, default: &str) -> (r: String)
    ensures
        r@ == spec_detail_str(*player, key@, default@),
{
    match json::opt_get_ref(player.get("videoDetails"), key) {
        Some(x) => match x.as_str() {
            Some(s) => s.clone(),
            None => String::from_str(default),
        },
        None => String::from_str(default),
    }
}

fn publish_date_of(player: &Json) -> (r: String)
    ensures
        r@ == spec_publish_date(*player),
{
    let mf = json::opt_get_ref(player.get("microformat"), "playerMicroformatRenderer");
    match json::opt_get_ref(mf, "publishDate") {
        Some(x) => match x.as_str() {
            Some(s) => s.clone(),
            None => String::new(),
        },
        None => String::new(),
    }
}

/// Builds the detail record of a single video from its player response.
pub fn video_from_player(player: &Json, video_id: &str) -> (v: Video)
    requires
        video_id@.len() > 0,
    ensures
        v.id@ == spec_player_id(*player, video_id@),
        v.wf(),
        v.title@ == spec_detail_str(*player, "title"@, "Unknown"@),
        v.thumbnail@ == (match (*player).spec_get("videoDetails"@) {
            Some(d) => spec_thumbnail(d, spec_player_id(*player, video_id@)),
            None => records::spec_canonical_thumbnail(spec_player_id(*player, video_id@)),
        }),
        v.published_at@ == spec_publish_date(*player),
        v.view_count@ == spec_detail_str(*player, "viewCount"@, "0"@),
        (match json::opt_str(json::opt_get((*player).spec_get("videoDetails"@), "author"@)) {
            Some(a) => v.author matches Some(x) && x@ == a,
            None => v.author is None,
        }),
        v.status is None,
        v.date_added is None,
{
    let id = match json::opt_get_ref(player.get("videoDetails"), "videoId") {
        Some(x) => match x.as_str() {
            Some(s) => {
                if s.unicode_len() > 0 {
                    s.clone()
                } else {
                    video_id.to_owned()
                }
            },
            None => video_id.to_owned(),
        },
        None => video_id.to_owned(),
    };
    let thumbnail = match player.get("videoDetails") {
        Some(d) => thumbnail_of(d, id.as_str()),
        None => records::canonical_thumbnail(id.as_str()),
    };
    let author = match json::opt_get_ref(player.get("videoDetails"), "author") {
        Some(x) => match x.as_str() {
            Some(s) => Some(s.clone()),
            None => None,
        },
        None => None,
    };
    Video {
        title: detail_str(player, "title", "Unknown"),
        thumbnail,
        published_at: publish_date_of(player),
        view_count: detail_str(player, "viewCount", "0"),
        author,
        status: None,
        date_added: None,
        id,
    }
}

/// The view count a player response reports, `0` when absent.
pub fn extract_view_count(player: &Json) -> (r: String)
    ensures
        r@ == spec_detail_str(*player, "viewCount"@, "0"@),
{
    detail_str(player, "viewCount", "0")
}

/// The fields the save pipeline stores alongside a transcript.
#[derive(Debug, Clone, PartialEq)]
pub struct SaveFields {
    pub title: String,
    pub author: String,
    pub length_seconds: i32,
    pub view_count: String,
    pub published_at: String,
}

/// The stored length: the digit string under `lengthSeconds`, or zero
/// when it is absent, malformed or out of range.
pub open spec fn spec_length_seconds(player: Json) -> int {
    let s = spec_detail_str(player, "lengthSeconds"@, "0"@);
    if s.len() > 0 && text::all_digits(s) && text::digits_val(s) <= i32::MAX {
        text::digits_val(s)
    } else {
        0
    }
}

/// Reads everything the save pipeline stores out of a player response.
pub fn save_fields_from_player(player: &Json) -> (f: SaveFields)
    ensures
        f.title@ == spec_detail_str(*player, "title"@, "Unknown"@),
        f.author@ == spec_detail_str(*player, "author"@, "Unknown"@),
        f.length_seconds as int == spec_length_seconds(*player),
        f.view_count@ == spec_detail_str(*player, "viewCount"@, "0"@),
        f.published_at@ == spec_publish_date(*player),
{
    let len_text = detail_str(player, "lengthSeconds", "0");
    let length_seconds: i32 = match text::parse_u64_digits(len_text.as_str()) {
        Some(v) => {
            if v <= i32::MAX as u64 {
                v as i32
            } else {
                0
            }
        },
        None => 0,
    };
    SaveFields {
        title: detail_str(player, "title", "Unknown"),
        author: detail_str(player, "author", "Unknown"),
        length_seconds,
        view_count: detail_str(player, "viewCount", "0"),
        published_at: publish_date_of(player),
    }
}

} // verus!
