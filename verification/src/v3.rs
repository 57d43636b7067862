//! The official-API listing variant: request addresses, the per-item
//! normalization of its response shapes, and the view-count merge from
//! its statistics endpoint.

use vstd::prelude::*;
use vstd::string::*;
use crate::errors::ApiError;
use crate::json::{self, Json};
use crate::records::Video;
use crate::text;

verus! {

/// The id a listing item names: `contentDetails.videoId`, else
/// `id.videoId`, else `id` itself as text — first present wins.
pub open spec fn spec_v3_vid(item: Json) -> Option<Seq<char>> {
    match json::opt_str(json::opt_get(item.spec_get("contentDetails"@), "videoId"@)) {
        Some(s) => Some(s),
        None => match json::opt_str(json::opt_get(item.spec_get("id"@), "videoId"@)) {
            Some(s) => Some(s),
            None => json::opt_str(item.spec_get("id"@)),
        },
    }
}

/// A snippet field with its fallback.
pub open spec fn spec_snippet_str(item: Json, key: Seq<char>, default: Seq<char>) -> Seq<char> {
    match json::opt_str(json::opt_get(item.spec_get("snippet"@), key)) {
        Some(s) => s,
        None => default,
    }
}

/// The thumbnail alternatives of a listing item: the high-resolution
/// candidate, else the default one, else empty.
pub open spec fn spec_v3_thumb(item: Json) -> Seq<char> {
    let thumbs = json::opt_get(item.spec_get("snippet"@), "thumbnails"@);
    match json::opt_str(json::opt_get(json::opt_get(thumbs, "high"@), "url"@)) {
        Some(u) => u,
        None => match json::opt_str(json::opt_get(json::opt_get(thumbs, "default"@), "url"@)) {
            Some(u) => u,
            None => Seq::empty(),
        },
    }
}

pub open spec fn spec_v3_author(item: Json) -> Option<Seq<char>> {
    json::opt_str(json::opt_get(item.spec_get("snippet"@), "channelTitle"@))
}

/// The listing items that yield a record: those naming a non-empty id.
pub open spec fn spec_v3_emitted(items: Seq<Json>) -> Seq<Json>
    decreases items.len(),
{
    if items.len() == 0 {
        Seq::empty()
    } else {
        let rest = spec_v3_emitted(items.drop_last());
        match spec_v3_vid(items.last()) {
            Some(s) => if s.len() > 0 {
                rest.push(items.last())
            } else {
                rest
            },
            None => rest,
        }
    }
}

/// The record a listing item normalizes to; the view count is `0` until
/// the statistics merge fills it in.
pub open spec fn spec_v3_video_matches(item: Json, v: Video) -> bool {
    &&& spec_v3_vid(item) == Some(v.id@)
    &&& v.wf()
    &&& v.title@ == spec_snippet_str(item, "title"@, "Unknown"@)
    &&& v.thumbnail@ == spec_v3_thumb(item)
    &&& v.published_at@ == spec_snippet_str(item, "publishedAt"@, Seq::empty())
    &&& v.view_count@ == "0"@
    &&& (match spec_v3_author(item) {
        Some(c) => v.author matches Some(x) && x@ == c,
        None => v.author is None,
    })
    &&& v.status is None
    &&& v.date_added is None
}

/// The structured error payload's message, when the response carries
/// one.
pub open spec fn spec_v3_error(data: Json) -> Option<Seq<char>> {
    match data.spec_get("error"@) {
        Some(e) => Some(
            match json::opt_str(e.spec_get("message"@)) {
                Some(m) => m,
                None => "Unknown"@,
            },
        ),
        None => None,
    }
}

pub open spec fn spec_v3_token(data: Json) -> Option<Seq<char>> {
    json::opt_str(data.spec_get("nextPageToken"@))
}

pub open spec fn spec_v3_items(data: Json) -> Seq<Json> {
    match json::opt_arr(data.spec_get("items"@)) {
        Some(s) => s,
        None => Seq::empty(),
    }
}

/// A decoded listing page without an error payload normalizes to
/// exactly the records of its emitting items, plus the next page token.
pub open spec fn spec_v3_page_ok(data: Json, videos: Seq<Video>, token: Option<String>) -> bool {
    &&& videos.len() == spec_v3_emitted(spec_v3_items(data)).len()
    &&& (forall|k: int|
        0 <= k < videos.len() ==> spec_v3_video_matches(
            #[trigger] spec_v3_emitted(spec_v3_items(data))[k],
            videos[k],
        ))
    &&& (match token {
        Some(t) => spec_v3_token(data) == Some(t@),
        None => spec_v3_token(data) is None,
    })
}

fn v3_vid_of(item: &Json) -> (r: Option<String>)
    ensures
        (match r {
            Some(s) => spec_v3_vid(*item) == Some(s@) && s@.len() > 0,
            None => (match spec_v3_vid(*item) {
                Some(s) => s.len() == 0,
                None => true,
            }),
        }),
{
    let found: Option<&String> = match json::opt_get_ref(item.get("contentDetails"), "videoId") {
        Some(x) => x.as_str(),
        None => None,
    };
    let found = match found {
        Some(s) => Some(s),
        None => match json::opt_get_ref(item.get("id"), "videoId") {
            Some(x) => x.as_str(),
            None => None,
        },
    };
    let found = match found {
        Some(s) => Some(s),
        None => match item.get("id") {
            Some(x) => x.as_str(),
            None => None,
        },
    };
    match found {
        Some(s) => {
            if s.unicode_len() > 0 {
                Some(s.clone())
            } else {
                None
            }
        },
        None => None,
    }
}

fn snippet_str(item: &Json, key: &str, default: &str) -> (r: String)
    ensures
        r@ == spec_snippet_str(*item, key@, default@),
{
    match json::opt_get_ref(item.get("snippet"), key) {
        Some(x) => match x.as_str() {
            Some(s) => s.clone(),
            None => String::from_str(default),
        },
        None => String::from_str(default),
    }
}

fn v3_thumb_of(item: &Json) -> (r: String)
    ensures
        r@ == spec_v3_thumb(*item),
{
    let thumbs = json::opt_get_ref(item.get("snippet"), "thumbnails");
    match json::opt_get_ref(json::opt_get_ref(thumbs, "high"), "url") {
        Some(x) => match x.as_str() {
            Some(u) => {
                return u.clone();
            },
            None => {},
        },
        None => {},
    }
    match json::opt_get_ref(json::opt_get_ref(thumbs, "default"), "url") {
        Some(x) => match x.as_str() {
            Some(u) => u.clone(),
            None => String::new(),
        },
        None => String::new(),
    }
}

fn v3_record_of(item: &Json) -> (r: Option<Video>)
    ensures
        (match r {
            Some(v) => spec_v3_video_matches(*item, v),
            None => (match spec_v3_vid(*item) {
                Some(s) => s.len() == 0,
                None => true,
            }),
        }),
{
    proof {
        reveal_strlit("");
        assert(""@ =~= Seq::<char>::empty());
    }
    let id = match v3_vid_of(item) {
        Some(s) => s,
        None => {
            return None;
        },
    };
    let author = match json::opt_get_ref(item.get("snippet"), "channelTitle") {
        Some(x) => match x.as_str() {
            Some(s) => Some(s.clone()),
            None => None,
        },
        None => None,
    };
    Some(
        Video {
            title: snippet_str(item, "title", "Unknown"),
            thumbnail: v3_thumb_of(item),
            published_at: snippet_str(item, "publishedAt", ""),
            view_count: String::from_str("0"),
            author,
            status: None,
            date_added: None,
            id,
        },
    )
}

/// Decodes one listing page. A body that is not structured data is a
/// decode error; a structured error payload is a remote error carrying
/// its message; anything else yields the page's records and next token.
pub fn parse_v3_page(body: &str) -> (r: Result<(Vec<Video>, Option<String>), ApiError>)
    ensures
        (match json::json_of(body@) {
            Some(data) => (match spec_v3_error(data) {
                Some(msg) => r matches Err(e) && e matches ApiError::Remote(m) && m@ == msg,
                None => r matches Ok(p) && spec_v3_page_ok(data, p.0@, p.1),
            }),
            None => r matches Err(e) && e matches ApiError::Decode(_),
        }),
{
    let data = match json::parse_json(body) {
        Some(d) => d,
        None => {
            return Err(
                ApiError::Decode(String::from_str("response body is not structured data")),
            );
        },
    };
    match data.get("error") {
        Some(e) => {
            let msg = match e.get_str("message") {
                Some(m) => m.clone(),
                None => String::from_str("Unknown"),
            };
            return Err(ApiError::Remote(msg));
        },
        None => {},
    }
    let token: Option<String> = match data.get_str("nextPageToken") {
        Some(t) => Some(t.clone()),
        None => None,
    };
    let mut videos: Vec<Video> = Vec::new();
    let items = match data.get("items") {
        Some(x) => match x.as_arr() {
            Some(a) => Some(a),
            None => None,
        },
        None => None,
    };
    match items {
        Some(list) => {
            let n = list.len();
            let mut i: usize = 0;
            while i < n
                invariant
                    n == list@.len(),
                    i <= n,
                    spec_v3_items(data) == list@,
                    videos@.len() == spec_v3_emitted(list@.take(i as int)).len(),
                    forall|k: int|
                        0 <= k < videos@.len() ==> spec_v3_video_matches(
                            #[trigger] spec_v3_emitted(list@.take(i as int))[k],
                            videos@[k],
                        ),
                decreases n - i,
            {
                proof {
                    assert(list@.take(i + 1).drop_last() =~= list@.take(i as int));
                    assert(list@.take(i + 1).last() == list@[i as int]);
                }
                match v3_record_of(&list[i]) {
                    Some(v) => {
                        proof {
                            assert(spec_v3_emitted(list@.take(i + 1)) =~= spec_v3_emitted(
                                list@.take(i as int),
                            ).push(list@[i as int]));
                        }
                        let ghost prev = videos@;
                        let ghost gv = v;
                        videos.push(v);
                        proof {
                            let e_old = spec_v3_emitted(list@.take(i as int));
                            let e_new = spec_v3_emitted(list@.take(i + 1));
                            assert forall|k: int|
                                0 <= k < e_new.len() implies spec_v3_video_matches(
                                #[trigger] e_new[k],
                                videos@[k],
                            ) by {
                                if k < e_old.len() {
                                    assert(e_new[k] == e_old[k]);
                                    assert(videos@ == prev.push(gv));
                                    assert(prev.push(gv)[k] == prev[k]);
                                } else {
                                    assert(e_new[k] == list@[i as int]);
                                    assert(videos@[k] == gv);
                                }
                            };
                        }
                    },
                    None => {
                        proof {
                            assert(spec_v3_emitted(list@.take(i + 1)) =~= spec_v3_emitted(
                                list@.take(i as int),
                            ));
                        }
                    },
                }
                i += 1;
            }
            proof {
                assert(list@.take(n as int) =~= list@);
            }
        },
        None => {
            proof {
                assert(spec_v3_emitted(Seq::<Json>::empty()) =~= Seq::<Json>::empty());
            }
        },
    }
    Ok((videos, token))
}

/// A record missing an id is never emitted from the listing shapes
/// either: every kept item names a non-empty id.
pub proof fn lemma_v3_emitted_have_ids(items: Seq<Json>)
    ensures
        forall|k: int|
            0 <= k < spec_v3_emitted(items).len() ==> (match spec_v3_vid(
                #[trigger] spec_v3_emitted(items)[k],
            ) {
                Some(s) => s.len() > 0,
                None => false,
            }),
    decreases items.len(),
{
    if items.len() > 0 {
        lemma_v3_emitted_have_ids(items.drop_last());
        let e_old = spec_v3_emitted(items.drop_last());
        let e_new = spec_v3_emitted(items);
        assert forall|k: int|
            0 <= k < e_new.len() implies (match spec_v3_vid(#[trigger] e_new[k]) {
            Some(s) => s.len() > 0,
            None => false,
        }) by {
            if k < e_old.len() {
                assert(e_new[k] == e_old[k]);
            }
        };
    }
}

/// The view count the statistics response reports for an id: the last
/// matching item decides, `0` standing in for a missing counter.
pub open spec fn spec_stats_vc(items: Seq<Json>, id: Seq<char>) -> Option<Seq<char>>
    decreases items.len(),
{
    if items.len() == 0 {
        None
    } else {
        if json::opt_str(items.last().spec_get("id"@)) == Some(id) {
            Some(
                match json::opt_str(
                    json::opt_get(items.last().spec_get("statistics"@), "viewCount"@),
                ) {
                    Some(s) => s,
                    None => "0"@,
                },
            )
        } else {
            spec_stats_vc(items.drop_last(), id)
        }
    }
}

/// No earlier record carries the same id: only the first occurrence of
/// an id takes the merged count.
pub open spec fn spec_first_with_id(vs: Seq<Video>, i: int) -> bool {
    forall|j: int| 0 <= j < i ==> vs[j].id@ != vs[i].id@
}

/// What the merge leaves each record's view count at.
pub open spec fn spec_merged_vc(vs: Seq<Video>, items: Seq<Json>, i: int) -> Seq<char> {
    if spec_first_with_id(vs, i) {
        match spec_stats_vc(items, vs[i].id@) {
            Some(vc) => vc,
            None => vs[i].view_count@,
        }
    } else {
        vs[i].view_count@
    }
}

/// All fields carried over unchanged but the view count.
pub open spec fn spec_merged_fields(ov: Video, nv: Video, vc: Seq<char>) -> bool {
    &&& nv.id == ov.id
    &&& nv.title == ov.title
    &&& nv.thumbnail == ov.thumbnail
    &&& nv.published_at == ov.published_at
    &&& nv.author == ov.author
    &&& nv.status == ov.status
    &&& nv.date_added == ov.date_added
    &&& nv.view_count@ == vc
}

fn stats_vc_for(items: &Vec<Json>, id: &str) -> (r: Option<String>)
    ensures
        (match r {
            Some(vc) => spec_stats_vc(items@, id@) == Some(vc@),
            None => spec_stats_vc(items@, id@) is None,
        }),
{
    let n = items.len();
    let mut acc: Option<String> = None;
    let mut t: usize = 0;
    while t < n
        invariant
            n == items@.len(),
            t <= n,
            (match acc {
                Some(vc) => spec_stats_vc(items@.take(t as int), id@) == Some(vc@),
                None => spec_stats_vc(items@.take(t as int), id@) is None,
            }),
        decreases n - t,
    {
        proof {
            assert(items@.take(t + 1).drop_last() =~= items@.take(t as int));
            assert(items@.take(t + 1).last() == items@[t as int]);
        }
        let item = &items[t];
        let matches_id = match item.get_str("id") {
            Some(s) => text::str_eq(s.as_str(), id),
            None => false,
        };
        if matches_id {
            let vc = match json::opt_get_ref(item.get("statistics"), "viewCount") {
                Some(x) => match x.as_str() {
                    Some(s) => s.clone(),
                    None => String::from_str("0"),
                },
                None => String::from_str("0"),
            };
            acc = Some(vc);
        }
        t += 1;
    }
    proof {
        assert(items@.take(n as int) =~= items@);
    }
    acc
}

/// Merges the statistics response's view counts into the listing: the
/// first record with a reported id takes the last reported count for
/// it; everything else is untouched.
pub fn merge_view_counts(videos: &mut Vec<Video>, stats: &Json)
    ensures
        final(videos)@.len() == old(videos)@.len(),
        forall|k: int|
            0 <= k < old(videos)@.len() ==> spec_merged_fields(
                old(videos)@[k],
                #[trigger] final(videos)@[k],
                spec_merged_vc(
                    old(videos)@,
                    (match json::opt_arr((*stats).spec_get("items"@)) {
                        Some(s) => s,
                        None => Seq::empty(),
                    }),
                    k,
                ),
            ),
{
    let ghost old_vs = videos@;
    let ghost stat_items = (match json::opt_arr((*stats).spec_get("items"@)) {
        Some(s) => s,
        None => Seq::<Json>::empty(),
    });
    let items = match stats.get("items") {
        Some(x) => match x.as_arr() {
            Some(a) => Some(a),
            None => None,
        },
        None => None,
    };
    let n = videos.len();
    let mut k: usize = 0;
    while k < n
        invariant
            n == videos@.len(),
            videos@.len() == old_vs.len(),
            old_vs == old(videos)@,
            k <= n,
            (match items {
                Some(a) => stat_items == a@,
                None => stat_items == Seq::<Json>::empty(),
            }),
            forall|j: int| k <= j < n ==> videos@[j] == old_vs[j],
            forall|j: int|
                0 <= j < k ==> spec_merged_fields(
                    old_vs[j],
                    #[trigger] videos@[j],
                    spec_merged_vc(old_vs, stat_items, j),
                ),
        decreases n - k,
    {
        let mut first = true;
        let mut j: usize = 0;
        while j < k
            invariant
                k < n,
                n == videos@.len(),
                videos@.len() == old_vs.len(),
                j <= k,
                videos@[k as int] == old_vs[k as int],
                forall|t: int| 0 <= t < k ==> videos@[t].id == old_vs[t].id,
                first == (forall|t: int| 0 <= t < j ==> old_vs[t].id@ != old_vs[k as int].id@),
            decreases k - j,
        {
            let same = text::str_eq(videos[j].id.as_str(), videos[k].id.as_str());
            if same {
                first = false;
            }
            proof {
                if same {
                    assert(old_vs[j as int].id@ == old_vs[k as int].id@);
                    assert(!(forall|t: int|
                        0 <= t < j + 1 ==> old_vs[t].id@ != old_vs[k as int].id@));
                }
            }
            j += 1;
        }
        if first {
            let vc = match items {
                Some(a) => stats_vc_for(a, videos[k].id.as_str()),
                None => None,
            };
            match vc {
                Some(s) => {
                    proof {
                        assert(spec_first_with_id(old_vs, k as int));
                    }
                    videos[k].view_count = s;
                },
                None => {},
            }
        }
        k += 1;
    }
}

/// The listing-page request address of the uploads playlist.
pub fn v3_playlist_items_url(playlist_id: &str, api_key: &str, page_token: Option<&str>) -> (r:
    String)
    ensures
        r@
            == "https://youtube.googleapis.com/youtube/v3/playlistItems?part=snippet,contentDetails&maxResults=50&playlistId="@
            + playlist_id@ + "&key="@ + api_key@ + (match page_token {
            Some(t) => "&pageToken="@ + t@,
            None => Seq::<char>::empty(),
        }),
{
    let mut s = String::from_str(
        "https://youtube.googleapis.com/youtube/v3/playlistItems?part=snippet,contentDetails&maxResults=50&playlistId=",
    );
    s.append(playlist_id);
    s.append("&key=");
    s.append(api_key);
    match page_token {
        Some(t) => {
            s.append("&pageToken=");
            s.append(t);
        },
        None => {},
    }
    s
}

/// The fallback search request address for a channel's videos.
pub fn v3_search_url(channel_id: &str, api_key: &str, page_token: Option<&str>) -> (r: String)
    ensures
        r@
            == "https://youtube.googleapis.com/youtube/v3/search?part=snippet&maxResults=50&channelId="@
            + channel_id@ + "&order=date&type=video&key="@ + api_key@ + (match page_token {
            Some(t) => "&pageToken="@ + t@,
            None => Seq::<char>::empty(),
        }),
{
    let mut s = String::from_str(
        "https://youtube.googleapis.com/youtube/v3/search?part=snippet&maxResults=50&channelId=",
    );
    s.append(channel_id);
    s.append("&order=date&type=video&key=");
    s.append(api_key);
    match page_token {
        Some(t) => {
            s.append("&pageToken=");
            s.append(t);
        },
        None => {},
    }
    s
}

/// The statistics request address for a page's video ids.
pub fn v3_videos_url(video_ids: &Vec<String>, api_key: &str) -> (r: String)
    ensures
        r@ == "https://youtube.googleapis.com/youtube/v3/videos?part=statistics&id="@
            + text::join_with(video_ids@.map_values(|p: String| p@), ","@) + "&key="@ + api_key@,
{
    let mut s = String::from_str(
        "https://youtube.googleapis.com/youtube/v3/videos?part=statistics&id=",
    );
    let joined = text::join_all(video_ids, ",");
    s.append(joined.as_str());
    s.append("&key=");
    s.append(api_key);
    s
}

} // verus!
