//! The pagination walker: one page of records and the next continuation
//! token pulled out of a browse or search result tree. The first page
//! and later pages place items at structurally different paths, so both
//! are checked independently on every response.

use vstd::prelude::*;
use vstd::string::*;
use crate::errors::ApiError;
use crate::json::{self, Json};
use crate::normalize;
use crate::records::{Video, VideoResponse};

verus! {

/// The first-page item list: the initial-section content path.
pub open spec fn spec_browse_items_initial(data: Json) -> Option<Seq<Json>> {
    let tab = json::opt_idx(
        json::opt_get(
            json::opt_get(data.spec_get("contents"@), "twoColumnBrowseResultsRenderer"@),
            "tabs"@,
        ),
        0,
    );
    let section = json::opt_idx(
        json::opt_get(
            json::opt_get(
                json::opt_get(json::opt_get(tab, "tabRenderer"@), "content"@),
                "sectionListRenderer"@,
            ),
            "contents"@,
        ),
        0,
    );
    let item0 = json::opt_idx(
        json::opt_get(json::opt_get(section, "itemSectionRenderer"@), "contents"@),
        0,
    );
    json::opt_arr(
        json::opt_get(json::opt_get(item0, "playlistVideoListRenderer"@), "contents"@),
    )
}

/// The appended continuation-items path of later pages.
pub open spec fn spec_browse_items_continuation(data: Json) -> Option<Seq<Json>> {
    json::opt_arr(
        json::opt_get(
            json::opt_get(
                json::opt_idx(data.spec_get("onResponseReceivedActions"@), 0),
                "appendContinuationItemsAction"@,
            ),
            "continuationItems"@,
        ),
    )
}

/// The opaque next-page token a continuation-marker item carries.
pub open spec fn spec_item_token(item: Json) -> Option<Seq<char>> {
    json::opt_str(
        json::opt_get(
            json::opt_get(
                json::opt_get(item.spec_get("continuationItemRenderer"@), "continuationEndpoint"@),
                "continuationCommand"@,
            ),
            "token"@,
        ),
    )
}

/// The first token among the items at or after `i`.
pub open spec fn spec_first_token(items: Seq<Json>, i: int) -> Option<Seq<char>>
    decreases items.len() - i,
{
    if i < 0 || i >= items.len() {
        None
    } else {
        match spec_item_token(items[i]) {
            Some(t) => Some(t),
            None => spec_first_token(items, i + 1)
        }
    }
}

/// The playlist renderers of an item list that yield a record, in
/// order; items of other shapes and items with no usable id are
/// dropped silently.
pub open spec fn spec_emitted_playlist(items: Seq<Json>) -> Seq<Json>
    decreases items.len(),
{
    if items.len() == 0 {
        Seq::empty()
    } else {
        let rest = spec_emitted_playlist(items.drop_last());
        match items.last().spec_get("playlistVideoRenderer"@) {
            Some(ren) => if normalize::spec_video_id(ren) is Some {
                rest.push(ren)
            } else {
                rest
            },
            None => rest,
        }
    }
}

/// The record a playlist renderer normalizes to.
pub open spec fn spec_playlist_video_matches(ren: Json, v: Video) -> bool {
    &&& normalize::spec_video_id(ren) == Some(v.id@)
    &&& v.wf()
    &&& v.title@ == normalize::spec_title(ren)
    &&& v.thumbnail@ == normalize::spec_thumbnail(ren, v.id@)
    &&& v.published_at@.len() == 0
    &&& v.view_count@.len() == 0
    &&& (v.author matches Some(a) && a@ == normalize::spec_owner_author(ren, "shortBylineText"@))
    &&& v.status is None
    &&& v.date_added is None
}

/// The renderers a browse page yields: the initial path's, then the
/// continuation path's.
pub open spec fn spec_browse_renderers(data: Json) -> Seq<Json> {
    let a = (match spec_browse_items_initial(data) {
        Some(s) => s,
        None => Seq::empty(),
    });
    let b = (match spec_browse_items_continuation(data) {
        Some(s) => s,
        None => Seq::empty(),
    });
    spec_emitted_playlist(a) + spec_emitted_playlist(b)
}

/// The next-page token a browse page yields: the first marker found,
/// looking at the initial path's items, then the continuation path's.
pub open spec fn spec_browse_token(data: Json) -> Option<Seq<char>> {
    let a = (match spec_browse_items_initial(data) {
        Some(s) => s,
        None => Seq::empty(),
    });
    let b = (match spec_browse_items_continuation(data) {
        Some(s) => s,
        None => Seq::empty(),
    });
    match spec_first_token(a, 0) {
        Some(t) => Some(t),
        None => spec_first_token(b, 0),
    }
}

/// One page of a browse result normalizes to exactly the records of its
/// emitting renderers, in order, plus the page's token.
pub open spec fn spec_browse_response_ok(data: Json, r: VideoResponse) -> bool {
    &&& r.videos@.len() == spec_browse_renderers(data).len()
    &&& (forall|k: int|
        0 <= k < r.videos@.len() ==> spec_playlist_video_matches(
            #[trigger] spec_browse_renderers(data)[k],
            r.videos@[k],
        ))
    &&& (match r.continuation {
        Some(t) => spec_browse_token(data) == Some(t@),
        None => spec_browse_token(data) is None,
    })
}

fn browse_items_initial<'a>(data: &'a Json) -> (r: Option<&'a Vec<Json>>)
    ensures
        (match r {
            Some(items) => spec_browse_items_initial(*data) == Some(items@),
            None => spec_browse_items_initial(*data) is None,
        }),
{
    let tabs = json::opt_get_ref(
        json::opt_get_ref(data.get("contents"), "twoColumnBrowseResultsRenderer"),
        "tabs",
    );
    let tab = json::opt_idx_ref(tabs, 0);
    let contents = json::opt_get_ref(
        json::opt_get_ref(
            json::opt_get_ref(json::opt_get_ref(tab, "tabRenderer"), "content"),
            "sectionListRenderer",
        ),
        "contents",
    );
    let section = json::opt_idx_ref(contents, 0);
    let item0 = json::opt_idx_ref(
        json::opt_get_ref(json::opt_get_ref(section, "itemSectionRenderer"), "contents"),
        0,
    );
    let list = json::opt_get_ref(
        json::opt_get_ref(item0, "playlistVideoListRenderer"),
        "contents",
    );
    match list {
        Some(x) => x.as_arr(),
        None => None,
    }
}

fn browse_items_continuation<'a>(data: &'a Json) -> (r: Option<&'a Vec<Json>>)
    ensures
        (match r {
            Some(items) => spec_browse_items_continuation(*data) == Some(items@),
            None => spec_browse_items_continuation(*data) is None,
        }),
{
    let action = json::opt_idx_ref(data.get("onResponseReceivedActions"), 0);
    let list = json::opt_get_ref(
        json::opt_get_ref(action, "appendContinuationItemsAction"),
        "continuationItems",
    );
    match list {
        Some(x) => x.as_arr(),
        None => None,
    }
}

fn item_token<'a>(item: &'a Json) -> (r: Option<&'a String>)
    ensures
        (match r {
            Some(t) => spec_item_token(*item) == Some(t@),
            None => spec_item_token(*item) is None,
        }),
{
    let cmd = json::opt_get_ref(
        json::opt_get_ref(
            json::opt_get_ref(item.get("continuationItemRenderer"), "continuationEndpoint"),
            "continuationCommand",
        ),
        "token",
    );
    match cmd {
        Some(x) => x.as_str(),
        None => None,
    }
}

fn first_token_in(items: &Vec<Json>) -> (r: Option<String>)
    ensures
        (match r {
            Some(t) => spec_first_token(items@, 0) == Some(t@),
            None => spec_first_token(items@, 0) is None,
        }),
{
    let n = items.len();
    let mut i: usize = 0;
    while i < n
        invariant
            n == items@.len(),
            i <= n,
            spec_first_token(items@, 0) == spec_first_token(items@, i as int),
        decreases n - i,
    {
        match item_token(&items[i]) {
            Some(t) => {
                return Some(t.clone());
            },
            None => {},
        }
        i += 1;
    }
    None
}

/// Appends the records of one item list's emitting playlist renderers.
fn emit_playlist_items(items: &Vec<Json>, out: &mut Vec<Video>)
    ensures
        final(out)@.len() == old(out)@.len() + spec_emitted_playlist(items@).len(),
        forall|k: int| 0 <= k < old(out)@.len() ==> final(out)@[k] == old(out)@[k],
        forall|k: int|
            0 <= k < spec_emitted_playlist(items@).len() ==> spec_playlist_video_matches(
                #[trigger] spec_emitted_playlist(items@)[k],
                final(out)@[old(out)@.len() + k],
            ),
{
    let n = items.len();
    let ghost base = out@.len() as int;
    let mut i: usize = 0;
    while i < n
        invariant
            n == items@.len(),
            i <= n,
            base == old(out)@.len(),
            out@.len() == base + spec_emitted_playlist(items@.take(i as int)).len(),
            base <= out@.len(),
            forall|k: int| 0 <= k < base ==> out@[k] == old(out)@[k],
            forall|k: int|
                0 <= k < spec_emitted_playlist(items@.take(i as int)).len()
                    ==> spec_playlist_video_matches(
                    #[trigger] spec_emitted_playlist(items@.take(i as int))[k],
                    out@[base + k],
                ),
        decreases n - i,
    {
        proof {
            assert(items@.take(i + 1).drop_last() =~= items@.take(i as int));
            assert(items@.take(i + 1).last() == items@[i as int]);
        }
        match items[i].get("playlistVideoRenderer") {
            Some(ren) => {
                match normalize::extract_playlist_video_info(ren) {
                    Some(v) => {
                        proof {
                            assert(spec_emitted_playlist(items@.take(i + 1))
                                =~= spec_emitted_playlist(items@.take(i as int)).push(*ren));
                        }
                        let ghost prev_out = out@;
                        let ghost gv = v;
                        out.push(v);
                        proof {
                            let e_old = spec_emitted_playlist(items@.take(i as int));
                            let e_new = spec_emitted_playlist(items@.take(i + 1));
                            assert forall|k: int|
                                0 <= k < e_new.len() implies spec_playlist_video_matches(
                                #[trigger] e_new[k],
                                out@[base + k],
                            ) by {
                                if k < e_old.len() {
                                    assert(e_new[k] == e_old[k]);
                                    assert(out@ == prev_out.push(gv));
                                    assert(prev_out.push(gv)[base + k] == prev_out[base + k]);
                                } else {
                                    assert(e_new[k] == *ren);
                                    assert(out@[base + k] == gv);
                                }
                            };
                        }
                    },
                    None => {
                        proof {
                            assert(spec_emitted_playlist(items@.take(i + 1))
                                =~= spec_emitted_playlist(items@.take(i as int)));
                        }
                    },
                }
            },
            None => {
                proof {
                    assert(spec_emitted_playlist(items@.take(i + 1)) =~= spec_emitted_playlist(
                        items@.take(i as int),
                    ));
                }
            },
        }
        i += 1;
    }
    proof {
        assert(items@.take(n as int) =~= items@);
    }
}

/// Walks one browse page: both nested item locations checked
/// independently, the records in order, and the next token if any.
pub fn walk_browse(data: &Json) -> (r: VideoResponse)
    ensures
        spec_browse_response_ok(*data, r),
{
    let mut videos: Vec<Video> = Vec::new();
    let ghost a = (match spec_browse_items_initial(*data) {
        Some(s) => s,
        None => Seq::<Json>::empty(),
    });
    let ghost b = (match spec_browse_items_continuation(*data) {
        Some(s) => s,
        None => Seq::<Json>::empty(),
    });
    match browse_items_initial(data) {
        Some(items) => {
            emit_playlist_items(items, &mut videos);
        },
        None => {
            proof {
                assert(spec_emitted_playlist(Seq::<Json>::empty()) =~= Seq::<Json>::empty());
            }
        },
    }
    let ghost mid = videos@.len() as int;
    match browse_items_continuation(data) {
        Some(items) => {
            emit_playlist_items(items, &mut videos);
        },
        None => {
            proof {
                assert(spec_emitted_playlist(Seq::<Json>::empty()) =~= Seq::<Json>::empty());
            }
        },
    }
    let token_a = match browse_items_initial(data) {
        Some(items) => first_token_in(items),
        None => None,
    };
    let continuation = match token_a {
        Some(t) => Some(t),
        None => match browse_items_continuation(data) {
            Some(items) => first_token_in(items),
            None => None,
        },
    };
    proof {
        assert(spec_browse_renderers(*data) == spec_emitted_playlist(a) + spec_emitted_playlist(
            b,
        ));
        assert(forall|k: int|
            0 <= k < spec_emitted_playlist(a).len() ==> (spec_emitted_playlist(a)
                + spec_emitted_playlist(b))[k] == spec_emitted_playlist(a)[k]);
        assert(forall|k: int|
            0 <= k < spec_emitted_playlist(b).len() ==> (spec_emitted_playlist(a)
                + spec_emitted_playlist(b))[spec_emitted_playlist(a).len() + k]
                == spec_emitted_playlist(b)[k]);
    }
    VideoResponse { videos, continuation }
}

/// A record missing an id is never emitted: every renderer the emission
/// keeps names a non-empty id.
pub proof fn lemma_emitted_playlist_have_ids(items: Seq<Json>)
    ensures
        forall|k: int|
            0 <= k < spec_emitted_playlist(items).len() ==> (match normalize::spec_video_id(
                #[trigger] spec_emitted_playlist(items)[k],
            ) {
                Some(s) => s.len() > 0,
                None => false,
            }),
    decreases items.len(),
{
    if items.len() > 0 {
        lemma_emitted_playlist_have_ids(items.drop_last());
        let e_old = spec_emitted_playlist(items.drop_last());
        let e_new = spec_emitted_playlist(items);
        assert forall|k: int|
            0 <= k < e_new.len() implies (match normalize::spec_video_id(#[trigger] e_new[k]) {
            Some(s) => s.len() > 0,
            None => false,
        }) by {
            if k < e_old.len() {
                assert(e_new[k] == e_old[k]);
            }
        };
    }
}

/// The same, for the search emission.
pub proof fn lemma_emitted_search_have_ids(items: Seq<Json>)
    ensures
        forall|k: int|
            0 <= k < spec_emitted_search(items).len() ==> (match normalize::spec_video_id(
                #[trigger] spec_emitted_search(items)[k],
            ) {
                Some(s) => s.len() > 0,
                None => false,
            }),
    decreases items.len(),
{
    if items.len() > 0 {
        lemma_emitted_search_have_ids(items.drop_last());
        let e_old = spec_emitted_search(items.drop_last());
        let e_new = spec_emitted_search(items);
        assert forall|k: int|
            0 <= k < e_new.len() implies (match normalize::spec_video_id(#[trigger] e_new[k]) {
            Some(s) => s.len() > 0,
            None => false,
        }) by {
            if k < e_old.len() {
                assert(e_new[k] == e_old[k]);
            }
        };
    }
}

/// A response carrying only the continuation-items path yields records
/// solely from that path; an empty continuation-items array yields no
/// records and no token.
pub proof fn lemma_continuation_only_page(data: Json)
    requires
        spec_browse_items_initial(data) is None,
    ensures
        spec_browse_renderers(data) == spec_emitted_playlist(
            (match spec_browse_items_continuation(data) {
                Some(s) => s,
                None => Seq::empty(),
            }),
        ),
        spec_browse_items_continuation(data) == Some(Seq::<Json>::empty())
            ==> spec_browse_renderers(data).len() == 0 && spec_browse_token(data) is None,
{
    let b = (match spec_browse_items_continuation(data) {
        Some(s) => s,
        None => Seq::<Json>::empty(),
    });
    assert(spec_emitted_playlist(Seq::<Json>::empty()) =~= Seq::<Json>::empty());
    assert(spec_browse_renderers(data) =~= spec_emitted_playlist(b));
}

/// The result sections of a search response.
pub open spec fn spec_search_sections(data: Json) -> Seq<Json> {
    match json::opt_arr(
        json::opt_get(
            json::opt_get(
                json::opt_get(
                    json::opt_get(data.spec_get("contents"@), "twoColumnSearchResultsRenderer"@),
                    "primaryContents"@,
                ),
                "sectionListRenderer"@,
            ),
            "contents"@,
        ),
    ) {
        Some(s) => s,
        None => Seq::empty(),
    }
}

/// The search renderers of an item list that yield a record, in order.
pub open spec fn spec_emitted_search(items: Seq<Json>) -> Seq<Json>
    decreases items.len(),
{
    if items.len() == 0 {
        Seq::empty()
    } else {
        let rest = spec_emitted_search(items.drop_last());
        match items.last().spec_get("videoRenderer"@) {
            Some(ren) => if normalize::spec_video_id(ren) is Some {
                rest.push(ren)
            } else {
                rest
            },
            None => rest,
        }
    }
}

/// One section's emitting search renderers.
pub open spec fn spec_section_renderers(section: Json) -> Seq<Json> {
    match json::opt_arr(json::opt_get(section.spec_get("itemSectionRenderer"@), "contents"@)) {
        Some(items) => spec_emitted_search(items),
        None => Seq::empty(),
    }
}

/// All sections' emitting renderers, in order.
pub open spec fn spec_sections_flat(sections: Seq<Json>) -> Seq<Json>
    decreases sections.len(),
{
    if sections.len() == 0 {
        Seq::empty()
    } else {
        spec_sections_flat(sections.drop_last()) + spec_section_renderers(sections.last())
    }
}

pub open spec fn spec_search_renderers(data: Json) -> Seq<Json> {
    spec_sections_flat(spec_search_sections(data))
}

/// The record a search renderer normalizes to.
pub open spec fn spec_search_video_matches(ren: Json, v: Video) -> bool {
    &&& normalize::spec_video_id(ren) == Some(v.id@)
    &&& v.wf()
    &&& v.title@ == normalize::spec_title(ren)
    &&& v.thumbnail@ == normalize::spec_thumbnail(ren, v.id@)
    &&& v.published_at@ == normalize::spec_text_field(ren, "publishedTimeText"@)
    &&& v.view_count@ == normalize::spec_text_field(ren, "viewCountText"@)
    &&& (v.author matches Some(a) && a@ == normalize::spec_owner_author(ren, "ownerText"@))
    &&& v.status is None
    &&& v.date_added is None
}

/// A search result normalizes to exactly the records of its emitting
/// renderers, section by section; search carries no continuation.
pub open spec fn spec_search_response_ok(data: Json, r: VideoResponse) -> bool {
    &&& r.videos@.len() == spec_search_renderers(data).len()
    &&& (forall|k: int|
        0 <= k < r.videos@.len() ==> spec_search_video_matches(
            #[trigger] spec_search_renderers(data)[k],
            r.videos@[k],
        ))
    &&& r.continuation is None
}

/// Appends the records of one item list's emitting search renderers.
fn emit_search_items(items: &Vec<Json>, out: &mut Vec<Video>)
    ensures
        final(out)@.len() == old(out)@.len() + spec_emitted_search(items@).len(),
        forall|k: int| 0 <= k < old(out)@.len() ==> final(out)@[k] == old(out)@[k],
        forall|k: int|
            0 <= k < spec_emitted_search(items@).len() ==> spec_search_video_matches(
                #[trigger] spec_emitted_search(items@)[k],
                final(out)@[old(out)@.len() + k],
            ),
{
    let n = items.len();
    let ghost base = out@.len() as int;
    let mut i: usize = 0;
    while i < n
        invariant
            n == items@.len(),
            i <= n,
            base == old(out)@.len(),
            out@.len() == base + spec_emitted_search(items@.take(i as int)).len(),
            forall|k: int| 0 <= k < base ==> out@[k] == old(out)@[k],
            forall|k: int|
                0 <= k < spec_emitted_search(items@.take(i as int)).len()
                    ==> spec_search_video_matches(
                    #[trigger] spec_emitted_search(items@.take(i as int))[k],
                    out@[base + k],
                ),
        decreases n - i,
    {
        proof {
            assert(items@.take(i + 1).drop_last() =~= items@.take(i as int));
            assert(items@.take(i + 1).last() == items@[i as int]);
        }
        match items[i].get("videoRenderer") {
            Some(ren) => {
                match normalize::extract_video_basic_info(ren) {
                    Some(v) => {
                        proof {
                            assert(spec_emitted_search(items@.take(i + 1)) =~= spec_emitted_search(
                                items@.take(i as int),
                            ).push(*ren));
                        }
                        let ghost prev_out = out@;
                        let ghost gv = v;
                        out.push(v);
                        proof {
                            let e_old = spec_emitted_search(items@.take(i as int));
                            let e_new = spec_emitted_search(items@.take(i + 1));
                            assert forall|k: int|
                                0 <= k < e_new.len() implies spec_search_video_matches(
                                #[trigger] e_new[k],
                                out@[base + k],
                            ) by {
                                if k < e_old.len() {
                                    assert(e_new[k] == e_old[k]);
                                    assert(out@ == prev_out.push(gv));
                                    assert(prev_out.push(gv)[base + k] == prev_out[base + k]);
                                } else {
                                    assert(e_new[k] == *ren);
                                    assert(out@[base + k] == gv);
                                }
                            };
                        }
                    },
                    None => {
                        proof {
                            assert(spec_emitted_search(items@.take(i + 1)) =~= spec_emitted_search(
                                items@.take(i as int),
                            ));
                        }
                    },
                }
            },
            None => {
                proof {
                    assert(spec_emitted_search(items@.take(i + 1)) =~= spec_emitted_search(
                        items@.take(i as int),
                    ));
                }
            },
        }
        i += 1;
    }
    proof {
        assert(items@.take(n as int) =~= items@);
    }
}

/// Walks one search result: every section's items normalized in order.
pub fn walk_search(data: &Json) -> (r: VideoResponse)
    ensures
        spec_search_response_ok(*data, r),
{
    let ghost sections_v = spec_search_sections(*data);
    let sections = match json::opt_get_ref(
        json::opt_get_ref(
            json::opt_get_ref(
                json::opt_get_ref(data.get("contents"), "twoColumnSearchResultsRenderer"),
                "primaryContents",
            ),
            "sectionListRenderer",
        ),
        "contents",
    ) {
        Some(x) => match x.as_arr() {
            Some(a) => Some(a),
            None => None,
        },
        None => None,
    };
    let mut videos: Vec<Video> = Vec::new();
    match sections {
        Some(list) => {
            let n = list.len();
            let mut i: usize = 0;
            while i < n
                invariant
                    n == list@.len(),
                    i <= n,
                    sections_v == list@,
                    videos@.len() == spec_sections_flat(list@.take(i as int)).len(),
                    forall|k: int|
                        0 <= k < videos@.len() ==> spec_search_video_matches(
                            #[trigger] spec_sections_flat(list@.take(i as int))[k],
                            videos@[k],
                        ),
                decreases n - i,
            {
                proof {
                    assert(list@.take(i + 1).drop_last() =~= list@.take(i as int));
                    assert(list@.take(i + 1).last() == list@[i as int]);
                }
                let ghost flat_old = spec_sections_flat(list@.take(i as int));
                let ghost prev = videos@;
                let section = &list[i];
                match json::opt_get_ref(section.get("itemSectionRenderer"), "contents") {
                    Some(x) => match x.as_arr() {
                        Some(items) => {
                            emit_search_items(items, &mut videos);
                        },
                        None => {},
                    },
                    None => {},
                }
                proof {
                    let sr = spec_section_renderers(list@[i as int]);
                    let flat_new = spec_sections_flat(list@.take(i + 1));
                    assert(flat_new == flat_old + sr);
                    assert(spec_emitted_search(Seq::<Json>::empty()) =~= Seq::<Json>::empty());
                    assert(videos@.len() == flat_new.len());
                    assert forall|k: int|
                        0 <= k < flat_new.len() implies spec_search_video_matches(
                        #[trigger] flat_new[k],
                        videos@[k],
                    ) by {
                        if k < flat_old.len() {
                            assert((flat_old + sr)[k] == flat_old[k]);
                            assert(videos@[k] == prev[k]);
                        } else {
                            assert((flat_old + sr)[k] == sr[k - flat_old.len()]);
                        }
                    };
                }
                i += 1;
            }
            proof {
                assert(list@.take(n as int) =~= list@);
            }
        },
        None => {
            proof {
                assert(spec_sections_flat(Seq::<Json>::empty()) =~= Seq::<Json>::empty());
            }
        },
    }
    VideoResponse { videos, continuation: None }
}

/// Decodes one search response body and walks it.
pub fn parse_search_videos(body: &str) -> (r: Result<VideoResponse, ApiError>)
    ensures
        (match json::json_of(body@) {
            Some(data) => r matches Ok(resp) && spec_search_response_ok(data, resp),
            None => r matches Err(e) && e matches ApiError::Decode(_),
        }),
{
    match json::parse_json(body) {
        Some(data) => Ok(walk_search(&data)),
        None => Err(ApiError::Decode(String::from_str("response body is not structured data"))),
    }
}

/// Decodes one browse response body and walks it; a body that is not
/// well-formed structured data is a decode error.
pub fn parse_browse_videos(body: &str) -> (r: Result<VideoResponse, ApiError>)
    ensures
        (match json::json_of(body@) {
            Some(data) => r matches Ok(resp) && spec_browse_response_ok(data, resp),
            None => r matches Err(e) && e matches ApiError::Decode(_),
        }),
{
    match json::parse_json(body) {
        Some(data) => Ok(walk_browse(&data)),
        None => Err(ApiError::Decode(String::from_str("response body is not structured data"))),
    }
}

} // verus!
