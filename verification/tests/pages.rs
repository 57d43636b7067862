use kinesis::errors::ApiError;
use kinesis::pages::{parse_browse_videos, parse_search_videos};

#[test]
fn browse_initial_path_yields_records() {
    let body = r#"{"contents":{"twoColumnBrowseResultsRenderer":{"tabs":[{"tabRenderer":{"content":{"sectionListRenderer":{"contents":[{"itemSectionRenderer":{"contents":[{"playlistVideoListRenderer":{"contents":[{"playlistVideoRenderer":{"videoId":"aaa","title":{"runs":[{"text":"First"}]},"shortBylineText":{"runs":[{"text":"Chan"}]}}},{"playlistVideoRenderer":{"videoId":"bbb","title":{"simpleText":"Second"},"thumbnail":{"thumbnails":[{"url":"lo"},{"url":"hi"}]}}}]}}]}}]}}}}]}}}"#;
    let r = parse_browse_videos(body).unwrap();
    assert_eq!(r.videos.len(), 2);
    assert_eq!(r.videos[0].id, "aaa");
    assert_eq!(r.videos[0].title, "First");
    assert_eq!(r.videos[0].author.as_deref(), Some("Chan"));
    assert_eq!(r.videos[0].thumbnail, "https://i.ytimg.com/vi/aaa/hqdefault.jpg");
    assert_eq!(r.videos[1].id, "bbb");
    assert_eq!(r.videos[1].title, "Second");
    assert_eq!(r.videos[1].thumbnail, "hi");
    assert!(r.continuation.is_none());
}

#[test]
fn browse_continuation_path_only() {
    let body = r#"{"onResponseReceivedActions":[{"appendContinuationItemsAction":{"continuationItems":[
        {"playlistVideoRenderer":{"videoId":"ccc","title":{"runs":[{"text":"Later"}]}}}
    ]}}]}"#;
    let r = parse_browse_videos(body).unwrap();
    assert_eq!(r.videos.len(), 1);
    assert_eq!(r.videos[0].id, "ccc");
    assert!(r.continuation.is_none());
}

#[test]
fn browse_empty_continuation_items() {
    let body =
        r#"{"onResponseReceivedActions":[{"appendContinuationItemsAction":{"continuationItems":[]}}]}"#;
    let r = parse_browse_videos(body).unwrap();
    assert!(r.videos.is_empty());
    assert!(r.continuation.is_none());
}

#[test]
fn browse_continuation_token_extracted() {
    let body = r#"{"onResponseReceivedActions":[{"appendContinuationItemsAction":{"continuationItems":[
        {"playlistVideoRenderer":{"videoId":"ddd","title":{"runs":[{"text":"T"}]}}},
        {"continuationItemRenderer":{"continuationEndpoint":{"continuationCommand":{"token":"NEXT-TOKEN"}}}}
    ]}}]}"#;
    let r = parse_browse_videos(body).unwrap();
    assert_eq!(r.videos.len(), 1);
    assert_eq!(r.continuation.as_deref(), Some("NEXT-TOKEN"));
}

#[test]
fn browse_item_without_id_is_dropped() {
    let body = r#"{"onResponseReceivedActions":[{"appendContinuationItemsAction":{"continuationItems":[
        {"playlistVideoRenderer":{"title":{"runs":[{"text":"no id"}]}}},
        {"playlistVideoRenderer":{"videoId":"","title":{"runs":[{"text":"empty id"}]}}},
        {"playlistVideoRenderer":{"videoId":"keep","title":{"runs":[{"text":"kept"}]}}}
    ]}}]}"#;
    let r = parse_browse_videos(body).unwrap();
    assert_eq!(r.videos.len(), 1);
    assert_eq!(r.videos[0].id, "keep");
}

#[test]
fn browse_body_that_is_not_structured_data() {
    match parse_browse_videos("this is not a result tree") {
        Err(ApiError::Decode(_)) => {},
        other => panic!("expected a decode error, got {:?}", other),
    }
}

#[test]
fn search_results_normalized() {
    let body = r#"{"contents":{"twoColumnSearchResultsRenderer":{"primaryContents":{"sectionListRenderer":{"contents":[{"itemSectionRenderer":{"contents":[
        {"videoRenderer":{"videoId":"v1","title":{"runs":[{"text":"Hit"}]},"viewCountText":{"simpleText":"1,234 views"},"publishedTimeText":{"simpleText":"1 day ago"},"ownerText":{"runs":[{"text":"Chan"}]},"thumbnail":{"thumbnails":[{"url":"lo"},{"url":"hi"}]}}},
        {"videoRenderer":{"title":{"runs":[{"text":"no id, dropped"}]}}},
        {"shelfRenderer":{"title":{"simpleText":"not a video"}}}
    ]}}]}}}}}"#;
    let r = parse_search_videos(body).unwrap();
    assert_eq!(r.videos.len(), 1);
    let v = &r.videos[0];
    assert_eq!(v.id, "v1");
    assert_eq!(v.title, "Hit");
    assert_eq!(v.view_count, "1,234 views");
    assert_eq!(v.published_at, "1 day ago");
    assert_eq!(v.author.as_deref(), Some("Chan"));
    assert_eq!(v.thumbnail, "hi");
    assert!(v.status.is_none());
    assert!(r.continuation.is_none());
}

#[test]
fn search_view_count_falls_back_to_runs() {
    let body = r#"{"contents":{"twoColumnSearchResultsRenderer":{"primaryContents":{"sectionListRenderer":{"contents":[{"itemSectionRenderer":{"contents":[
        {"videoRenderer":{"videoId":"v2","title":{"runs":[{"text":"T"}]},"viewCountText":{"runs":[{"text":"12"},{"text":" views"}]}}}
    ]}}]}}}}}"#;
    let r = parse_search_videos(body).unwrap();
    assert_eq!(r.videos[0].view_count, "12 views");
}

#[test]
fn search_empty_tree() {
    let r = parse_search_videos("{}").unwrap();
    assert!(r.videos.is_empty());
}
