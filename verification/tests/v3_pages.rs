use kinesis::errors::ApiError;
use kinesis::json::Json;
use kinesis::v3::{
    merge_view_counts, parse_v3_page, v3_playlist_items_url, v3_search_url, v3_videos_url,
};

fn jstr(s: &str) -> Json {
    Json::Str(s.to_string())
}

fn jobj(fields: Vec<(&str, Json)>) -> Json {
    Json::Obj(fields.into_iter().map(|(k, v)| (k.to_string(), v)).collect())
}

#[test]
fn listing_page_items_and_token() {
    let body = r#"{"nextPageToken":"NPT","items":[
        {"contentDetails":{"videoId":"x1"},"snippet":{"title":"T1","publishedAt":"2024-01-01","channelTitle":"C","thumbnails":{"high":{"url":"H"},"default":{"url":"D"}}}},
        {"id":{"videoId":"x2"},"snippet":{"title":"T2","thumbnails":{"default":{"url":"D2"}}}},
        {"id":"x3","snippet":{}}
    ]}"#;
    let (videos, token) = parse_v3_page(body).unwrap();
    assert_eq!(token.as_deref(), Some("NPT"));
    assert_eq!(videos.len(), 3);
    assert_eq!(videos[0].id, "x1");
    assert_eq!(videos[0].title, "T1");
    assert_eq!(videos[0].thumbnail, "H");
    assert_eq!(videos[0].published_at, "2024-01-01");
    assert_eq!(videos[0].author.as_deref(), Some("C"));
    assert_eq!(videos[0].view_count, "0");
    assert_eq!(videos[1].id, "x2");
    assert_eq!(videos[1].thumbnail, "D2");
    assert!(videos[1].author.is_none());
    assert_eq!(videos[2].id, "x3");
    assert_eq!(videos[2].title, "Unknown");
}

#[test]
fn listing_page_without_token() {
    let (videos, token) = parse_v3_page(r#"{"items":[]}"#).unwrap();
    assert!(videos.is_empty());
    assert!(token.is_none());
}

#[test]
fn listing_error_payload_is_remote_error() {
    match parse_v3_page(r#"{"error":{"message":"quota exceeded"}}"#) {
        Err(ApiError::Remote(m)) => assert_eq!(m, "quota exceeded"),
        other => panic!("expected a remote error, got {:?}", other),
    }
    match parse_v3_page(r#"{"error":{}}"#) {
        Err(ApiError::Remote(m)) => assert_eq!(m, "Unknown"),
        other => panic!("expected a remote error, got {:?}", other),
    }
}

#[test]
fn listing_malformed_body_is_decode_error() {
    match parse_v3_page("not structured") {
        Err(ApiError::Decode(_)) => {},
        other => panic!("expected a decode error, got {:?}", other),
    }
}

#[test]
fn view_counts_merged_by_id() {
    let body = r#"{"items":[
        {"contentDetails":{"videoId":"x1"},"snippet":{"title":"T1"}},
        {"contentDetails":{"videoId":"x2"},"snippet":{"title":"T2"}}
    ]}"#;
    let (mut videos, _) = parse_v3_page(body).unwrap();
    let stats = jobj(vec![(
        "items",
        Json::Arr(vec![
            jobj(vec![
                ("id", jstr("x2")),
                ("statistics", jobj(vec![("viewCount", jstr("42"))])),
            ]),
            jobj(vec![("id", jstr("zz"))]),
        ]),
    )]);
    merge_view_counts(&mut videos, &stats);
    assert_eq!(videos[0].view_count, "0");
    assert_eq!(videos[1].view_count, "42");
    assert_eq!(videos[1].title, "T2");
}

#[test]
fn merged_count_missing_counter_reads_zero() {
    let body = r#"{"items":[{"contentDetails":{"videoId":"x1"},"snippet":{"title":"T1"}}]}"#;
    let (mut videos, _) = parse_v3_page(body).unwrap();
    videos[0].view_count = "preset".to_string();
    let stats = jobj(vec![("items", Json::Arr(vec![jobj(vec![("id", jstr("x1"))])]))]);
    merge_view_counts(&mut videos, &stats);
    assert_eq!(videos[0].view_count, "0");
}

#[test]
fn playlist_items_address() {
    let url = v3_playlist_items_url("UUabc", "KEY", None);
    assert_eq!(
        url,
        "https://youtube.googleapis.com/youtube/v3/playlistItems?part=snippet,contentDetails&maxResults=50&playlistId=UUabc&key=KEY"
    );
    let url = v3_playlist_items_url("UUabc", "KEY", Some("P2"));
    assert!(url.ends_with("&key=KEY&pageToken=P2"));
}

#[test]
fn search_address() {
    let url = v3_search_url("UCabc", "KEY", None);
    assert_eq!(
        url,
        "https://youtube.googleapis.com/youtube/v3/search?part=snippet&maxResults=50&channelId=UCabc&order=date&type=video&key=KEY"
    );
}

#[test]
fn statistics_address_joins_ids() {
    let ids = vec!["a".to_string(), "b".to_string(), "c".to_string()];
    let url = v3_videos_url(&ids, "KEY");
    assert_eq!(
        url,
        "https://youtube.googleapis.com/youtube/v3/videos?part=statistics&id=a,b,c&key=KEY"
    );
}
