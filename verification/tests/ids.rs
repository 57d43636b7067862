use kinesis::errors::ApiError;
use kinesis::ids::{
    channel_id_to_uploads_playlist, channel_resolution, classify_channel_query, extract_playlist_id,
    extract_video_id, find_channel_id_in_page, to_browse_id, ChannelQuery,
};

#[test]
fn video_id_from_watch_url() {
    let id = extract_video_id("https://www.youtube.com/watch?v=dQw4w9WgXcQ&t=10s");
    assert_eq!(id, "dQw4w9WgXcQ");
}

#[test]
fn video_id_passthrough() {
    assert_eq!(extract_video_id("dQw4w9WgXcQ"), "dQw4w9WgXcQ");
}

#[test]
fn playlist_id_from_url() {
    let id = extract_playlist_id("https://www.youtube.com/playlist?list=PLxyz&index=2");
    assert_eq!(id, "PLxyz");
}

#[test]
fn playlist_id_passthrough() {
    assert_eq!(extract_playlist_id("PLxyz"), "PLxyz");
}

#[test]
fn uploads_playlist_swaps_prefix() {
    assert_eq!(
        channel_id_to_uploads_playlist("UCAAAAAAAAAAAAAAAAAAAAAA"),
        "UUAAAAAAAAAAAAAAAAAAAAAA"
    );
}

#[test]
fn uploads_playlist_keeps_other_text() {
    assert_eq!(channel_id_to_uploads_playlist("PLxyz"), "PLxyz");
}

#[test]
fn browse_id_prefixes_playlist() {
    assert_eq!(to_browse_id("PLxyz"), "VLPLxyz");
}

#[test]
fn browse_id_never_double_prefixes() {
    let once = to_browse_id("PLxyz");
    let twice = to_browse_id(&once);
    assert_eq!(once, "VLPLxyz");
    assert_eq!(twice, "VLPLxyz");
}

#[test]
fn classify_literal_channel_id() {
    let q = classify_channel_query("UCAAAAAAAAAAAAAAAAAAAAAA");
    assert_eq!(q, ChannelQuery::Direct("UCAAAAAAAAAAAAAAAAAAAAAA".to_string()));
}

#[test]
fn classify_channel_url() {
    let q = classify_channel_query("https://www.youtube.com/channel/UCBBBBBBBBBBBBBBBBBBBBBB/videos");
    assert_eq!(q, ChannelQuery::Direct("UCBBBBBBBBBBBBBBBBBBBBBB".to_string()));
}

#[test]
fn classify_handle_url() {
    let q = classify_channel_query("https://www.youtube.com/@somehandle?si=1");
    assert_eq!(q, ChannelQuery::Handle("somehandle".to_string()));
}

#[test]
fn classify_at_handle() {
    let q = classify_channel_query("@somehandle");
    assert_eq!(q, ChannelQuery::Handle("somehandle".to_string()));
}

#[test]
fn classify_legacy_custom_url() {
    let q = classify_channel_query("https://www.youtube.com/c/SomeName/videos");
    assert_eq!(q, ChannelQuery::Handle("SomeName".to_string()));
}

#[test]
fn classify_bare_text_is_handle() {
    let q = classify_channel_query("somename");
    assert_eq!(q, ChannelQuery::Handle("somename".to_string()));
}

#[test]
fn channel_id_from_page_json_pattern() {
    let page = r#"<html><script>var x = {"channelId":"UCXXXXXXXXXXXXXXXXXXXXXX","title":"t"};</script></html>"#;
    assert_eq!(
        find_channel_id_in_page(page),
        Some("UCXXXXXXXXXXXXXXXXXXXXXX".to_string())
    );
}

#[test]
fn channel_id_from_page_og_url_pattern() {
    let page = r#"<meta property="og:url" content="https://www.youtube.com/channel/UCYYYYYYYYYYYYYYYYYYYYYY">"#;
    assert_eq!(
        find_channel_id_in_page(page),
        Some("UCYYYYYYYYYYYYYYYYYYYYYY".to_string())
    );
}

#[test]
fn channel_id_from_page_canonical_link_pattern() {
    let page = r#"<link rel="canonical" href="https://www.youtube.com/channel/UCZZZZZZZZZZZZZZZZZZZZZZ">"#;
    assert_eq!(
        find_channel_id_in_page(page),
        Some("UCZZZZZZZZZZZZZZZZZZZZZZ".to_string())
    );
}

#[test]
fn channel_id_first_pattern_wins() {
    let mut page = String::from(r#"{"channelId":"UC1111111111111111111111"}"#);
    page.push_str(
        r#"<meta property="og:url" content="https://www.youtube.com/channel/UC2222222222222222222222">"#,
    );
    assert_eq!(
        find_channel_id_in_page(&page),
        Some("UC1111111111111111111111".to_string())
    );
}

#[test]
fn channel_id_skips_malformed_capture() {
    // The first occurrence does not open a UC id, so the scan moves on.
    let mut page = String::from(r#"{"channelId":"not-an-id"}"#);
    page.push_str(r#"{"channelId":"UC3333333333333333333333"}"#);
    assert_eq!(
        find_channel_id_in_page(&page),
        Some("UC3333333333333333333333".to_string())
    );
}

#[test]
fn channel_id_absent() {
    assert_eq!(find_channel_id_in_page("<html>nothing here</html>"), None);
}

#[test]
fn resolution_success_carries_query() {
    let r = channel_resolution("@handle", Some("UCXXXXXXXXXXXXXXXXXXXXXX".to_string()));
    let info = r.unwrap();
    assert_eq!(info.channel_id, "UCXXXXXXXXXXXXXXXXXXXXXX");
    assert_eq!(info.channel_name, "@handle");
}

#[test]
fn resolution_exhausted_is_not_found() {
    let r = channel_resolution("@handle", None);
    match r {
        Err(ApiError::NotFound(m)) => assert_eq!(m, "Could not resolve channel."),
        other => panic!("expected a not-found error, got {:?}", other),
    }
}
