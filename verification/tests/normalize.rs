use kinesis::errors::{ApiError, TranscriptFailure};
use kinesis::json::Json;
use kinesis::normalize::{
    extract_playlist_video_info, extract_video_basic_info, extract_view_count,
    save_fields_from_player, video_from_player,
};
use kinesis::records::{canonical_thumbnail, parse_resolution, DisplaySettings};

fn jstr(s: &str) -> Json {
    Json::Str(s.to_string())
}

fn jobj(fields: Vec<(&str, Json)>) -> Json {
    Json::Obj(fields.into_iter().map(|(k, v)| (k.to_string(), v)).collect())
}

fn runs(texts: Vec<&str>) -> Json {
    jobj(vec![(
        "runs",
        Json::Arr(texts.into_iter().map(|t| jobj(vec![("text", jstr(t))])).collect()),
    )])
}

#[test]
fn basic_item_all_fields() {
    let renderer = jobj(vec![
        ("videoId", jstr("vid")),
        ("title", runs(vec!["A title"])),
        (
            "thumbnail",
            jobj(vec![(
                "thumbnails",
                Json::Arr(vec![
                    jobj(vec![("url", jstr("small"))]),
                    jobj(vec![("url", jstr("large"))]),
                ]),
            )]),
        ),
        ("publishedTimeText", jobj(vec![("simpleText", jstr("2 days ago"))])),
        ("viewCountText", jobj(vec![("simpleText", jstr("5 views"))])),
        ("ownerText", runs(vec!["Owner"])),
    ]);
    let v = extract_video_basic_info(&renderer).unwrap();
    assert_eq!(v.id, "vid");
    assert_eq!(v.title, "A title");
    assert_eq!(v.thumbnail, "large");
    assert_eq!(v.published_at, "2 days ago");
    assert_eq!(v.view_count, "5 views");
    assert_eq!(v.author.as_deref(), Some("Owner"));
    assert!(v.status.is_none());
    assert!(v.date_added.is_none());
}

#[test]
fn basic_item_missing_id_never_emits() {
    let renderer = jobj(vec![("title", runs(vec!["no id"]))]);
    assert!(extract_video_basic_info(&renderer).is_none());
    let empty_id = jobj(vec![("videoId", jstr("")), ("title", runs(vec!["empty"]))]);
    assert!(extract_video_basic_info(&empty_id).is_none());
}

#[test]
fn basic_item_fallbacks() {
    let renderer = jobj(vec![("videoId", jstr("vid2"))]);
    let v = extract_video_basic_info(&renderer).unwrap();
    assert_eq!(v.title, "Unknown");
    assert_eq!(v.thumbnail, "https://i.ytimg.com/vi/vid2/hqdefault.jpg");
    assert_eq!(v.published_at, "");
    assert_eq!(v.view_count, "");
    assert_eq!(v.author.as_deref(), Some(""));
}

#[test]
fn basic_item_simple_text_title() {
    let renderer = jobj(vec![
        ("videoId", jstr("vid3")),
        ("title", jobj(vec![("simpleText", jstr("Plain"))])),
    ]);
    let v = extract_video_basic_info(&renderer).unwrap();
    assert_eq!(v.title, "Plain");
}

#[test]
fn basic_item_view_count_runs_fallback() {
    let renderer = jobj(vec![
        ("videoId", jstr("vid4")),
        ("viewCountText", runs(vec!["9 ", "views"])),
    ]);
    let v = extract_video_basic_info(&renderer).unwrap();
    assert_eq!(v.view_count, "9 views");
}

#[test]
fn playlist_item_fields() {
    let renderer = jobj(vec![
        ("videoId", jstr("pv")),
        ("title", runs(vec!["In a playlist"])),
        ("shortBylineText", runs(vec!["Byline"])),
    ]);
    let v = extract_playlist_video_info(&renderer).unwrap();
    assert_eq!(v.id, "pv");
    assert_eq!(v.title, "In a playlist");
    assert_eq!(v.published_at, "");
    assert_eq!(v.view_count, "");
    assert_eq!(v.author.as_deref(), Some("Byline"));
}

#[test]
fn playlist_item_missing_id_never_emits() {
    let renderer = jobj(vec![("title", runs(vec!["x"]))]);
    assert!(extract_playlist_video_info(&renderer).is_none());
}

fn sample_player() -> Json {
    jobj(vec![
        (
            "videoDetails",
            jobj(vec![
                ("videoId", jstr("pid")),
                ("title", jstr("Detail title")),
                ("author", jstr("Someone")),
                ("viewCount", jstr("321")),
                ("lengthSeconds", jstr("95")),
                (
                    "thumbnail",
                    jobj(vec![(
                        "thumbnails",
                        Json::Arr(vec![jobj(vec![("url", jstr("best"))])]),
                    )]),
                ),
            ]),
        ),
        (
            "microformat",
            jobj(vec![(
                "playerMicroformatRenderer",
                jobj(vec![("publishDate", jstr("2023-05-06"))]),
            )]),
        ),
    ])
}

#[test]
fn player_detail_record() {
    let v = video_from_player(&sample_player(), "asked");
    assert_eq!(v.id, "pid");
    assert_eq!(v.title, "Detail title");
    assert_eq!(v.thumbnail, "best");
    assert_eq!(v.published_at, "2023-05-06");
    assert_eq!(v.view_count, "321");
    assert_eq!(v.author.as_deref(), Some("Someone"));
}

#[test]
fn player_detail_falls_back_to_requested_id() {
    let v = video_from_player(&jobj(vec![]), "asked");
    assert_eq!(v.id, "asked");
    assert_eq!(v.title, "Unknown");
    assert_eq!(v.thumbnail, "https://i.ytimg.com/vi/asked/hqdefault.jpg");
    assert_eq!(v.view_count, "0");
    assert!(v.author.is_none());
}

#[test]
fn view_count_read_from_player() {
    assert_eq!(extract_view_count(&sample_player()), "321");
    assert_eq!(extract_view_count(&jobj(vec![])), "0");
}

#[test]
fn save_fields_read_from_player() {
    let f = save_fields_from_player(&sample_player());
    assert_eq!(f.title, "Detail title");
    assert_eq!(f.author, "Someone");
    assert_eq!(f.length_seconds, 95);
    assert_eq!(f.view_count, "321");
    assert_eq!(f.published_at, "2023-05-06");
}

#[test]
fn save_fields_length_rejects_malformed() {
    let player = jobj(vec![(
        "videoDetails",
        jobj(vec![("lengthSeconds", jstr("12a"))]),
    )]);
    assert_eq!(save_fields_from_player(&player).length_seconds, 0);
    let huge = jobj(vec![(
        "videoDetails",
        jobj(vec![("lengthSeconds", jstr("99999999999"))]),
    )]);
    assert_eq!(save_fields_from_player(&huge).length_seconds, 0);
}

#[test]
fn canonical_thumbnail_address() {
    assert_eq!(
        canonical_thumbnail("abc"),
        "https://i.ytimg.com/vi/abc/hqdefault.jpg"
    );
}

#[test]
fn resolution_parses_well_formed() {
    assert_eq!(parse_resolution("1440x900"), Some((1440, 900)));
    assert_eq!(parse_resolution("1x1"), Some((1, 1)));
}

#[test]
fn resolution_rejects_malformed() {
    assert_eq!(parse_resolution("1440"), None);
    assert_eq!(parse_resolution("x900"), None);
    assert_eq!(parse_resolution("1440x"), None);
    assert_eq!(parse_resolution("1440x9a0"), None);
    assert_eq!(parse_resolution("1440x900x600"), None);
}

#[test]
fn display_settings_default() {
    let d = DisplaySettings::default();
    assert_eq!(d.resolution, "1440x900");
    assert!(!d.fullscreen);
}

#[test]
fn error_messages() {
    assert_eq!(
        ApiError::Transport("timed out".to_string()).message(),
        "transport error: timed out"
    );
    assert_eq!(
        ApiError::Remote("bad".to_string()).message(),
        "remote error: bad"
    );
    assert_eq!(
        ApiError::Decode("nope".to_string()).message(),
        "decode error: nope"
    );
    assert_eq!(
        ApiError::NotFound("gone".to_string()).message(),
        "not found: gone"
    );
    assert_eq!(TranscriptFailure::NoCaptions.message(), "no caption tracks");
    assert_eq!(
        TranscriptFailure::FetchError("403".to_string()).message(),
        "caption fetch failed: 403"
    );
    assert_eq!(TranscriptFailure::EmptyTranscript.message(), "empty transcript");
}
