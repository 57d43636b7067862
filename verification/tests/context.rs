use kinesis::context::{
    browse_body, player_body, request_context, request_headers, search_body, ClientType,
};
use kinesis::json::Json;

fn client_of(body: &Json) -> &Json {
    body.get("context").unwrap().get("client").unwrap()
}

fn str_field<'a>(j: &'a Json, key: &str) -> &'a str {
    j.get_str(key).unwrap().as_str()
}

#[test]
fn web_context_fields() {
    let body = request_context(ClientType::Web);
    let client = client_of(&body);
    assert_eq!(str_field(client, "clientName"), "WEB");
    assert_eq!(str_field(client, "clientVersion"), "2.20230301.09.00");
    assert_eq!(str_field(client, "hl"), "en");
    assert_eq!(str_field(client, "gl"), "US");
    assert_eq!(
        client.get("utcOffsetMinutes"),
        Some(&Json::Num("0".to_string()))
    );
    assert!(client.get("androidSdkVersion").is_none());
}

#[test]
fn android_context_fields() {
    let body = request_context(ClientType::Android);
    let client = client_of(&body);
    assert_eq!(str_field(client, "clientName"), "ANDROID");
    assert_eq!(str_field(client, "clientVersion"), "19.05.36");
    assert_eq!(
        client.get("androidSdkVersion"),
        Some(&Json::Num("34".to_string()))
    );
}

#[test]
fn fresh_context_carries_no_operation_fields() {
    let body = request_context(ClientType::Web);
    assert!(body.get("query").is_none());
    assert!(body.get("browseId").is_none());
    assert!(body.get("continuation").is_none());
    assert!(body.get("videoId").is_none());
}

#[test]
fn search_body_carries_query() {
    let body = search_body(ClientType::Web, "cats");
    assert_eq!(str_field(&body, "query"), "cats");
    assert_eq!(str_field(client_of(&body), "clientName"), "WEB");
    assert!(body.get("videoId").is_none());
}

#[test]
fn browse_body_carries_id_and_token() {
    let body = browse_body(ClientType::Web, Some("VLPLxyz"), None);
    assert_eq!(str_field(&body, "browseId"), "VLPLxyz");
    assert!(body.get("continuation").is_none());

    let body = browse_body(ClientType::Web, None, Some("TOK"));
    assert!(body.get("browseId").is_none());
    assert_eq!(str_field(&body, "continuation"), "TOK");

    let body = browse_body(ClientType::Web, Some("VLPLxyz"), Some("TOK"));
    assert_eq!(str_field(&body, "browseId"), "VLPLxyz");
    assert_eq!(str_field(&body, "continuation"), "TOK");
}

#[test]
fn player_body_carries_video_id() {
    let body = player_body(ClientType::Android, "abc123");
    assert_eq!(str_field(&body, "videoId"), "abc123");
    assert_eq!(str_field(client_of(&body), "clientName"), "ANDROID");
}

#[test]
fn headers_match_profile() {
    let web = request_headers(ClientType::Web);
    assert_eq!(web.len(), 2);
    assert_eq!(web[0].0, "content-type");
    assert_eq!(web[0].1, "application/json");
    assert_eq!(web[1].0, "user-agent");
    assert!(web[1].1.starts_with("Mozilla/5.0"));

    let android = request_headers(ClientType::Android);
    assert!(android[1].1.starts_with("com.google.android.youtube/19.05.36"));
}
