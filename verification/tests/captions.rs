use kinesis::captions::{
    caption_tracks, detect_format, parse_transcript_document, select_track, transcript_from_xml,
    CaptionFormat, CaptionTrack,
};
use kinesis::errors::TranscriptFailure;
use kinesis::json::Json;

fn jstr(s: &str) -> Json {
    Json::Str(s.to_string())
}

fn jobj(fields: Vec<(&str, Json)>) -> Json {
    Json::Obj(fields.into_iter().map(|(k, v)| (k.to_string(), v)).collect())
}

fn track(code: &str) -> CaptionTrack {
    CaptionTrack {
        language_code: code.to_string(),
        base_url: format!("https://example.invalid/{}", code),
        kind: String::new(),
    }
}

#[test]
fn detect_json_document() {
    assert_eq!(detect_format("{\"events\":[]}"), CaptionFormat::EventSegments);
}

#[test]
fn detect_json_after_whitespace() {
    assert_eq!(detect_format("  \n\t {\"a\":1}"), CaptionFormat::EventSegments);
}

#[test]
fn detect_markup_document() {
    assert_eq!(detect_format("<transcript></transcript>"), CaptionFormat::TimedTextXml);
}

#[test]
fn detect_empty_document_as_markup() {
    assert_eq!(detect_format(""), CaptionFormat::TimedTextXml);
}

#[test]
fn select_exact_english_over_prefixed() {
    let tracks = vec![track("es"), track("en-US"), track("en")];
    assert_eq!(select_track(&tracks), 2);
}

#[test]
fn select_prefixed_english_when_no_exact() {
    let tracks = vec![track("fr"), track("en-GB")];
    assert_eq!(select_track(&tracks), 1);
}

#[test]
fn select_first_when_no_english() {
    let tracks = vec![track("fr"), track("de")];
    assert_eq!(select_track(&tracks), 0);
}

#[test]
fn events_segments_concatenate() {
    let doc = r#"{"events":[{"segs":[{"utf8":"Hello"},{"utf8":" world"}]}]}"#;
    assert_eq!(parse_transcript_document(doc).unwrap(), "Hello world");
}

#[test]
fn events_normalize_non_breaking_spaces() {
    let doc = "{\"events\":[{\"segs\":[{\"utf8\":\"a\\u00a0b\"}]}]}";
    assert_eq!(parse_transcript_document(doc).unwrap(), "a b");
}

#[test]
fn events_join_with_single_space() {
    let doc = r#"{"events":[{"segs":[{"utf8":"one"}]},{"segs":[{"utf8":"two"}]}]}"#;
    assert_eq!(parse_transcript_document(doc).unwrap(), "one two");
}

#[test]
fn events_without_segs_are_skipped() {
    let doc = r#"{"events":[{"tStartMs":0},{"segs":[{"utf8":"kept"}]}]}"#;
    assert_eq!(parse_transcript_document(doc).unwrap(), "kept");
}

#[test]
fn events_empty_is_empty_transcript() {
    let doc = r#"{"events":[]}"#;
    assert_eq!(
        parse_transcript_document(doc),
        Err(TranscriptFailure::EmptyTranscript)
    );
}

#[test]
fn events_blank_segments_are_dropped() {
    let doc = r#"{"events":[{"segs":[{"utf8":"  "}]},{"segs":[{"utf8":"text"}]}]}"#;
    assert_eq!(parse_transcript_document(doc).unwrap(), "text");
}

#[test]
fn malformed_json_is_empty_transcript() {
    assert_eq!(
        parse_transcript_document("{oops"),
        Err(TranscriptFailure::EmptyTranscript)
    );
}

#[test]
fn three_records() {
    let doc = "<transcript><text>Hi</text><text>There</text></transcript>";
    assert_eq!(parse_transcript_document(doc).unwrap(), "Hi\nThere");
}

#[test]
fn xml_paragraphs_with_runs() {
    let doc = "<timedtext><body><p t=\"0\"><s>Hello</s> <s>world</s></p><p t=\"1\">again</p></body></timedtext>";
    assert_eq!(parse_transcript_document(doc).unwrap(), "Hello world\nagain");
}

#[test]
fn xml_unescapes_entities() {
    let doc = "<transcript><text>a &amp; b &lt;c&gt; &#39;d&#39;</text></transcript>";
    assert_eq!(parse_transcript_document(doc).unwrap(), "a & b <c> 'd'");
}

#[test]
fn xml_trims_each_part() {
    let doc = "<transcript><text>  padded  </text></transcript>";
    assert_eq!(parse_transcript_document(doc).unwrap(), "padded");
}

#[test]
fn xml_without_line_elements_salvages_fragments() {
    let doc = "<?xml version=\"1.0\"?><foo>Hello</foo><bar>World</bar>";
    assert_eq!(transcript_from_xml(doc).unwrap(), "Hello\nWorld");
}

#[test]
fn xml_empty_is_empty_transcript() {
    assert_eq!(
        parse_transcript_document("<transcript></transcript>"),
        Err(TranscriptFailure::EmptyTranscript)
    );
}

#[test]
fn tracks_discovered_from_player() {
    let player = jobj(vec![(
        "captions",
        jobj(vec![(
            "playerCaptionsTracklistRenderer",
            jobj(vec![(
                "captionTracks",
                Json::Arr(vec![
                    jobj(vec![
                        ("languageCode", jstr("en")),
                        ("baseUrl", jstr("https://example.invalid/en")),
                        ("kind", jstr("asr")),
                    ]),
                    jobj(vec![("languageCode", jstr("de"))]),
                ]),
            )]),
        )]),
    )]);
    let tracks = caption_tracks(&player).unwrap();
    assert_eq!(tracks.len(), 2);
    assert_eq!(tracks[0].language_code, "en");
    assert_eq!(tracks[0].base_url, "https://example.invalid/en");
    assert_eq!(tracks[0].kind, "asr");
    assert_eq!(tracks[1].language_code, "de");
    assert_eq!(tracks[1].base_url, "");
}

#[test]
fn tracks_absent_yields_none() {
    let player = jobj(vec![("videoDetails", jobj(vec![]))]);
    assert!(caption_tracks(&player).is_none());
}
