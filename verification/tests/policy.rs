use kinesis::errors::TranscriptFailure;
use kinesis::normalize::SaveFields;
use kinesis::policy::{
    next_transcript_step, plan_save, record_from_cache, record_from_fetch, transcript_precheck,
    BulkPolicy, RetryPolicy, SavePlan, TranscriptPrecheck, TranscriptStep,
};
use kinesis::records::SavedRow;

#[test]
fn retry_admits_three_attempts_with_gaps() {
    // An injectable clock: the policy sees only the readings it is told.
    let mut p = RetryPolicy::new();
    let mut clock: u64 = 1_000;
    let mut attempts = 0;
    while p.can_attempt() {
        assert!(clock >= p.ready_at());
        p.begin_attempt(clock);
        attempts += 1;
        clock = p.ready_at();
    }
    assert_eq!(attempts, 3);
    assert!(!p.can_attempt());
    assert_eq!(p.ready_at(), 1_000 + 500 + 500 + 500);
}

#[test]
fn retry_gap_is_five_hundred_ms() {
    let mut p = RetryPolicy::new();
    p.begin_attempt(2_000);
    assert_eq!(p.ready_at(), 2_500);
}

#[test]
fn step_done_on_usable_transcript() {
    let p = RetryPolicy::new();
    match next_transcript_step(&p, Ok("hello".to_string())) {
        TranscriptStep::Done(t) => assert_eq!(t, "hello"),
        other => panic!("expected the transcript, got {:?}", other),
    }
}

#[test]
fn step_retries_on_blank_transcript() {
    let mut p = RetryPolicy::new();
    p.begin_attempt(0);
    assert_eq!(
        next_transcript_step(&p, Ok("   ".to_string())),
        TranscriptStep::RetryAfterMs(500)
    );
}

#[test]
fn step_retries_on_failure_while_attempts_remain() {
    let mut p = RetryPolicy::new();
    p.begin_attempt(0);
    assert_eq!(
        next_transcript_step(&p, Err(TranscriptFailure::NoCaptions)),
        TranscriptStep::RetryAfterMs(500)
    );
}

#[test]
fn step_gives_up_after_exhaustion() {
    let mut p = RetryPolicy::new();
    p.begin_attempt(0);
    p.begin_attempt(500);
    p.begin_attempt(1_000);
    assert_eq!(
        next_transcript_step(&p, Ok(String::new())),
        TranscriptStep::GiveUp("No transcript available".to_string())
    );
    assert_eq!(
        next_transcript_step(&p, Err(TranscriptFailure::EmptyTranscript)),
        TranscriptStep::GiveUp("empty transcript".to_string())
    );
}

#[test]
fn precheck_serves_cached_text() {
    let r = transcript_precheck(Some("stored".to_string()), None);
    assert_eq!(r, TranscriptPrecheck::Cached("stored".to_string()));
}

#[test]
fn precheck_requires_a_key() {
    assert_eq!(transcript_precheck(None, None), TranscriptPrecheck::MissingKey);
    assert_eq!(
        transcript_precheck(None, Some("  ".to_string())),
        TranscriptPrecheck::MissingKey
    );
    assert_eq!(
        transcript_precheck(None, Some("k".to_string())),
        TranscriptPrecheck::Proceed
    );
}

#[test]
fn save_plan_follows_cache() {
    assert_eq!(plan_save(true), SavePlan::ServeCached);
    assert_eq!(plan_save(false), SavePlan::RunPipeline);
}

fn sample_row() -> SavedRow {
    SavedRow {
        id: "vid01".to_string(),
        title: "Stored title".to_string(),
        author: "Author".to_string(),
        length_seconds: 120,
        transcript: "the text".to_string(),
        view_count: "77".to_string(),
        published_at: "2024-01-01".to_string(),
    }
}

#[test]
fn cached_record_is_tagged_exists() {
    let v = record_from_cache("vid01", &sample_row());
    assert_eq!(v.id, "vid01");
    assert_eq!(v.title, "Stored title");
    assert_eq!(v.status.as_deref(), Some("exists"));
    assert_eq!(v.thumbnail, "https://i.ytimg.com/vi/vid01/hqdefault.jpg");
    assert_eq!(v.view_count, "77");
    assert_eq!(v.author.as_deref(), Some("Author"));
}

#[test]
fn fetched_record_is_tagged_saved() {
    let f = SaveFields {
        title: "Fresh".to_string(),
        author: "A".to_string(),
        length_seconds: 5,
        view_count: "9".to_string(),
        published_at: "".to_string(),
    };
    let v = record_from_fetch("vid02", &f);
    assert_eq!(v.id, "vid02");
    assert_eq!(v.status.as_deref(), Some("saved"));
    assert_eq!(v.thumbnail, "https://i.ytimg.com/vi/vid02/hqdefault.jpg");
}

#[test]
fn two_saves_fetch_once() {
    // The second call over the same cache serves the stored record.
    let mut cache: Vec<SavedRow> = Vec::new();
    let mut fetches = 0;
    let mut statuses: Vec<String> = Vec::new();
    for _ in 0..2 {
        let cached = cache.iter().any(|r| r.id == "vid01");
        match plan_save(cached) {
            SavePlan::ServeCached => {
                let row = cache.iter().find(|r| r.id == "vid01").unwrap();
                let v = record_from_cache("vid01", row);
                statuses.push(v.status.unwrap());
            },
            SavePlan::RunPipeline => {
                fetches += 1;
                cache.push(sample_row());
                let f = SaveFields {
                    title: "Stored title".to_string(),
                    author: "Author".to_string(),
                    length_seconds: 120,
                    view_count: "77".to_string(),
                    published_at: "2024-01-01".to_string(),
                };
                let v = record_from_fetch("vid01", &f);
                statuses.push(v.status.unwrap());
            },
        }
    }
    assert_eq!(fetches, 1);
    assert_eq!(statuses, vec!["saved".to_string(), "exists".to_string()]);
}

#[test]
fn bulk_cap_defaults_to_one() {
    let p = BulkPolicy::default();
    assert_eq!(p.cap, 1);
    assert_eq!(p.batch_size(10), 1);
    assert_eq!(p.batch_size(0), 0);
}

#[test]
fn bulk_cap_is_configurable_but_bounding() {
    let p = BulkPolicy { cap: 3 };
    assert_eq!(p.batch_size(10), 3);
    assert_eq!(p.batch_size(2), 2);
}
