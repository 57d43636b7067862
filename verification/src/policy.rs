//! The retry, fallback and backpressure policies around the resolver:
//! bounded transcript attempts with a fixed delay, the cache-first save
//! plan, and the deliberate one-at-a-time bulk cap.

use vstd::prelude::*;
use vstd::string::*;
use crate::errors::TranscriptFailure;
use crate::normalize::SaveFields;
use crate::records::{self, SavedRow, Video};
use crate::text;

verus! {

/// Transcript acquisition makes at most this many resolver attempts.
pub const TRANSCRIPT_MAX_ATTEMPTS: u8 = 3;

/// The fixed delay separating consecutive attempts, in milliseconds.
pub const TRANSCRIPT_RETRY_DELAY_MS: u64 = 500;

/// The bounded-attempt state for one transcript acquisition. The caller
/// asks leave before each attempt and reports the clock; the policy
/// admits at most three attempts, at least 500 ms apart.
#[derive(Debug, Clone, Copy, PartialEq, Eq, Structural)]
pub struct RetryPolicy {
    pub attempts: u8,
    pub last_start: Option<u64>,
}

/// The policy admits an attempt now: fewer than three made, and the
/// fixed delay has passed since the last one started.
pub open spec fn spec_step_allowed(p: RetryPolicy, now: u64) -> bool {
    p.attempts < 3 && (match p.last_start {
        Some(t) => now >= t + 500,
        None => true,
    })
}

pub open spec fn spec_step(p: RetryPolicy, now: u64) -> RetryPolicy {
    RetryPolicy { attempts: (p.attempts + 1) as u8, last_start: Some(now) }
}

/// The policy state after a sequence of attempt start times.
pub open spec fn policy_run(times: Seq<u64>) -> RetryPolicy
    decreases times.len(),
{
    if times.len() == 0 {
        RetryPolicy { attempts: 0, last_start: None }
    } else {
        spec_step(policy_run(times.drop_last()), times.last())
    }
}

/// Every attempt in the sequence was admitted by the policy state the
/// previous attempts left behind.
pub open spec fn policy_admits(times: Seq<u64>) -> bool
    decreases times.len(),
{
    if times.len() == 0 {
        true
    } else {
        policy_admits(times.drop_last()) && spec_step_allowed(
            policy_run(times.drop_last()),
            times.last(),
        )
    }
}

pub proof fn lemma_policy_run_attempts(times: Seq<u64>)
    requires
        policy_admits(times),
    ensures
        policy_run(times).attempts == times.len(),
        times.len() >= 1 ==> policy_run(times).last_start == Some(times.last()),
    decreases times.len(),
{
    if times.len() > 0 {
        lemma_policy_run_attempts(times.drop_last());
    }
}

/// The retry invariant: any admitted sequence of attempts numbers at
/// most three, and consecutive attempts start at least 500 ms apart.
pub proof fn lemma_retry_bounded(times: Seq<u64>)
    requires
        policy_admits(times),
    ensures
        times.len() <= 3,
        forall|i: int| 1 <= i < times.len() ==> #[trigger] times[i] >= times[i - 1] + 500,
    decreases times.len(),
{
    if times.len() > 0 {
        lemma_retry_bounded(times.drop_last());
        lemma_policy_run_attempts(times.drop_last());
        assert(forall|i: int|
            1 <= i < times.len() - 1 ==> #[trigger] times.drop_last()[i] == times[i]
                && times.drop_last()[i - 1] == times[i - 1]);
        if times.len() >= 2 {
            assert(times.drop_last().last() == times[times.len() - 2]);
        }
    }
}

impl RetryPolicy {
    pub fn new() -> (r: Self)
        ensures
            r.attempts == 0,
            r.last_start is None,
            r == policy_run(Seq::<u64>::empty()),
    {
        RetryPolicy { attempts: 0, last_start: None }
    }

    pub fn can_attempt(&self) -> (r: bool)
        ensures
            r == (self.attempts < 3),
    {
        self.attempts < TRANSCRIPT_MAX_ATTEMPTS
    }

    /// The earliest clock reading at which the next attempt may start.
    pub fn ready_at(&self) -> (r: u64)
        ensures
            (match self.last_start {
                Some(t) => t + 500 <= u64::MAX ==> r == t + 500,
                None => r == 0,
            }),
    {
        match self.last_start {
            Some(t) => {
                if t <= u64::MAX - TRANSCRIPT_RETRY_DELAY_MS {
                    t + TRANSCRIPT_RETRY_DELAY_MS
                } else {
                    u64::MAX
                }
            },
            None => 0,
        }
    }

    /// Records the start of one attempt at clock reading `now`.
    pub fn begin_attempt(&mut self, now: u64)
        requires
            spec_step_allowed(*old(self), now),
        ensures
            *final(self) == spec_step(*old(self), now),
    {
        self.attempts = self.attempts + 1;
        self.last_start = Some(now);
    }
}

/// What the caller does after one resolver attempt.
#[derive(Debug, PartialEq)]
pub enum TranscriptStep {
    /// A usable transcript; acquisition is over.
    Done(String),
    /// The attempt failed; wait this many milliseconds and try again.
    RetryAfterMs(u64),
    /// Attempts are exhausted; surface this terminal message.
    GiveUp(String),
}

/// Decides the next move after an attempt: a non-blank transcript ends
/// the acquisition; otherwise the policy either retries after the fixed
/// delay or gives up with the terminal message.
pub fn next_transcript_step(policy: &RetryPolicy, outcome: Result<String, TranscriptFailure>) -> (r:
    TranscriptStep)
    ensures
        (match outcome {
            Ok(t) => {
                if text::trim_seq(t@).len() > 0 {
                    r matches TranscriptStep::Done(s) && s@ == t@
                } else if policy.attempts < 3 {
                    r matches TranscriptStep::RetryAfterMs(d) && d == 500
                } else {
                    r matches TranscriptStep::GiveUp(m) && m@ == "No transcript available"@
                }
            },
            Err(e) => {
                if policy.attempts < 3 {
                    r matches TranscriptStep::RetryAfterMs(d) && d == 500
                } else {
                    r matches TranscriptStep::GiveUp(m) && m@ == (match e {
                        TranscriptFailure::NoCaptions => "no caption tracks"@,
                        TranscriptFailure::FetchError(d) => "caption fetch failed: "@ + d@,
                        TranscriptFailure::EmptyTranscript => "empty transcript"@,
                    })
                }
            },
        }),
{
    match outcome {
        Ok(t) => {
            let blank = {
                let trimmed = text::trim_str(t.as_str());
                trimmed.unicode_len() == 0
            };
            if !blank {
                TranscriptStep::Done(t)
            } else if policy.attempts < TRANSCRIPT_MAX_ATTEMPTS {
                TranscriptStep::RetryAfterMs(TRANSCRIPT_RETRY_DELAY_MS)
            } else {
                TranscriptStep::GiveUp(String::from_str("No transcript available"))
            }
        },
        Err(e) => {
            if policy.attempts < TRANSCRIPT_MAX_ATTEMPTS {
                TranscriptStep::RetryAfterMs(TRANSCRIPT_RETRY_DELAY_MS)
            } else {
                TranscriptStep::GiveUp(e.message())
            }
        },
    }
}

/// What a transcript request does before any network work: serve the
/// cached text, refuse for want of a key, or proceed to the resolver.
#[derive(Debug, PartialEq)]
pub enum TranscriptPrecheck {
    Cached(String),
    MissingKey,
    Proceed,
}

pub fn transcript_precheck(cached: Option<String>, api_key: Option<String>) -> (r:
    TranscriptPrecheck)
    ensures
        (match cached {
            Some(t) => r matches TranscriptPrecheck::Cached(s) && s@ == t@,
            None => (match api_key {
                Some(k) => {
                    if text::trim_seq(k@).len() == 0 {
                        r == TranscriptPrecheck::MissingKey
                    } else {
                        r == TranscriptPrecheck::Proceed
                    }
                },
                None => r == TranscriptPrecheck::MissingKey,
            }),
        }),
{
    match cached {
        Some(t) => TranscriptPrecheck::Cached(t),
        None => match api_key {
            Some(k) => {
                let trimmed = text::trim_str(k.as_str());
                if trimmed.unicode_len() == 0 {
                    TranscriptPrecheck::MissingKey
                } else {
                    TranscriptPrecheck::Proceed
                }
            },
            None => TranscriptPrecheck::MissingKey,
        },
    }
}

/// How one save request proceeds, decided before any network work.
#[derive(Debug, Clone, Copy, PartialEq, Eq, Structural)]
pub enum SavePlan {
    /// The record is already cached: serve it, fetch nothing.
    ServeCached,
    /// Run the fetch/parse pipeline, then store the record.
    RunPipeline,
}

pub fn plan_save(cached: bool) -> (r: SavePlan)
    ensures
        cached <==> r == SavePlan::ServeCached,
{
    if cached {
        SavePlan::ServeCached
    } else {
        SavePlan::RunPipeline
    }
}

/// The record a save request serves from the cache: the stored fields
/// under the derived preview address, tagged `exists`.
pub fn record_from_cache(video_id: &str, row: &SavedRow) -> (v: Video)
    requires
        row.id@.len() > 0,
    ensures
        v.id@ == row.id@,
        v.wf(),
        v.title@ == row.title@,
        v.thumbnail@ == records::spec_canonical_thumbnail(video_id@),
        v.published_at@ == row.published_at@,
        v.view_count@ == row.view_count@,
        v.author matches Some(a) && a@ == row.author@,
        v.status matches Some(s) && s@ == "exists"@,
        v.date_added is None,
{
    Video {
        id: row.id.clone(),
        title: row.title.clone(),
        thumbnail: records::canonical_thumbnail(video_id),
        published_at: row.published_at.clone(),
        view_count: row.view_count.clone(),
        author: Some(row.author.clone()),
        status: Some(String::from_str("exists")),
        date_added: None,
    }
}

/// The record a save request returns after a successful fetch and
/// store, tagged `saved`.
pub fn record_from_fetch(video_id: &str, fields: &SaveFields) -> (v: Video)
    requires
        video_id@.len() > 0,
    ensures
        v.id@ == video_id@,
        v.wf(),
        v.title@ == fields.title@,
        v.thumbnail@ == records::spec_canonical_thumbnail(video_id@),
        v.published_at@ == fields.published_at@,
        v.view_count@ == fields.view_count@,
        v.author matches Some(a) && a@ == fields.author@,
        v.status matches Some(s) && s@ == "saved"@,
        v.date_added is None,
{
    Video {
        id: video_id.to_owned(),
        title: fields.title.clone(),
        thumbnail: records::canonical_thumbnail(video_id),
        published_at: fields.published_at.clone(),
        view_count: fields.view_count.clone(),
        author: Some(fields.author.clone()),
        status: Some(String::from_str("saved")),
        date_added: None,
    }
}

/// One save operation over the collaborator-owned cache: the cache
/// afterwards, whether the fetch/parse pipeline ran, and whether the
/// result was served from cache.
pub open spec fn spec_save(
    cache: Map<Seq<char>, SavedRow>,
    id: Seq<char>,
    fetched: SavedRow,
    fetch_ok: bool,
) -> (Map<Seq<char>, SavedRow>, bool, bool) {
    if cache.dom().contains(id) {
        (cache, false, true)
    } else if fetch_ok {
        (cache.insert(id, fetched), true, false)
    } else {
        (cache, true, false)
    }
}

/// Saving the same id twice runs the fetch/parse pipeline at most once
/// in total, and the second call is served from the cache, provided the
/// first call's pipeline succeeded when it had to run.
pub proof fn lemma_save_idempotent(
    cache: Map<Seq<char>, SavedRow>,
    id: Seq<char>,
    f1: SavedRow,
    ok1: bool,
    f2: SavedRow,
    ok2: bool,
)
    requires
        !cache.dom().contains(id) ==> ok1,
    ensures
        ({
            let (c1, did1, ex1) = spec_save(cache, id, f1, ok1);
            let (c2, did2, ex2) = spec_save(c1, id, f2, ok2);
            &&& (if did1 {
                1int
            } else {
                0int
            }) + (if did2 {
                1int
            } else {
                0int
            }) <= 1
            &&& ex2
        }),
{
}

/// The deliberate backpressure cap on bulk operations: how many items
/// may be in flight at once. The default is one — strictly sequential.
#[derive(Debug, Clone, Copy, PartialEq, Eq, Structural)]
pub struct BulkPolicy {
    pub cap: usize,
}

impl Default for BulkPolicy {
    fn default() -> (r: Self)
        ensures
            r.cap == 1,
    {
        BulkPolicy { cap: 1 }
    }
}

impl BulkPolicy {
    /// How many of the remaining items the next batch may hold: never
    /// more than the cap, never more than remain.
    pub fn batch_size(&self, remaining: usize) -> (r: usize)
        ensures
            r == (if remaining < self.cap {
                remaining
            } else {
                self.cap
            }),
            r <= self.cap,
    {
        if remaining < self.cap {
            remaining
        } else {
            self.cap
        }
    }
}

} // verus!
