//! A verified client core for a video platform's internal listing and
//! transcript API: request envelopes, response normalization, pagination,
//! caption-transcript extraction, and the retry/fallback policies around them.
//!
//! Network transport and the persistent cache are collaborators outside this
//! crate; everything here is pure computation with contracts.

pub mod captions;
pub mod context;
pub mod errors;
pub mod ids;
pub mod json;
pub mod normalize;
pub mod pages;
pub mod policy;
pub mod records;
pub mod text;
pub mod v3;
