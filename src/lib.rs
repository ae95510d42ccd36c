//! Enrichment pipeline for a podcast briefing.
//!
//! Bookmarked article URLs are fetched (`fetch`), summarized by a language model
//! (`summarize`) and grouped into topics by one more model request (`cluster`);
//! `pipeline` joins the stages' results by URL. `briefing`, `html` and `org`
//! render and read the briefing documents, and `schedule` finds the show a
//! briefing is for.
//!
//! The library decides; the caller performs I/O. Each stage's retry loop is a
//! step function from the attempt number and the attempt's result to either a
//! final outcome or a wait before the next attempt. Every bookmark yields exactly
//! one story: a paywalled or failed fetch is kept as a failed summary, not dropped.

pub mod briefing;
pub mod calendar;
pub mod cluster;
pub mod cookies;
pub mod fetch;
pub mod html;
pub mod model;
pub mod org;
pub mod pipeline;
pub mod retry;
pub mod schedule;
pub mod summarize;
pub mod text;
