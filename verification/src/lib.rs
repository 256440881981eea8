//! A verified core for a subreddit image downloader: filtering listed
//! candidate URLs by allowed extension, planning downloads so that targets
//! already on disk are skipped, and accounting for each collection's
//! bounded-concurrency downloads and progress — with the pipeline's laws
//! (idempotent re-runs, per-collection isolation, bounded in-flight count,
//! failure containment) stated and proved.

pub mod config;
pub mod extensions;
pub mod image_file;
pub mod planner;
pub mod paths;
pub mod strutil;
pub mod subreddit;
pub mod worker;
