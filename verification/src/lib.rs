//! Typed access to the Chrome for Testing release feeds.
//!
//! The crate turns the two JSON documents that the feed publishes, the list
//! of known good versions and the last known good version of each channel,
//! into comparable values. It performs no I/O itself: a caller fetches the
//! document named by `request_url` and hands what came back to
//! `read_response`.

pub mod api;
pub mod chromedriver;
pub mod decimal;
pub mod error;
pub mod text;
