//! Compilation-session file resolution and caching for a document compiler.
//!
//! The crate supplies a template compiler with its external inputs — source
//! text, raw bytes, fonts, injected data and a notion of "today" — while
//! avoiding redundant decoding through fingerprint-based caching, and while
//! confining every file lookup to a rooted virtual path namespace.

pub mod bytes;
pub mod cache;
pub mod calendar;
pub mod err;
pub mod export;
pub mod fonts;
pub mod session;
pub mod vpath;
