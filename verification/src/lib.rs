//! An embeddable logging runtime core: severity levels with a fixed numeric
//! codec, a hierarchical level-override configuration with a token grammar and
//! a structured-document grammar, a resolution engine that computes the
//! effective minimum level for a call site, a generation-counter scheme that
//! keeps per-thread configuration snapshots coherent, and a lazy log record
//! whose derived fields are computed at most once.

pub mod config;
pub mod levels;
pub mod line_range;
pub mod parser;
pub mod record;
pub mod resolve;
pub mod shared;
pub mod strutil;
