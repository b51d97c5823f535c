//! Inline-search-and-deferred-download pipeline for a music chat bot.
//!
//! The library covers the logic of the pipeline: the continuation-token
//! codec that carries intent between a search result and its later
//! selection, the song cache store with its dedup/like/history
//! bookkeeping, the presenter that renders result descriptors, the
//! search resolver, and the decision logic of the download orchestrator
//! and the engagement handler. The chat transport, the remote catalog
//! and the database connection are I/O collaborators that a host
//! program supplies around these functions.

pub mod b64;
pub mod codec;
pub mod commands;
pub mod deezer;
pub mod inline;
pub mod markup;
pub mod pipeline;
pub mod store;
pub mod text;
