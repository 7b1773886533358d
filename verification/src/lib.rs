//! A transforming reverse proxy for a Python package index.
//!
//! The library holds the decision logic of the proxy: classifying
//! distribution filenames, deciding which wheels the target runtime can
//! install directly, rewriting an index document so that source-only
//! releases are advertised as buildable virtual wheels, decoding upstream
//! index responses, and driving the cache-check/build/re-check protocol
//! for artifact downloads.

pub mod config;
pub mod controller;
pub mod errors;
pub mod fetch;
pub mod forward;
pub mod pep_691;
pub mod text;
