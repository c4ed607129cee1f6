//! Package-repository ingestion and serving core.
//!
//! The library models the pipeline that turns an uploaded set of archives
//! into a durable, correctly placed, re-indexed repository tree, together
//! with the directory-listing renderer and the webhook dispatch rules.

pub mod auth;
pub mod coordinate;
pub mod listing;
pub mod names;
pub mod opts;
pub mod pipeline;
pub mod strutil;
pub mod tree;
pub mod webhook;
