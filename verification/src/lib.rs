//! Verified core of a desktop photo library: path rules, source scopes,
//! archive planning, scan bookkeeping, search queries and tag handling.

pub mod ai;
pub mod albums;
pub mod diagnostics;
pub mod error;
pub mod images;
pub mod library;
pub mod metadata;
pub mod models;
pub mod moves;
pub mod numbers;
pub mod organize;
pub mod paths;
pub mod phash;
pub mod query;
pub mod scan;
pub mod sources;
pub mod tags;
pub mod text;
pub mod wrappers;
