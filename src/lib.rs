//! A personal notebook: timestamped notes in an append-only log, listed newest
//! first or ranked by fuzzy search, and mirrored to a remote gist.
pub mod config;
pub mod fuzzy;
pub mod github;
pub mod model;
pub mod note;
pub mod sync;
pub mod timestamp;
