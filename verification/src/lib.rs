//! Core of a read-only client for a hierarchical content feed: stories with
//! nested, recursively threaded comments, served by a remote item source that
//! hands out flat, ID-referencing records.
//!
//! The library turns those flat records into ordered in-memory trees:
//! * a story listing fetched in rank order for a sort category, and
//! * a fully resolved comment forest for one story, assembled depth-first
//!   with a recursion ceiling, a cycle guard, and per-node failure absorption.
//!
//! Rendering, routing and transport live outside; they talk to this crate
//! through plain values and the [`source::RemoteSource`] snapshot.

pub mod detail;
pub mod forest;
pub mod listing;
pub mod model;
pub mod source;
