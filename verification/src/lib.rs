//! WebQL pulls activity events (pull requests, their comments, their status
//! events) from a code-review platform, keeps those updated within a trailing
//! time window, narrows them with a small per-repository filter language
//! evaluated against JSON documents, and emits one flat, kind-tagged,
//! priority-carrying stream of normalized events.

pub mod client;
pub mod data;
pub mod events;
pub mod jfilter;
pub mod json;
pub mod response;
pub mod utils;
