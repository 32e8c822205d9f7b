//! The background subsystems of a clip-sharing service: an aggregator
//! that tallies per-clip view counts in memory and flushes them in
//! batches, and a periodic sweep that deletes expired clips. Both are
//! specified against an in-memory model of the persistence layer.

pub mod ask;
pub mod clip;
pub mod field;
pub mod form;
pub mod hit_counter;
pub mod laws;
pub mod maintenance;
pub mod service;
pub mod shortcode;
pub mod store;
pub mod tally;
pub mod web;

pub use clip::Clip;
pub use field::ClipError;
pub use field::Time;
pub use service::ServiceError;
pub use shortcode::ShortCode;
