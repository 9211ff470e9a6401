//! Verified core of a smart-light and weather sampling collector.
//!
//! The library owns the logic of the collection loop: when a tick samples,
//! how one light's reading is fused with the tick's shared weather snapshot
//! and daylight flag into one row, how a row is serialized into the fixed
//! delimited schema with a sentinel for absent optional values, when the
//! destination gets its header, and how an emitted row parses back.
//! Network and file work stays outside; it hands the library plain values.

pub mod errors;
pub mod fuse;
pub mod model;
pub mod numtext;
pub mod parse;
pub mod record;
pub mod sched;
pub mod schema;
pub mod sink;
pub mod solar;
