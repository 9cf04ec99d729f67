//! Reader for an immutable on-disk dump of a multi-index search
//! engine's state: per-index documents, settings and task logs, exposed
//! through a version-erased interface so that a restore routine can
//! consume any known on-disk format revision.
//!
//! The pieces, leaf first: [`task`] holds the task record; [`json`] is
//! the one trusted boundary with the JSON parser; [`index`] reads one
//! index and runs the single-buffered cursor over its task log; [`v1`]
//! merges those cursors into one stream ascending by enqueue time;
//! [`reader`] dispatches on the format revision named by the metadata
//! document and hands out the version-erased facade; [`error`] names
//! every failure a dump can present.
//!
//! Disk access stays outside: a caller hands [`reader::open_dump`] the
//! directory tree as plain text, in a [`reader::RawDump`].

pub mod error;
pub mod index;
pub mod json;
pub mod reader;
pub mod task;
pub mod v1;
