//! A verified model of one downloadable file entry in a Usenet NZB
//! collection: its posting metadata, its segments, and the properties
//! derived from them (total size, display name, stem, extension, and
//! container-type classification), all computed from the stored fields.

pub mod classify;
pub mod file;
pub mod name;
pub mod subject;
pub mod text;

pub use classify::{is_obfuscated_stem, is_par2_name, is_rar_name};
pub use file::{total_size, File, FileView, Segment, SegmentView, Timestamp};
pub use name::decompose;
pub use subject::extract_name;
