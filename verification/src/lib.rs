//! Table metadata of the Iceberg table format, with its rules proved.

pub mod accept_laws;
pub mod ask_laws;
pub mod builder;
pub mod datatypes;
pub mod documents;
pub mod error;
pub mod format_version;
pub mod identity;
pub mod laws;
pub mod listing;
pub mod logs;
pub mod metadata;
pub mod names;
pub mod normalize;
pub mod part_laws;
pub mod partition;
pub mod properties;
pub mod read_laws;
pub mod reading;
pub mod rule_laws;
pub mod schema;
pub mod shared;
pub mod snapshot;
pub mod sort;
pub mod statistics;
pub mod string_map;
pub mod text;
pub mod time;
pub mod transform;
pub mod word_laws;
pub mod write_laws;
pub mod writing;
