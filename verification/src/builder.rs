//! The start of a change to table metadata.

use crate::logs::MetadataLog;
use crate::metadata::{TableMetadata, TableMetadataView};
use vstd::prelude::*;

verus! {

/// Table metadata that is about to be changed.
#[derive(Debug)]
pub struct TableMetadataBuilder {
    metadata: TableMetadata,
    previous_history_entry: Option<MetadataLog>,
}

/// The log entry for the file that holds metadata, where the file is known.
pub open spec fn history_entry(m: TableMetadataView, file: Option<String>) -> Option<MetadataLog> {
    match file {
        Some(metadata_file) => Some(MetadataLog { metadata_file, timestamp_ms: m.last_updated_ms }),
        None => None,
    }
}

impl TableMetadataBuilder {
    /// The metadata to be changed.
    pub closed spec fn metadata_view(&self) -> TableMetadataView {
        self.metadata@
    }

    /// The entry that the change adds to the metadata log.
    pub closed spec fn history_view(&self) -> Option<MetadataLog> {
        self.previous_history_entry
    }

    /// Starts a change to metadata that is stored in the given file.
    pub fn new_from_metadata(previous: TableMetadata, current_file_location: Option<String>) -> (r: Self)
        ensures
            r.metadata_view() == previous@,
            r.history_view() == history_entry(previous@, current_file_location),
    {
        let timestamp_ms: i64 = previous.last_updated_ms;
        let previous_history_entry: Option<MetadataLog> = match current_file_location {
            Some(metadata_file) => Some(MetadataLog { metadata_file, timestamp_ms }),
            None => None,
        };
        TableMetadataBuilder { metadata: previous, previous_history_entry }
    }

    /// The metadata to be changed.
    pub fn metadata(&self) -> (r: &TableMetadata)
        ensures
            r@ == self.metadata_view(),
    {
        &self.metadata
    }

    /// The entry that the change adds to the metadata log.
    pub fn previous_history_entry(&self) -> (r: Option<&MetadataLog>)
        ensures
            match r {
                Some(entry) => self.history_view() == Some(*entry),
                None => self.history_view() is None,
            },
    {
        self.previous_history_entry.as_ref()
    }
}

impl TableMetadata {
    /// Convert this Table Metadata into a builder for modification.
    ///
    /// `current_file_location` is the location where the current version
    /// of the metadata file is stored. This is used to update the metadata log.
    /// If `current_file_location` is `None`, the metadata log will not be updated.
    /// This should only be used to stage-create tables.
    #[must_use]
    pub fn into_builder(self, current_file_location: Option<String>) -> (r: TableMetadataBuilder)
        ensures
            r.metadata_view() == self@,
            r.history_view() == history_entry(self@, current_file_location),
    {
        TableMetadataBuilder::new_from_metadata(self, current_file_location)
    }
}

} // verus!
