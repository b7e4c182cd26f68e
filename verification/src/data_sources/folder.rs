//! A folder of a data source.

use crate::data_sources::node::ProviderVisibility;
use vstd::prelude::*;

verus! {

#[derive(Debug)]
pub struct Folder {
    pub data_source_id: String,
    pub data_source_internal_id: String,
    pub folder_id: String,
    pub timestamp: u64,
    pub title: String,
    pub parent_id: Option<String>,
    pub parents: Vec<String>,
    pub mime_type: String,
    pub source_url: Option<String>,
    pub provider_visibility: Option<ProviderVisibility>,
}

impl Folder {
    pub fn new(
        data_source_id: String,
        data_source_internal_id: String,
        folder_id: String,
        timestamp: u64,
        title: String,
        parent_id: Option<String>,
        parents: Vec<String>,
        mime_type: String,
        source_url: Option<String>,
        provider_visibility: Option<ProviderVisibility>,
    ) -> (folder: Self)
        ensures
            folder.data_source_id == data_source_id,
            folder.data_source_internal_id == data_source_internal_id,
            folder.folder_id == folder_id,
            folder.timestamp == timestamp,
            folder.title == title,
            folder.parent_id == parent_id,
            folder.parents == parents,
            folder.mime_type == mime_type,
            folder.source_url == source_url,
            folder.provider_visibility == provider_visibility,
    {
        Folder {
            data_source_id,
            data_source_internal_id,
            folder_id,
            timestamp,
            title,
            parent_id,
            parents,
            mime_type,
            source_url,
            provider_visibility,
        }
    }

    pub fn data_source_id(&self) -> (id: &str)
        ensures
            id@ == self.data_source_id@,
    {
        self.data_source_id.as_str()
    }

    pub fn folder_id(&self) -> (id: &str)
        ensures
            id@ == self.folder_id@,
    {
        self.folder_id.as_str()
    }

    pub fn timestamp(&self) -> (timestamp: u64)
        ensures
            timestamp == self.timestamp,
    {
        self.timestamp
    }

    pub fn title(&self) -> (title: &str)
        ensures
            title@ == self.title@,
    {
        self.title.as_str()
    }

    pub fn parents(&self) -> (parents: &Vec<String>)
        ensures
            *parents == self.parents,
    {
        &self.parents
    }
}

} // verus!
