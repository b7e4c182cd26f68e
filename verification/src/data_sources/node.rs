//! A node of a data source, whatever its kind.

use crate::data_sources::folder::Folder;
use vstd::prelude::*;
use vstd::string::*;

verus! {

/// Who may see a node at its provider.
#[derive(Clone, Copy, PartialEq, Eq, Structural, Debug)]
pub enum ProviderVisibility {
    Private,
    Public,
}

/// A text that names no visibility.
#[derive(Clone, Copy, PartialEq, Eq, Structural, Debug)]
pub struct UnknownVisibility;

impl ProviderVisibility {
    /// The name of a visibility.
    pub open spec fn name(self) -> Seq<char> {
        match self {
            ProviderVisibility::Private => "private"@,
            ProviderVisibility::Public => "public"@,
        }
    }

    /// The visibility that a text names, if it names one.
    pub open spec fn named(text: Seq<char>) -> Option<ProviderVisibility> {
        if text == "private"@ {
            Some(ProviderVisibility::Private)
        } else if text == "public"@ {
            Some(ProviderVisibility::Public)
        } else {
            None
        }
    }

    pub fn to_string(&self) -> (name: String)
        ensures
            name@ == self.name(),
    {
        match self {
            ProviderVisibility::Private => "private".to_owned(),
            ProviderVisibility::Public => "public".to_owned(),
        }
    }

    /// Reads a visibility from its name.
    pub fn from_str(text: &str) -> (result: Result<ProviderVisibility, UnknownVisibility>)
        ensures
            result == match ProviderVisibility::named(text@) {
                Some(visibility) => Ok::<ProviderVisibility, UnknownVisibility>(visibility),
                None => Err::<ProviderVisibility, UnknownVisibility>(UnknownVisibility),
            },
    {
        let owned = text.to_owned();
        if owned == "private".to_owned() {
            Ok(ProviderVisibility::Private)
        } else if owned == "public".to_owned() {
            Ok(ProviderVisibility::Public)
        } else {
            Err(UnknownVisibility)
        }
    }
}

/// Reading back the name of a visibility gives the visibility.
pub proof fn lemma_visibility_name_round_trip(visibility: ProviderVisibility)
    ensures
        ProviderVisibility::named(visibility.name()) == Some(visibility),
{
    reveal_strlit("private");
    reveal_strlit("public");
    assert("private"@.len() != "public"@.len());
}

#[derive(Clone, Copy, PartialEq, Eq, Structural, Debug)]
pub enum NodeType {
    Document,
    Table,
    Folder,
}

impl NodeType {
    pub fn to_string(&self) -> (name: String)
        ensures
            name@ == match *self {
                NodeType::Document => "Document"@,
                NodeType::Table => "Table"@,
                NodeType::Folder => "Folder"@,
            },
    {
        match self {
            NodeType::Document => "Document".to_owned(),
            NodeType::Table => "Table".to_owned(),
            NodeType::Folder => "Folder".to_owned(),
        }
    }
}

#[derive(Debug)]
pub struct Node {
    pub data_source_id: String,
    pub data_source_internal_id: String,
    pub node_id: String,
    pub node_type: NodeType,
    pub timestamp: u64,
    pub title: String,
    pub mime_type: String,
    pub provider_visibility: Option<ProviderVisibility>,
    pub parent_id: Option<String>,
    pub parents: Vec<String>,
    pub source_url: Option<String>,
}

/// The id of a node among the nodes of all data sources.
pub open spec fn unique_node_id(data_source_internal_id: Seq<char>, node_id: Seq<char>) -> Seq<
    char,
> {
    data_source_internal_id + "__"@ + node_id
}

impl Node {
    pub fn new(
        data_source_id: &str,
        data_source_internal_id: &str,
        node_id: &str,
        node_type: NodeType,
        timestamp: u64,
        title: &str,
        mime_type: &str,
        provider_visibility: Option<ProviderVisibility>,
        parent_id: Option<String>,
        parents: Vec<String>,
        source_url: Option<String>,
    ) -> (node: Self)
        ensures
            node.data_source_id@ == data_source_id@,
            node.data_source_internal_id@ == data_source_internal_id@,
            node.node_id@ == node_id@,
            node.node_type == node_type,
            node.timestamp == timestamp,
            node.title@ == title@,
            node.mime_type@ == mime_type@,
            node.provider_visibility == provider_visibility,
            node.parent_id == parent_id,
            node.parents == parents,
            node.source_url == source_url,
    {
        Node {
            data_source_id: data_source_id.to_owned(),
            data_source_internal_id: data_source_internal_id.to_owned(),
            node_id: node_id.to_owned(),
            node_type,
            timestamp,
            title: title.to_owned(),
            mime_type: mime_type.to_owned(),
            provider_visibility,
            parent_id,
            parents,
            source_url,
        }
    }

    pub fn data_source_id(&self) -> (id: &str)
        ensures
            id@ == self.data_source_id@,
    {
        self.data_source_id.as_str()
    }

    pub fn data_source_internal_id(&self) -> (id: &str)
        ensures
            id@ == self.data_source_internal_id@,
    {
        self.data_source_internal_id.as_str()
    }

    pub fn timestamp(&self) -> (timestamp: u64)
        ensures
            timestamp == self.timestamp,
    {
        self.timestamp
    }

    pub fn node_id(&self) -> (id: &str)
        ensures
            id@ == self.node_id@,
    {
        self.node_id.as_str()
    }

    pub fn node_type(&self) -> (node_type: NodeType)
        ensures
            node_type == self.node_type,
    {
        self.node_type
    }

    pub fn title(&self) -> (title: &str)
        ensures
            title@ == self.title@,
    {
        self.title.as_str()
    }

    pub fn mime_type(&self) -> (mime_type: &str)
        ensures
            mime_type@ == self.mime_type@,
    {
        self.mime_type.as_str()
    }

    pub fn parents(&self) -> (parents: &Vec<String>)
        ensures
            *parents == self.parents,
    {
        &self.parents
    }

    /// Turns the node into a folder with the node's id.
    pub fn into_folder(self) -> (folder: Folder)
        ensures
            folder.data_source_id == self.data_source_id,
            folder.data_source_internal_id == self.data_source_internal_id,
            folder.folder_id == self.node_id,
            folder.timestamp == self.timestamp,
            folder.title == self.title,
            folder.parent_id == self.parent_id,
            folder.parents == self.parents,
            folder.mime_type == self.mime_type,
            folder.source_url == self.source_url,
            folder.provider_visibility == self.provider_visibility,
    {
        Folder::new(
            self.data_source_id,
            self.data_source_internal_id,
            self.node_id,
            self.timestamp,
            self.title,
            self.parent_id,
            self.parents,
            self.mime_type,
            self.source_url,
            self.provider_visibility,
        )
    }

    /// The id of the node among the nodes of all data sources.
    pub fn unique_id(&self) -> (id: String)
        ensures
            id@ == unique_node_id(self.data_source_internal_id@, self.node_id@),
    {
        self.data_source_internal_id.clone().concat("__").concat(self.node_id.as_str())
    }
}

} // verus!
