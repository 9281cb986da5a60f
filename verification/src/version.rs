//! The full per-version descriptor fetched from a catalog entry's URL:
//! asset index, primary archive reference, and the dependency libraries.

use vstd::prelude::*;
use crate::library::{Library, LibraryData};

verus! {

/// Reference to a version's asset index payload.
pub struct AssetIndex {
    pub id: String,
    pub url: String,
    pub sha1: String,
    pub size: u64,
}

/// A version descriptor, immutable once fetched.
pub struct Version {
    pub asset_index: AssetIndex,
    pub downloads: Download,
    pub id: String,
    pub libraries: Vec<Library>,
    pub main_class: String,
    pub release_time: String,
    pub time: String,
    pub type_: String,
}

/// The download section of a descriptor: the primary game archive.
pub struct Download {
    pub client: Client,
}

/// The primary game archive: its declared hash, size and source.
pub struct Client {
    pub sha1: String,
    pub size: u32,
    pub url: String,
}

/// Mathematical image of an [`AssetIndex`].
pub struct AssetIndexData {
    pub id: Seq<char>,
    pub url: Seq<char>,
    pub sha1: Seq<char>,
    pub size: u64,
}

/// Mathematical image of a [`Client`].
pub struct ClientData {
    pub sha1: Seq<char>,
    pub size: u32,
    pub url: Seq<char>,
}

/// Mathematical image of a [`Download`].
pub struct VersionDownloadData {
    pub client: ClientData,
}

/// Mathematical image of a [`Version`].
pub struct VersionData {
    pub asset_index: AssetIndexData,
    pub downloads: VersionDownloadData,
    pub id: Seq<char>,
    pub libraries: Seq<LibraryData>,
    pub main_class: Seq<char>,
    pub release_time: Seq<char>,
    pub time: Seq<char>,
    pub type_: Seq<char>,
}

impl DeepView for AssetIndex {
    type V = AssetIndexData;

    open spec fn deep_view(&self) -> AssetIndexData {
        AssetIndexData { id: self.id@, url: self.url@, sha1: self.sha1@, size: self.size }
    }
}

impl DeepView for Client {
    type V = ClientData;

    open spec fn deep_view(&self) -> ClientData {
        ClientData { sha1: self.sha1@, size: self.size, url: self.url@ }
    }
}

impl DeepView for Download {
    type V = VersionDownloadData;

    open spec fn deep_view(&self) -> VersionDownloadData {
        VersionDownloadData { client: self.client.deep_view() }
    }
}

impl DeepView for Version {
    type V = VersionData;

    open spec fn deep_view(&self) -> VersionData {
        VersionData {
            asset_index: self.asset_index.deep_view(),
            downloads: self.downloads.deep_view(),
            id: self.id@,
            libraries: self.libraries.deep_view(),
            main_class: self.main_class@,
            release_time: self.release_time@,
            time: self.time@,
            type_: self.type_@,
        }
    }
}

} // verus!
