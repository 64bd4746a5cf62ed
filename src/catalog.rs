//! Records of the mod catalog services.

use vstd::prelude::*;

verus! {

#[derive(Clone, Debug)]
pub struct Category {
    pub id: u32,
    pub name: String,
    pub slug: String,
}

#[derive(Clone, Debug)]
pub struct Author {
    pub id: u32,
    pub name: String,
    pub url: String,
}

#[derive(Clone, Debug)]
pub struct Logo {
    pub id: u32,
    pub mod_id: u64,
    pub title: String,
    pub description: String,
    pub thumbnail_url: String,
    pub url: String,
}

#[derive(Clone, Debug)]
pub struct CurseForgeFileInfo {
    pub id: u64,
    pub game_id: u32,
    pub mod_id: u64,
    pub is_available: bool,
    pub display_name: String,
    pub file_name: String,
    pub release_type: u32,
    pub file_status: u32,
    pub hashes: Vec<FileHash>,
    pub file_date: String,
    pub file_length: u64,
    pub download_count: u64,
    pub download_url: Option<String>,
    pub game_versions: Vec<String>,
    pub sortable_game_versions: Vec<SortableGameVersion>,
    pub dependencies: Vec<Dependency>,
    pub is_server_pack: Option<bool>,
    pub file_fingerprint: u64,
}

#[derive(Clone, Debug)]
pub struct FileHash {
    pub value: String,
    pub algo: u32,
}

#[derive(Clone, Debug)]
pub struct SortableGameVersion {
    pub game_version_name: String,
    pub game_version_padded: String,
    pub game_version: String,
    pub game_version_release_date: String,
    pub game_version_type_id: Option<u32>,
}

#[derive(Clone, Debug)]
pub struct Dependency {
    pub mod_id: u64,
    pub relation_type: u32,
}

#[derive(Clone, Debug)]
pub struct FileIndex {
    pub game_version: String,
    pub file_id: u64,
    pub filename: String,
    pub release_type: u32,
    pub game_version_type_id: Option<u32>,
    pub mod_loader: Option<u32>,
}

#[derive(Clone, Debug)]
pub struct ModrinthSearchResult {
    pub project_id: String,
    pub title: String,
    pub description: String,
    pub icon_url: Option<String>,
    pub author: String,
    pub slug: String,
    pub downloads: u64,
    pub follows: u64,
}

#[derive(Clone, Debug)]
pub struct ModrinthVersion {
    pub id: String,
    pub files: Vec<ModrinthFile>,
    pub version_number: String,
    pub dependencies: Option<Vec<ModrinthDependency>>,
}

#[derive(Clone, Debug)]
pub struct ModrinthFile {
    pub url: String,
    pub filename: String,
    pub primary: bool,
}

#[derive(Clone, Debug)]
pub struct ModrinthDependency {
    pub version_id: Option<String>,
    pub project_id: Option<String>,
    pub dependency_type: String,
}

/// The catalog service endpoint set.
#[derive(Clone, Debug)]
pub struct ModrinthApi;

} // verus!
