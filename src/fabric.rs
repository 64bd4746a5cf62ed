//! Loader metadata of the Fabric family.

use vstd::prelude::*;

verus! {

#[derive(Clone, Debug)]
pub struct FabricLoaderVersion {
    pub loader: LoaderInfo,
    pub intermediary: IntermediaryInfo,
    pub launcher_meta: LauncherMeta,
}

#[derive(Clone, Debug)]
pub struct LoaderInfo {
    pub separator: String,
    pub build: u32,
    pub maven: String,
    pub version: String,
    pub stable: bool,
}

#[derive(Clone, Debug)]
pub struct IntermediaryInfo {
    pub maven: String,
    pub version: String,
    pub stable: bool,
}

#[derive(Clone, Debug)]
pub struct LauncherMeta {
    pub version: u32,
    pub min_java_version: Option<u32>,
    pub libraries: LibrariesSection,
    pub main_class: MainClass,
}

#[derive(Clone, Debug)]
pub struct LibrariesSection {
    pub client: Vec<FabricLibrary>,
    pub common: Vec<FabricLibrary>,
    pub server: Vec<FabricLibrary>,
    pub development: Vec<FabricLibrary>,
}

#[derive(Clone, Debug)]
pub struct FabricLibrary {
    pub name: String,
    pub url: Option<String>,
    pub md5: Option<String>,
    pub sha1: Option<String>,
    pub sha256: Option<String>,
    pub sha512: Option<String>,
    pub size: Option<u64>,
}

/// A main class, one for both sides or one per side.
#[derive(Clone, Debug)]
pub enum MainClass {
    Simple(String),
    Complex { client: String, server: String },
}

impl MainClass {
    /// The client-side main class.
    pub fn client(&self) -> (r: &str)
        ensures
            r@ == match self {
                MainClass::Simple(s) => s@,
                MainClass::Complex { client, .. } => client@,
            },
    {
        match self {
            MainClass::Simple(s) => s.as_str(),
            MainClass::Complex { client, .. } => client.as_str(),
        }
    }
}
} // verus!
