//! Modpack manifests and install plans.

use vstd::prelude::*;
use crate::classpath::{lower_of, lowercase};
use crate::text::{replace_spec, replace_str, starts_with_seq, starts_with_str};
use crate::profile::ModLoader;

verus! {

#[derive(Clone, Debug)]
pub struct CurseForgeManifest {
    pub minecraft: CurseForgeMinecraftInfo,
    pub manifest_type: String,
    pub manifest_version: i32,
    pub name: String,
    pub version: String,
    pub author: String,
    pub files: Vec<CurseForgeFile>,
    pub overrides: String,
}

#[derive(Clone, Debug)]
pub struct CurseForgeMinecraftInfo {
    pub version: String,
    pub mod_loaders: Vec<CurseForgeModLoader>,
}

/// A loader entry such as `neoforge-21.1.77`.
#[derive(Clone, Debug)]
pub struct CurseForgeModLoader {
    pub id: String,
    pub primary: bool,
}

#[derive(Clone, Debug)]
pub struct CurseForgeFile {
    pub project_id: u64,
    pub file_id: u64,
    pub required: bool,
}

#[derive(Clone, Debug)]
pub struct ModrinthManifest {
    pub format_version: i32,
    pub game: String,
    pub version_id: String,
    pub name: String,
    pub summary: Option<String>,
    pub files: Vec<ModrinthFile>,
    pub dependencies: ModrinthDependencies,
}

#[derive(Clone, Debug)]
pub struct ModrinthFile {
    pub path: String,
    pub hashes: ModrinthHashes,
    pub env: Option<ModrinthEnv>,
    pub downloads: Vec<String>,
    pub file_size: u64,
}

#[derive(Clone, Debug)]
pub struct ModrinthHashes {
    pub sha1: String,
    pub sha512: String,
}

#[derive(Clone, Debug)]
pub struct ModrinthEnv {
    pub client: Option<String>,
    pub server: Option<String>,
}

#[derive(Clone, Debug)]
pub struct ModrinthDependencies {
    pub minecraft: String,
    pub fabric_loader: Option<String>,
    pub forge: Option<String>,
    pub neoforge: Option<String>,
    pub quilt_loader: Option<String>,
}

#[derive(Clone, Debug)]
pub struct ModpackInfo {
    pub id: String,
    pub name: String,
    pub version: String,
    pub author: String,
    pub description: Option<String>,
    pub icon: Option<String>,
    pub mc_version: String,
    pub loader: ModLoader,
    pub loader_version: String,
    pub source: ModpackSource,
    pub source_id: Option<String>,
    pub categories: Vec<String>,
}

#[derive(Clone, Copy, Debug, PartialEq, Eq, Structural)]
pub enum ModpackSource {
    CurseForge,
    Modrinth,
    Local,
}

#[derive(Clone, Debug)]
pub struct ServerModpackPlan {
    pub name: String,
    pub version: String,
    pub minecraft_version: String,
    pub mod_loader: CurseForgeModLoader,
    pub files: Option<Vec<ServerModFile>>,
    pub overrides_url: Option<String>,
    pub is_bundle: Option<bool>,
    pub bundle_url: Option<String>,
}

#[derive(Clone, Debug)]
pub struct ServerModFile {
    pub project_id: u64,
    pub file_id: u64,
    pub download_url: String,
    pub file_name: Option<String>,
}

/// The loader family and version that a loader id names: `fabric-`,
/// `forge-`, `neoforge-` and `quilt-` prefixes (any case), with every
/// occurrence of that marker removed from the lowercased id; anything else
/// is vanilla with no version.
pub open spec fn loader_of_id(id: Seq<char>) -> (ModLoader, Seq<char>) {
    let lc = lower_of(id);
    if starts_with_seq(lc, "fabric-"@) {
        (ModLoader::Fabric, replace_spec(lc, "fabric-"@, ""@))
    } else if starts_with_seq(lc, "forge-"@) {
        (ModLoader::Forge, replace_spec(lc, "forge-"@, ""@))
    } else if starts_with_seq(lc, "neoforge-"@) {
        (ModLoader::NeoForge, replace_spec(lc, "neoforge-"@, ""@))
    } else if starts_with_seq(lc, "quilt-"@) {
        (ModLoader::Quilt, replace_spec(lc, "quilt-"@, ""@))
    } else {
        (ModLoader::Vanilla, ""@)
    }
}

impl CurseForgeModLoader {
    /// The loader family and version of this entry.
    pub fn to_mod_loader(&self) -> (r: (ModLoader, String))
        ensures
            r.0 == loader_of_id(self.id@).0,
            r.1@ == loader_of_id(self.id@).1,
    {
        proof {
            reveal_strlit("fabric-");
            reveal_strlit("forge-");
            reveal_strlit("neoforge-");
            reveal_strlit("quilt-");
            reveal_strlit("");
        }
        let id = lowercase(self.id.as_str());
        let s = id.as_str();
        if starts_with_str(s, "fabric-") {
            (ModLoader::Fabric, replace_str(s, "fabric-", ""))
        } else if starts_with_str(s, "forge-") {
            (ModLoader::Forge, replace_str(s, "forge-", ""))
        } else if starts_with_str(s, "neoforge-") {
            (ModLoader::NeoForge, replace_str(s, "neoforge-", ""))
        } else if starts_with_str(s, "quilt-") {
            (ModLoader::Quilt, replace_str(s, "quilt-", ""))
        } else {
            (ModLoader::Vanilla, String::new())
        }
    }
}

/// The loader a modpack depends on: the first of Fabric, Forge, NeoForge
/// and Quilt that it names, with its version; else vanilla.
pub open spec fn loader_of_deps(d: ModrinthDependencies) -> (ModLoader, Option<String>) {
    if d.fabric_loader is Some {
        (ModLoader::Fabric, d.fabric_loader)
    } else if d.forge is Some {
        (ModLoader::Forge, d.forge)
    } else if d.neoforge is Some {
        (ModLoader::NeoForge, d.neoforge)
    } else if d.quilt_loader is Some {
        (ModLoader::Quilt, d.quilt_loader)
    } else {
        (ModLoader::Vanilla, None)
    }
}

impl ModrinthDependencies {
    pub fn get_loader(&self) -> (r: (ModLoader, Option<String>))
        ensures
            r == loader_of_deps(*self),
    {
        if let Some(version) = &self.fabric_loader {
            return (ModLoader::Fabric, Some(version.clone()));
        }
        if let Some(version) = &self.forge {
            return (ModLoader::Forge, Some(version.clone()));
        }
        if let Some(version) = &self.neoforge {
            return (ModLoader::NeoForge, Some(version.clone()));
        }
        if let Some(version) = &self.quilt_loader {
            return (ModLoader::Quilt, Some(version.clone()));
        }
        (ModLoader::Vanilla, None)
    }
}
} // verus!
