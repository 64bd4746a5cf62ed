//! The on-disk layout: where the launcher keeps its own files and where the
//! game data (libraries, assets, versions, instances) lives. The data root
//! is the launcher directory unless a custom location is set.

use vstd::prelude::*;
use crate::launch::{path_join, path_join_spec};
use crate::text::{concat2, signed_decimal, signed_decimal_string};

verus! {

/// The launcher's directories, passed explicitly to whoever needs them.
#[derive(Clone, Debug)]
pub struct LauncherPaths {
    /// The launcher's own directory (accounts, profiles, settings).
    pub launcher_dir: String,
    /// A custom location for game data, if one is set.
    pub custom_data_path: Option<String>,
}

impl LauncherPaths {
    pub fn new(launcher_dir: String) -> (r: LauncherPaths)
        ensures
            r.launcher_dir == launcher_dir,
            r.custom_data_path is None,
    {
        LauncherPaths { launcher_dir, custom_data_path: None }
    }
}

/// Sets (or clears) the custom game data location.
pub fn set_game_data_path(paths: &mut LauncherPaths, path: Option<String>)
    ensures
        final(paths).custom_data_path == path,
        final(paths).launcher_dir == old(paths).launcher_dir,
{
    paths.custom_data_path = path;
}

/// The game data root.
pub open spec fn data_dir(p: LauncherPaths) -> Seq<char> {
    match p.custom_data_path {
        Some(c) => c@,
        None => p.launcher_dir@,
    }
}

pub fn get_game_data_dir(p: &LauncherPaths) -> (r: String)
    ensures
        r@ == data_dir(*p),
{
    match &p.custom_data_path {
        Some(c) => c.clone(),
        None => p.launcher_dir.clone(),
    }
}

/// A directory directly under the game data root.
pub open spec fn data_sub(p: LauncherPaths, name: Seq<char>) -> Seq<char> {
    path_join_spec(data_dir(p), name)
}

pub fn get_game_dir(p: &LauncherPaths) -> (r: String)
    ensures
        r@ == data_sub(*p, "instances"@),
{
    path_join(get_game_data_dir(p).as_str(), "instances")
}

pub fn get_libraries_dir(p: &LauncherPaths) -> (r: String)
    ensures
        r@ == data_sub(*p, "libraries"@),
{
    path_join(get_game_data_dir(p).as_str(), "libraries")
}

pub fn get_assets_dir(p: &LauncherPaths) -> (r: String)
    ensures
        r@ == data_sub(*p, "assets"@),
{
    path_join(get_game_data_dir(p).as_str(), "assets")
}

pub fn get_natives_dir(p: &LauncherPaths) -> (r: String)
    ensures
        r@ == data_sub(*p, "natives"@),
{
    path_join(get_game_data_dir(p).as_str(), "natives")
}

pub fn get_versions_dir(p: &LauncherPaths) -> (r: String)
    ensures
        r@ == data_sub(*p, "versions"@),
{
    path_join(get_game_data_dir(p).as_str(), "versions")
}

pub fn get_cache_dir(p: &LauncherPaths) -> (r: String)
    ensures
        r@ == data_sub(*p, "cache"@),
{
    path_join(get_game_data_dir(p).as_str(), "cache")
}

pub fn get_runtimes_dir(p: &LauncherPaths) -> (r: String)
    ensures
        r@ == data_sub(*p, "runtimes"@),
{
    path_join(get_game_data_dir(p).as_str(), "runtimes")
}

pub fn get_modpack_cache_dir(p: &LauncherPaths, modpack_id: &str, version: &str) -> (r: String)
    ensures
        r@ == path_join_spec(
            path_join_spec(path_join_spec(data_sub(*p, "cache"@), "modpacks"@), modpack_id@),
            version@,
        ),
{
    let a = path_join(get_cache_dir(p).as_str(), "modpacks");
    let b = path_join(a.as_str(), modpack_id);
    path_join(b.as_str(), version)
}

pub fn get_java_dir(p: &LauncherPaths, major_version: i32) -> (r: String)
    ensures
        r@ == path_join_spec(data_sub(*p, "runtimes"@), "java-"@ + signed_decimal(major_version as int)),
{
    let n = signed_decimal_string(major_version as i64);
    let name = concat2("java-", n.as_str());
    path_join(get_runtimes_dir(p).as_str(), name.as_str())
}

/// A file in the launcher's own directory.
pub open spec fn launcher_file(p: LauncherPaths, name: Seq<char>) -> Seq<char> {
    path_join_spec(p.launcher_dir@, name)
}

pub fn get_accounts_file(p: &LauncherPaths) -> (r: String)
    ensures
        r@ == launcher_file(*p, "accounts.json"@),
{
    path_join(p.launcher_dir.as_str(), "accounts.json")
}

pub fn get_profiles_file(p: &LauncherPaths) -> (r: String)
    ensures
        r@ == launcher_file(*p, "profiles.json"@),
{
    path_join(p.launcher_dir.as_str(), "profiles.json")
}

/// The launcher profiles file that external loader installers look for.
pub fn get_launcher_profiles_file(p: &LauncherPaths) -> (r: String)
    ensures
        r@ == launcher_file(*p, "launcher_profiles.json"@),
{
    path_join(p.launcher_dir.as_str(), "launcher_profiles.json")
}

pub fn get_settings_file(p: &LauncherPaths) -> (r: String)
    ensures
        r@ == launcher_file(*p, "settings.json"@),
{
    path_join(p.launcher_dir.as_str(), "settings.json")
}

/// The directory of one instance.
pub open spec fn profile_dir(p: LauncherPaths, id: Seq<char>) -> Seq<char> {
    path_join_spec(data_sub(p, "instances"@), id)
}

pub fn get_profile_dir(p: &LauncherPaths, profile_id: &str) -> (r: String)
    ensures
        r@ == profile_dir(*p, profile_id@),
{
    path_join(get_game_dir(p).as_str(), profile_id)
}

pub fn get_profile_mods_dir(p: &LauncherPaths, profile_id: &str) -> (r: String)
    ensures
        r@ == path_join_spec(profile_dir(*p, profile_id@), "mods"@),
{
    path_join(get_profile_dir(p, profile_id).as_str(), "mods")
}

pub fn get_profile_config_dir(p: &LauncherPaths, profile_id: &str) -> (r: String)
    ensures
        r@ == path_join_spec(profile_dir(*p, profile_id@), "config"@),
{
    path_join(get_profile_dir(p, profile_id).as_str(), "config")
}

pub fn get_profile_logs_dir(p: &LauncherPaths, profile_id: &str) -> (r: String)
    ensures
        r@ == path_join_spec(profile_dir(*p, profile_id@), "logs"@),
{
    path_join(get_profile_dir(p, profile_id).as_str(), "logs")
}

pub fn get_profile_metadata_dir(p: &LauncherPaths, profile_id: &str) -> (r: String)
    ensures
        r@ == path_join_spec(data_sub(*p, "profile_metadata"@), profile_id@),
{
    let a = path_join(get_game_data_dir(p).as_str(), "profile_metadata");
    path_join(a.as_str(), profile_id)
}

/// The directory of one version.
pub open spec fn version_dir(p: LauncherPaths, version: Seq<char>) -> Seq<char> {
    path_join_spec(data_sub(p, "versions"@), version)
}

/// The client jar of a version: `versions/<v>/<v>.jar`.
pub fn get_version_jar(p: &LauncherPaths, version: &str) -> (r: String)
    ensures
        r@ == path_join_spec(version_dir(*p, version@), version@ + ".jar"@),
{
    let d = path_join(get_versions_dir(p).as_str(), version);
    let f = concat2(version, ".jar");
    path_join(d.as_str(), f.as_str())
}

/// The descriptor of a version: `versions/<v>/<v>.json`.
pub fn get_version_json(p: &LauncherPaths, version: &str) -> (r: String)
    ensures
        r@ == path_join_spec(version_dir(*p, version@), version@ + ".json"@),
{
    let d = path_join(get_versions_dir(p).as_str(), version);
    let f = concat2(version, ".json");
    path_join(d.as_str(), f.as_str())
}

/// The directories that must exist before anything is installed: the
/// launcher directory, then instances, libraries, assets, natives,
/// versions and cache under the data root.
pub fn launcher_directories(p: &LauncherPaths) -> (r: Vec<String>)
    ensures
        r@.len() == 7,
        r@[0]@ == p.launcher_dir@,
        r@[1]@ == data_sub(*p, "instances"@),
        r@[2]@ == data_sub(*p, "libraries"@),
        r@[3]@ == data_sub(*p, "assets"@),
        r@[4]@ == data_sub(*p, "natives"@),
        r@[5]@ == data_sub(*p, "versions"@),
        r@[6]@ == data_sub(*p, "cache"@),
{
    let mut v: Vec<String> = Vec::new();
    v.push(p.launcher_dir.clone());
    v.push(get_game_dir(p));
    v.push(get_libraries_dir(p));
    v.push(get_assets_dir(p));
    v.push(get_natives_dir(p));
    v.push(get_versions_dir(p));
    v.push(get_cache_dir(p));
    v
}

} // verus!
