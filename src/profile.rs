//! Profiles, settings and the records shown about an instance.

use vstd::prelude::*;
use crate::text::{ends_with_seq, ends_with_str, contains_seq, contains_str, str_eq, concat2};
use crate::download::last_segment;

verus! {

/// The mod-loader family of a profile.
#[derive(Clone, Copy, Debug, PartialEq, Eq, Structural)]
pub enum ModLoader {
    Vanilla,
    Fabric,
    Forge,
    NeoForge,
    Quilt,
}

#[derive(Clone, Debug)]
pub struct Profile {
    pub id: String,
    pub name: String,
    pub version: String,
    pub loader: ModLoader,
    pub loader_version: Option<String>,
    pub icon: Option<String>,
    pub last_played: Option<i64>,
    pub play_time: Option<i64>,
    pub java_path: Option<String>,
    pub jvm_args: Option<String>,
    pub min_memory: Option<u32>,
    pub max_memory: Option<u32>,
    pub resolution: Option<Resolution>,
    pub source_id: Option<String>,
    pub modpack_version: Option<String>,
    pub jvm_preset: Option<String>,
    pub custom_jvm_args: Option<String>,
}

#[derive(Clone, Copy, Debug)]
pub struct Resolution {
    pub width: u32,
    pub height: u32,
}

#[derive(Clone, Debug)]
pub struct ProfileStorage {
    pub profiles: Vec<Profile>,
}

#[derive(Clone, Debug)]
pub struct CreateProfileRequest {
    pub name: String,
    pub version: String,
    pub loader: ModLoader,
    pub loader_version: Option<String>,
    pub source_id: Option<String>,
    pub modpack_version: Option<String>,
    pub jvm_preset: Option<String>,
    pub custom_jvm_args: Option<String>,
}

#[derive(Clone, Debug)]
pub struct LauncherSettings {
    pub java_path: String,
    pub default_min_memory: u32,
    pub default_max_memory: u32,
    pub close_on_launch: bool,
    pub modpack_server_url: Option<String>,
    pub theme: String,
    pub accent_color: String,
    pub game_data_path: Option<String>,
    pub home_background: String,
    pub vhs_no_lines: bool,
    pub skin_pose: String,
}

#[derive(Clone, Debug)]
pub struct ModInfo {
    pub file_name: String,
    pub size_bytes: u64,
    pub mod_id: Option<String>,
    pub name: Option<String>,
    pub source_id: Option<String>,
    pub author: Option<String>,
    pub description: Option<String>,
    pub icon_path: Option<String>,
    pub is_extra: Option<bool>,
    pub is_user_installed: Option<bool>,
}

#[derive(Clone, Debug)]
pub struct SkinFile {
    pub filename: String,
    pub path: String,
}

#[derive(Clone, Debug)]
pub struct UserModEntry {
    pub project_id: String,
    pub version_id: String,
    pub file_name: String,
    pub name: String,
    pub author: String,
    pub description: Option<String>,
    pub icon_url: Option<String>,
    pub installed_at: i64,
}

#[derive(Clone, Debug)]
pub struct UserModsFile {
    pub mods: Vec<UserModEntry>,
}

#[derive(Clone, Debug)]
pub struct GalleryImage {
    pub id: String,
    pub filename: String,
    pub path: String,
    pub timestamp: i64,
    pub origin_profile: Option<String>,
}

#[derive(Clone, Debug)]
pub struct LogFileInfo {
    pub name: String,
    pub path: String,
    pub size_bytes: u64,
    pub modified: i64,
    pub is_priority: bool,
}

#[derive(Clone, Debug)]
pub struct LogFolder {
    pub name: String,
    pub files: Vec<LogFileInfo>,
}

#[derive(Clone, Debug)]
pub struct ProfileLogsResult {
    pub priority_files: Vec<LogFileInfo>,
    pub crash_reports: Vec<LogFileInfo>,
    pub folders: Vec<LogFolder>,
    pub other_files: Vec<LogFileInfo>,
}

/// A recognised crash signature with advice.
#[derive(Clone, Debug)]
pub struct CrashReport {
    pub title: String,
    pub description: String,
    pub solution: String,
}

impl ModLoader {
    /// The loader's lowercase name.
    pub fn as_str(&self) -> (r: &'static str)
        ensures
            r@ == loader_name(*self),
    {
        match self {
            ModLoader::Vanilla => "vanilla",
            ModLoader::Fabric => "fabric",
            ModLoader::Forge => "forge",
            ModLoader::NeoForge => "neoforge",
            ModLoader::Quilt => "quilt",
        }
    }
}

pub open spec fn loader_name(l: ModLoader) -> Seq<char> {
    match l {
        ModLoader::Vanilla => "vanilla"@,
        ModLoader::Fabric => "fabric"@,
        ModLoader::Forge => "forge"@,
        ModLoader::NeoForge => "neoforge"@,
        ModLoader::Quilt => "quilt"@,
    }
}

impl Default for ProfileStorage {
    fn default() -> (r: ProfileStorage)
        ensures
            r.profiles@.len() == 0,
    {
        ProfileStorage { profiles: Vec::new() }
    }
}

impl Default for ModLoader {
    fn default() -> (r: ModLoader)
        ensures
            r == ModLoader::Vanilla,
    {
        ModLoader::Vanilla
    }
}

/// A file shown in the log browser.
pub open spec fn log_file_spec(name: Seq<char>) -> bool {
    ends_with_seq(name, ".log"@) || ends_with_seq(name, ".log.gz"@) || ends_with_seq(name, ".txt"@)
}

pub fn is_log_file(name: &str) -> (r: bool)
    ensures
        r == log_file_spec(name@),
{
    ends_with_str(name, ".log") || ends_with_str(name, ".log.gz") || ends_with_str(name, ".txt")
}

/// The logs listed first.
pub fn is_priority_file(name: &str) -> (r: bool)
    ensures
        r == (name@ == "latest.log"@ || name@ == "debug.log"@),
{
    str_eq(name, "latest.log") || str_eq(name, "debug.log")
}

/// A PNG image inside a `screenshots` directory: the path holds the
/// separator followed by `screenshots`, and its file name has the
/// extension `png`.
pub open spec fn screenshot_spec(path: Seq<char>, sep: char) -> bool {
    let name = crate::download::last_segment_spec(path, sep);
    contains_seq(path, seq![sep] + "screenshots"@) && ends_with_seq(name, ".png"@) && name.len() > 4
}

pub fn is_screenshot(path: &str, sep: char) -> (r: bool)
    ensures
        r == screenshot_spec(path@, sep),
{
    proof {
        reveal_strlit(".png");
    }
    let mut marker = String::new();
    marker.push(sep);
    marker.append("screenshots");
    if !contains_str(path, marker.as_str()) {
        return false;
    }
    let name = last_segment(path, sep);
    ends_with_str(name.as_str(), ".png") && name.as_str().unicode_len() > 4
}

pub fn default_home_background() -> (r: String)
    ensures
        r@ == "default"@,
{
    String::from_str("default")
}

pub fn default_skin_pose() -> (r: String)
    ensures
        r@ == "cool"@,
{
    String::from_str("cool")
}

impl LauncherSettings {
    /// The settings of a fresh install, with the memory default derived from
    /// the machine's memory.
    pub fn initial(system_memory_mb: u32) -> (r: LauncherSettings)
        ensures
            r.java_path@ == ""@,
            r.default_min_memory == 2048,
            r.default_max_memory == crate::versions::default_max_memory_spec(system_memory_mb),
            !r.close_on_launch,
            r.modpack_server_url is None,
            r.theme@ == "dark"@,
            r.accent_color@ == "#6366f1"@,
            r.game_data_path is None,
            r.home_background@ == "default"@,
            !r.vhs_no_lines,
            r.skin_pose@ == "cool"@,
    {
        proof {
            reveal_strlit("");
        }
        LauncherSettings {
            java_path: String::new(),
            default_min_memory: 2048,
            default_max_memory: crate::versions::calculate_default_max_memory(system_memory_mb),
            close_on_launch: false,
            modpack_server_url: None,
            theme: String::from_str("dark"),
            accent_color: String::from_str("#6366f1"),
            game_data_path: None,
            home_background: default_home_background(),
            vhs_no_lines: false,
            skin_pose: default_skin_pose(),
        }
    }
}
/// The position of the profile with the given id.
pub fn find_profile(profiles: &[Profile], id: &str) -> (r: Option<usize>)
    ensures
        match r {
            Some(i) => i < profiles.len() && profiles@[i as int].id@ == id@ && forall|j: int|
                0 <= j < i ==> profiles@[j].id@ != id@,
            None => forall|j: int| 0 <= j < profiles.len() ==> profiles@[j].id@ != id@,
        },
{
    let mut i: usize = 0;
    while i < profiles.len()
        invariant
            i <= profiles.len(),
            forall|j: int| 0 <= j < i ==> profiles@[j].id@ != id@,
        decreases profiles.len() - i,
    {
        if str_eq(profiles[i].id.as_str(), id) {
            return Some(i);
        }
        i += 1;
    }
    None
}

} // verus!
