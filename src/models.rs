//! Typed version descriptors and the records read from game metadata.

use vstd::prelude::*;

verus! {

/// A version manifest: the latest ids and every listed version.
#[derive(Clone, Debug)]
pub struct VersionManifest {
    pub latest: LatestVersions,
    pub versions: Vec<VersionInfo>,
}

#[derive(Clone, Debug)]
pub struct LatestVersions {
    pub release: String,
    pub snapshot: String,
}

#[derive(Clone, Debug)]
pub struct VersionInfo {
    pub id: String,
    pub version_type: String,
    pub url: String,
    pub time: String,
    pub release_time: String,
    pub sha1: String,
    pub compliance_level: Option<i32>,
}

/// A complete engine version record as published upstream.
#[derive(Clone, Debug)]
pub struct VersionDetails {
    pub id: String,
    pub main_class: String,
    pub minimum_launcher_version: Option<i32>,
    pub release_time: String,
    pub time: String,
    pub version_type: String,
    pub arguments: Option<Arguments>,
    pub minecraft_arguments: Option<String>,
    pub asset_index: AssetIndex,
    pub assets: String,
    pub downloads: Downloads,
    pub libraries: Vec<Library>,
    pub logging: Option<LoggingConfig>,
    pub java_version: Option<JavaVersion>,
}

/// Templated JVM and game arguments.
#[derive(Clone, Debug)]
pub struct Arguments {
    pub game: Vec<ArgumentValue>,
    pub jvm: Vec<ArgumentValue>,
}

/// One argument token: a literal, or a value gated by rules.
#[derive(Clone, Debug)]
pub enum ArgumentValue {
    Simple(String),
    Complex(ComplexArgument),
}

#[derive(Clone, Debug)]
pub struct ComplexArgument {
    pub rules: Vec<Rule>,
    pub value: ArgumentString,
}

#[derive(Clone, Debug)]
pub enum ArgumentString {
    Single(String),
    Multiple(Vec<String>),
}

/// A platform rule: `action` is `allow` or `disallow`; `os` restricts it.
#[derive(Clone, Debug)]
pub struct Rule {
    pub action: String,
    pub features: Option<Vec<(String, bool)>>,
    pub os: Option<OsRule>,
}

#[derive(Clone, Debug)]
pub struct OsRule {
    pub name: Option<String>,
    pub version: Option<String>,
    pub arch: Option<String>,
}

#[derive(Clone, Debug)]
pub struct AssetIndex {
    pub id: String,
    pub sha1: String,
    pub size: u64,
    pub total_size: u64,
    pub url: String,
}

#[derive(Clone, Debug)]
pub struct Downloads {
    pub client: DownloadInfo,
    pub client_mappings: Option<DownloadInfo>,
    pub server: Option<DownloadInfo>,
    pub server_mappings: Option<DownloadInfo>,
}

#[derive(Clone, Debug)]
pub struct DownloadInfo {
    pub sha1: String,
    pub size: u64,
    pub url: String,
}

/// A library: a maven coordinate, where to fetch it, and when it applies.
/// `natives` maps a platform key to a classifier key, each key once.
#[derive(Clone, Debug)]
pub struct Library {
    pub name: String,
    pub downloads: Option<LibraryDownloads>,
    pub url: Option<String>,
    pub rules: Vec<Rule>,
    pub natives: Option<Vec<(String, String)>>,
    pub extract: Option<ExtractRules>,
}

/// A library's artifacts; `classifiers` maps a classifier key to its jar.
#[derive(Clone, Debug)]
pub struct LibraryDownloads {
    pub artifact: Option<LibraryArtifact>,
    pub classifiers: Option<Vec<(String, LibraryArtifact)>>,
}

#[derive(Clone, Debug)]
pub struct LibraryArtifact {
    pub path: String,
    pub sha1: Option<String>,
    pub size: Option<u64>,
    pub url: String,
}

/// Path prefixes left out when a native jar is unpacked.
#[derive(Clone, Debug)]
pub struct ExtractRules {
    pub exclude: Vec<String>,
}

#[derive(Clone, Debug)]
pub struct LoggingConfig {
    pub client: ClientLogging,
}

#[derive(Clone, Debug)]
pub struct ClientLogging {
    pub argument: String,
    pub file: LoggingFile,
    pub logging_type: String,
}

#[derive(Clone, Debug)]
pub struct LoggingFile {
    pub id: String,
    pub sha1: String,
    pub size: u64,
    pub url: String,
}

#[derive(Clone, Debug)]
pub struct JavaVersion {
    pub component: String,
    pub major_version: i32,
}

/// An asset index: each asset's name with its content hash and size.
#[derive(Clone, Debug)]
pub struct AssetIndexFile {
    pub objects: Vec<(String, AssetObject)>,
}

#[derive(Clone, Debug)]
pub struct AssetObject {
    pub hash: String,
    pub size: u64,
}

} // verus!
