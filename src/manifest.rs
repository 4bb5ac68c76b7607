//! The version manifest data model.
use vstd::prelude::*;
use crate::rules::Rule;

verus! {

/// Where one artifact can be fetched from, and where it goes under the library root.
#[derive(Clone, Debug)]
pub struct DownloadInfo {
    pub sha1: Option<String>,
    pub size: Option<u64>,
    pub url: String,
    pub path: Option<String>,
}

/// The downloads a library declares: its main artifact and classifier-specific ones.
#[derive(Clone, Debug)]
pub struct LibraryDownloads {
    pub artifact: Option<DownloadInfo>,
    pub classifiers: Option<Vec<(String, DownloadInfo)>>,
}

/// A library, named by its maven coordinate `group:artifact:version[:classifier]`.
#[derive(Clone, Debug)]
pub struct Library {
    pub downloads: Option<LibraryDownloads>,
    pub name: String,
    pub natives: Option<Vec<(String, String)>>,
    pub rules: Option<Vec<Rule>>,
    pub url: Option<String>,
}

/// One entry of an argument list: a bare string, or values gated by rules.
#[derive(Clone, Debug)]
pub enum Argument {
    Literal(String),
    Conditional { rules: Option<Vec<Rule>>, values: Vec<String> },
}

/// The modern argument lists of a manifest.
#[derive(Clone, Debug)]
pub struct Arguments {
    pub game: Option<Vec<Argument>>,
    pub jvm: Option<Vec<Argument>>,
}

/// The asset index a version uses.
#[derive(Clone, Debug)]
pub struct AssetIndex {
    pub id: String,
    pub sha1: String,
    pub size: u64,
    pub total_size: u64,
    pub url: String,
}

/// One asset object, stored under its hash.
#[derive(Clone, Debug)]
pub struct AssetObject {
    pub hash: String,
    pub size: u64,
}

/// The contents of an asset index: object names with their objects.
#[derive(Clone, Debug)]
pub struct Assets {
    pub objects: Vec<(String, AssetObject)>,
}

/// The client and server jars of a base version.
#[derive(Clone, Debug)]
pub struct VersionDownloads {
    pub client: DownloadInfo,
    pub server: Option<DownloadInfo>,
}

/// The full manifest of a base version as the version index serves it.
#[derive(Clone, Debug)]
pub struct VersionDetails {
    pub downloads: VersionDownloads,
    pub libraries: Vec<Library>,
    pub asset_index: AssetIndex,
    pub id: String,
    pub main_class: String,
    pub minecraft_arguments: Option<String>,
    pub arguments: Option<Arguments>,
    pub version_type: String,
}

/// The newest release and snapshot ids of the version index.
#[derive(Clone, Debug)]
pub struct LatestVersions {
    pub release: String,
    pub snapshot: String,
}

/// One version listed by the version index.
#[derive(Clone, Debug)]
pub struct VersionEntry {
    pub id: String,
    pub version_type: String,
    pub url: String,
    pub time: String,
    pub release_time: String,
}

/// The version index.
#[derive(Clone, Debug)]
pub struct VersionManifest {
    pub latest: LatestVersions,
    pub versions: Vec<VersionEntry>,
}

/// An installed manifest as read from disk: base, loader or modpack layer.
/// Fields that a layer does not declare are absent.
#[derive(Clone, Debug)]
pub struct ManifestLayer {
    pub id: String,
    pub version_type: Option<String>,
    pub main_class: Option<String>,
    pub inherits_from: Option<String>,
    pub asset_index_id: Option<String>,
    pub libraries: Vec<Library>,
    pub arguments: Option<Arguments>,
    pub minecraft_arguments: Option<String>,
}

/// Whether an optional string is present and not empty.
pub open spec fn declared(o: Option<String>) -> bool {
    o.is_some() && o.unwrap()@.len() > 0
}

/// A copy of an optional string.
pub fn copy_opt(o: &Option<String>) -> (r: Option<String>)
    ensures
        r == *o,
{
    match o {
        Some(s) => Some(s.clone()),
        None => None,
    }
}

/// Whether an optional string is present and not empty.
pub fn is_declared(o: &Option<String>) -> (r: bool)
    ensures
        r == declared(*o),
{
    match o {
        Some(s) => !s.as_str().is_empty(),
        None => false,
    }
}

} // verus!
