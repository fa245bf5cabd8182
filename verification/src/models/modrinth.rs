//! Modrinth records, as far as the sync logic reads them. Times are Unix
//! milliseconds.

use vstd::prelude::*;

verus! {

#[derive(Debug, Clone)]
pub struct DonationUrl {
    pub id: Option<String>,
    pub platform: Option<String>,
    pub url: Option<String>,
}

#[derive(Debug, Clone)]
pub struct License {
    pub id: Option<String>,
    pub name: Option<String>,
    pub url: Option<String>,
}

#[derive(Debug, Clone)]
pub struct Dependencies {
    pub version_id: Option<String>,
    pub project_id: Option<String>,
    pub file_name: Option<String>,
    pub dependency_type: String,
}

/// The `_id` of a `modrinth_files` document. Its field order, sha512 first,
/// is part of the key: MongoDB compares sub-document keys field by field.
#[derive(Debug, Clone)]
pub struct Hashes {
    pub sha512: String,
    pub sha1: String,
}

/// A file as a version lists it.
#[derive(Debug, Clone)]
pub struct FileInfo {
    pub hashes: Hashes,
    pub url: String,
    pub filename: String,
    pub primary: bool,
    pub size: i64,
    pub file_type: Option<String>,
}

/// A `modrinth_files` document.
#[derive(Debug, Clone)]
pub struct File {
    pub hashes: Hashes,
    pub url: String,
    pub filename: String,
    pub primary: bool,
    pub size: i64,
    pub file_type: Option<String>,
    pub version_id: String,
    pub project_id: String,
    pub sync_at: i64,
}

/// A version, as far as storing its files goes.
#[derive(Debug, Clone)]
pub struct Version {
    pub id: String,
    pub project_id: String,
    pub files: Vec<FileInfo>,
}

/// What a project's refresh compares, as upstream or the cache holds it.
#[derive(Debug, Clone)]
pub struct ProjectStamp {
    pub id: String,
    pub updated: Option<i64>,
    pub versions: Option<Vec<String>>,
    pub game_versions: Option<Vec<String>>,
}

} // verus!
