//! CurseForge records, as far as the sync logic reads them. Times are Unix
//! milliseconds.

use vstd::prelude::*;

verus! {

#[derive(Debug, Clone)]
pub struct Hash {
    pub value: String,
    pub algo: i32,
}

#[derive(Debug, Clone)]
pub struct Author {
    pub id: i32,
    pub name: String,
    pub url: Option<String>,
}

#[derive(Debug, Clone)]
pub struct Logo {
    pub id: i32,
    pub mod_id: i32,
    pub title: Option<String>,
    pub description: Option<String>,
    pub thumbnail_url: Option<String>,
    pub url: Option<String>,
}

#[derive(Debug, Clone)]
pub struct ScreenShot {
    pub id: i32,
    pub mod_id: i32,
    pub title: Option<String>,
    pub description: Option<String>,
    pub thumbnail_url: Option<String>,
    pub url: Option<String>,
}

#[derive(Debug, Clone)]
pub struct Links {
    pub website_url: Option<String>,
    pub wiki_url: Option<String>,
    pub issues_url: Option<String>,
    pub source_url: Option<String>,
}

#[derive(Debug, Clone)]
pub struct Module {
    pub name: Option<String>,
    pub fingerprint: Option<i64>,
}

#[derive(Debug, Clone, Copy)]
pub struct FileDependencies {
    pub mod_id: i32,
    pub relation_type: Option<i32>,
}

#[derive(Debug, Clone)]
pub struct FileIndex {
    pub game_version: Option<String>,
    pub file_id: i32,
    pub filename: Option<String>,
    pub release_type: Option<i32>,
    pub game_version_type_id: Option<i32>,
    pub mod_loader: Option<i32>,
}

/// What a mod's refresh compares: its id and when upstream last changed it.
#[derive(Debug, Clone, Copy, PartialEq, Eq, Structural)]
pub struct ModStamp {
    pub id: i32,
    pub date_modified: Option<i64>,
}

} // verus!
