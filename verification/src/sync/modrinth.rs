//! The Modrinth side of syncing one project.

use vstd::prelude::*;
use crate::error::{Error, Result};
use crate::models::modrinth::{File, FileInfo, Hashes, Version};
use crate::text::{decimal, format_u64};

verus! {

#[derive(Debug, Clone)]
pub struct ProjectSummary {
    pub id: String,
    pub slug: String,
    pub version_count: usize,
}

/// How many documents each collection lost when a project was removed.
#[derive(Debug, Clone, Copy, Default)]
pub struct RemovedCounts {
    pub projects: u64,
    pub versions: u64,
    pub files: u64,
    pub translations: u64,
}

#[derive(Debug, Clone, Copy, Default)]
pub struct TagCounts {
    pub categories: usize,
    pub loaders: usize,
    pub game_versions: usize,
}

impl TagCounts {
    /// How many tags were written in all.
    pub fn total(&self) -> (n: usize)
        requires
            self.categories + self.loaders + self.game_versions <= usize::MAX,
        ensures
            n == self.categories + self.loaders + self.game_versions,
    {
        self.categories + self.loaders + self.game_versions
    }
}

/// An empty version list from upstream for a project that declares
/// versions is an incomplete answer, not the truth: acting on it would
/// prune every stored version and file of the project. A project that
/// declares none may well have none.
pub fn is_incomplete_versions(returned: usize, declared: usize) -> (r: bool)
    ensures
        r == (returned == 0 && declared > 0),
{
    returned == 0 && declared > 0
}

/// Refuses an incomplete version list before anything is written or
/// pruned, saying which project and how many versions it declares.
pub fn check_versions(project_id: &str, returned: usize, declared: usize) -> (r: Result<()>)
    ensures
        r is Err <==> (returned == 0 && declared > 0),
        r matches Err(e) ==> e matches Error::Config(m) && m@ == "项目 "@ + project_id@ + " 声明有 "@
            + decimal(declared as nat) + " 个版本，版本接口却返回空，响应不完整"@,
{
    if is_incomplete_versions(returned, declared) {
        let m = String::from_str("项目 ");
        let m = m.concat(project_id);
        let m = m.concat(" 声明有 ");
        let n = format_u64(declared as u64);
        let m = m.concat(n.as_str());
        Err(Error::Config(m.concat(" 个版本，版本接口却返回空，响应不完整")))
    } else {
        Ok(())
    }
}


/// The `modrinth_files` document of a file that a version lists.
pub open spec fn file_of(version: Version, info: FileInfo, stamp: i64) -> File {
    File {
        hashes: info.hashes,
        url: info.url,
        filename: info.filename,
        primary: info.primary,
        size: info.size,
        file_type: info.file_type,
        version_id: version.id,
        project_id: version.project_id,
        sync_at: stamp,
    }
}

pub open spec fn files_of(version: Version, infos: Seq<FileInfo>, stamp: i64) -> Seq<File> {
    infos.map_values(|info: FileInfo| file_of(version, info, stamp))
}

/// Every file of every version, versions in order and each version's files
/// in order, stamped with the time of this sync.
pub open spec fn version_files_spec(versions: Seq<Version>, stamp: i64) -> Seq<File>
    decreases versions.len(),
{
    if versions.len() == 0 {
        Seq::empty()
    } else {
        version_files_spec(versions.drop_last(), stamp) + files_of(versions.last(), versions.last().files@, stamp)
    }
}

fn clone_opt(o: &Option<String>) -> (r: Option<String>)
    ensures
        r == *o,
{
    match o {
        Some(s) => Some(s.clone()),
        None => None,
    }
}

fn file_from(version: &Version, info: &FileInfo, stamp: i64) -> (f: File)
    ensures
        f == file_of(*version, *info, stamp),
{
    File {
        hashes: Hashes { sha512: info.hashes.sha512.clone(), sha1: info.hashes.sha1.clone() },
        url: info.url.clone(),
        filename: info.filename.clone(),
        primary: info.primary,
        size: info.size,
        file_type: clone_opt(&info.file_type),
        version_id: version.id.clone(),
        project_id: version.project_id.clone(),
        sync_at: stamp,
    }
}

/// The file documents that syncing a project's versions writes.
pub fn version_files(versions: &Vec<Version>, stamp: i64) -> (files: Vec<File>)
    ensures
        files@ == version_files_spec(versions@, stamp),
{
    let mut files: Vec<File> = Vec::new();
    let mut i: usize = 0;
    while i < versions.len()
        invariant
            i <= versions.len(),
            files@ == version_files_spec(versions@.take(i as int), stamp),
        decreases versions.len() - i,
    {
        let version = &versions[i];
        assert(versions@.take(i + 1).drop_last() =~= versions@.take(i as int));
        let ghost before = files@;
        let mut j: usize = 0;
        while j < version.files.len()
            invariant
                j <= version.files.len(),
                files@ =~= before + files_of(*version, version.files@.take(j as int), stamp),
            decreases version.files.len() - j,
        {
            files.push(file_from(version, &version.files[j], stamp));
            assert(files_of(*version, version.files@.take(j + 1), stamp) =~= files_of(*version, version.files@.take(j as int), stamp).push(file_of(*version, version.files@[j as int], stamp)));
            j = j + 1;
        }
        assert(version.files@.take(j as int) =~= version.files@);
        i = i + 1;
    }
    assert(versions@.take(i as int) =~= versions@);
    files
}

/// Syncing one more version adds exactly its files, in order, after the
/// files of the versions before it; each carries that version's id and its
/// project's id, the file's own hashes, address, name, flag, size and type,
/// and the time of the sync. With no version there is no file.
pub proof fn law_each_file_carries_its_version(versions: Seq<Version>, version: Version, stamp: i64)
    ensures
        version_files_spec(Seq::empty(), stamp).len() == 0,
        ({
            let before = version_files_spec(versions, stamp);
            let after = version_files_spec(versions.push(version), stamp);
            &&& after.len() == before.len() + version.files@.len()
            &&& after.take(before.len() as int) == before
            &&& forall|j: int| 0 <= j < version.files@.len() ==> {
                let f = #[trigger] after[before.len() + j];
                let info = version.files@[j];
                &&& f.version_id == version.id
                &&& f.project_id == version.project_id
                &&& f.hashes == info.hashes
                &&& f.url == info.url
                &&& f.filename == info.filename
                &&& f.primary == info.primary
                &&& f.size == info.size
                &&& f.file_type == info.file_type
                &&& f.sync_at == stamp
            }
        }),
{
    let before = version_files_spec(versions, stamp);
    let after = version_files_spec(versions.push(version), stamp);
    assert(versions.push(version).drop_last() =~= versions);
    assert(after =~= before + files_of(version, version.files@, stamp));
    assert(after.take(before.len() as int) =~= before);
}

/// Every file a sync writes belongs to one of the versions synced: its
/// version id and project id are those of some version, and the file is
/// one that version lists.
pub proof fn law_files_belong_to_their_versions(versions: Seq<Version>, stamp: i64, n: int)
    requires
        0 <= n < version_files_spec(versions, stamp).len(),
    ensures
        exists|i: int, j: int|
            #![trigger versions[i].files@[j]]
            0 <= i < versions.len() && 0 <= j < versions[i].files@.len() && {
                let f = version_files_spec(versions, stamp)[n];
                &&& f.version_id == versions[i].id
                &&& f.project_id == versions[i].project_id
                &&& f.filename == versions[i].files@[j].filename
                &&& f.hashes == versions[i].files@[j].hashes
                &&& f.sync_at == stamp
            },
    decreases versions.len(),
{
    let rest = versions.drop_last();
    let last = versions.last();
    assert(rest.push(last) =~= versions);
    law_each_file_carries_its_version(rest, last, stamp);
    let before = version_files_spec(rest, stamp);
    if n < before.len() {
        law_files_belong_to_their_versions(rest, stamp, n);
        let (i, j) = choose|i: int, j: int|
            #![trigger rest[i].files@[j]]
            0 <= i < rest.len() && 0 <= j < rest[i].files@.len() && {
                let f = version_files_spec(rest, stamp)[n];
                &&& f.version_id == rest[i].id
                &&& f.project_id == rest[i].project_id
                &&& f.filename == rest[i].files@[j].filename
                &&& f.hashes == rest[i].files@[j].hashes
                &&& f.sync_at == stamp
            };
        assert(version_files_spec(versions, stamp).take(before.len() as int)[n] == version_files_spec(versions, stamp)[n]);
        assert(versions[i] == rest[i]);
        assert(versions[i].files@[j] == rest[i].files@[j]);
    } else {
        let j = n - before.len();
        let i = versions.len() - 1;
        assert(version_files_spec(versions, stamp)[before.len() + j] == version_files_spec(versions, stamp)[n]);
        assert(versions[i].files@[j] == last.files@[j]);
    }
}

/// The ids of the versions upstream still lists; stored versions and files
/// of the project outside them are pruned.
pub fn version_ids(versions: &Vec<Version>) -> (ids: Vec<String>)
    ensures
        ids@.len() == versions@.len(),
        forall|k: int| 0 <= k < ids@.len() ==> ids@[k] == #[trigger] versions@[k].id,
{
    let mut ids: Vec<String> = Vec::new();
    let mut i: usize = 0;
    while i < versions.len()
        invariant
            i <= versions.len(),
            ids@.len() == i,
            forall|k: int| 0 <= k < i ==> ids@[k] == #[trigger] versions@[k].id,
        decreases versions.len() - i,
    {
        ids.push(versions[i].id.clone());
        i = i + 1;
    }
    ids
}

} // verus!
