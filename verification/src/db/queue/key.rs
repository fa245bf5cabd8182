//! Queue key names; they must match what mcim-rust-api writes.

use vstd::prelude::*;

verus! {

pub const CURSEFORGE_MODIDS: &'static str = "curseforge_modids";

pub const CURSEFORGE_FILEIDS: &'static str = "curseforge_fileids";

pub const CURSEFORGE_FINGERPRINTS: &'static str = "curseforge_fingerprints";

pub const MODRINTH_PROJECT_IDS: &'static str = "modrinth_project_ids";

pub const MODRINTH_VERSION_IDS: &'static str = "modrinth_version_ids";

/// Modrinth's `/v2/version_files` knows only these two algorithms.
pub const MODRINTH_HASH_ALGORITHMS: [&'static str; 2] = ["sha1", "sha512"];

/// The queue of hashes of one algorithm.
pub fn modrinth_hashes(algorithm: &str) -> (key: String)
    ensures
        key@ == "modrinth_hashes_"@ + algorithm@,
{
    let s = String::from_str("modrinth_hashes_");
    s.concat(algorithm)
}

} // verus!
