use mcim_rust_sync::db::queue::key;

#[test]
fn hash_algorithms_match_queue_keys() {
    assert_eq!(key::MODRINTH_HASH_ALGORITHMS, ["sha1", "sha512"]);
    assert_eq!(key::modrinth_hashes("sha1"), "modrinth_hashes_sha1");
    assert_eq!(key::modrinth_hashes("sha512"), "modrinth_hashes_sha512");
}

#[test]
fn queue_key_names() {
    assert_eq!(key::CURSEFORGE_MODIDS, "curseforge_modids");
    assert_eq!(key::CURSEFORGE_FILEIDS, "curseforge_fileids");
    assert_eq!(key::CURSEFORGE_FINGERPRINTS, "curseforge_fingerprints");
    assert_eq!(key::MODRINTH_PROJECT_IDS, "modrinth_project_ids");
    assert_eq!(key::MODRINTH_VERSION_IDS, "modrinth_version_ids");
}
