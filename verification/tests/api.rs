use mcim_rust_sync::api::curseforge::{
    categories_query, fingerprint_mod_ids, matched_fingerprints, search_query, FingerprintFile,
    FingerprintMatch, FingerprintResult, SearchSlice,
};
use mcim_rust_sync::api::modrinth::search_newest_query;
use mcim_rust_sync::api::trim_trailing_slashes;
use mcim_rust_sync::http::{quota, response_error, truncate, usable_proxy, MAX_ERROR_BODY};
use mcim_rust_sync::config::RateLimit;
use mcim_rust_sync::error::Error;

fn pairs<'a>(q: &'a [(&'static str, String)]) -> Vec<(&'static str, &'a str)> {
    q.iter().map(|(k, v)| (*k, v.as_str())).collect()
}

#[test]
fn slice_carries_its_kind() {
    assert_eq!(SearchSlice::Class(6).kind(), "class");
    assert_eq!(SearchSlice::Category(424).kind(), "category");
    assert_eq!(SearchSlice::Class(6).id(), 6);
    assert_eq!(SearchSlice::Category(424).id(), 424);
    assert_ne!(SearchSlice::Class(424), SearchSlice::Category(424));
}

#[test]
fn search_query_fills_the_slice_parameter() {
    let q = search_query(432, SearchSlice::Category(424), 50, 50, false);
    assert_eq!(
        pairs(&q),
        vec![
            ("gameId", "432"),
            ("index", "50"),
            ("pageSize", "50"),
            ("sortField", "11"),
            ("sortOrder", "asc"),
            ("categoryId", "424"),
        ]
    );
    let q = search_query(432, SearchSlice::Class(6), 0, 50, true);
    assert_eq!(q[4].1, "desc");
    assert_eq!((q[5].0, q[5].1.as_str()), ("classId", "6"));
}

#[test]
fn categories_query_prefers_the_class() {
    assert_eq!(pairs(&categories_query(432, Some(6), true)), vec![("gameId", "432"), ("classId", "6")]);
    assert_eq!(pairs(&categories_query(432, None, true)), vec![("gameId", "432"), ("classesOnly", "true")]);
    assert_eq!(pairs(&categories_query(-1, None, false)), vec![("gameId", "-1")]);
}

#[test]
fn modrinth_search_is_newest_first() {
    assert_eq!(pairs(&search_newest_query(200, 100)), vec![("index", "newest"), ("offset", "200"), ("limit", "100")]);
}

#[test]
fn fingerprints_resolve_to_mods() {
    let result = FingerprintResult {
        exact_matches: vec![
            FingerprintMatch { id: 4294967296, file: FingerprintFile { mod_id: 238222 } },
            FingerprintMatch { id: 1232253386, file: FingerprintFile { mod_id: 946010 } },
        ],
    };
    assert_eq!(fingerprint_mod_ids(&result), vec![238222, 946010]);
    let m = matched_fingerprints(&result);
    assert_eq!(m.get(&4294967296), Some(&238222));
    assert_eq!(m.len(), 2);
}

#[test]
fn base_urls_lose_their_trailing_slashes() {
    assert_eq!(trim_trailing_slashes("https://api.modrinth.com//"), "https://api.modrinth.com");
    assert_eq!(trim_trailing_slashes("https://api.curseforge.com"), "https://api.curseforge.com");
}

#[test]
fn long_error_bodies_are_clipped() {
    assert_eq!(truncate("abcdef", 3), "abc...");
    assert_eq!(truncate("abc", 3), "abc");
    assert_eq!(truncate("密码错误", 2), "密码...");
    let body = "x".repeat(MAX_ERROR_BODY + 5);
    match response_error(503, "GET", "https://api.modrinth.com/v2/project/x", &body) {
        Error::ResponseCode { status, method, url, body } => {
            assert_eq!(status, 503);
            assert_eq!(method, "GET");
            assert_eq!(url, "https://api.modrinth.com/v2/project/x");
            assert_eq!(body.chars().count(), MAX_ERROR_BODY + 3);
        }
        other => panic!("unexpected: {:?}", other),
    }
}

#[test]
fn rate_limits_never_reach_zero() {
    assert_eq!(quota(RateLimit { capacity: 0, refill_rate: 0 }), (1, 1));
    assert_eq!(quota(RateLimit { capacity: 100, refill_rate: 3 }), (3, 100));
}

#[test]
fn empty_proxy_is_no_proxy() {
    assert_eq!(usable_proxy(Some(&String::new())), None);
    assert_eq!(usable_proxy(Some(&"http://proxy:8080".to_string())), Some("http://proxy:8080".to_string()));
    assert_eq!(usable_proxy(None), None);
}

#[test]
fn retry_policy_reads_the_status() {
    let limited = Error::ResponseCode { status: 429, method: "GET".into(), url: "u".into(), body: String::new() };
    assert!(limited.is_retryable());
    let missing = Error::ResponseCode { status: 404, method: "GET".into(), url: "u".into(), body: String::new() };
    assert!(!missing.is_retryable());
    assert!(missing.is_not_found());
    assert!(Error::Request { http_status: None, message: "timeout".into() }.is_retryable());
    assert!(Error::Request { http_status: Some(502), message: "bad gateway".into() }.is_retryable());
    assert!(!Error::Config("x".into()).is_retryable());
    assert_eq!(limited.message(), "[GET] 429 u ");
}

#[test]
fn curseforge_needs_an_api_key() {
    assert!(mcim_rust_sync::api::curseforge::require_api_key("").is_err());
    assert!(mcim_rust_sync::api::curseforge::require_api_key("key").is_ok());
}

#[test]
fn tag_counts_add_up() {
    let counts = mcim_rust_sync::sync::modrinth::TagCounts { categories: 3, loaders: 4, game_versions: 5 };
    assert_eq!(counts.total(), 12);
}
