//! CurseForge's API: response shapes and request parameters.

use vstd::prelude::*;
use std::collections::HashMap;
use crate::error::{Error, Result};
use crate::ids::{sorted_unique, strictly_increasing};
use crate::text::{decimal, format_i32, format_i64, signed_decimal};

verus! {

broadcast use vstd::std_specs::hash::group_hash_axioms;

/// `sortField` of `/v1/mods/search`: 11 is ReleasedDate.
pub const SORT_FIELD_RELEASED_DATE: i32 = 11;

#[derive(Debug)]
pub struct DataResponse<T> {
    pub data: T,
}

#[derive(Debug, Clone, Copy, PartialEq, Eq, Structural)]
pub struct Pagination {
    pub index: i64,
    pub page_size: i64,
    pub result_count: i64,
    pub total_count: i64,
}

#[derive(Debug)]
pub struct PaginatedResponse<T> {
    pub data: Vec<T>,
    pub pagination: Pagination,
}

/// A `/v1/fingerprints` match; only the mod it points at matters here.
#[derive(Debug, Clone, Copy)]
pub struct FingerprintMatch {
    pub id: i64,
    pub file: FingerprintFile,
}

#[derive(Debug, Clone, Copy)]
pub struct FingerprintFile {
    pub mod_id: i32,
}

#[derive(Debug, Clone)]
pub struct FingerprintResult {
    pub exact_matches: Vec<FingerprintMatch>,
}

/// How a search is sliced. One query reaches at most ten thousand results,
/// so covering the whole site takes slicing by class and by category.
#[derive(Debug, Clone, Copy, PartialEq, Eq, Structural)]
pub enum SearchSlice {
    Class(i32),
    Category(i32),
}

impl SearchSlice {
    pub open spec fn id_spec(self) -> i32 {
        match self {
            SearchSlice::Class(id) => id,
            SearchSlice::Category(id) => id,
        }
    }

    pub fn id(&self) -> (r: i32)
        ensures
            r == self.id_spec(),
    {
        match self {
            SearchSlice::Class(id) => *id,
            SearchSlice::Category(id) => *id,
        }
    }

    /// The name of the query parameter the slice fills; a category id put
    /// in `classId` finds nothing.
    pub fn kind(&self) -> (r: &'static str)
        ensures
            r@ == (match *self {
                SearchSlice::Class(_) => "class"@,
                SearchSlice::Category(_) => "category"@,
            }),
    {
        match self {
            SearchSlice::Class(_) => "class",
            SearchSlice::Category(_) => "category",
        }
    }
}

pub open spec fn matched_mod_ids(matches: Seq<FingerprintMatch>) -> Seq<i32> {
    matches.map_values(|m: FingerprintMatch| m.file.mod_id)
}

/// The mods that the fingerprint matches point at, each once, smallest first.
pub fn fingerprint_mod_ids(result: &FingerprintResult) -> (ids: Vec<i32>)
    ensures
        strictly_increasing(ids@),
        forall|y: i32| ids@.contains(y) <==> matched_mod_ids(result.exact_matches@).contains(y),
{
    let mut all: Vec<i32> = Vec::new();
    let mut i: usize = 0;
    while i < result.exact_matches.len()
        invariant
            i <= result.exact_matches.len(),
            all@ =~= matched_mod_ids(result.exact_matches@.take(i as int)),
        decreases result.exact_matches.len() - i,
    {
        all.push(result.exact_matches[i].file.mod_id);
        assert(result.exact_matches@.take(i + 1) =~= result.exact_matches@.take(i as int).push(result.exact_matches@[i as int]));
        i = i + 1;
    }
    assert(result.exact_matches@.take(i as int) =~= result.exact_matches@);
    sorted_unique(&all)
}

/// Fingerprint to mod, for each match; a fingerprint matched twice keeps
/// its last mod.
pub open spec fn fingerprint_map(matches: Seq<FingerprintMatch>) -> Map<i64, i32>
    decreases matches.len(),
{
    if matches.len() == 0 {
        Map::empty()
    } else {
        fingerprint_map(matches.drop_last()).insert(matches.last().id, matches.last().file.mod_id)
    }
}

/// Which fingerprints matched which mod, so that the rest can be told apart.
pub fn matched_fingerprints(result: &FingerprintResult) -> (m: HashMap<i64, i32>)
    ensures
        m@ == fingerprint_map(result.exact_matches@),
{
    let mut m: HashMap<i64, i32> = HashMap::new();
    let mut i: usize = 0;
    while i < result.exact_matches.len()
        invariant
            i <= result.exact_matches.len(),
            m@ == fingerprint_map(result.exact_matches@.take(i as int)),
        decreases result.exact_matches.len() - i,
    {
        let item = result.exact_matches[i];
        m.insert(item.id, item.file.mod_id);
        assert(result.exact_matches@.take(i + 1).drop_last() =~= result.exact_matches@.take(i as int));
        i = i + 1;
    }
    assert(result.exact_matches@.take(i as int) =~= result.exact_matches@);
    m
}

/// A query parameter: its name and its value.
pub type Query = Vec<(&'static str, String)>;

pub open spec fn param(q: Seq<(&'static str, String)>, k: int, name: Seq<char>, value: Seq<char>) -> bool {
    q[k].0@ == name && q[k].1@ == value
}

/// The parameters of `/v1/categories`: the game, then the class when one is
/// given, or else `classesOnly` when only classes are wanted.
pub fn categories_query(game_id: i32, class_id: Option<i32>, classes_only: bool) -> (q: Query)
    ensures
        param(q@, 0, "gameId"@, signed_decimal(game_id as int)),
        match class_id {
            Some(c) => q@.len() == 2 && param(q@, 1, "classId"@, signed_decimal(c as int)),
            None => if classes_only {
                q@.len() == 2 && param(q@, 1, "classesOnly"@, "true"@)
            } else {
                q@.len() == 1
            },
        },
{
    let mut q: Query = Vec::new();
    q.push(("gameId", format_i32(game_id)));
    match class_id {
        Some(c) => q.push(("classId", format_i32(c))),
        None => {
            if classes_only {
                q.push(("classesOnly", String::from_str("true")));
            }
        },
    }
    q
}

/// The parameters of `/v1/mods/search`, sorted by release date, newest
/// first when `descending`, within one slice.
pub fn search_query(game_id: i32, slice: SearchSlice, index: i64, page_size: i64, descending: bool) -> (q: Query)
    ensures
        q@.len() == 6,
        param(q@, 0, "gameId"@, signed_decimal(game_id as int)),
        param(q@, 1, "index"@, signed_decimal(index as int)),
        param(q@, 2, "pageSize"@, signed_decimal(page_size as int)),
        param(q@, 3, "sortField"@, "11"@),
        param(q@, 4, "sortOrder"@, if descending { "desc"@ } else { "asc"@ }),
        match slice {
            SearchSlice::Class(id) => param(q@, 5, "classId"@, signed_decimal(id as int)),
            SearchSlice::Category(id) => param(q@, 5, "categoryId"@, signed_decimal(id as int)),
        },
{
    let mut q: Query = Vec::new();
    q.push(("gameId", format_i32(game_id)));
    q.push(("index", format_i64(index)));
    q.push(("pageSize", format_i64(page_size)));
    let sort = format_i32(SORT_FIELD_RELEASED_DATE);
    proof {
        reveal_strlit("11");
        assert(decimal(1) =~= seq!['1']);
        assert(decimal(11) =~= seq!['1', '1']);
        assert(signed_decimal(11) =~= "11"@);
    }
    q.push(("sortField", sort));
    q.push(("sortOrder", if descending { String::from_str("desc") } else { String::from_str("asc") }));
    match slice {
        SearchSlice::Class(id) => q.push(("classId", format_i32(id))),
        SearchSlice::Category(id) => q.push(("categoryId", format_i32(id))),
    }
    q
}

/// CurseForge answers nothing without an API key, so a task that needs it
/// fails at once when none is configured.
pub fn require_api_key(key: &str) -> (r: Result<()>)
    ensures
        r is Ok <==> key@.len() > 0,
        r matches Err(e) ==> e is Config,
{
    if key.unicode_len() == 0 {
        Err(Error::Config(String::from_str("curseforge_api_key 未配置")))
    } else {
        Ok(())
    }
}

/// The matched fingerprints are exactly those of the matches, and each maps
/// to the mod of its last match.
pub proof fn law_fingerprints_map_to_their_last_match(matches: Seq<FingerprintMatch>, f: i64)
    ensures
        fingerprint_map(matches).contains_key(f) <==> exists|k: int| 0 <= k < matches.len() && #[trigger] matches[k].id == f,
        fingerprint_map(matches).contains_key(f) ==> exists|k: int|
            0 <= k < matches.len() && #[trigger] matches[k].id == f && fingerprint_map(matches)[f] == matches[k].file.mod_id
                && forall|j: int| k < j < matches.len() ==> #[trigger] matches[j].id != f,
    decreases matches.len(),
{
    if matches.len() > 0 {
        let d = matches.drop_last();
        let n = matches.len() - 1;
        law_fingerprints_map_to_their_last_match(d, f);
        assert(matches[n] == matches.last());
        if exists|k: int| 0 <= k < d.len() && #[trigger] d[k].id == f {
            let k = choose|k: int| 0 <= k < d.len() && #[trigger] d[k].id == f;
            assert(matches[k] == d[k]);
        }
        if exists|k: int| 0 <= k < matches.len() && #[trigger] matches[k].id == f {
            let k = choose|k: int| 0 <= k < matches.len() && #[trigger] matches[k].id == f;
            if k < n {
                assert(d[k] == matches[k]);
            }
        }
        if matches.last().id != f && fingerprint_map(matches).contains_key(f) {
            let k = choose|k: int|
                0 <= k < d.len() && #[trigger] d[k].id == f && fingerprint_map(d)[f] == d[k].file.mod_id
                    && forall|j: int| k < j < d.len() ==> #[trigger] d[j].id != f;
            assert(matches[k] == d[k]);
            assert forall|j: int| k < j < matches.len() implies #[trigger] matches[j].id != f by {
                if j < n {
                    assert(d[j] == matches[j]);
                }
            }
        }
    }
}

/// The mods a fingerprint lookup points at are exactly the mods of its
/// matches.
pub proof fn law_matched_mods_are_the_matches_mods(matches: Seq<FingerprintMatch>, y: i32)
    ensures
        matched_mod_ids(matches).contains(y) <==> exists|k: int| 0 <= k < matches.len() && #[trigger] matches[k].file.mod_id
            == y,
{
    if exists|k: int| 0 <= k < matches.len() && #[trigger] matches[k].file.mod_id == y {
        let k = choose|k: int| 0 <= k < matches.len() && #[trigger] matches[k].file.mod_id == y;
        assert(matched_mod_ids(matches)[k] == y);
    }
}

} // verus!
