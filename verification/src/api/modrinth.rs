//! Modrinth's API: response shapes and request parameters.

use vstd::prelude::*;
use crate::text::{format_i64, signed_decimal};
use crate::api::curseforge::{param, Query};

verus! {

#[derive(Debug, Clone)]
pub struct SearchHit {
    pub project_id: String,
}

#[derive(Debug, Clone)]
pub struct SearchResponse {
    pub hits: Vec<SearchHit>,
    pub offset: i64,
    pub limit: i64,
    pub total_hits: i64,
}

/// The parameters of `/v2/search`, newest first, one page.
pub fn search_newest_query(offset: i64, limit: i64) -> (q: Query)
    ensures
        q@.len() == 3,
        param(q@, 0, "index"@, "newest"@),
        param(q@, 1, "offset"@, signed_decimal(offset as int)),
        param(q@, 2, "limit"@, signed_decimal(limit as int)),
{
    let mut q: Query = Vec::new();
    q.push(("index", String::from_str("newest")));
    q.push(("offset", format_i64(offset)));
    q.push(("limit", format_i64(limit)));
    q
}

} // verus!
