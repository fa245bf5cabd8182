//! The CurseForge side of syncing one mod.

use vstd::prelude::*;
use crate::api::curseforge::Pagination;
use crate::constants::is_accepted_game;

verus! {

/// What syncing one mod stored.
#[derive(Debug, Clone)]
pub struct ModSummary {
    pub id: i32,
    pub name: Option<String>,
    pub file_count: usize,
}


/// Only mods of the accepted games are stored; a mod without a gameId is not.
pub fn mod_in_scope(game_id: Option<i32>) -> (r: bool)
    ensures
        r == (match game_id {
            Some(g) => g == 432 || g == 78022,
            None => false,
        }),
{
    match game_id {
        Some(g) => is_accepted_game(g),
        None => false,
    }
}

/// A one-shot file list is complete when upstream says it returned all
/// there is and did return that many.
pub fn files_complete(page: &Pagination, returned: usize) -> (r: bool)
    ensures
        r == (page.result_count == page.total_count && returned as int == page.result_count),
{
    page.result_count == page.total_count && page.result_count >= 0 && (returned as u64) == (page.result_count as u64)
}

/// Page-by-page reading of a file list, the fallback when the one-shot
/// list came back short.
#[derive(Debug, Clone, Copy, PartialEq, Eq, Structural)]
pub struct FilePager {
    pub index: i64,
    pub done: bool,
}

impl FilePager {
    pub fn new() -> (p: FilePager)
        ensures
            p.index == 0 && !p.done,
    {
        FilePager { index: 0, done: false }
    }

    /// After a page of `returned` files out of `total`: the index moves on
    /// by what came back, and at least by one so that a page that returned
    /// nothing cannot loop; reading stops at an empty page or once the
    /// index reaches the total.
    pub fn after_page(&mut self, total: i64, returned: usize)
        requires
            0 <= old(self).index,
        ensures
            0 <= final(self).index,
            old(self).index + (if returned == 0 { 1 } else { returned as int }) <= i64::MAX ==> {
                &&& final(self).index == old(self).index + (if returned == 0 { 1 } else { returned as int })
                &&& final(self).done == (old(self).done || returned == 0 || final(self).index >= total)
            },
            old(self).index + (if returned == 0 { 1 } else { returned as int }) > i64::MAX ==> final(self).done,
    {
        let step: u64 = if returned == 0 { 1 } else { returned as u64 };
        if step > (i64::MAX as u64) || self.index > i64::MAX - (step as i64) {
            self.done = true;
            return;
        }
        self.index = self.index + step as i64;
        if returned == 0 || self.index >= total {
            self.done = true;
        }
    }
}

} // verus!
