//! Fixed identifiers of the upstream platforms.

use vstd::prelude::*;

verus! {

/// 432 is Minecraft, 78022 is Minecraft Bedrock Edition.
pub const ACCEPT_GAME_IDS: [i32; 2] = [432, 78022];

/// Search discovery pages through each class separately; these are the
/// classIds under each game.
pub const GAME_432_CLASS_IDS: [i32; 9] = [4546, 4559, 12, 5, 6, 4471, 17, 6552, 6945];

pub const GAME_78022_CLASS_IDS: [i32; 5] = [4984, 6913, 6929, 6940, 6925];

/// CurseForge's deep paging limit: `index + pageSize` may not pass it.
pub const CURSEFORGE_SEARCH_LIMIT: i64 = 10000;

pub const CURSEFORGE_SEARCH_PAGE_SIZE: i64 = 50;

/// A mod's whole file list is asked for at once; page by page is the fallback.
pub const CURSEFORGE_FILES_PAGE_SIZE: i64 = 10000;

pub const CURSEFORGE_FILES_FALLBACK_PAGE_SIZE: i64 = 50;

pub const MODRINTH_SEARCH_PAGE_SIZE: i64 = 100;

pub open spec fn class_ids_spec(game_id: i32) -> Seq<i32> {
    if game_id == 78022 {
        seq![4984, 6913, 6929, 6940, 6925]
    } else {
        seq![4546, 4559, 12, 5, 6, 4471, 17, 6552, 6945]
    }
}

/// The classIds that search slices by, for a game; any game other than
/// Bedrock gets Minecraft's.
pub fn class_ids(game_id: i32) -> (ids: &'static [i32])
    ensures
        ids@ == class_ids_spec(game_id),
{
    if game_id == 78022 {
        let ids: &'static [i32] = &GAME_78022_CLASS_IDS;
        assert(ids@ =~= class_ids_spec(game_id));
        ids
    } else {
        let ids: &'static [i32] = &GAME_432_CLASS_IDS;
        assert(ids@ =~= class_ids_spec(game_id));
        ids
    }
}

/// Whether a game is one that the cache takes in.
pub fn is_accepted_game(game_id: i32) -> (r: bool)
    ensures
        r == (game_id == 432 || game_id == 78022),
{
    game_id == ACCEPT_GAME_IDS[0] || game_id == ACCEPT_GAME_IDS[1]
}

} // verus!
