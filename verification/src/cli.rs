//! The commands this program runs, one task per run.

use vstd::prelude::*;

verus! {

/// A whole command line: where the configuration lives, whether to log at
/// debug level, and the task to run.
#[derive(Debug, Clone)]
pub struct Cli {
    /// Path of the configuration file.
    pub config: String,
    /// Log at debug level.
    pub verbose: bool,
    pub command: Command,
}

#[derive(Debug, Clone, Copy, PartialEq, Eq, Structural)]
pub enum Command {
    /// CurseForge tasks.
    Curseforge(CurseforgeTask),
    /// Modrinth tasks.
    Modrinth(ModrinthTask),
    /// Create the database indexes.
    Indexes,
    /// Stay resident and run the configured schedule.
    Daemon,
}

#[derive(Debug, Clone, Copy, PartialEq, Eq, Structural)]
pub enum CurseforgeTask {
    /// Consume the modid, fileid and fingerprint misses queued in Redis.
    Queue,
    /// Compare dateModified and sync only the mods that changed.
    Refresh,
    /// Page through by release date, newest first, to find new mods.
    Search {
        /// Only this gameId; both when absent.
        game_id: Option<i32>,
        /// Stop after this many pages; 0 pages until the results run out.
        max_pages: i64,
        /// Keep going past mods that are already stored.
        full: bool,
    },
    /// Refresh the categories.
    Categories { game_id: Option<i32> },
}

#[derive(Debug, Clone, Copy, PartialEq, Eq, Structural)]
pub enum ModrinthTask {
    /// Consume the project_id, version_id and hash misses queued in Redis.
    Queue,
    /// Compare updated and the version list; sync only what changed.
    Refresh,
    /// Sync every stored project again.
    RefreshFull,
    /// Page through by newest to find new projects.
    Search { max_pages: i64, full: bool },
    /// Refresh categories, loaders and game_versions.
    Tags,
}

/// The games a task covers when no gameId is given, or just the one given.
pub fn game_ids(explicit: Option<i32>) -> (ids: Vec<i32>)
    ensures
        ids@ == (match explicit {
            Some(g) => seq![g],
            None => seq![432i32, 78022i32],
        }),
{
    match explicit {
        Some(game_id) => {
            let v = vec![game_id];
            assert(v@ =~= seq![game_id]);
            v
        },
        None => {
            let v = vec![432i32, 78022i32];
            assert(v@ =~= seq![432i32, 78022i32]);
            v
        },
    }
}

} // verus!
