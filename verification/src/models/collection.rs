//! MongoDB collection names.

use vstd::prelude::*;

verus! {

pub const CURSEFORGE_MODS: &'static str = "curseforge_mods";

pub const CURSEFORGE_FILES: &'static str = "curseforge_files";

pub const CURSEFORGE_CATEGORIES: &'static str = "curseforge_categories";

pub const CURSEFORGE_TRANSLATED: &'static str = "curseforge_translated";

pub const MODRINTH_PROJECTS: &'static str = "modrinth_projects";

pub const MODRINTH_VERSIONS: &'static str = "modrinth_versions";

pub const MODRINTH_FILES: &'static str = "modrinth_files";

pub const MODRINTH_CATEGORIES: &'static str = "modrinth_categories";

pub const MODRINTH_LOADERS: &'static str = "modrinth_loaders";

pub const MODRINTH_GAME_VERSIONS: &'static str = "modrinth_game_versions";

pub const MODRINTH_TRANSLATED: &'static str = "modrinth_translated";

pub const TASK_RUNS: &'static str = "task_runs";

} // verus!
