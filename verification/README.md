# mcim_rust_sync

Pulls mod metadata from CurseForge and Modrinth into the MCIM cache
(MongoDB), driven by the Redis queues that the cache's API fills with the
lookups it could not answer.

The crate is in two parts.

- `src/` is the library, written in Verus: every decision the program makes
  is a function with a contract, and the properties that span functions are
  stated and proved as `law_*` proof functions. It covers reading the queues
  (which members are ids, which ids go back), what a refresh finds out of
  date or deleted, how a search pages and slices within CurseForge's limit
  of ten thousand results, how the environment overrides the configuration,
  how the daemon schedules and keeps a job from overlapping itself, what a
  run is recorded as and how the process exits, the index plan and the
  freshness figures, the metrics a run adds, and the task history API's
  query handling.
- `app/` is the program around it: the command line, the configuration
  file, the HTTP client, MongoDB and Redis, the daemon's event loop, and the
  two HTTP endpoints. It performs the calls and hands their results to the
  library.

Calls into outside crates that the library makes itself (croner, chrono,
bson) go through a few small wrappers whose contracts are trusted; each one
says in its doc comment what it claims of the outside code.

Times are Unix milliseconds throughout the library, which is how the cache
stores them.
