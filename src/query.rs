//! Reading the catalog once the cache has been brought up.
use crate::cache::{Cache, CacheState, FetchFailure};
use crate::catalog::Database;
use crate::model::NormalizedSong;
use vstd::prelude::*;

verus! {

/// The whole catalog. `update` is what bringing the cache up gave: the
/// failure, or nothing once the catalog is ready.
pub fn beatstar_retrieve_database(cache: &Cache, update: Option<FetchFailure>) -> (r: Result<
    &Database,
    FetchFailure,
>)
    requires
        cache.wf(),
        update is None ==> cache.state is Ready,
    ensures
        match update {
            Some(f) => r == Err::<&Database, FetchFailure>(f),
            None => match cache.state {
                CacheState::Ready { db } => r == Ok::<&Database, FetchFailure>(&db),
                _ => false,
            },
        },
        r matches Ok(db) ==> db.wf(),
{
    if let Some(e) = update {
        return Err(e);
    }
    match cache.database() {
        Some(db) => Ok(db),
        None => {
            proof {
                assert(false);
            }
            Err(FetchFailure::DecodeFailure { detail: String::new() })
        },
    }
}

/// The song whose hash is exactly `hash`, or none; a failure to bring the
/// cache up (`update`) is handed back instead.
pub fn beatstar_get_song<'a>(cache: &'a Cache, update: Option<FetchFailure>, hash: &str) -> (r:
    Result<Option<&'a NormalizedSong>, FetchFailure>)
    requires
        cache.wf(),
        update is None ==> cache.state is Ready,
    ensures
        match update {
            Some(f) => r == Err::<Option<&NormalizedSong>, FetchFailure>(f),
            None => match cache.state {
                CacheState::Ready { db } => match r {
                    Ok(found) => {
                        &&& found is Some <==> db@.contains_key(hash@)
                        &&& found matches Some(s) ==> s.hash@ == hash@ && s@ == db@[hash@]
                    },
                    Err(_) => false,
                },
                _ => false,
            },
        },
{
    match beatstar_retrieve_database(cache, update) {
        Ok(db) => Ok(db.get(hash)),
        Err(e) => Err(e),
    }
}

} // verus!
