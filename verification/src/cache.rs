//! Identity cache: two lookup tables loaded once per pipeline run.
//!
//! Owner identities are keyed by normalized username and reagent
//! identities by normalized name, so no per-row existence query is ever
//! needed.  A name minted mid-run is written into the cache immediately,
//! making the new identifier visible to later rows of the same run.

use vstd::prelude::*;
use vstd::hash_map::StringHashMap;
use crate::text::{key_seq, normalize_key};

verus! {

/// The view of a name cache: normalized key to identifier text.
pub open spec fn cache_view(m: Map<Seq<char>, String>) -> Map<Seq<char>, Seq<char>> {
    m.map_values(|v: String| v@)
}

/// The mapping built by one full-table preload of (name, identifier)
/// rows: each key is the trimmed, case-folded name; a later row with the
/// same key wins.
pub open spec fn preload_model(rows: Seq<(String, String)>) -> Map<Seq<char>, Seq<char>>
    decreases rows.len(),
{
    if rows.len() == 0 {
        Map::empty()
    } else {
        preload_model(rows.drop_last()).insert(key_seq(rows.last().0@), rows.last().1@)
    }
}

fn preload(rows: &Vec<(String, String)>) -> (m: StringHashMap<String>)
    ensures
        cache_view(m@) == preload_model(rows@),
{
    let mut m = StringHashMap::new();
    let n = rows.len();
    proof {
        assert(cache_view(m@) =~= preload_model(rows@.take(0)));
    }
    let mut i: usize = 0;
    while i < n
        invariant
            0 <= i <= n,
            n == rows@.len(),
            cache_view(m@) == preload_model(rows@.take(i as int)),
        decreases n - i,
    {
        let key = normalize_key(rows[i].0.as_str());
        m.insert(key, rows[i].1.clone());
        proof {
            assert(rows@.take(i + 1).drop_last() =~= rows@.take(i as int));
            assert(rows@.take(i + 1).last() == rows@[i as int]);
            assert(cache_view(m@) =~= preload_model(rows@.take(i + 1)));
        }
        i = i + 1;
    }
    proof {
        assert(rows@.take(n as int) =~= rows@);
    }
    m
}

/// Preloads the owner cache from (username, identifier) rows.
pub fn preload_users(rows: &Vec<(String, String)>) -> (m: StringHashMap<String>)
    ensures
        cache_view(m@) == preload_model(rows@),
{
    preload(rows)
}

/// Preloads the reagent cache from (name, identifier) rows.
pub fn preload_reagents(rows: &Vec<(String, String)>) -> (m: StringHashMap<String>)
    ensures
        cache_view(m@) == preload_model(rows@),
{
    preload(rows)
}

/// The identity caches of one pipeline run.
pub struct IdentityCache {
    pub users: StringHashMap<String>,
    pub reagents: StringHashMap<String>,
}

impl IdentityCache {
    /// Builds the run's caches from the two preloaded tables.
    pub fn new(users: StringHashMap<String>, reagents: StringHashMap<String>) -> (r:
        IdentityCache)
        ensures
            r.users@ == users@,
            r.reagents@ == reagents@,
    {
        IdentityCache { users, reagents }
    }

    /// Builds empty caches, as for a run against an empty store.
    pub fn empty() -> (r: IdentityCache)
        ensures
            cache_view(r.users@) == Map::<Seq<char>, Seq<char>>::empty(),
            cache_view(r.reagents@) == Map::<Seq<char>, Seq<char>>::empty(),
    {
        let r = IdentityCache { users: StringHashMap::new(), reagents: StringHashMap::new() };
        proof {
            assert(cache_view(r.users@) =~= Map::<Seq<char>, Seq<char>>::empty());
            assert(cache_view(r.reagents@) =~= Map::<Seq<char>, Seq<char>>::empty());
        }
        r
    }
}

} // verus!
