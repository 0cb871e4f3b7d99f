//! Reconciliation engine: the orchestrator of a bulk-ingestion run.
//!
//! For each candidate record it resolves or mints identities through the
//! run's identity cache, applies the date and name normalization, and
//! emits an upsert against the store model.  Rows are applied strictly in
//! input order; a row whose required identity field is blank is a silent
//! no-op, not an error.  The whole run is specified by one model function
//! per entity kind, folded over the input rows; minted identifiers are
//! the only nondeterminism and appear as an explicitly quantified
//! sequence.

use vstd::prelude::*;
use crate::cache::{cache_view, IdentityCache};
use crate::records::{
    reagent_fields_of, BatchImportDto, BatchRowModel, EquipmentImportDto, EquipmentRowModel,
    ReagentImportDto, ReagentRowModel,
};
use crate::store::{
    batch_upsert_model, equipment_upsert_model, lemma_batch_upsert_wf, lemma_equipment_upsert_wf,
    lemma_reagent_find_props, lemma_reagent_upsert_wf, reagent_find, reagent_upsert_model,
    store_wf, ReagentFields, Store, StoreModel,
};
use crate::ext::{fresh_id, lowercase};
use crate::text::{
    is_blank_str, key_seq, lemma_trim_seq_clean, lower_of, normalize_key, str_eq, trim_seq,
    trim_str,
};
use crate::dates::opt_sv;

verus! {

/// The views of a vector of reagent-import rows.
pub open spec fn reagent_views(recs: Seq<ReagentImportDto>) -> Seq<ReagentRowModel> {
    recs.map_values(|r: ReagentImportDto| r@)
}

/// Every reagent name present in the store is covered by the cache: the
/// precondition that makes cache hits authoritative and fresh inserts
/// safe.
pub open spec fn cache_covers(s: StoreModel, rc: Map<Seq<char>, Seq<char>>) -> bool {
    forall|j: int|
        0 <= j < s.reagents.len() ==> rc.contains_key(key_seq(#[trigger] s.reagents[j].name))
}

/// The owner an import row resolves to: the cached identity of the
/// stated owner, or the identity of the caller who initiated the run.
pub open spec fn resolved_owner(
    owner: Option<Seq<char>>,
    users: Map<Seq<char>, Seq<char>>,
    caller: Seq<char>,
) -> Seq<char> {
    match owner {
        Some(o) => if users.contains_key(key_seq(o)) {
            users[key_seq(o)]
        } else {
            caller
        },
        None => caller,
    }
}

/// The creation timestamp an import row resolves to: the stated one when
/// non-blank, else the run's clock reading.
pub open spec fn resolved_created_at(added_at: Option<Seq<char>>, now: Seq<char>) -> Seq<char> {
    match added_at {
        Some(a) => if trim_seq(a).len() > 0 {
            a
        } else {
            now
        },
        None => now,
    }
}

/// Whether a reagent row carries insertable embedded batch data: batch
/// number present and non-blank, quantity present and strictly positive,
/// unit present.
pub open spec fn has_embedded_batch(rec: ReagentRowModel) -> bool {
    &&& rec.batch_number is Some
    &&& rec.quantity_milli is Some
    &&& rec.units is Some
    &&& trim_seq(rec.batch_number->0).len() > 0
    &&& rec.quantity_milli->0 > 0
}

/// The effect of one reagent-import row on the store and the reagent
/// cache.  `idr` and `idb` are the identifiers minted for the row, used
/// only where no existing identity is found.
pub open spec fn reagent_row_step(
    s: StoreModel,
    rc: Map<Seq<char>, Seq<char>>,
    users: Map<Seq<char>, Seq<char>>,
    rec: ReagentRowModel,
    caller: Seq<char>,
    now: Seq<char>,
    idr: Seq<char>,
    idb: Seq<char>,
) -> (StoreModel, Map<Seq<char>, Seq<char>>) {
    let name_t = trim_seq(rec.name);
    if name_t.len() == 0 {
        (s, rc)
    } else {
        let key = lower_of(name_t);
        let owner = resolved_owner(rec.owner, users, caller);
        let created = resolved_created_at(rec.added_at, now);
        let rid = if rc.contains_key(key) {
            rc[key]
        } else {
            idr
        };
        let rc2 = if rc.contains_key(key) {
            rc
        } else {
            rc.insert(key, idr)
        };
        let rs2 = reagent_upsert_model(
            s.reagents,
            rid,
            name_t,
            reagent_fields_of(rec),
            owner,
            created,
            now,
        );
        let bs2 = if has_embedded_batch(rec) {
            batch_upsert_model(
                s.batches,
                idb,
                rid,
                trim_seq(rec.batch_number->0),
                None,
                rec.quantity_milli->0,
                rec.units->0,
                rec.expiry_date,
                rec.location,
                None,
                Some(caller),
                now,
            )
        } else {
            s.batches
        };
        (StoreModel { reagents: rs2, batches: bs2, equipment: s.equipment }, rc2)
    }
}

/// The effect of a whole reagent-import run: the rows folded in input
/// order, consuming one pair of minted identifiers per row.
pub open spec fn reagent_run(
    s: StoreModel,
    rc: Map<Seq<char>, Seq<char>>,
    users: Map<Seq<char>, Seq<char>>,
    recs: Seq<ReagentRowModel>,
    caller: Seq<char>,
    now: Seq<char>,
    ids: Seq<(Seq<char>, Seq<char>)>,
) -> (StoreModel, Map<Seq<char>, Seq<char>>)
    decreases recs.len(),
{
    if recs.len() == 0 {
        (s, rc)
    } else {
        let (s1, rc1) = reagent_row_step(s, rc, users, recs[0], caller, now, ids[0].0, ids[0].1);
        reagent_run(s1, rc1, users, recs.drop_first(), caller, now, ids.drop_first())
    }
}

proof fn lemma_reagent_run_snoc(
    s: StoreModel,
    rc: Map<Seq<char>, Seq<char>>,
    users: Map<Seq<char>, Seq<char>>,
    recs: Seq<ReagentRowModel>,
    caller: Seq<char>,
    now: Seq<char>,
    ids: Seq<(Seq<char>, Seq<char>)>,
    rec: ReagentRowModel,
    idp: (Seq<char>, Seq<char>),
)
    requires
        ids.len() == recs.len(),
    ensures
        reagent_run(s, rc, users, recs.push(rec), caller, now, ids.push(idp)) == ({
            let (s1, rc1) = reagent_run(s, rc, users, recs, caller, now, ids);
            reagent_row_step(s1, rc1, users, rec, caller, now, idp.0, idp.1)
        }),
    decreases recs.len(),
{
    if recs.len() == 0 {
        reveal_with_fuel(reagent_run, 3);
        assert(recs.push(rec).drop_first() =~= Seq::<ReagentRowModel>::empty());
        assert(ids.push(idp).drop_first() =~= Seq::<(Seq<char>, Seq<char>)>::empty());
        assert(recs.push(rec)[0] == rec);
        assert(ids.push(idp)[0] == idp);
        let st = reagent_row_step(s, rc, users, rec, caller, now, idp.0, idp.1);
        assert(reagent_run(s, rc, users, recs.push(rec), caller, now, ids.push(idp)) == st);
        assert(reagent_run(s, rc, users, recs, caller, now, ids) == (s, rc));
    } else {
        assert(recs.push(rec)[0] == recs[0]);
        assert(ids.push(idp)[0] == ids[0]);
        let st0 = reagent_row_step(s, rc, users, recs[0], caller, now, ids[0].0, ids[0].1);
        assert(recs.push(rec).drop_first() =~= recs.drop_first().push(rec));
        assert(ids.push(idp).drop_first() =~= ids.drop_first().push(idp));
        lemma_reagent_run_snoc(
            st0.0,
            st0.1,
            users,
            recs.drop_first(),
            caller,
            now,
            ids.drop_first(),
            rec,
            idp,
        );
    }
}

/// Imports a sequence of candidate reagent rows (with their embedded
/// batches) into the store, resolving identities through the run's
/// cache.  Rows are applied in input order; blank-name rows are silent
/// no-ops; every row counts as processed.  The run is exactly the
/// `reagent_run` fold of the input for some sequence of minted
/// identifiers, it keeps the store's uniqueness invariants, and it never
/// touches equipment or the owner cache.
#[verifier::rlimit(100)]
pub fn import_reagents_logic(
    store: &mut Store,
    cache: &mut IdentityCache,
    reagents: Vec<ReagentImportDto>,
    current_user_id: String,
    now: String,
) -> (count: usize)
    requires
        store_wf(old(store)@),
        cache_covers(old(store)@, cache_view(old(cache).reagents@)),
    ensures
        count == reagents@.len(),
        store_wf(final(store)@),
        cache_covers(final(store)@, cache_view(final(cache).reagents@)),
        final(cache).users@ == old(cache).users@,
        final(store)@.equipment == old(store)@.equipment,
        exists|ids: Seq<(Seq<char>, Seq<char>)>|
            #[trigger] reagent_run(
                old(store)@,
                cache_view(old(cache).reagents@),
                cache_view(old(cache).users@),
                reagent_views(reagents@),
                current_user_id@,
                now@,
                ids,
            ) == (final(store)@, cache_view(final(cache).reagents@)),
{
    let ghost recs = reagent_views(reagents@);
    let ghost users_v = cache_view(cache.users@);
    let ghost s0 = store@;
    let ghost rc0 = cache_view(cache.reagents@);
    let ghost mut ids: Seq<(Seq<char>, Seq<char>)> = Seq::empty();
    let n = reagents.len();
    proof {
        assert(recs.take(0) =~= Seq::<ReagentRowModel>::empty());
    }
    let mut i: usize = 0;
    while i < n
        invariant
            0 <= i <= n,
            n == reagents@.len(),
            recs == reagent_views(reagents@),
            ids.len() == i,
            users_v == cache_view(cache.users@),
            cache.users@ == old(cache).users@,
            store@.equipment == s0.equipment,
            store_wf(store@),
            cache_covers(store@, cache_view(cache.reagents@)),
            reagent_run(s0, rc0, users_v, recs.take(i as int), current_user_id@, now@, ids) == (
            store@,
            cache_view(cache.reagents@),
            ),
            s0 == old(store)@,
            rc0 == cache_view(old(cache).reagents@),
            users_v == cache_view(old(cache).users@),
        decreases n - i,
    {
        let ghost pre_s = store@;
        let ghost pre_rc = cache_view(cache.reagents@);
        proof {
            assert(recs[i as int] == reagents@[i as int]@);
        }
        let name_t = trim_str(reagents[i].name.as_str());
        if name_t.unicode_len() == 0 {
            proof {
                let idp = (Seq::<char>::empty(), Seq::<char>::empty());
                lemma_reagent_run_snoc(
                    s0,
                    rc0,
                    users_v,
                    recs.take(i as int),
                    current_user_id@,
                    now@,
                    ids,
                    recs[i as int],
                    idp,
                );
                assert(recs.take(i + 1) =~= recs.take(i as int).push(recs[i as int]));
                ids = ids.push(idp);
            }
            i = i + 1;
            continue;
        }
        let key = lowercase(name_t);
        let owner_id = match &reagents[i].owner {
            Some(o) => {
                let ok = normalize_key(o.as_str());
                match cache.users.get(ok.as_str()) {
                    Some(uid) => uid.clone(),
                    None => current_user_id.clone(),
                }
            },
            None => current_user_id.clone(),
        };
        proof {
            assert(owner_id@ == resolved_owner(recs[i as int].owner, users_v, current_user_id@));
        }
        let created_at_val = match &reagents[i].added_at {
            Some(a) => {
                if is_blank_str(a.as_str()) {
                    now.clone()
                } else {
                    a.clone()
                }
            },
            None => now.clone(),
        };
        let rid = match cache.reagents.get(key.as_str()) {
            Some(id) => id.clone(),
            None => {
                let new_id = fresh_id();
                cache.reagents.insert(key.clone(), new_id.clone());
                new_id
            },
        };
        let ghost idr = rid@;
        proof {
            if pre_rc.contains_key(key@) {
                assert(rid@ == pre_rc[key@]);
                assert(cache_view(cache.reagents@) =~= pre_rc);
            } else {
                assert(cache_view(cache.reagents@) =~= pre_rc.insert(key@, idr));
            }
        }
        let fields = ReagentFields {
            formula: clone_opt_str(&reagents[i].formula),
            cas_number: clone_opt_str(&reagents[i].cas_number),
            manufacturer: clone_opt_str(&reagents[i].manufacturer),
            description: clone_opt_str(&reagents[i].description),
            storage_conditions: clone_opt_str(&reagents[i].storage),
            appearance: clone_opt_str(&reagents[i].appearance),
            hazard_pictograms: clone_opt_str(&reagents[i].hazard_pictograms),
            molecular_weight_milli: reagents[i].molecular_weight_milli,
        };
        proof {
            assert(fields@ =~= reagent_fields_of(recs[i as int]));
        }
        let name_owned = name_t.to_owned();
        store.upsert_reagent(
            rid.clone(),
            name_owned,
            fields,
            owner_id,
            created_at_val,
            now.clone(),
        );
        proof {
            lemma_reagent_upsert_wf(
                pre_s.reagents,
                idr,
                trim_seq(recs[i as int].name),
                reagent_fields_of(recs[i as int]),
                resolved_owner(recs[i as int].owner, users_v, current_user_id@),
                resolved_created_at(recs[i as int].added_at, now@),
                now@,
            );
        }
        let do_batch = match (
            &reagents[i].batch_number,
            &reagents[i].quantity_milli,
            &reagents[i].units,
        ) {
            (Some(bn), Some(q), Some(_u)) => !is_blank_str(bn.as_str()) && *q > 0,
            _ => false,
        };
        proof {
            assert(do_batch == has_embedded_batch(recs[i as int]));
        }
        let ghost mut idb_v: Seq<char> = idr;
        if do_batch {
            let ghost pre_b = store@.batches;
            let bn = match &reagents[i].batch_number {
                Some(bn) => trim_str(bn.as_str()).to_owned(),
                None => String::new(),
            };
            let q = match reagents[i].quantity_milli {
                Some(q) => q,
                None => 0,
            };
            let unit = match &reagents[i].units {
                Some(u) => u.clone(),
                None => String::new(),
            };
            let idb = fresh_id();
            proof {
                idb_v = idb@;
            }
            store.upsert_batch(
                idb,
                rid.clone(),
                bn,
                None,
                q,
                unit,
                clone_opt_str(&reagents[i].expiry_date),
                clone_opt_str(&reagents[i].location),
                None,
                Some(current_user_id.clone()),
                now.clone(),
            );
            proof {
                lemma_batch_upsert_wf(
                    pre_b,
                    idb_v,
                    idr,
                    trim_seq(recs[i as int].batch_number->0),
                    None,
                    recs[i as int].quantity_milli->0,
                    recs[i as int].units->0,
                    recs[i as int].expiry_date,
                    recs[i as int].location,
                    None,
                    Some(current_user_id@),
                    now@,
                );
            }
        }
        proof {
            let step = reagent_row_step(
                pre_s,
                pre_rc,
                users_v,
                recs[i as int],
                current_user_id@,
                now@,
                idr,
                idb_v,
            );
            assert(store@ =~= step.0);
            assert(cache_view(cache.reagents@) =~= step.1);
            lemma_reagent_run_snoc(
                s0,
                rc0,
                users_v,
                recs.take(i as int),
                current_user_id@,
                now@,
                ids,
                recs[i as int],
                (idr, idb_v),
            );
            assert(recs.take(i + 1) =~= recs.take(i as int).push(recs[i as int]));
            ids = ids.push((idr, idb_v));
            lemma_trim_seq_clean(recs[i as int].name);
            let namev = trim_seq(recs[i as int].name);
            lemma_reagent_find_props(pre_s.reagents, key_seq(namev));
            assert(cache_covers(store@, cache_view(cache.reagents@))) by {
                assert forall|j: int|
                    0 <= j < store@.reagents.len() implies cache_view(
                    cache.reagents@,
                ).contains_key(key_seq(#[trigger] store@.reagents[j].name)) by {
                    match reagent_find(pre_s.reagents, key_seq(namev)) {
                        Some(k) => {
                            assert(store@.reagents[j].name == pre_s.reagents[j].name);
                        },
                        None => {
                            if j < pre_s.reagents.len() {
                                assert(store@.reagents[j].name == pre_s.reagents[j].name);
                            } else {
                                assert(store@.reagents[j].name == namev);
                                assert(key_seq(namev) == lower_of(namev));
                            }
                        },
                    }
                }
            }
        }
        i = i + 1;
    }
    proof {
        assert(recs.take(n as int) =~= recs);
    }
    n
}


/// The views of a vector of batch-import rows.
pub open spec fn batch_views(recs: Seq<BatchImportDto>) -> Seq<BatchRowModel> {
    recs.map_values(|r: BatchImportDto| r@)
}

/// The reagent row minted on the fly when a batch import names an
/// unknown reagent: name and lifecycle timestamps only.
pub open spec fn minimal_reagent(id: Seq<char>, name: Seq<char>, now: Seq<char>)
    -> crate::store::ReagentModel {
    crate::store::ReagentModel {
        id: id,
        name: name,
        formula: None,
        cas_number: None,
        manufacturer: None,
        description: None,
        storage_conditions: None,
        appearance: None,
        hazard_pictograms: None,
        molecular_weight_milli: None,
        status: "active"@,
        created_by: None,
        created_at: now,
        updated_at: now,
    }
}

/// The effect of one batch-import row on the store and the reagent
/// cache: rows with a blank batch number or reagent name are silent
/// no-ops; an unknown reagent is minted and cached; then the batch
/// upsert applies the additive-quantity policy.
pub open spec fn batch_row_step(
    s: StoreModel,
    rc: Map<Seq<char>, Seq<char>>,
    rec: BatchRowModel,
    now: Seq<char>,
    idr: Seq<char>,
    idb: Seq<char>,
) -> (StoreModel, Map<Seq<char>, Seq<char>>) {
    let bn_t = trim_seq(rec.batch_number);
    let rn_t = trim_seq(rec.reagent_name);
    if bn_t.len() == 0 || rn_t.len() == 0 {
        (s, rc)
    } else {
        let key = lower_of(rn_t);
        let rid = if rc.contains_key(key) {
            rc[key]
        } else {
            idr
        };
        let rc2 = if rc.contains_key(key) {
            rc
        } else {
            rc.insert(key, idr)
        };
        let rs2 = if rc.contains_key(key) {
            s.reagents
        } else {
            s.reagents.push(minimal_reagent(idr, rn_t, now))
        };
        let bs2 = batch_upsert_model(
            s.batches,
            idb,
            rid,
            bn_t,
            rec.supplier,
            rec.quantity_milli,
            rec.units,
            rec.expiration_date,
            rec.location,
            rec.notes,
            None,
            now,
        );
        (StoreModel { reagents: rs2, batches: bs2, equipment: s.equipment }, rc2)
    }
}

/// The effect of a whole batch-import run.
pub open spec fn batch_run(
    s: StoreModel,
    rc: Map<Seq<char>, Seq<char>>,
    recs: Seq<BatchRowModel>,
    now: Seq<char>,
    ids: Seq<(Seq<char>, Seq<char>)>,
) -> (StoreModel, Map<Seq<char>, Seq<char>>)
    decreases recs.len(),
{
    if recs.len() == 0 {
        (s, rc)
    } else {
        let (s1, rc1) = batch_row_step(s, rc, recs[0], now, ids[0].0, ids[0].1);
        batch_run(s1, rc1, recs.drop_first(), now, ids.drop_first())
    }
}

proof fn lemma_batch_run_snoc(
    s: StoreModel,
    rc: Map<Seq<char>, Seq<char>>,
    recs: Seq<BatchRowModel>,
    now: Seq<char>,
    ids: Seq<(Seq<char>, Seq<char>)>,
    rec: BatchRowModel,
    idp: (Seq<char>, Seq<char>),
)
    requires
        ids.len() == recs.len(),
    ensures
        batch_run(s, rc, recs.push(rec), now, ids.push(idp)) == ({
            let (s1, rc1) = batch_run(s, rc, recs, now, ids);
            batch_row_step(s1, rc1, rec, now, idp.0, idp.1)
        }),
    decreases recs.len(),
{
    if recs.len() == 0 {
        reveal_with_fuel(batch_run, 3);
        assert(recs.push(rec).drop_first() =~= Seq::<BatchRowModel>::empty());
        assert(ids.push(idp).drop_first() =~= Seq::<(Seq<char>, Seq<char>)>::empty());
        assert(recs.push(rec)[0] == rec);
        assert(ids.push(idp)[0] == idp);
    } else {
        assert(recs.push(rec)[0] == recs[0]);
        assert(ids.push(idp)[0] == ids[0]);
        let st0 = batch_row_step(s, rc, recs[0], now, ids[0].0, ids[0].1);
        assert(recs.push(rec).drop_first() =~= recs.drop_first().push(rec));
        assert(ids.push(idp).drop_first() =~= ids.drop_first().push(idp));
        lemma_batch_run_snoc(st0.0, st0.1, recs.drop_first(), now, ids.drop_first(), rec, idp);
    }
}

/// Imports a sequence of candidate batch rows into the store.  A row
/// whose batch number or reagent name is blank is a silent no-op; an
/// unknown reagent name mints a minimal reagent row that later rows of
/// the same run reuse through the cache; quantities merge additively on
/// a (reagent, batch number) conflict.  Every row counts as processed.
#[verifier::rlimit(100)]
pub fn import_batches_logic(
    store: &mut Store,
    cache: &mut IdentityCache,
    batches: Vec<BatchImportDto>,
    now: String,
) -> (count: usize)
    requires
        store_wf(old(store)@),
        cache_covers(old(store)@, cache_view(old(cache).reagents@)),
    ensures
        count == batches@.len(),
        store_wf(final(store)@),
        cache_covers(final(store)@, cache_view(final(cache).reagents@)),
        final(cache).users@ == old(cache).users@,
        final(store)@.equipment == old(store)@.equipment,
        exists|ids: Seq<(Seq<char>, Seq<char>)>|
            #[trigger] batch_run(
                old(store)@,
                cache_view(old(cache).reagents@),
                batch_views(batches@),
                now@,
                ids,
            ) == (final(store)@, cache_view(final(cache).reagents@)),
{
    let ghost recs = batch_views(batches@);
    let ghost s0 = store@;
    let ghost rc0 = cache_view(cache.reagents@);
    let ghost mut ids: Seq<(Seq<char>, Seq<char>)> = Seq::empty();
    let n = batches.len();
    proof {
        assert(recs.take(0) =~= Seq::<BatchRowModel>::empty());
    }
    let mut i: usize = 0;
    while i < n
        invariant
            0 <= i <= n,
            n == batches@.len(),
            recs == batch_views(batches@),
            ids.len() == i,
            cache.users@ == old(cache).users@,
            store@.equipment == s0.equipment,
            store_wf(store@),
            cache_covers(store@, cache_view(cache.reagents@)),
            batch_run(s0, rc0, recs.take(i as int), now@, ids) == (
            store@,
            cache_view(cache.reagents@),
            ),
            s0 == old(store)@,
            rc0 == cache_view(old(cache).reagents@),
        decreases n - i,
    {
        let ghost pre_s = store@;
        let ghost pre_rc = cache_view(cache.reagents@);
        proof {
            assert(recs[i as int] == batches@[i as int]@);
        }
        let bn_blank = is_blank_str(batches[i].batch_number.as_str());
        let rn_t = trim_str(batches[i].reagent_name.as_str());
        if bn_blank || rn_t.unicode_len() == 0 {
            proof {
                let idp = (Seq::<char>::empty(), Seq::<char>::empty());
                lemma_batch_run_snoc(s0, rc0, recs.take(i as int), now@, ids, recs[i as int], idp);
                assert(recs.take(i + 1) =~= recs.take(i as int).push(recs[i as int]));
                ids = ids.push(idp);
            }
            i = i + 1;
            continue;
        }
        let key = lowercase(rn_t);
        let ghost rn_tv = trim_seq(recs[i as int].reagent_name);
        proof {
            lemma_trim_seq_clean(recs[i as int].reagent_name);
        }
        let rid = match cache.reagents.get(key.as_str()) {
            Some(id) => id.clone(),
            None => {
                let new_id = fresh_id();
                let minted = crate::store::ReagentRecord {
                    id: new_id.clone(),
                    name: rn_t.to_owned(),
                    formula: None,
                    cas_number: None,
                    manufacturer: None,
                    description: None,
                    storage_conditions: None,
                    appearance: None,
                    hazard_pictograms: None,
                    molecular_weight_milli: None,
                    status: String::from_str("active"),
                    created_by: None,
                    created_at: now.clone(),
                    updated_at: now.clone(),
                };
                store.reagents.push(minted);
                cache.reagents.insert(key.clone(), new_id.clone());
                new_id
            },
        };
        let ghost idr = rid@;
        proof {
            if pre_rc.contains_key(key@) {
                assert(rid@ == pre_rc[key@]);
                assert(cache_view(cache.reagents@) =~= pre_rc);
                assert(store@.reagents =~= pre_s.reagents);
            } else {
                assert(cache_view(cache.reagents@) =~= pre_rc.insert(key@, idr));
                assert(store@.reagents =~= pre_s.reagents.push(minimal_reagent(idr, rn_tv, now@)));
                assert forall|a: int, b: int|
                    0 <= a < b < store@.reagents.len() implies key_seq(
                    #[trigger] store@.reagents[a].name,
                ) != key_seq(#[trigger] store@.reagents[b].name) by {
                    if b == pre_s.reagents.len() {
                        assert(store@.reagents[a] == pre_s.reagents[a]);
                        assert(key_seq(store@.reagents[b].name) == lower_of(rn_tv));
                    } else {
                        assert(store@.reagents[a] == pre_s.reagents[a]);
                        assert(store@.reagents[b] == pre_s.reagents[b]);
                    }
                }
            }
        }
        let ghost pre_b = store@.batches;
        let bn_owned = trim_str(batches[i].batch_number.as_str()).to_owned();
        let idb = fresh_id();
        let ghost idb_v = idb@;
        store.upsert_batch(
            idb,
            rid.clone(),
            bn_owned,
            clone_opt_str(&batches[i].supplier),
            batches[i].quantity_milli,
            batches[i].units.clone(),
            clone_opt_str(&batches[i].expiration_date),
            clone_opt_str(&batches[i].location),
            clone_opt_str(&batches[i].notes),
            None,
            now.clone(),
        );
        proof {
            lemma_batch_upsert_wf(
                pre_b,
                idb_v,
                idr,
                trim_seq(recs[i as int].batch_number),
                recs[i as int].supplier,
                recs[i as int].quantity_milli,
                recs[i as int].units,
                recs[i as int].expiration_date,
                recs[i as int].location,
                recs[i as int].notes,
                None,
                now@,
            );
            let step = batch_row_step(pre_s, pre_rc, recs[i as int], now@, idr, idb_v);
            assert(store@ =~= step.0);
            assert(cache_view(cache.reagents@) =~= step.1);
            lemma_batch_run_snoc(
                s0,
                rc0,
                recs.take(i as int),
                now@,
                ids,
                recs[i as int],
                (idr, idb_v),
            );
            assert(recs.take(i + 1) =~= recs.take(i as int).push(recs[i as int]));
            ids = ids.push((idr, idb_v));
            assert(cache_covers(store@, cache_view(cache.reagents@))) by {
                assert forall|j: int|
                    0 <= j < store@.reagents.len() implies cache_view(
                    cache.reagents@,
                ).contains_key(key_seq(#[trigger] store@.reagents[j].name)) by {
                    if j < pre_s.reagents.len() {
                        assert(store@.reagents[j].name == pre_s.reagents[j].name);
                    } else {
                        assert(store@.reagents[j].name == rn_tv);
                        assert(key_seq(rn_tv) == lower_of(rn_tv));
                    }
                }
            }
        }
        i = i + 1;
    }
    proof {
        assert(recs.take(n as int) =~= recs);
    }
    n
}

/// The views of a vector of equipment-import rows.
pub open spec fn equipment_views(recs: Seq<EquipmentImportDto>) -> Seq<EquipmentRowModel> {
    recs.map_values(|r: EquipmentImportDto| r@)
}

/// The fixed enumeration of recognized equipment types.
pub open spec fn is_valid_equipment_type(t: Seq<char>) -> bool {
    ||| t == "equipment"@
    ||| t == "labware"@
    ||| t == "instrument"@
    ||| t == "glassware"@
    ||| t == "safety"@
    ||| t == "storage"@
    ||| t == "consumable"@
    ||| t == "other"@
}

/// The normalized equipment type: the case-folded stated type when it is
/// one of the recognized ones, else "other".
pub open spec fn norm_equipment_type(t: Seq<char>) -> Seq<char> {
    if is_valid_equipment_type(lower_of(t)) {
        lower_of(t)
    } else {
        "other"@
    }
}

/// The case-folded stated type when recognized, else "other";
/// executable form.
pub fn normalize_equipment_type(t: &str) -> (r: String)
    ensures
        r@ == norm_equipment_type(t@),
{
    let f = lowercase(t);
    let valid = str_eq(f.as_str(), "equipment") || str_eq(f.as_str(), "labware") || str_eq(
        f.as_str(),
        "instrument",
    ) || str_eq(f.as_str(), "glassware") || str_eq(f.as_str(), "safety") || str_eq(
        f.as_str(),
        "storage",
    ) || str_eq(f.as_str(), "consumable") || str_eq(f.as_str(), "other");
    if valid {
        f
    } else {
        String::from_str("other")
    }
}

/// The effect of one equipment-import row on the store: blank-name rows
/// are silent no-ops; otherwise the serial-number upsert applies.
pub open spec fn equipment_row_step(
    s: StoreModel,
    rec: EquipmentRowModel,
    now: Seq<char>,
    ide: Seq<char>,
) -> StoreModel {
    let name_t = trim_seq(rec.name);
    if name_t.len() == 0 {
        s
    } else {
        StoreModel {
            equipment: equipment_upsert_model(
                s.equipment,
                ide,
                name_t,
                norm_equipment_type(rec.equipment_type),
                rec.serial_number,
                rec.manufacturer,
                rec.location,
                rec.description,
                now,
            ),
            ..s
        }
    }
}

/// The effect of a whole equipment-import run.
pub open spec fn equipment_run(
    s: StoreModel,
    recs: Seq<EquipmentRowModel>,
    now: Seq<char>,
    ids: Seq<Seq<char>>,
) -> StoreModel
    decreases recs.len(),
{
    if recs.len() == 0 {
        s
    } else {
        equipment_run(
            equipment_row_step(s, recs[0], now, ids[0]),
            recs.drop_first(),
            now,
            ids.drop_first(),
        )
    }
}

proof fn lemma_equipment_run_snoc(
    s: StoreModel,
    recs: Seq<EquipmentRowModel>,
    now: Seq<char>,
    ids: Seq<Seq<char>>,
    rec: EquipmentRowModel,
    idp: Seq<char>,
)
    requires
        ids.len() == recs.len(),
    ensures
        equipment_run(s, recs.push(rec), now, ids.push(idp)) == equipment_row_step(
            equipment_run(s, recs, now, ids),
            rec,
            now,
            idp,
        ),
    decreases recs.len(),
{
    if recs.len() == 0 {
        reveal_with_fuel(equipment_run, 3);
        assert(recs.push(rec).drop_first() =~= Seq::<EquipmentRowModel>::empty());
        assert(ids.push(idp).drop_first() =~= Seq::<Seq<char>>::empty());
        assert(recs.push(rec)[0] == rec);
        assert(ids.push(idp)[0] == idp);
    } else {
        assert(recs.push(rec)[0] == recs[0]);
        assert(ids.push(idp)[0] == ids[0]);
        let s1 = equipment_row_step(s, recs[0], now, ids[0]);
        assert(recs.push(rec).drop_first() =~= recs.drop_first().push(rec));
        assert(ids.push(idp).drop_first() =~= ids.drop_first().push(idp));
        lemma_equipment_run_snoc(s1, recs.drop_first(), now, ids.drop_first(), rec, idp);
    }
}

/// Imports a sequence of candidate equipment rows into the store.  Rows
/// with a blank name are silent no-ops; the stated type is normalized to
/// the fixed enumeration; a serial-number conflict updates only the name
/// and the update timestamp.  Every row counts as processed.
#[verifier::rlimit(100)]
pub fn import_equipment_logic(store: &mut Store, items: Vec<EquipmentImportDto>, now: String) -> (count: usize)
    requires
        store_wf(old(store)@),
    ensures
        count == items@.len(),
        store_wf(final(store)@),
        final(store)@.reagents == old(store)@.reagents,
        final(store)@.batches == old(store)@.batches,
        exists|ids: Seq<Seq<char>>|
            #[trigger] equipment_run(old(store)@, equipment_views(items@), now@, ids)
                == final(store)@,
{
    let ghost recs = equipment_views(items@);
    let ghost s0 = store@;
    let ghost mut ids: Seq<Seq<char>> = Seq::empty();
    let n = items.len();
    proof {
        assert(recs.take(0) =~= Seq::<EquipmentRowModel>::empty());
    }
    let mut i: usize = 0;
    while i < n
        invariant
            0 <= i <= n,
            n == items@.len(),
            recs == equipment_views(items@),
            ids.len() == i,
            store@.reagents == s0.reagents,
            store@.batches == s0.batches,
            store_wf(store@),
            equipment_run(s0, recs.take(i as int), now@, ids) == store@,
            s0 == old(store)@,
        decreases n - i,
    {
        let ghost pre_s = store@;
        proof {
            assert(recs[i as int] == items@[i as int]@);
        }
        let name_t = trim_str(items[i].name.as_str());
        if name_t.unicode_len() == 0 {
            proof {
                let idp = Seq::<char>::empty();
                lemma_equipment_run_snoc(s0, recs.take(i as int), now@, ids, recs[i as int], idp);
                assert(recs.take(i + 1) =~= recs.take(i as int).push(recs[i as int]));
                ids = ids.push(idp);
            }
            i = i + 1;
            continue;
        }
        let eq_type = normalize_equipment_type(items[i].equipment_type.as_str());
        let ide = fresh_id();
        let ghost ide_v = ide@;
        let ghost pre_e = store@.equipment;
        store.upsert_equipment(
            ide,
            name_t.to_owned(),
            eq_type,
            clone_opt_str(&items[i].serial_number),
            clone_opt_str(&items[i].manufacturer),
            clone_opt_str(&items[i].location),
            clone_opt_str(&items[i].description),
            now.clone(),
        );
        proof {
            lemma_equipment_upsert_wf(
                pre_e,
                ide_v,
                trim_seq(recs[i as int].name),
                norm_equipment_type(recs[i as int].equipment_type),
                recs[i as int].serial_number,
                recs[i as int].manufacturer,
                recs[i as int].location,
                recs[i as int].description,
                now@,
            );
            let step = equipment_row_step(pre_s, recs[i as int], now@, ide_v);
            assert(store@ =~= step);
            lemma_equipment_run_snoc(s0, recs.take(i as int), now@, ids, recs[i as int], ide_v);
            assert(recs.take(i + 1) =~= recs.take(i as int).push(recs[i as int]));
            ids = ids.push(ide_v);
        }
        i = i + 1;
    }
    proof {
        assert(recs.take(n as int) =~= recs);
    }
    n
}


/// A reagent row whose embedded batch data is not insertable — a
/// non-positive quantity or a blank batch number — never inserts a
/// batch, and still does not skip the containing reagent row: the
/// reagent upsert applies exactly as for a row without batch data.
pub proof fn lemma_unfit_batch_never_inserted(
    s: StoreModel,
    rc: Map<Seq<char>, Seq<char>>,
    users: Map<Seq<char>, Seq<char>>,
    rec: ReagentRowModel,
    caller: Seq<char>,
    now: Seq<char>,
    idr: Seq<char>,
    idb: Seq<char>,
)
    requires
        trim_seq(rec.name).len() > 0,
        !has_embedded_batch(rec),
    ensures
        ({
            let step = reagent_row_step(s, rc, users, rec, caller, now, idr, idb);
            &&& step.0.batches == s.batches
            &&& step.0.reagents == reagent_upsert_model(
                s.reagents,
                if rc.contains_key(lower_of(trim_seq(rec.name))) {
                    rc[lower_of(trim_seq(rec.name))]
                } else {
                    idr
                },
                trim_seq(rec.name),
                reagent_fields_of(rec),
                resolved_owner(rec.owner, users, caller),
                resolved_created_at(rec.added_at, now),
                now,
            )
        }),
{
}

/// Clones an optional string, preserving its view.
fn clone_opt_str(o: &Option<String>) -> (r: Option<String>)
    ensures
        opt_sv(r) == opt_sv(*o),
{
    match o {
        None => None,
        Some(s) => Some(s.clone()),
    }
}

} // verus!
