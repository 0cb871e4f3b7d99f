//! In-memory model of the persistent store.
//!
//! The pipeline reconciles candidate records against three entity sets —
//! reagents, batches, equipment — whose conflict-merge policies are the
//! heart of the import semantics.  Each upsert is specified by a model
//! function over the mathematical view of the store, so the policies are
//! stated once and hold for every run:
//!
//! * reagents conflict on the normalized name; existing non-null fields
//!   are preserved and only nulls are filled, per field;
//! * batches conflict on the (reagent identifier, batch number) pair;
//!   quantity and original quantity are additive, reserved quantity is
//!   never touched;
//! * equipment conflicts on the serial number when one is present; only
//!   the name and the update timestamp change.

use vstd::prelude::*;
use crate::dates::opt_sv;
use crate::text::{key_seq, normalize_key, str_eq};

verus! {

/// One stored reagent row.
pub struct ReagentRecord {
    pub id: String,
    pub name: String,
    pub formula: Option<String>,
    pub cas_number: Option<String>,
    pub manufacturer: Option<String>,
    pub description: Option<String>,
    pub storage_conditions: Option<String>,
    pub appearance: Option<String>,
    pub hazard_pictograms: Option<String>,
    pub molecular_weight_milli: Option<i64>,
    pub status: String,
    pub created_by: Option<String>,
    pub created_at: String,
    pub updated_at: String,
}

/// The mathematical view of a stored reagent row.
#[verifier::ext_equal]
pub ghost struct ReagentModel {
    pub id: Seq<char>,
    pub name: Seq<char>,
    pub formula: Option<Seq<char>>,
    pub cas_number: Option<Seq<char>>,
    pub manufacturer: Option<Seq<char>>,
    pub description: Option<Seq<char>>,
    pub storage_conditions: Option<Seq<char>>,
    pub appearance: Option<Seq<char>>,
    pub hazard_pictograms: Option<Seq<char>>,
    pub molecular_weight_milli: Option<int>,
    pub status: Seq<char>,
    pub created_by: Option<Seq<char>>,
    pub created_at: Seq<char>,
    pub updated_at: Seq<char>,
}

/// The view of an optional integer quantity.
pub open spec fn opt_iv(o: Option<i64>) -> Option<int> {
    match o {
        None => None,
        Some(v) => Some(v as int),
    }
}

impl View for ReagentRecord {
    type V = ReagentModel;

    open spec fn view(&self) -> ReagentModel {
        ReagentModel {
            id: self.id@,
            name: self.name@,
            formula: opt_sv(self.formula),
            cas_number: opt_sv(self.cas_number),
            manufacturer: opt_sv(self.manufacturer),
            description: opt_sv(self.description),
            storage_conditions: opt_sv(self.storage_conditions),
            appearance: opt_sv(self.appearance),
            hazard_pictograms: opt_sv(self.hazard_pictograms),
            molecular_weight_milli: opt_iv(self.molecular_weight_milli),
            status: self.status@,
            created_by: opt_sv(self.created_by),
            created_at: self.created_at@,
            updated_at: self.updated_at@,
        }
    }
}

/// One stored batch row.
pub struct BatchRecord {
    pub id: String,
    pub reagent_id: String,
    pub batch_number: String,
    pub supplier: Option<String>,
    pub quantity_milli: i64,
    pub original_quantity_milli: i64,
    pub reserved_quantity_milli: i64,
    pub unit: String,
    pub expiry_date: Option<String>,
    pub location: Option<String>,
    pub notes: Option<String>,
    pub status: String,
    pub received_date: String,
    pub created_by: Option<String>,
    pub updated_by: Option<String>,
    pub created_at: String,
    pub updated_at: String,
}

/// The mathematical view of a stored batch row.
#[verifier::ext_equal]
pub ghost struct BatchModel {
    pub id: Seq<char>,
    pub reagent_id: Seq<char>,
    pub batch_number: Seq<char>,
    pub supplier: Option<Seq<char>>,
    pub quantity_milli: int,
    pub original_quantity_milli: int,
    pub reserved_quantity_milli: int,
    pub unit: Seq<char>,
    pub expiry_date: Option<Seq<char>>,
    pub location: Option<Seq<char>>,
    pub notes: Option<Seq<char>>,
    pub status: Seq<char>,
    pub received_date: Seq<char>,
    pub created_by: Option<Seq<char>>,
    pub updated_by: Option<Seq<char>>,
    pub created_at: Seq<char>,
    pub updated_at: Seq<char>,
}

impl View for BatchRecord {
    type V = BatchModel;

    open spec fn view(&self) -> BatchModel {
        BatchModel {
            id: self.id@,
            reagent_id: self.reagent_id@,
            batch_number: self.batch_number@,
            supplier: opt_sv(self.supplier),
            quantity_milli: self.quantity_milli as int,
            original_quantity_milli: self.original_quantity_milli as int,
            reserved_quantity_milli: self.reserved_quantity_milli as int,
            unit: self.unit@,
            expiry_date: opt_sv(self.expiry_date),
            location: opt_sv(self.location),
            notes: opt_sv(self.notes),
            status: self.status@,
            received_date: self.received_date@,
            created_by: opt_sv(self.created_by),
            updated_by: opt_sv(self.updated_by),
            created_at: self.created_at@,
            updated_at: self.updated_at@,
        }
    }
}

/// One stored equipment row.
pub struct EquipmentRecord {
    pub id: String,
    pub name: String,
    pub type_: String,
    pub serial_number: Option<String>,
    pub manufacturer: Option<String>,
    pub location: Option<String>,
    pub description: Option<String>,
    pub status: String,
    pub created_at: String,
    pub updated_at: String,
}

/// The mathematical view of a stored equipment row.
#[verifier::ext_equal]
pub ghost struct EquipmentModel {
    pub id: Seq<char>,
    pub name: Seq<char>,
    pub type_: Seq<char>,
    pub serial_number: Option<Seq<char>>,
    pub manufacturer: Option<Seq<char>>,
    pub location: Option<Seq<char>>,
    pub description: Option<Seq<char>>,
    pub status: Seq<char>,
    pub created_at: Seq<char>,
    pub updated_at: Seq<char>,
}

impl View for EquipmentRecord {
    type V = EquipmentModel;

    open spec fn view(&self) -> EquipmentModel {
        EquipmentModel {
            id: self.id@,
            name: self.name@,
            type_: self.type_@,
            serial_number: opt_sv(self.serial_number),
            manufacturer: opt_sv(self.manufacturer),
            location: opt_sv(self.location),
            description: opt_sv(self.description),
            status: self.status@,
            created_at: self.created_at@,
            updated_at: self.updated_at@,
        }
    }
}

/// The store: the three entity sets the pipeline reconciles against.
pub struct Store {
    pub reagents: Vec<ReagentRecord>,
    pub batches: Vec<BatchRecord>,
    pub equipment: Vec<EquipmentRecord>,
}

/// The mathematical view of the store.
#[verifier::ext_equal]
pub ghost struct StoreModel {
    pub reagents: Seq<ReagentModel>,
    pub batches: Seq<BatchModel>,
    pub equipment: Seq<EquipmentModel>,
}

impl View for Store {
    type V = StoreModel;

    open spec fn view(&self) -> StoreModel {
        StoreModel {
            reagents: self.reagents@.map_values(|r: ReagentRecord| r@),
            batches: self.batches@.map_values(|b: BatchRecord| b@),
            equipment: self.equipment@.map_values(|e: EquipmentRecord| e@),
        }
    }
}

/// Uniqueness invariants of the store: one reagent per normalized name,
/// one batch per (reagent identifier, batch number) pair, one equipment
/// row per present serial number.
pub open spec fn store_wf(s: StoreModel) -> bool {
    &&& forall|i: int, j: int|
        0 <= i < j < s.reagents.len() ==> key_seq(#[trigger] s.reagents[i].name) != key_seq(
            #[trigger] s.reagents[j].name,
        )
    &&& forall|i: int, j: int|
        0 <= i < j < s.batches.len() ==> !((#[trigger] s.batches[i]).reagent_id == (
        #[trigger] s.batches[j]).reagent_id && s.batches[i].batch_number
            == s.batches[j].batch_number)
    &&& forall|i: int, j: int|
        0 <= i < j < s.equipment.len() ==> !((#[trigger] s.equipment[i]).serial_number is Some && (
        #[trigger] s.equipment[j]).serial_number is Some && s.equipment[i].serial_number
            == s.equipment[j].serial_number)
}

/// The index of the first reagent whose normalized name is `key`.
pub open spec fn reagent_find(rs: Seq<ReagentModel>, key: Seq<char>) -> Option<int>
    decreases rs.len(),
{
    if rs.len() == 0 {
        None
    } else if key_seq(rs[0].name) == key {
        Some(0)
    } else {
        match reagent_find(rs.drop_first(), key) {
            None => None,
            Some(i) => Some(i + 1),
        }
    }
}

/// The index of the first batch for the given reagent and batch number.
pub open spec fn batch_find(bs: Seq<BatchModel>, rid: Seq<char>, bn: Seq<char>) -> Option<int>
    decreases bs.len(),
{
    if bs.len() == 0 {
        None
    } else if bs[0].reagent_id == rid && bs[0].batch_number == bn {
        Some(0)
    } else {
        match batch_find(bs.drop_first(), rid, bn) {
            None => None,
            Some(i) => Some(i + 1),
        }
    }
}

/// The index of the first equipment row with the given present serial number.
pub open spec fn equipment_find(es: Seq<EquipmentModel>, serial: Seq<char>) -> Option<int>
    decreases es.len(),
{
    if es.len() == 0 {
        None
    } else if es[0].serial_number == Some(serial) {
        Some(0)
    } else {
        match equipment_find(es.drop_first(), serial) {
            None => None,
            Some(i) => Some(i + 1),
        }
    }
}

pub proof fn lemma_reagent_find_props(rs: Seq<ReagentModel>, key: Seq<char>)
    ensures
        match reagent_find(rs, key) {
            Some(i) => 0 <= i < rs.len() && key_seq(rs[i].name) == key && forall|j: int|
                0 <= j < i ==> key_seq(#[trigger] rs[j].name) != key,
            None => forall|j: int| 0 <= j < rs.len() ==> key_seq(#[trigger] rs[j].name) != key,
        },
    decreases rs.len(),
{
    if rs.len() > 0 && key_seq(rs[0].name) != key {
        let t = rs.drop_first();
        lemma_reagent_find_props(t, key);
        match reagent_find(t, key) {
            Some(i) => {
                assert(rs[i + 1] == t[i]);
                assert forall|j: int| 0 <= j < i + 1 implies key_seq(#[trigger] rs[j].name)
                    != key by {
                    if j > 0 {
                        assert(rs[j] == t[j - 1]);
                    }
                }
            },
            None => {
                assert forall|j: int| 0 <= j < rs.len() implies key_seq(#[trigger] rs[j].name)
                    != key by {
                    if j > 0 {
                        assert(rs[j] == t[j - 1]);
                    }
                }
            },
        }
    }
}

pub proof fn lemma_batch_find_props(bs: Seq<BatchModel>, rid: Seq<char>, bn: Seq<char>)
    ensures
        match batch_find(bs, rid, bn) {
            Some(i) => 0 <= i < bs.len() && bs[i].reagent_id == rid && bs[i].batch_number == bn
                && forall|j: int|
                0 <= j < i ==> !((#[trigger] bs[j]).reagent_id == rid && bs[j].batch_number == bn),
            None => forall|j: int|
                0 <= j < bs.len() ==> !((#[trigger] bs[j]).reagent_id == rid && bs[j].batch_number
                    == bn),
        },
    decreases bs.len(),
{
    if bs.len() > 0 && !(bs[0].reagent_id == rid && bs[0].batch_number == bn) {
        let t = bs.drop_first();
        lemma_batch_find_props(t, rid, bn);
        match batch_find(t, rid, bn) {
            Some(i) => {
                assert(bs[i + 1] == t[i]);
                assert forall|j: int|
                    0 <= j < i + 1 implies !((#[trigger] bs[j]).reagent_id == rid
                    && bs[j].batch_number == bn) by {
                    if j > 0 {
                        assert(bs[j] == t[j - 1]);
                    }
                }
            },
            None => {
                assert forall|j: int|
                    0 <= j < bs.len() implies !((#[trigger] bs[j]).reagent_id == rid
                    && bs[j].batch_number == bn) by {
                    if j > 0 {
                        assert(bs[j] == t[j - 1]);
                    }
                }
            },
        }
    }
}

pub proof fn lemma_equipment_find_props(es: Seq<EquipmentModel>, serial: Seq<char>)
    ensures
        match equipment_find(es, serial) {
            Some(i) => 0 <= i < es.len() && es[i].serial_number == Some(serial) && forall|j: int|
                0 <= j < i ==> (#[trigger] es[j]).serial_number != Some(serial),
            None => forall|j: int|
                0 <= j < es.len() ==> (#[trigger] es[j]).serial_number != Some(serial),
        },
    decreases es.len(),
{
    if es.len() > 0 && es[0].serial_number != Some(serial) {
        let t = es.drop_first();
        lemma_equipment_find_props(t, serial);
        match equipment_find(t, serial) {
            Some(i) => {
                assert(es[i + 1] == t[i]);
                assert forall|j: int|
                    0 <= j < i + 1 implies (#[trigger] es[j]).serial_number != Some(serial) by {
                    if j > 0 {
                        assert(es[j] == t[j - 1]);
                    }
                }
            },
            None => {
                assert forall|j: int|
                    0 <= j < es.len() implies (#[trigger] es[j]).serial_number != Some(serial) by {
                    if j > 0 {
                        assert(es[j] == t[j - 1]);
                    }
                }
            },
        }
    }
}

/// A field fill that never destroys: the existing value wins, only a
/// null is filled by the proposed value.
pub open spec fn filled<T>(existing: Option<T>, proposed: Option<T>) -> Option<T> {
    if existing is Some {
        existing
    } else {
        proposed
    }
}

/// Addition capped at the machine limits.
pub open spec fn sat_add_milli(a: int, b: int) -> int {
    if a + b > i64::MAX {
        i64::MAX as int
    } else if a + b < i64::MIN {
        i64::MIN as int
    } else {
        a + b
    }
}

/// The descriptive fields a reagent import proposes.
pub struct ReagentFields {
    pub formula: Option<String>,
    pub cas_number: Option<String>,
    pub manufacturer: Option<String>,
    pub description: Option<String>,
    pub storage_conditions: Option<String>,
    pub appearance: Option<String>,
    pub hazard_pictograms: Option<String>,
    pub molecular_weight_milli: Option<i64>,
}

/// The view of proposed reagent fields.
#[verifier::ext_equal]
pub ghost struct ReagentFieldsModel {
    pub formula: Option<Seq<char>>,
    pub cas_number: Option<Seq<char>>,
    pub manufacturer: Option<Seq<char>>,
    pub description: Option<Seq<char>>,
    pub storage_conditions: Option<Seq<char>>,
    pub appearance: Option<Seq<char>>,
    pub hazard_pictograms: Option<Seq<char>>,
    pub molecular_weight_milli: Option<int>,
}

impl View for ReagentFields {
    type V = ReagentFieldsModel;

    open spec fn view(&self) -> ReagentFieldsModel {
        ReagentFieldsModel {
            formula: opt_sv(self.formula),
            cas_number: opt_sv(self.cas_number),
            manufacturer: opt_sv(self.manufacturer),
            description: opt_sv(self.description),
            storage_conditions: opt_sv(self.storage_conditions),
            appearance: opt_sv(self.appearance),
            hazard_pictograms: opt_sv(self.hazard_pictograms),
            molecular_weight_milli: opt_iv(self.molecular_weight_milli),
        }
    }
}

/// The merge applied to an existing reagent on a repeat sighting:
/// existing non-null fields are preserved, nulls are filled from the
/// proposal, and only the update timestamp moves.  Identifier, name,
/// owner and creation data stay as they were.
pub open spec fn merged_reagent(r: ReagentModel, f: ReagentFieldsModel, now: Seq<char>)
    -> ReagentModel {
    ReagentModel {
        id: r.id,
        name: r.name,
        formula: filled(r.formula, f.formula),
        cas_number: filled(r.cas_number, f.cas_number),
        manufacturer: filled(r.manufacturer, f.manufacturer),
        description: filled(r.description, f.description),
        storage_conditions: filled(r.storage_conditions, f.storage_conditions),
        appearance: filled(r.appearance, f.appearance),
        hazard_pictograms: filled(r.hazard_pictograms, f.hazard_pictograms),
        molecular_weight_milli: filled(r.molecular_weight_milli, f.molecular_weight_milli),
        status: r.status,
        created_by: r.created_by,
        created_at: r.created_at,
        updated_at: now,
    }
}

/// A freshly inserted reagent row.
pub open spec fn fresh_reagent(
    id: Seq<char>,
    name: Seq<char>,
    f: ReagentFieldsModel,
    owner: Seq<char>,
    created_at: Seq<char>,
    now: Seq<char>,
) -> ReagentModel {
    ReagentModel {
        id: id,
        name: name,
        formula: f.formula,
        cas_number: f.cas_number,
        manufacturer: f.manufacturer,
        description: f.description,
        storage_conditions: f.storage_conditions,
        appearance: f.appearance,
        hazard_pictograms: f.hazard_pictograms,
        molecular_weight_milli: f.molecular_weight_milli,
        status: "active"@,
        created_by: Some(owner),
        created_at: created_at,
        updated_at: now,
    }
}

/// The reagent upsert: insert a fresh row, or on a normalized-name
/// conflict apply the non-destructive merge.
pub open spec fn reagent_upsert_model(
    rs: Seq<ReagentModel>,
    id: Seq<char>,
    name: Seq<char>,
    f: ReagentFieldsModel,
    owner: Seq<char>,
    created_at: Seq<char>,
    now: Seq<char>,
) -> Seq<ReagentModel> {
    match reagent_find(rs, key_seq(name)) {
        Some(i) => rs.update(i, merged_reagent(rs[i], f, now)),
        None => rs.push(fresh_reagent(id, name, f, owner, created_at, now)),
    }
}

/// A freshly inserted batch row.
pub open spec fn fresh_batch(
    id: Seq<char>,
    rid: Seq<char>,
    bn: Seq<char>,
    supplier: Option<Seq<char>>,
    q: int,
    unit: Seq<char>,
    expiry: Option<Seq<char>>,
    location: Option<Seq<char>>,
    notes: Option<Seq<char>>,
    by: Option<Seq<char>>,
    now: Seq<char>,
) -> BatchModel {
    BatchModel {
        id: id,
        reagent_id: rid,
        batch_number: bn,
        supplier: supplier,
        quantity_milli: q,
        original_quantity_milli: q,
        reserved_quantity_milli: 0,
        unit: unit,
        expiry_date: expiry,
        location: location,
        notes: notes,
        status: "available"@,
        received_date: now,
        created_by: by,
        updated_by: by,
        created_at: now,
        updated_at: now,
    }
}

/// The batch upsert: insert a fresh row, or on a (reagent, batch number)
/// conflict add the proposed quantity to the stored quantity and original
/// quantity, touching nothing else — in particular never the reserved
/// quantity.
pub open spec fn batch_upsert_model(
    bs: Seq<BatchModel>,
    id: Seq<char>,
    rid: Seq<char>,
    bn: Seq<char>,
    supplier: Option<Seq<char>>,
    q: int,
    unit: Seq<char>,
    expiry: Option<Seq<char>>,
    location: Option<Seq<char>>,
    notes: Option<Seq<char>>,
    by: Option<Seq<char>>,
    now: Seq<char>,
) -> Seq<BatchModel> {
    match batch_find(bs, rid, bn) {
        Some(i) => bs.update(
            i,
            BatchModel {
                quantity_milli: sat_add_milli(bs[i].quantity_milli, q),
                original_quantity_milli: sat_add_milli(bs[i].original_quantity_milli, q),
                ..bs[i]
            },
        ),
        None => bs.push(fresh_batch(id, rid, bn, supplier, q, unit, expiry, location, notes, by, now)),
    }
}

/// The equipment upsert: insert a fresh row, or on a serial-number
/// conflict update only the name and the update timestamp.  Rows without
/// a serial number never conflict.
pub open spec fn equipment_upsert_model(
    es: Seq<EquipmentModel>,
    id: Seq<char>,
    name: Seq<char>,
    type_: Seq<char>,
    serial: Option<Seq<char>>,
    manufacturer: Option<Seq<char>>,
    location: Option<Seq<char>>,
    description: Option<Seq<char>>,
    now: Seq<char>,
) -> Seq<EquipmentModel> {
    let conflict = match serial {
        Some(sn) => equipment_find(es, sn),
        None => None,
    };
    match conflict {
        Some(i) => es.update(i, EquipmentModel { name: name, updated_at: now, ..es[i] }),
        None => es.push(
            EquipmentModel {
                id: id,
                name: name,
                type_: type_,
                serial_number: serial,
                manufacturer: manufacturer,
                location: location,
                description: description,
                status: "available"@,
                created_at: now,
                updated_at: now,
            },
        ),
    }
}


/// Clones an optional string, preserving its view.
fn clone_opt(o: &Option<String>) -> (r: Option<String>)
    ensures
        opt_sv(r) == opt_sv(*o),
{
    match o {
        None => None,
        Some(s) => Some(s.clone()),
    }
}

/// The non-destructive fill of one optional string field.
fn fill_opt(existing: &Option<String>, proposed: Option<String>) -> (r: Option<String>)
    ensures
        opt_sv(r) == filled(opt_sv(*existing), opt_sv(proposed)),
{
    match existing {
        Some(e) => Some(e.clone()),
        None => proposed,
    }
}

/// Addition of quantities, saturating at the machine limits.
fn sat_add_exec(a: i64, b: i64) -> (r: i64)
    ensures
        r as int == sat_add_milli(a as int, b as int),
{
    let sum: i128 = a as i128 + b as i128;
    if sum > i64::MAX as i128 {
        i64::MAX
    } else if sum < i64::MIN as i128 {
        i64::MIN
    } else {
        sum as i64
    }
}

impl Store {
    /// An empty store.
    pub fn new() -> (r: Store)
        ensures
            r@.reagents.len() == 0,
            r@.batches.len() == 0,
            r@.equipment.len() == 0,
    {
        Store { reagents: Vec::new(), batches: Vec::new(), equipment: Vec::new() }
    }

    /// The index of the reagent whose normalized name matches `key`,
    /// as the model's find does.
    fn find_reagent_index(&self, key: &str) -> (r: Option<usize>)
        ensures
            match r {
                Some(i) => reagent_find(self@.reagents, key@) == Some(i as int),
                None => reagent_find(self@.reagents, key@) is None,
            },
    {
        let n = self.reagents.len();
        let mut i: usize = 0;
        while i < n
            invariant
                0 <= i <= n,
                n == self.reagents.len(),
                forall|j: int|
                    0 <= j < i ==> key_seq(#[trigger] self@.reagents[j].name) != key@,
            decreases n - i,
        {
            let rk = normalize_key(self.reagents[i].name.as_str());
            proof {
                assert(self@.reagents[i as int] == self.reagents@[i as int]@);
            }
            if str_eq(rk.as_str(), key) {
                proof {
                    assert(key_seq(self@.reagents[i as int].name) == key@);
                    lemma_reagent_find_props(self@.reagents, key@);
                    match reagent_find(self@.reagents, key@) {
                        Some(ip) => {
                            assert(key_seq(self@.reagents[ip].name) == key@);
                            assert(!(ip < i as int));
                            assert(!(ip > i as int));
                        },
                        None => {
                            assert(false);
                        },
                    }
                }
                return Some(i);
            }
            i = i + 1;
        }
        proof {
            lemma_reagent_find_props(self@.reagents, key@);
        }
        None
    }

    /// Reagent upsert: insert, or merge non-destructively on a
    /// normalized-name conflict.  Touches neither batches nor equipment.
    pub fn upsert_reagent(
        &mut self,
        id: String,
        name: String,
        fields: ReagentFields,
        owner_id: String,
        created_at: String,
        now: String,
    )
        ensures
            final(self)@.reagents == reagent_upsert_model(
                old(self)@.reagents,
                id@,
                name@,
                fields@,
                owner_id@,
                created_at@,
                now@,
            ),
            final(self)@.batches == old(self)@.batches,
            final(self)@.equipment == old(self)@.equipment,
    {
        let key = normalize_key(name.as_str());
        match self.find_reagent_index(key.as_str()) {
            Some(i) => {
                proof {
                    lemma_reagent_find_props(old(self)@.reagents, key@);
                }
                let merged = {
                    let r = &self.reagents[i];
                    ReagentRecord {
                        id: r.id.clone(),
                        name: r.name.clone(),
                        formula: fill_opt(&r.formula, fields.formula),
                        cas_number: fill_opt(&r.cas_number, fields.cas_number),
                        manufacturer: fill_opt(&r.manufacturer, fields.manufacturer),
                        description: fill_opt(&r.description, fields.description),
                        storage_conditions: fill_opt(
                            &r.storage_conditions,
                            fields.storage_conditions,
                        ),
                        appearance: fill_opt(&r.appearance, fields.appearance),
                        hazard_pictograms: fill_opt(&r.hazard_pictograms, fields.hazard_pictograms),
                        molecular_weight_milli: match r.molecular_weight_milli {
                            Some(w) => Some(w),
                            None => fields.molecular_weight_milli,
                        },
                        status: r.status.clone(),
                        created_by: clone_opt(&r.created_by),
                        created_at: r.created_at.clone(),
                        updated_at: now,
                    }
                };
                self.reagents.set(i, merged);
                proof {
                    assert(final(self)@.reagents =~= reagent_upsert_model(
                        old(self)@.reagents,
                        id@,
                        name@,
                        fields@,
                        owner_id@,
                        created_at@,
                        now@,
                    ));
                }
            },
            None => {
                let fresh = ReagentRecord {
                    id: id,
                    name: name,
                    formula: fields.formula,
                    cas_number: fields.cas_number,
                    manufacturer: fields.manufacturer,
                    description: fields.description,
                    storage_conditions: fields.storage_conditions,
                    appearance: fields.appearance,
                    hazard_pictograms: fields.hazard_pictograms,
                    molecular_weight_milli: fields.molecular_weight_milli,
                    status: String::from_str("active"),
                    created_by: Some(owner_id),
                    created_at: created_at,
                    updated_at: now,
                };
                self.reagents.push(fresh);
                proof {
                    assert(final(self)@.reagents =~= reagent_upsert_model(
                        old(self)@.reagents,
                        id@,
                        name@,
                        fields@,
                        owner_id@,
                        created_at@,
                        now@,
                    ));
                }
            },
        }
        proof {
            assert(final(self)@.batches =~= old(self)@.batches);
            assert(final(self)@.equipment =~= old(self)@.equipment);
        }
    }

    /// The index of the batch with the given reagent identifier and
    /// batch number, as the model's find does.
    fn find_batch_index(&self, rid: &str, bn: &str) -> (r: Option<usize>)
        ensures
            match r {
                Some(i) => batch_find(self@.batches, rid@, bn@) == Some(i as int),
                None => batch_find(self@.batches, rid@, bn@) is None,
            },
    {
        let n = self.batches.len();
        let mut i: usize = 0;
        while i < n
            invariant
                0 <= i <= n,
                n == self.batches.len(),
                forall|j: int|
                    0 <= j < i ==> !((#[trigger] self@.batches[j]).reagent_id == rid@
                        && self@.batches[j].batch_number == bn@),
            decreases n - i,
        {
            proof {
                assert(self@.batches[i as int] == self.batches@[i as int]@);
            }
            if str_eq(self.batches[i].reagent_id.as_str(), rid) && str_eq(
                self.batches[i].batch_number.as_str(),
                bn,
            ) {
                proof {
                    lemma_batch_find_props(self@.batches, rid@, bn@);
                    match batch_find(self@.batches, rid@, bn@) {
                        Some(ip) => {
                            assert((self@.batches[ip]).reagent_id == rid@);
                            assert(!(ip < i as int));
                            assert(!(ip > i as int));
                        },
                        None => {
                            assert(false);
                        },
                    }
                }
                return Some(i);
            }
            i = i + 1;
        }
        proof {
            lemma_batch_find_props(self@.batches, rid@, bn@);
        }
        None
    }

    /// Batch upsert: insert, or on a (reagent, batch number) conflict add
    /// the proposed quantity to the stored quantity and original quantity,
    /// leaving every other field — the reserved quantity above all —
    /// untouched.  Touches neither reagents nor equipment.
    pub fn upsert_batch(
        &mut self,
        id: String,
        reagent_id: String,
        batch_number: String,
        supplier: Option<String>,
        quantity_milli: i64,
        unit: String,
        expiry_date: Option<String>,
        location: Option<String>,
        notes: Option<String>,
        by: Option<String>,
        now: String,
    )
        ensures
            final(self)@.batches == batch_upsert_model(
                old(self)@.batches,
                id@,
                reagent_id@,
                batch_number@,
                opt_sv(supplier),
                quantity_milli as int,
                unit@,
                opt_sv(expiry_date),
                opt_sv(location),
                opt_sv(notes),
                opt_sv(by),
                now@,
            ),
            final(self)@.reagents == old(self)@.reagents,
            final(self)@.equipment == old(self)@.equipment,
    {
        match self.find_batch_index(reagent_id.as_str(), batch_number.as_str()) {
            Some(i) => {
                proof {
                    lemma_batch_find_props(old(self)@.batches, reagent_id@, batch_number@);
                }
                let merged = {
                    let b = &self.batches[i];
                    BatchRecord {
                        id: b.id.clone(),
                        reagent_id: b.reagent_id.clone(),
                        batch_number: b.batch_number.clone(),
                        supplier: clone_opt(&b.supplier),
                        quantity_milli: sat_add_exec(b.quantity_milli, quantity_milli),
                        original_quantity_milli: sat_add_exec(
                            b.original_quantity_milli,
                            quantity_milli,
                        ),
                        reserved_quantity_milli: b.reserved_quantity_milli,
                        unit: b.unit.clone(),
                        expiry_date: clone_opt(&b.expiry_date),
                        location: clone_opt(&b.location),
                        notes: clone_opt(&b.notes),
                        status: b.status.clone(),
                        received_date: b.received_date.clone(),
                        created_by: clone_opt(&b.created_by),
                        updated_by: clone_opt(&b.updated_by),
                        created_at: b.created_at.clone(),
                        updated_at: b.updated_at.clone(),
                    }
                };
                self.batches.set(i, merged);
                proof {
                    assert(final(self)@.batches =~= batch_upsert_model(
                        old(self)@.batches,
                        id@,
                        reagent_id@,
                        batch_number@,
                        opt_sv(supplier),
                        quantity_milli as int,
                        unit@,
                        opt_sv(expiry_date),
                        opt_sv(location),
                        opt_sv(notes),
                        opt_sv(by),
                        now@,
                    ));
                }
            },
            None => {
                let fresh = BatchRecord {
                    id: id,
                    reagent_id: reagent_id,
                    batch_number: batch_number,
                    supplier: supplier,
                    quantity_milli: quantity_milli,
                    original_quantity_milli: quantity_milli,
                    reserved_quantity_milli: 0,
                    unit: unit,
                    expiry_date: expiry_date,
                    location: location,
                    notes: notes,
                    status: String::from_str("available"),
                    received_date: now.clone(),
                    created_by: clone_opt(&by),
                    updated_by: by,
                    created_at: now.clone(),
                    updated_at: now,
                };
                self.batches.push(fresh);
                proof {
                    assert(final(self)@.batches =~= batch_upsert_model(
                        old(self)@.batches,
                        id@,
                        reagent_id@,
                        batch_number@,
                        opt_sv(supplier),
                        quantity_milli as int,
                        unit@,
                        opt_sv(expiry_date),
                        opt_sv(location),
                        opt_sv(notes),
                        opt_sv(by),
                        now@,
                    ));
                }
            },
        }
        proof {
            assert(final(self)@.reagents =~= old(self)@.reagents);
            assert(final(self)@.equipment =~= old(self)@.equipment);
        }
    }

    /// The index of the equipment row with the given present serial
    /// number, as the model's find does.
    fn find_equipment_index(&self, serial: &str) -> (r: Option<usize>)
        ensures
            match r {
                Some(i) => equipment_find(self@.equipment, serial@) == Some(i as int),
                None => equipment_find(self@.equipment, serial@) is None,
            },
    {
        let n = self.equipment.len();
        let mut i: usize = 0;
        while i < n
            invariant
                0 <= i <= n,
                n == self.equipment.len(),
                forall|j: int|
                    0 <= j < i ==> (#[trigger] self@.equipment[j]).serial_number != Some(serial@),
            decreases n - i,
        {
            proof {
                assert(self@.equipment[i as int] == self.equipment@[i as int]@);
            }
            let hit = match &self.equipment[i].serial_number {
                Some(sn) => str_eq(sn.as_str(), serial),
                None => false,
            };
            if hit {
                proof {
                    lemma_equipment_find_props(self@.equipment, serial@);
                    match equipment_find(self@.equipment, serial@) {
                        Some(ip) => {
                            assert((self@.equipment[ip]).serial_number == Some(serial@));
                            assert(!(ip < i as int));
                            assert(!(ip > i as int));
                        },
                        None => {
                            assert(false);
                        },
                    }
                }
                return Some(i);
            }
            i = i + 1;
        }
        proof {
            lemma_equipment_find_props(self@.equipment, serial@);
        }
        None
    }

    /// Equipment upsert: insert, or on a serial-number conflict update
    /// only the name and the update timestamp.  Rows without a serial
    /// number are always inserted.  Touches neither reagents nor batches.
    pub fn upsert_equipment(
        &mut self,
        id: String,
        name: String,
        type_: String,
        serial_number: Option<String>,
        manufacturer: Option<String>,
        location: Option<String>,
        description: Option<String>,
        now: String,
    )
        ensures
            final(self)@.equipment == equipment_upsert_model(
                old(self)@.equipment,
                id@,
                name@,
                type_@,
                opt_sv(serial_number),
                opt_sv(manufacturer),
                opt_sv(location),
                opt_sv(description),
                now@,
            ),
            final(self)@.reagents == old(self)@.reagents,
            final(self)@.batches == old(self)@.batches,
    {
        let conflict = match &serial_number {
            Some(sn) => self.find_equipment_index(sn.as_str()),
            None => None,
        };
        match conflict {
            Some(i) => {
                proof {
                    match opt_sv(serial_number) {
                        Some(sn) => lemma_equipment_find_props(old(self)@.equipment, sn),
                        None => assert(false),
                    }
                }
                let merged = {
                    let e = &self.equipment[i];
                    EquipmentRecord {
                        id: e.id.clone(),
                        name: name,
                        type_: e.type_.clone(),
                        serial_number: clone_opt(&e.serial_number),
                        manufacturer: clone_opt(&e.manufacturer),
                        location: clone_opt(&e.location),
                        description: clone_opt(&e.description),
                        status: e.status.clone(),
                        created_at: e.created_at.clone(),
                        updated_at: now,
                    }
                };
                self.equipment.set(i, merged);
                proof {
                    assert(final(self)@.equipment =~= equipment_upsert_model(
                        old(self)@.equipment,
                        id@,
                        name@,
                        type_@,
                        opt_sv(serial_number),
                        opt_sv(manufacturer),
                        opt_sv(location),
                        opt_sv(description),
                        now@,
                    ));
                }
            },
            None => {
                let fresh = EquipmentRecord {
                    id: id,
                    name: name,
                    type_: type_,
                    serial_number: serial_number,
                    manufacturer: manufacturer,
                    location: location,
                    description: description,
                    status: String::from_str("available"),
                    created_at: now.clone(),
                    updated_at: now,
                };
                self.equipment.push(fresh);
                proof {
                    assert(final(self)@.equipment =~= equipment_upsert_model(
                        old(self)@.equipment,
                        id@,
                        name@,
                        type_@,
                        opt_sv(serial_number),
                        opt_sv(manufacturer),
                        opt_sv(location),
                        opt_sv(description),
                        now@,
                    ));
                }
            },
        }
        proof {
            assert(final(self)@.reagents =~= old(self)@.reagents);
            assert(final(self)@.batches =~= old(self)@.batches);
        }
    }
}


/// The reagent upsert keeps normalized names unique.
pub proof fn lemma_reagent_upsert_wf(
    rs: Seq<ReagentModel>,
    id: Seq<char>,
    name: Seq<char>,
    f: ReagentFieldsModel,
    owner: Seq<char>,
    created_at: Seq<char>,
    now: Seq<char>,
)
    requires
        forall|i: int, j: int|
            0 <= i < j < rs.len() ==> key_seq(#[trigger] rs[i].name) != key_seq(
                #[trigger] rs[j].name,
            ),
    ensures
        ({
            let res = reagent_upsert_model(rs, id, name, f, owner, created_at, now);
            forall|i: int, j: int|
                0 <= i < j < res.len() ==> key_seq(#[trigger] res[i].name) != key_seq(
                    #[trigger] res[j].name,
                )
        }),
{
    let res = reagent_upsert_model(rs, id, name, f, owner, created_at, now);
    lemma_reagent_find_props(rs, key_seq(name));
    assert forall|i: int, j: int|
        0 <= i < j < res.len() implies key_seq(#[trigger] res[i].name) != key_seq(
        #[trigger] res[j].name,
    ) by {
        match reagent_find(rs, key_seq(name)) {
            Some(k) => {
                assert(res[i].name == rs[i].name);
                assert(res[j].name == rs[j].name);
            },
            None => {
                if j == rs.len() {
                    assert(res[i] == rs[i]);
                    assert(res[j].name == name);
                } else {
                    assert(res[i] == rs[i]);
                    assert(res[j] == rs[j]);
                }
            },
        }
    }
}

/// The batch upsert keeps (reagent, batch number) pairs unique.
pub proof fn lemma_batch_upsert_wf(
    bs: Seq<BatchModel>,
    id: Seq<char>,
    rid: Seq<char>,
    bn: Seq<char>,
    supplier: Option<Seq<char>>,
    q: int,
    unit: Seq<char>,
    expiry: Option<Seq<char>>,
    location: Option<Seq<char>>,
    notes: Option<Seq<char>>,
    by: Option<Seq<char>>,
    now: Seq<char>,
)
    requires
        forall|i: int, j: int|
            0 <= i < j < bs.len() ==> !((#[trigger] bs[i]).reagent_id == (
            #[trigger] bs[j]).reagent_id && bs[i].batch_number == bs[j].batch_number),
    ensures
        ({
            let res = batch_upsert_model(bs, id, rid, bn, supplier, q, unit, expiry, location, notes, by, now);
            forall|i: int, j: int|
                0 <= i < j < res.len() ==> !((#[trigger] res[i]).reagent_id == (
                #[trigger] res[j]).reagent_id && res[i].batch_number == res[j].batch_number)
        }),
{
    let res = batch_upsert_model(bs, id, rid, bn, supplier, q, unit, expiry, location, notes, by, now);
    lemma_batch_find_props(bs, rid, bn);
    assert forall|i: int, j: int|
        0 <= i < j < res.len() implies !((#[trigger] res[i]).reagent_id == (
    #[trigger] res[j]).reagent_id && res[i].batch_number == res[j].batch_number) by {
        match batch_find(bs, rid, bn) {
            Some(k) => {
                assert(res[i].reagent_id == bs[i].reagent_id && res[i].batch_number == bs[
                    i
                ].batch_number);
                assert(res[j].reagent_id == bs[j].reagent_id && res[j].batch_number == bs[
                    j
                ].batch_number);
            },
            None => {
                if j == bs.len() {
                    assert(res[i] == bs[i]);
                    assert(res[j].reagent_id == rid && res[j].batch_number == bn);
                } else {
                    assert(res[i] == bs[i]);
                    assert(res[j] == bs[j]);
                }
            },
        }
    }
}

/// The equipment upsert keeps present serial numbers unique.
pub proof fn lemma_equipment_upsert_wf(
    es: Seq<EquipmentModel>,
    id: Seq<char>,
    name: Seq<char>,
    type_: Seq<char>,
    serial: Option<Seq<char>>,
    manufacturer: Option<Seq<char>>,
    location: Option<Seq<char>>,
    description: Option<Seq<char>>,
    now: Seq<char>,
)
    requires
        forall|i: int, j: int|
            0 <= i < j < es.len() ==> !((#[trigger] es[i]).serial_number is Some && (
            #[trigger] es[j]).serial_number is Some && es[i].serial_number == es[j].serial_number),
    ensures
        ({
            let res = equipment_upsert_model(es, id, name, type_, serial, manufacturer, location, description, now);
            forall|i: int, j: int|
                0 <= i < j < res.len() ==> !((#[trigger] res[i]).serial_number is Some && (
                #[trigger] res[j]).serial_number is Some && res[i].serial_number == res[
                    j
                ].serial_number)
        }),
{
    let res = equipment_upsert_model(es, id, name, type_, serial, manufacturer, location, description, now);
    if serial is Some {
        lemma_equipment_find_props(es, serial->0);
    }
    let conflict = match serial {
        Some(sn) => equipment_find(es, sn),
        None => None,
    };
    assert forall|i: int, j: int|
        0 <= i < j < res.len() implies !((#[trigger] res[i]).serial_number is Some && (
    #[trigger] res[j]).serial_number is Some && res[i].serial_number == res[j].serial_number) by {
        match conflict {
            Some(k) => {
                assert(res[i].serial_number == es[i].serial_number);
                assert(res[j].serial_number == es[j].serial_number);
            },
            None => {
                if j == es.len() {
                    assert(res[i] == es[i]);
                    assert(res[j].serial_number == serial);
                } else {
                    assert(res[i] == es[i]);
                    assert(res[j] == es[j]);
                }
            },
        }
    }
}

/// Importing the same reagent name twice — under any case or whitespace
/// variation — never creates two records: the first import inserts one
/// row, the second only fills the fields that the first left null and
/// refreshes the update timestamp.
pub proof fn lemma_reagent_reimport_single_record(
    rs: Seq<ReagentModel>,
    id1: Seq<char>,
    name1: Seq<char>,
    f1: ReagentFieldsModel,
    owner1: Seq<char>,
    created1: Seq<char>,
    t1: Seq<char>,
    id2: Seq<char>,
    name2: Seq<char>,
    f2: ReagentFieldsModel,
    owner2: Seq<char>,
    created2: Seq<char>,
    t2: Seq<char>,
)
    requires
        key_seq(name2) == key_seq(name1),
        reagent_find(rs, key_seq(name1)) is None,
    ensures
        ({
            let rs1 = reagent_upsert_model(rs, id1, name1, f1, owner1, created1, t1);
            let rs2 = reagent_upsert_model(rs1, id2, name2, f2, owner2, created2, t2);
            &&& rs1 == rs.push(fresh_reagent(id1, name1, f1, owner1, created1, t1))
            &&& rs2 == rs.push(
                merged_reagent(fresh_reagent(id1, name1, f1, owner1, created1, t1), f2, t2),
            )
            &&& rs2.len() == rs.len() + 1
        }),
{
    let fresh = fresh_reagent(id1, name1, f1, owner1, created1, t1);
    let rs1 = reagent_upsert_model(rs, id1, name1, f1, owner1, created1, t1);
    lemma_reagent_find_props(rs, key_seq(name1));
    assert(rs1 == rs.push(fresh));
    lemma_reagent_find_props(rs1, key_seq(name2));
    let n = rs.len() as int;
    assert(key_seq(rs1[n].name) == key_seq(name2));
    assert forall|j: int| 0 <= j < n implies key_seq(#[trigger] rs1[j].name)
        != key_seq(name2) by {
        assert(rs1[j] == rs[j]);
    }
    match reagent_find(rs1, key_seq(name2)) {
        Some(i) => {
            assert(!(i < n));
            assert(!(i > n));
            let rs2 = reagent_upsert_model(rs1, id2, name2, f2, owner2, created2, t2);
            assert(rs2 =~= rs.push(merged_reagent(fresh, f2, t2)));
        },
        None => {
            assert(false);
        },
    }
}

/// Re-importing the same (reagent, batch number) pair with quantities
/// `q1` and then `q2` stores the sum `q1 + q2`, not `q2`, in both the
/// quantity and the original quantity; it adds no second row, and the
/// reserved quantity stays zero.
pub proof fn lemma_batch_reimport_adds_quantities(
    bs: Seq<BatchModel>,
    id1: Seq<char>,
    id2: Seq<char>,
    rid: Seq<char>,
    bn: Seq<char>,
    supplier: Option<Seq<char>>,
    q1: int,
    q2: int,
    unit: Seq<char>,
    expiry: Option<Seq<char>>,
    location: Option<Seq<char>>,
    notes: Option<Seq<char>>,
    by: Option<Seq<char>>,
    t1: Seq<char>,
    t2: Seq<char>,
)
    requires
        batch_find(bs, rid, bn) is None,
        i64::MIN <= q1 + q2 <= i64::MAX,
        i64::MIN <= q1 <= i64::MAX,
    ensures
        ({
            let bs1 = batch_upsert_model(bs, id1, rid, bn, supplier, q1, unit, expiry, location, notes, by, t1);
            let bs2 = batch_upsert_model(bs1, id2, rid, bn, supplier, q2, unit, expiry, location, notes, by, t2);
            &&& bs2.len() == bs.len() + 1
            &&& bs2[bs.len() as int].quantity_milli == q1 + q2
            &&& bs2[bs.len() as int].original_quantity_milli == q1 + q2
            &&& bs2[bs.len() as int].reserved_quantity_milli == 0
        }),
{
    let fresh = fresh_batch(id1, rid, bn, supplier, q1, unit, expiry, location, notes, by, t1);
    let bs1 = batch_upsert_model(bs, id1, rid, bn, supplier, q1, unit, expiry, location, notes, by, t1);
    lemma_batch_find_props(bs, rid, bn);
    assert(bs1 == bs.push(fresh));
    lemma_batch_find_props(bs1, rid, bn);
    let n = bs.len() as int;
    assert(bs1[n].reagent_id == rid && bs1[n].batch_number == bn);
    assert forall|j: int|
        0 <= j < n implies !((#[trigger] bs1[j]).reagent_id == rid && bs1[j].batch_number
        == bn) by {
        assert(bs1[j] == bs[j]);
    }
    match batch_find(bs1, rid, bn) {
        Some(i) => {
            assert(!(i < n));
            assert(!(i > n));
        },
        None => {
            assert(false);
        },
    }
}

} // verus!
