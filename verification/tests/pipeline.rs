use lims_ingest::cache::{preload_reagents, preload_users, IdentityCache};
use lims_ingest::decode::{decode_reagent_table, require_rows, CellValue};
use lims_ingest::engine::{
    import_batches_logic, import_equipment_logic, import_reagents_logic, normalize_equipment_type,
};
use lims_ingest::records::{BatchImportDto, EquipmentImportDto, ReagentImportDto};
use lims_ingest::store::Store;

fn reagent_row(name: &str) -> ReagentImportDto {
    ReagentImportDto {
        name: name.to_string(),
        formula: None,
        cas_number: None,
        molecular_weight_milli: None,
        manufacturer: None,
        description: None,
        catalog_number: None,
        storage: None,
        appearance: None,
        owner: None,
        added_at: None,
        batch_number: None,
        quantity_pcs: None,
        quantity_milli: None,
        units: None,
        expiry_date: None,
        location: None,
        hazard_pictograms: None,
    }
}

fn batch_row(reagent: &str, batch: &str, quantity_milli: i64) -> BatchImportDto {
    BatchImportDto {
        reagent_name: reagent.to_string(),
        batch_number: batch.to_string(),
        supplier: None,
        quantity_milli,
        units: "L".to_string(),
        expiration_date: None,
        location: None,
        notes: None,
    }
}

fn equipment_row(name: &str, type_: &str, serial: Option<&str>) -> EquipmentImportDto {
    EquipmentImportDto {
        name: name.to_string(),
        equipment_type: type_.to_string(),
        serial_number: serial.map(|s| s.to_string()),
        manufacturer: None,
        quantity: None,
        unit: None,
        location: None,
        description: None,
    }
}

#[test]
fn reimported_name_variants_stay_one_record() {
    let mut store = Store::new();
    let mut cache = IdentityCache::empty();
    let mut first = reagent_row("Acetone");
    first.formula = Some("C3H6O".to_string());
    let mut second = reagent_row("  ACETONE ");
    second.formula = Some("overwritten?".to_string());
    second.manufacturer = Some("Chem Co".to_string());
    let count = import_reagents_logic(
        &mut store,
        &mut cache,
        vec![first, second],
        "caller-1".to_string(),
        "2024-01-01T00:00:00".to_string(),
    );
    assert_eq!(count, 2);
    assert_eq!(store.reagents.len(), 1);
    let r = &store.reagents[0];
    assert_eq!(r.name, "Acetone");
    // the second sighting fills only what the first left null
    assert_eq!(r.formula.as_deref(), Some("C3H6O"));
    assert_eq!(r.manufacturer.as_deref(), Some("Chem Co"));
}

#[test]
fn cyrillic_case_pair_stays_one_record() {
    let mut store = Store::new();
    let mut cache = IdentityCache::empty();
    let count = import_reagents_logic(
        &mut store,
        &mut cache,
        vec![reagent_row("Ацетон"), reagent_row("  ацетон ")],
        "caller-1".to_string(),
        "now".to_string(),
    );
    assert_eq!(count, 2);
    assert_eq!(store.reagents.len(), 1);
    assert_eq!(store.reagents[0].name, "Ацетон");
}

#[test]
fn cyrillic_case_pair_batches_merge() {
    let mut store = Store::new();
    let mut cache = IdentityCache::empty();
    import_batches_logic(
        &mut store,
        &mut cache,
        vec![batch_row("ТОЛУОЛ", "B1", 5000), batch_row("толуол", "B1", 3000)],
        "now".to_string(),
    );
    assert_eq!(store.reagents.len(), 1);
    assert_eq!(store.batches.len(), 1);
    assert_eq!(store.batches[0].quantity_milli, 8000);
}

#[test]
fn reimport_across_runs_reuses_store_identity() {
    let mut store = Store::new();
    let mut cache = IdentityCache::empty();
    import_reagents_logic(
        &mut store,
        &mut cache,
        vec![reagent_row("Ethanol")],
        "caller-1".to_string(),
        "t0".to_string(),
    );
    let id_before = store.reagents[0].id.clone();
    // a fresh run preloads its cache from the store contents
    let rows: Vec<(String, String)> = store
        .reagents
        .iter()
        .map(|r| (r.name.clone(), r.id.clone()))
        .collect();
    let mut cache2 = IdentityCache::new(preload_users(&Vec::new()), preload_reagents(&rows));
    import_reagents_logic(
        &mut store,
        &mut cache2,
        vec![reagent_row("ethanol  ")],
        "caller-2".to_string(),
        "t1".to_string(),
    );
    assert_eq!(store.reagents.len(), 1);
    assert_eq!(store.reagents[0].id, id_before);
}

#[test]
fn batch_quantities_add_on_conflict() {
    let mut store = Store::new();
    let mut cache = IdentityCache::empty();
    let count = import_batches_logic(
        &mut store,
        &mut cache,
        vec![batch_row("Acetone", "B1", 5000), batch_row("acetone", "B1", 3000)],
        "now".to_string(),
    );
    assert_eq!(count, 2);
    assert_eq!(store.reagents.len(), 1);
    assert_eq!(store.batches.len(), 1);
    let b = &store.batches[0];
    assert_eq!(b.quantity_milli, 8000);
    assert_eq!(b.original_quantity_milli, 8000);
    assert_eq!(b.reserved_quantity_milli, 0);
}

#[test]
fn distinct_batch_numbers_stay_separate() {
    let mut store = Store::new();
    let mut cache = IdentityCache::empty();
    import_batches_logic(
        &mut store,
        &mut cache,
        vec![batch_row("Acetone", "B1", 5000), batch_row("Acetone", "B2", 3000)],
        "now".to_string(),
    );
    assert_eq!(store.batches.len(), 2);
    assert_eq!(store.batches[0].quantity_milli, 5000);
    assert_eq!(store.batches[1].quantity_milli, 3000);
}

#[test]
fn blank_batch_fields_skip_row_silently() {
    let mut store = Store::new();
    let mut cache = IdentityCache::empty();
    let count = import_batches_logic(
        &mut store,
        &mut cache,
        vec![batch_row("Acetone", "   ", 5000), batch_row("  ", "B1", 5000)],
        "now".to_string(),
    );
    assert_eq!(count, 2);
    assert_eq!(store.reagents.len(), 0);
    assert_eq!(store.batches.len(), 0);
}

#[test]
fn unfit_embedded_batch_keeps_reagent() {
    let mut store = Store::new();
    let mut cache = IdentityCache::empty();
    let mut zero_qty = reagent_row("Acetone");
    zero_qty.batch_number = Some("B1".to_string());
    zero_qty.quantity_milli = Some(0);
    zero_qty.units = Some("L".to_string());
    let mut blank_batch = reagent_row("Ethanol");
    blank_batch.batch_number = Some("   ".to_string());
    blank_batch.quantity_milli = Some(2000);
    blank_batch.units = Some("L".to_string());
    let mut negative = reagent_row("Methanol");
    negative.batch_number = Some("B2".to_string());
    negative.quantity_milli = Some(-1000);
    negative.units = Some("L".to_string());
    let count = import_reagents_logic(
        &mut store,
        &mut cache,
        vec![zero_qty, blank_batch, negative],
        "caller".to_string(),
        "now".to_string(),
    );
    // no batch is inserted, yet none of the reagent rows is skipped
    assert_eq!(count, 3);
    assert_eq!(store.reagents.len(), 3);
    assert_eq!(store.batches.len(), 0);
}

#[test]
fn json_scenario_one_reagent_one_summed_batch() {
    // [{"name":"Acetone","quantity":5,"units":"L","batch_number":"B1"},
    //  {"name":"acetone","quantity":3,"units":"L","batch_number":"B1"}]
    let mut store = Store::new();
    let mut cache = IdentityCache::empty();
    let mut a = reagent_row("Acetone");
    a.quantity_milli = Some(5000);
    a.units = Some("L".to_string());
    a.batch_number = Some("B1".to_string());
    let mut b = reagent_row("acetone");
    b.quantity_milli = Some(3000);
    b.units = Some("L".to_string());
    b.batch_number = Some("B1".to_string());
    let count = import_reagents_logic(
        &mut store,
        &mut cache,
        vec![a, b],
        "caller".to_string(),
        "now".to_string(),
    );
    assert_eq!(count, 2);
    assert_eq!(store.reagents.len(), 1);
    assert_eq!(store.reagents[0].name, "Acetone");
    assert_eq!(store.batches.len(), 1);
    assert_eq!(store.batches[0].batch_number, "B1");
    assert_eq!(store.batches[0].quantity_milli, 8000);
    assert_eq!(store.batches[0].reagent_id, store.reagents[0].id);
}

#[test]
fn blank_names_count_but_change_nothing() {
    let mut store = Store::new();
    let mut cache = IdentityCache::empty();
    let count = import_reagents_logic(
        &mut store,
        &mut cache,
        vec![reagent_row("   "), reagent_row("")],
        "caller".to_string(),
        "now".to_string(),
    );
    assert_eq!(count, 2);
    assert_eq!(store.reagents.len(), 0);
}

#[test]
fn owner_resolves_through_cache_or_caller() {
    let mut store = Store::new();
    let users = preload_users(&vec![("  Alice ".to_string(), "user-7".to_string())]);
    let mut cache = IdentityCache::new(users, preload_reagents(&Vec::new()));
    let mut known = reagent_row("Acetone");
    known.owner = Some("ALICE".to_string());
    let mut unknown = reagent_row("Ethanol");
    unknown.owner = Some("bob".to_string());
    import_reagents_logic(
        &mut store,
        &mut cache,
        vec![known, unknown],
        "caller-1".to_string(),
        "now".to_string(),
    );
    assert_eq!(store.reagents[0].created_by.as_deref(), Some("user-7"));
    assert_eq!(store.reagents[1].created_by.as_deref(), Some("caller-1"));
}

#[test]
fn stated_added_at_wins_over_clock() {
    let mut store = Store::new();
    let mut cache = IdentityCache::empty();
    let mut dated = reagent_row("Acetone");
    dated.added_at = Some("2020-05-05T00:00:00".to_string());
    let mut blank = reagent_row("Ethanol");
    blank.added_at = Some("   ".to_string());
    import_reagents_logic(
        &mut store,
        &mut cache,
        vec![dated, blank],
        "caller".to_string(),
        "2024-01-01T00:00:00".to_string(),
    );
    assert_eq!(store.reagents[0].created_at, "2020-05-05T00:00:00");
    assert_eq!(store.reagents[1].created_at, "2024-01-01T00:00:00");
}

#[test]
fn minted_identifiers_have_uuid_shape() {
    let mut store = Store::new();
    let mut cache = IdentityCache::empty();
    import_reagents_logic(
        &mut store,
        &mut cache,
        vec![reagent_row("Acetone")],
        "caller".to_string(),
        "now".to_string(),
    );
    assert_eq!(store.reagents[0].id.len(), 36);
}

#[test]
fn equipment_type_is_normalized() {
    assert_eq!(normalize_equipment_type("LabWare"), "labware");
    assert_eq!(normalize_equipment_type("GLASSWARE"), "glassware");
    assert_eq!(normalize_equipment_type("fridge"), "other");
    assert_eq!(normalize_equipment_type(""), "other");
}

#[test]
fn equipment_serial_conflict_updates_name_only() {
    let mut store = Store::new();
    let count = import_equipment_logic(
        &mut store,
        vec![
            equipment_row("Old scale", "instrument", Some("SN-1")),
            equipment_row("New scale", "labware", Some("SN-1")),
        ],
        "now".to_string(),
    );
    assert_eq!(count, 2);
    assert_eq!(store.equipment.len(), 1);
    let e = &store.equipment[0];
    assert_eq!(e.name, "New scale");
    // the conflict path leaves the type as first sighted
    assert_eq!(e.type_, "instrument");
    assert_eq!(e.serial_number.as_deref(), Some("SN-1"));
}

#[test]
fn equipment_without_serial_never_conflicts() {
    let mut store = Store::new();
    import_equipment_logic(
        &mut store,
        vec![
            equipment_row("Beaker", "glassware", None),
            equipment_row("Beaker", "glassware", None),
        ],
        "now".to_string(),
    );
    assert_eq!(store.equipment.len(), 2);
}

#[test]
fn preload_later_duplicate_key_wins() {
    let rows = vec![
        ("Acetone".to_string(), "id-1".to_string()),
        (" ACETONE ".to_string(), "id-2".to_string()),
    ];
    let m = preload_reagents(&rows);
    assert_eq!(m.get("acetone").map(|s| s.as_str()), Some("id-2"));
    assert_eq!(m.len(), 1);
}

#[test]
fn decode_then_import_reports_processed_rows() {
    let headers = vec!["Name".to_string(), "Quantity".to_string()];
    let rows = vec![
        vec![CellValue::Text("A".to_string()), CellValue::Num(1000)],
        vec![CellValue::Num(9), CellValue::Num(1000)],
        vec![CellValue::Text("C".to_string()), CellValue::Num(2000)],
    ];
    let (records, errors) = decode_reagent_table(&headers, &rows);
    assert_eq!(errors.len(), 1);
    assert_eq!(errors[0].row, 3);
    let records = require_rows(records, &errors).ok().unwrap();
    let mut store = Store::new();
    let mut cache = IdentityCache::empty();
    let count = import_reagents_logic(
        &mut store,
        &mut cache,
        records,
        "caller".to_string(),
        "now".to_string(),
    );
    assert_eq!(count, 2);
    assert_eq!(store.reagents.len(), 2);
}
