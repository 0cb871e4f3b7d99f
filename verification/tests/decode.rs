use lims_ingest::decode::{
    decode_batch_table, decode_equipment_table, decode_reagent_table, require_rows, usize_to_string,
    CellValue, EmptyBatchError, RowError,
};

fn text(s: &str) -> CellValue {
    CellValue::Text(s.to_string())
}

fn num(milli: i64) -> CellValue {
    CellValue::Num(milli)
}

fn headers(hs: &[&str]) -> Vec<String> {
    hs.iter().map(|h| h.to_string()).collect()
}

#[test]
fn reagent_rows_decode_with_aliases() {
    let hs = headers(&["Name", "Formula", "Quantity", "Units", "Lot number"]);
    let rows = vec![vec![
        text("Acetone"),
        text("C3H6O"),
        num(5000),
        text("L"),
        text("B1"),
    ]];
    let (recs, errors) = decode_reagent_table(&hs, &rows);
    assert_eq!(errors.len(), 0);
    assert_eq!(recs.len(), 1);
    assert_eq!(recs[0].name, "Acetone");
    assert_eq!(recs[0].formula.as_deref(), Some("C3H6O"));
    assert_eq!(recs[0].quantity_milli, Some(5000));
    assert_eq!(recs[0].units.as_deref(), Some("L"));
    assert_eq!(recs[0].batch_number.as_deref(), Some("B1"));
}

#[test]
fn localized_headers_resolve() {
    let hs = headers(&["Название", "Производитель"]);
    let rows = vec![vec![text("Толуол"), text("Chem Co")]];
    let (recs, errors) = decode_reagent_table(&hs, &rows);
    assert_eq!(errors.len(), 0);
    assert_eq!(recs[0].name, "Толуол");
    assert_eq!(recs[0].manufacturer.as_deref(), Some("Chem Co"));
}

#[test]
fn header_matching_ignores_case_and_padding() {
    let hs = headers(&["  NAME ", "mw"]);
    let rows = vec![vec![text("Acetone"), num(58_080)]];
    let (recs, errors) = decode_reagent_table(&hs, &rows);
    assert_eq!(errors.len(), 0);
    assert_eq!(recs[0].molecular_weight_milli, Some(58_080));
}

#[test]
fn expiry_cells_are_normalized_at_decode() {
    let hs = headers(&["Name", "Expiry Date"]);
    let rows = vec![
        vec![text("A"), num(45_000_000)],
        vec![text("B"), text("15.03.2023")],
        vec![text("C"), text("no expiry")],
        vec![text("D"), CellValue::Empty],
    ];
    let (recs, errors) = decode_reagent_table(&hs, &rows);
    assert_eq!(errors.len(), 0);
    assert_eq!(recs[0].expiry_date.as_deref(), Some("2023-03-15T00:00:00"));
    assert_eq!(recs[1].expiry_date.as_deref(), Some("2023-03-15T00:00:00"));
    assert_eq!(recs[2].expiry_date.as_deref(), Some("no expiry"));
    assert_eq!(recs[3].expiry_date, None);
}

#[test]
fn middle_malformed_row_reports_its_sheet_index() {
    let hs = headers(&["Name", "Quantity"]);
    let rows = vec![
        vec![text("A"), num(1000)],
        vec![num(7), num(1000)],  // a number where the name must be
        vec![text("C"), num(2000)],
    ];
    let (recs, errors) = decode_reagent_table(&hs, &rows);
    assert_eq!(recs.len(), 2);
    assert_eq!(recs[0].name, "A");
    assert_eq!(recs[1].name, "C");
    assert_eq!(errors.len(), 1);
    // 0-based row 1, plus 1-based counting and the header row: row 3
    assert_eq!(errors[0].row, 3);
    assert_eq!(errors[0].to_text(), "Row 3: malformed row");
}

#[test]
fn missing_name_cell_is_malformed() {
    let hs = headers(&["Name", "Quantity"]);
    let rows = vec![vec![CellValue::Empty, num(1000)]];
    let (recs, errors) = decode_reagent_table(&hs, &rows);
    assert_eq!(recs.len(), 0);
    assert_eq!(errors.len(), 1);
    assert_eq!(errors[0].row, 2);
}

#[test]
fn text_in_numeric_column_is_malformed() {
    let hs = headers(&["Name", "Quantity"]);
    let rows = vec![vec![text("A"), text("five")]];
    let (recs, errors) = decode_reagent_table(&hs, &rows);
    assert_eq!(recs.len(), 0);
    assert_eq!(errors.len(), 1);
}

#[test]
fn all_malformed_input_fails_as_empty_batch() {
    let hs = headers(&["Name"]);
    let rows = vec![vec![num(1)], vec![num(2)]];
    let (recs, errors) = decode_reagent_table(&hs, &rows);
    assert_eq!(recs.len(), 0);
    assert_eq!(errors.len(), 2);
    let res: Result<Vec<_>, EmptyBatchError> = require_rows(recs, &errors);
    let err = res.err().expect("zero decodable rows must fail");
    let first = err.first.as_ref().expect("first row error is surfaced");
    assert_eq!(first.row, 2);
    assert_eq!(
        err.to_text(),
        "Failed to import. No valid rows. Error: Row 2: malformed row"
    );
}

#[test]
fn empty_table_fails_without_context() {
    let hs = headers(&["Name"]);
    let rows: Vec<Vec<CellValue>> = Vec::new();
    let (recs, errors) = decode_reagent_table(&hs, &rows);
    let res = require_rows(recs, &errors);
    let err = res.err().unwrap();
    assert!(err.first.is_none());
    assert_eq!(
        err.to_text(),
        "Failed to import. No valid rows. Error: Check column headers"
    );
}

#[test]
fn nonempty_batch_passes_through() {
    let errors: Vec<RowError> = Vec::new();
    let res = require_rows(vec![1, 2, 3], &errors);
    assert_eq!(res.ok().unwrap(), vec![1, 2, 3]);
}

#[test]
fn batch_rows_require_all_key_fields() {
    let hs = headers(&["Reagent Name", "Batch Number", "quantity", "unit"]);
    let rows = vec![
        vec![text("Acetone"), text("B1"), num(2500), text("L")],
        vec![text("Acetone"), text("B2"), CellValue::Empty, text("L")],
    ];
    let (recs, errors) = decode_batch_table(&hs, &rows);
    assert_eq!(recs.len(), 1);
    assert_eq!(recs[0].reagent_name, "Acetone");
    assert_eq!(recs[0].quantity_milli, 2500);
    assert_eq!(errors.len(), 1);
    assert_eq!(errors[0].row, 3);
}

#[test]
fn equipment_rows_decode_whole_quantities() {
    let hs = headers(&["name", "type", "quantity", "serial_number"]);
    let rows = vec![
        vec![text("Scale"), text("instrument"), num(2000), text("SN-1")],
        vec![text("Pipette"), text("labware"), num(2500), CellValue::Empty],
    ];
    let (recs, errors) = decode_equipment_table(&hs, &rows);
    // a fractional quantity cannot fill the whole-number field
    assert_eq!(recs.len(), 1);
    assert_eq!(recs[0].quantity, Some(2));
    assert_eq!(recs[0].serial_number.as_deref(), Some("SN-1"));
    assert_eq!(errors.len(), 1);
    assert_eq!(errors[0].row, 3);
}

#[test]
fn decimal_rendering_is_exact() {
    assert_eq!(usize_to_string(0), "0");
    assert_eq!(usize_to_string(7), "7");
    assert_eq!(usize_to_string(10), "10");
    assert_eq!(usize_to_string(90210), "90210");
}
