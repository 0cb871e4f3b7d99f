//! Row decoder: loosely-typed tabular cells to candidate records.
//!
//! Header matching is alias-based and case-insensitive per field, so the
//! same logical column may arrive under many spellings, including
//! localized ones.  A malformed row is collected as a row-indexed error
//! and never aborts the batch; reported row numbers are 1-based and
//! account for the header row.  Only a batch that decodes to zero rows
//! fails as a whole, carrying the first collected row error as context —
//! that failure happens before the store is ever consulted.

use vstd::prelude::*;
use crate::dates::{numeric_norm, text_norm, digit_char, opt_sv};
use crate::ext::push_char;
use crate::records::{
    BatchImportDto, BatchRowModel, EquipmentImportDto, EquipmentRowModel, ReagentImportDto,
    ReagentRowModel,
};
use crate::text::{key_seq, normalize_key, str_eq};

verus! {

/// One loosely-typed cell: empty, text, or a number carried in
/// thousandths.
pub enum CellValue {
    Empty,
    Text(String),
    Num(i64),
}

/// The mathematical view of a cell.
#[verifier::ext_equal]
pub ghost enum CellModel {
    Empty,
    Text(Seq<char>),
    Num(int),
}

impl View for CellValue {
    type V = CellModel;

    open spec fn view(&self) -> CellModel {
        match self {
            CellValue::Empty => CellModel::Empty,
            CellValue::Text(s) => CellModel::Text(s@),
            CellValue::Num(m) => CellModel::Num(*m as int),
        }
    }
}

fn clone_cell(c: &CellValue) -> (r: CellValue)
    ensures
        r@ == c@,
{
    match c {
        CellValue::Empty => CellValue::Empty,
        CellValue::Text(s) => CellValue::Text(s.clone()),
        CellValue::Num(m) => CellValue::Num(*m),
    }
}

/// The views of a header row.
pub open spec fn header_views(hs: Seq<String>) -> Seq<Seq<char>> {
    hs.map_values(|h: String| h@)
}

/// The views of a table of cells.
pub open spec fn table_views(rows: Seq<Vec<CellValue>>) -> Seq<Seq<CellModel>> {
    rows.map_values(|row: Vec<CellValue>| row@.map_values(|c: CellValue| c@))
}

/// The decimal text of a non-negative number.
pub open spec fn dec_seq(n: int) -> Seq<char>
    decreases n,
{
    if n < 10 {
        seq![digit_char(if n < 0 { 0 } else { n })]
    } else {
        dec_seq(n / 10).push(digit_char(n % 10))
    }
}

/// The decimal text of a number, executable form.
pub fn usize_to_string(n: usize) -> (r: String)
    ensures
        r@ == dec_seq(n as int),
    decreases n,
{
    if n < 10 {
        let mut s = String::new();
        push_char(&mut s, (48 + n as u8) as char);
        proof {
            assert(s@ =~= dec_seq(n as int));
        }
        s
    } else {
        let mut s = usize_to_string(n / 10);
        push_char(&mut s, (48 + (n % 10) as u8) as char);
        s
    }
}

/// One recoverable per-row decode fault: the 1-based row number it was
/// found at (counting the header row) and a short description.
pub struct RowError {
    pub row: usize,
    pub detail: String,
}

/// The view of a row error.
#[verifier::ext_equal]
pub ghost struct RowErrorModel {
    pub row: int,
    pub detail: Seq<char>,
}

impl View for RowError {
    type V = RowErrorModel;

    open spec fn view(&self) -> RowErrorModel {
        RowErrorModel { row: self.row as int, detail: self.detail@ }
    }
}

impl RowError {
    /// The error as one line of text: `Row <n>: <detail>`.
    pub fn to_text(&self) -> (r: String)
        ensures
            r@ == "Row "@ + dec_seq(self.row as int) + ": "@ + self.detail@,
    {
        let mut s = String::from_str("Row ");
        s.append(usize_to_string(self.row).as_str());
        s.append(": ");
        s.append(self.detail.as_str());
        s
    }
}

/// The whole-batch failure: zero rows decoded.  Carries the first
/// collected row error as diagnostic context, when there is one.
pub struct EmptyBatchError {
    pub first: Option<RowError>,
}

impl EmptyBatchError {
    /// The failure as one line of text, surfacing the first row error.
    pub fn to_text(&self) -> (r: String)
        ensures
            match self.first {
                Some(e) => r@ == "Failed to import. No valid rows. Error: "@ + "Row "@ + dec_seq(
                    e.row as int,
                ) + ": "@ + e.detail@,
                None => r@ == "Failed to import. No valid rows. Error: "@
                    + "Check column headers"@,
            },
    {
        let mut s = String::from_str("Failed to import. No valid rows. Error: ");
        match &self.first {
            Some(e) => {
                s.append(e.to_text().as_str());
            },
            None => {
                s.append("Check column headers");
            },
        }
        proof {
            match &self.first {
                Some(e) => {
                    assert(s@ =~= "Failed to import. No valid rows. Error: "@ + "Row "@ + dec_seq(
                        e.row as int,
                    ) + ": "@ + e.detail@);
                },
                None => {
                    assert(s@ =~= "Failed to import. No valid rows. Error: "@
                        + "Check column headers"@);
                },
            }
        }
        s
    }
}

/// Fails a decoded batch that holds no rows, surfacing the first row
/// error; passes a non-empty batch through unchanged.
pub fn require_rows<T>(records: Vec<T>, errors: &Vec<RowError>) -> (r: Result<
    Vec<T>,
    EmptyBatchError,
>)
    ensures
        records@.len() > 0 ==> (r matches Ok(v) && v@ == records@),
        records@.len() == 0 ==> (r matches Err(e) && (match e.first {
            Some(f) => errors@.len() > 0 && f@ == errors@[0]@,
            None => errors@.len() == 0,
        })),
{
    if records.len() > 0 {
        Ok(records)
    } else if errors.len() > 0 {
        Err(
            EmptyBatchError {
                first: Some(RowError { row: errors[0].row, detail: errors[0].detail.clone() }),
            },
        )
    } else {
        Err(EmptyBatchError { first: None })
    }
}

/// The cell a row holds in an optionally-resolved column: absent columns
/// and short rows read as empty.
pub open spec fn cell_at(row: Seq<CellModel>, col: Option<int>) -> CellModel {
    match col {
        None => CellModel::Empty,
        Some(i) => if 0 <= i < row.len() {
            row[i]
        } else {
            CellModel::Empty
        },
    }
}

fn get_cell(row: &Vec<CellValue>, col: &Option<usize>) -> (r: CellValue)
    ensures
        r@ == cell_at(
            row@.map_values(|c: CellValue| c@),
            match col {
                None => None,
                Some(i) => Some(*i as int),
            },
        ),
{
    match col {
        None => CellValue::Empty,
        Some(i) => {
            if *i < row.len() {
                proof {
                    assert(row@.map_values(|c: CellValue| c@)[*i as int] == row@[*i as int]@);
                }
                clone_cell(&row[*i])
            } else {
                CellValue::Empty
            }
        },
    }
}

/// Optional text: an empty cell reads as nothing, a numeric cell as
/// nothing (it is a type fault that the per-row check reports).
pub open spec fn opt_text_val(c: CellModel) -> Option<Seq<char>> {
    match c {
        CellModel::Text(s) => Some(s),
        _ => None,
    }
}

/// Optional number in thousandths.
pub open spec fn opt_num_val(c: CellModel) -> Option<int> {
    match c {
        CellModel::Num(m) => Some(m),
        _ => None,
    }
}

/// A date-bearing cell, put through the flexible date normalizer.
pub open spec fn date_val(c: CellModel) -> Option<Seq<char>> {
    match c {
        CellModel::Empty => None,
        CellModel::Num(m) => numeric_norm(m),
        CellModel::Text(s) => text_norm(s),
    }
}

/// A cell that may hold text or nothing, but not a number.
pub open spec fn text_ok(c: CellModel) -> bool {
    !(c is Num)
}

/// A cell that may hold a number or nothing, but not text.
pub open spec fn num_ok(c: CellModel) -> bool {
    !(c is Text)
}

fn opt_text_exec(c: CellValue) -> (r: Option<String>)
    ensures
        opt_sv(r) == opt_text_val(c@),
{
    match c {
        CellValue::Text(s) => Some(s),
        _ => None,
    }
}

fn opt_num_exec(c: CellValue) -> (r: Option<i64>)
    ensures
        crate::store::opt_iv(r) == opt_num_val(c@),
{
    match c {
        CellValue::Num(m) => Some(m),
        _ => None,
    }
}

fn date_exec(c: CellValue) -> (r: Option<String>)
    ensures
        opt_sv(r) == date_val(c@),
{
    match c {
        CellValue::Empty => None,
        CellValue::Num(m) => crate::dates::normalize_numeric_date(m),
        CellValue::Text(s) => crate::dates::normalize_text_date(s.as_str()),
    }
}

fn text_ok_exec(c: &CellValue) -> (r: bool)
    ensures
        r == text_ok(c@),
{
    match c {
        CellValue::Num(_) => false,
        _ => true,
    }
}

fn num_ok_exec(c: &CellValue) -> (r: bool)
    ensures
        r == num_ok(c@),
{
    match c {
        CellValue::Text(_) => false,
        _ => true,
    }
}


/// The canonical fields of a reagent-import row.
#[derive(Clone, Copy, PartialEq, Eq, Structural)]
pub enum ReagentField {
    Name,
    Formula,
    Cas,
    MolWeight,
    Manufacturer,
    Description,
    CatalogNumber,
    Storage,
    Appearance,
    Owner,
    AddedAt,
    BatchNumber,
    QuantityPcs,
    Quantity,
    Units,
    ExpiryDate,
    Location,
    Hazard,
}

/// The canonical reagent field a normalized header key names, if any.
/// Keys are trimmed and ASCII-case-folded; localized aliases are matched
/// as written.
pub open spec fn reagent_field_spec(key: Seq<char>) -> Option<ReagentField> {
    if key == "name"@ || key == "reagent_name"@ || key == "название"@ {
        Some(ReagentField::Name)
    } else if key == "formula"@ || key == "chemical_formula"@ || key == "формула"@ {
        Some(ReagentField::Formula)
    } else if key == "cas"@ || key == "cas_number"@ || key == "cas number"@ {
        Some(ReagentField::Cas)
    } else if key == "molecular_weight"@ || key == "molecular weight"@ || key == "mw"@ || key
        == "mol. weight"@ {
        Some(ReagentField::MolWeight)
    } else if key == "manufacturer"@ || key == "производитель"@ {
        Some(ReagentField::Manufacturer)
    } else if key == "description"@ || key == "описание"@ {
        Some(ReagentField::Description)
    } else if key == "catalog_number"@ || key == "catalog number"@ || key == "cat_number"@ || key
        == "catalogue no"@ || key == "catalog #"@ {
        Some(ReagentField::CatalogNumber)
    } else if key == "storage"@ || key == "storage_cond"@ || key == "storage conditions"@ || key
        == "safety"@ {
        Some(ReagentField::Storage)
    } else if key == "appearance"@ || key == "color"@ {
        Some(ReagentField::Appearance)
    } else if key == "owner"@ || key == "added by"@ || key == "user"@ || key == "владелец"@ {
        Some(ReagentField::Owner)
    } else if key == "added_at"@ || key == "added at"@ || key == "date added"@ || key
        == "created_at"@ {
        Some(ReagentField::AddedAt)
    } else if key == "batch_number"@ || key == "lot number"@ || key == "партия"@ {
        Some(ReagentField::BatchNumber)
    } else if key == "quantity_pcs"@ || key == "quantiy in pcs"@ || key == "quantity in pcs"@ {
        Some(ReagentField::QuantityPcs)
    } else if key == "quantity"@ || key == "количество"@ {
        Some(ReagentField::Quantity)
    } else if key == "units"@ || key == "unit"@ || key == "единицы"@ {
        Some(ReagentField::Units)
    } else if key == "expiry_date"@ || key == "expiry date"@ || key == "expiration_date"@ || key
        == "срок годности"@ {
        Some(ReagentField::ExpiryDate)
    } else if key == "location"@ || key == "place"@ || key == "место хранения"@ {
        Some(ReagentField::Location)
    } else if key == "hazard_pictograms"@ || key == "hazard"@ || key == "ghs"@ || key
        == "pictograms"@ || key == "hazard pictograms"@ {
        Some(ReagentField::Hazard)
    } else {
        None
    }
}

/// The canonical reagent field a header names, executable form.
pub fn reagent_field_of(key: &str) -> (r: Option<ReagentField>)
    ensures
        r == reagent_field_spec(key@),
{
    if str_eq(key, "name") || str_eq(key, "reagent_name") || str_eq(key, "название") {
        Some(ReagentField::Name)
    } else if str_eq(key, "formula") || str_eq(key, "chemical_formula") || str_eq(
        key,
        "формула",
    ) {
        Some(ReagentField::Formula)
    } else if str_eq(key, "cas") || str_eq(key, "cas_number") || str_eq(key, "cas number") {
        Some(ReagentField::Cas)
    } else if str_eq(key, "molecular_weight") || str_eq(key, "molecular weight") || str_eq(
        key,
        "mw",
    ) || str_eq(key, "mol. weight") {
        Some(ReagentField::MolWeight)
    } else if str_eq(key, "manufacturer") || str_eq(key, "производитель") {
        Some(ReagentField::Manufacturer)
    } else if str_eq(key, "description") || str_eq(key, "описание") {
        Some(ReagentField::Description)
    } else if str_eq(key, "catalog_number") || str_eq(key, "catalog number") || str_eq(
        key,
        "cat_number",
    ) || str_eq(key, "catalogue no") || str_eq(key, "catalog #") {
        Some(ReagentField::CatalogNumber)
    } else if str_eq(key, "storage") || str_eq(key, "storage_cond") || str_eq(
        key,
        "storage conditions",
    ) || str_eq(key, "safety") {
        Some(ReagentField::Storage)
    } else if str_eq(key, "appearance") || str_eq(key, "color") {
        Some(ReagentField::Appearance)
    } else if str_eq(key, "owner") || str_eq(key, "added by") || str_eq(key, "user") || str_eq(
        key,
        "владелец",
    ) {
        Some(ReagentField::Owner)
    } else if str_eq(key, "added_at") || str_eq(key, "added at") || str_eq(key, "date added")
        || str_eq(key, "created_at") {
        Some(ReagentField::AddedAt)
    } else if str_eq(key, "batch_number") || str_eq(key, "lot number") || str_eq(
        key,
        "партия",
    ) {
        Some(ReagentField::BatchNumber)
    } else if str_eq(key, "quantity_pcs") || str_eq(key, "quantiy in pcs") || str_eq(
        key,
        "quantity in pcs",
    ) {
        Some(ReagentField::QuantityPcs)
    } else if str_eq(key, "quantity") || str_eq(key, "количество") {
        Some(ReagentField::Quantity)
    } else if str_eq(key, "units") || str_eq(key, "unit") || str_eq(key, "единицы") {
        Some(ReagentField::Units)
    } else if str_eq(key, "expiry_date") || str_eq(key, "expiry date") || str_eq(
        key,
        "expiration_date",
    ) || str_eq(key, "срок годности") {
        Some(ReagentField::ExpiryDate)
    } else if str_eq(key, "location") || str_eq(key, "place") || str_eq(key, "место хранения") {
        Some(ReagentField::Location)
    } else if str_eq(key, "hazard_pictograms") || str_eq(key, "hazard") || str_eq(key, "ghs")
        || str_eq(key, "pictograms") || str_eq(key, "hazard pictograms") {
        Some(ReagentField::Hazard)
    } else {
        None
    }
}

/// The first column whose header names the given reagent field.
pub open spec fn reagent_col(hs: Seq<Seq<char>>, f: ReagentField) -> Option<int>
    decreases hs.len(),
{
    if hs.len() == 0 {
        None
    } else if reagent_field_spec(key_seq(hs[0])) == Some(f) {
        Some(0)
    } else {
        match reagent_col(hs.drop_first(), f) {
            None => None,
            Some(i) => Some(i + 1),
        }
    }
}

proof fn lemma_reagent_col_props(hs: Seq<Seq<char>>, f: ReagentField)
    ensures
        match reagent_col(hs, f) {
            Some(i) => 0 <= i < hs.len() && reagent_field_spec(key_seq(hs[i])) == Some(f)
                && forall|j: int|
                0 <= j < i ==> reagent_field_spec(key_seq(#[trigger] hs[j])) != Some(f),
            None => forall|j: int|
                0 <= j < hs.len() ==> reagent_field_spec(key_seq(#[trigger] hs[j])) != Some(f),
        },
    decreases hs.len(),
{
    if hs.len() > 0 && reagent_field_spec(key_seq(hs[0])) != Some(f) {
        let t = hs.drop_first();
        lemma_reagent_col_props(t, f);
        match reagent_col(t, f) {
            Some(i) => {
                assert(hs[i + 1] == t[i]);
                assert forall|j: int|
                    0 <= j < i + 1 implies reagent_field_spec(key_seq(#[trigger] hs[j]))
                    != Some(f) by {
                    if j > 0 {
                        assert(hs[j] == t[j - 1]);
                    }
                }
            },
            None => {
                assert forall|j: int|
                    0 <= j < hs.len() implies reagent_field_spec(key_seq(#[trigger] hs[j]))
                    != Some(f) by {
                    if j > 0 {
                        assert(hs[j] == t[j - 1]);
                    }
                }
            },
        }
    }
}

/// The view of an optionally-found column index.
pub open spec fn col_iv(o: Option<usize>) -> Option<int> {
    match o {
        None => None,
        Some(i) => Some(i as int),
    }
}

/// Finds the first column whose header names the given reagent field.
pub fn find_reagent_col(headers: &Vec<String>, f: ReagentField) -> (r: Option<usize>)
    ensures
        col_iv(r) == reagent_col(header_views(headers@), f),
{
    let ghost hs = header_views(headers@);
    let n = headers.len();
    let mut i: usize = 0;
    while i < n
        invariant
            0 <= i <= n,
            n == headers@.len(),
            hs == header_views(headers@),
            forall|j: int|
                0 <= j < i ==> reagent_field_spec(key_seq(#[trigger] hs[j])) != Some(f),
        decreases n - i,
    {
        proof {
            assert(hs[i as int] == headers@[i as int]@);
        }
        let key = normalize_key(headers[i].as_str());
        match reagent_field_of(key.as_str()) {
            Some(g) => {
                if g == f {
                    proof {
                        lemma_reagent_col_props(hs, f);
                        match reagent_col(hs, f) {
                            Some(ip) => {
                                assert(reagent_field_spec(key_seq(hs[ip])) == Some(f));
                                assert(!(ip < i as int));
                                assert(!(ip > i as int));
                            },
                            None => {
                                assert(false);
                            },
                        }
                    }
                    return Some(i);
                }
            },
            None => {},
        }
        i = i + 1;
    }
    proof {
        lemma_reagent_col_props(hs, f);
    }
    None
}

/// Whether a row decodes as a reagent record: the name cell must hold
/// text, descriptive cells must not hold numbers, numeric cells must not
/// hold text.
pub open spec fn reagent_row_ok(hs: Seq<Seq<char>>, row: Seq<CellModel>) -> bool {
    &&& cell_at(row, reagent_col(hs, ReagentField::Name)) is Text
    &&& text_ok(cell_at(row, reagent_col(hs, ReagentField::Formula)))
    &&& text_ok(cell_at(row, reagent_col(hs, ReagentField::Cas)))
    &&& num_ok(cell_at(row, reagent_col(hs, ReagentField::MolWeight)))
    &&& text_ok(cell_at(row, reagent_col(hs, ReagentField::Manufacturer)))
    &&& text_ok(cell_at(row, reagent_col(hs, ReagentField::Description)))
    &&& text_ok(cell_at(row, reagent_col(hs, ReagentField::CatalogNumber)))
    &&& text_ok(cell_at(row, reagent_col(hs, ReagentField::Storage)))
    &&& text_ok(cell_at(row, reagent_col(hs, ReagentField::Appearance)))
    &&& text_ok(cell_at(row, reagent_col(hs, ReagentField::Owner)))
    &&& text_ok(cell_at(row, reagent_col(hs, ReagentField::AddedAt)))
    &&& text_ok(cell_at(row, reagent_col(hs, ReagentField::BatchNumber)))
    &&& text_ok(cell_at(row, reagent_col(hs, ReagentField::QuantityPcs)))
    &&& num_ok(cell_at(row, reagent_col(hs, ReagentField::Quantity)))
    &&& text_ok(cell_at(row, reagent_col(hs, ReagentField::Units)))
    &&& text_ok(cell_at(row, reagent_col(hs, ReagentField::Location)))
    &&& text_ok(cell_at(row, reagent_col(hs, ReagentField::Hazard)))
}

/// The reagent record a well-formed row decodes to.
pub open spec fn reagent_row_model(hs: Seq<Seq<char>>, row: Seq<CellModel>) -> ReagentRowModel {
    ReagentRowModel {
        name: match cell_at(row, reagent_col(hs, ReagentField::Name)) {
            CellModel::Text(s) => s,
            _ => Seq::empty(),
        },
        formula: opt_text_val(cell_at(row, reagent_col(hs, ReagentField::Formula))),
        cas_number: opt_text_val(cell_at(row, reagent_col(hs, ReagentField::Cas))),
        molecular_weight_milli: opt_num_val(cell_at(row, reagent_col(hs, ReagentField::MolWeight))),
        manufacturer: opt_text_val(cell_at(row, reagent_col(hs, ReagentField::Manufacturer))),
        description: opt_text_val(cell_at(row, reagent_col(hs, ReagentField::Description))),
        catalog_number: opt_text_val(cell_at(row, reagent_col(hs, ReagentField::CatalogNumber))),
        storage: opt_text_val(cell_at(row, reagent_col(hs, ReagentField::Storage))),
        appearance: opt_text_val(cell_at(row, reagent_col(hs, ReagentField::Appearance))),
        owner: opt_text_val(cell_at(row, reagent_col(hs, ReagentField::Owner))),
        added_at: opt_text_val(cell_at(row, reagent_col(hs, ReagentField::AddedAt))),
        batch_number: opt_text_val(cell_at(row, reagent_col(hs, ReagentField::BatchNumber))),
        quantity_pcs: opt_text_val(cell_at(row, reagent_col(hs, ReagentField::QuantityPcs))),
        quantity_milli: opt_num_val(cell_at(row, reagent_col(hs, ReagentField::Quantity))),
        units: opt_text_val(cell_at(row, reagent_col(hs, ReagentField::Units))),
        expiry_date: date_val(cell_at(row, reagent_col(hs, ReagentField::ExpiryDate))),
        location: opt_text_val(cell_at(row, reagent_col(hs, ReagentField::Location))),
        hazard_pictograms: opt_text_val(cell_at(row, reagent_col(hs, ReagentField::Hazard))),
    }
}

/// The well-formed rows of a table, decoded in order.
pub open spec fn decoded_reagents(hs: Seq<Seq<char>>, rows: Seq<Seq<CellModel>>)
    -> Seq<ReagentRowModel>
    decreases rows.len(),
{
    if rows.len() == 0 {
        Seq::empty()
    } else {
        let rest = decoded_reagents(hs, rows.drop_last());
        if reagent_row_ok(hs, rows.last()) {
            rest.push(reagent_row_model(hs, rows.last()))
        } else {
            rest
        }
    }
}

/// The collected errors of a table's malformed rows, in order; row
/// numbers are 1-based and count the header row.
pub open spec fn reagent_row_errors(hs: Seq<Seq<char>>, rows: Seq<Seq<CellModel>>)
    -> Seq<RowErrorModel>
    decreases rows.len(),
{
    if rows.len() == 0 {
        Seq::empty()
    } else {
        let rest = reagent_row_errors(hs, rows.drop_last());
        if reagent_row_ok(hs, rows.last()) {
            rest
        } else {
            rest.push(RowErrorModel { row: rows.len() as int + 1, detail: "malformed row"@ })
        }
    }
}

/// The views of a sequence of row errors.
pub open spec fn row_error_views(es: Seq<RowError>) -> Seq<RowErrorModel> {
    es.map_values(|e: RowError| e@)
}

/// The views of a vector of decoded reagent rows.
pub open spec fn decoded_reagent_views(recs: Seq<ReagentImportDto>) -> Seq<ReagentRowModel> {
    recs.map_values(|r: ReagentImportDto| r@)
}

struct ReagentCols {
    name: Option<usize>,
    formula: Option<usize>,
    cas: Option<usize>,
    mol_weight: Option<usize>,
    manufacturer: Option<usize>,
    description: Option<usize>,
    catalog_number: Option<usize>,
    storage: Option<usize>,
    appearance: Option<usize>,
    owner: Option<usize>,
    added_at: Option<usize>,
    batch_number: Option<usize>,
    quantity_pcs: Option<usize>,
    quantity: Option<usize>,
    units: Option<usize>,
    expiry_date: Option<usize>,
    location: Option<usize>,
    hazard: Option<usize>,
}

/// Decodes a table of loosely-typed cells into candidate reagent
/// records plus row-indexed errors for the malformed rows; a bad row
/// never aborts the batch.
#[verifier::rlimit(100)]
pub fn decode_reagent_table(headers: &Vec<String>, rows: &Vec<Vec<CellValue>>) -> (r: (
    Vec<ReagentImportDto>,
    Vec<RowError>,
))
    requires
        rows@.len() + 2 <= usize::MAX,
    ensures
        decoded_reagent_views(r.0@) == decoded_reagents(
            header_views(headers@),
            table_views(rows@),
        ),
        row_error_views(r.1@) == reagent_row_errors(header_views(headers@), table_views(rows@)),
{
    let ghost hs = header_views(headers@);
    let ghost tv = table_views(rows@);
    let cols = ReagentCols {
        name: find_reagent_col(headers, ReagentField::Name),
        formula: find_reagent_col(headers, ReagentField::Formula),
        cas: find_reagent_col(headers, ReagentField::Cas),
        mol_weight: find_reagent_col(headers, ReagentField::MolWeight),
        manufacturer: find_reagent_col(headers, ReagentField::Manufacturer),
        description: find_reagent_col(headers, ReagentField::Description),
        catalog_number: find_reagent_col(headers, ReagentField::CatalogNumber),
        storage: find_reagent_col(headers, ReagentField::Storage),
        appearance: find_reagent_col(headers, ReagentField::Appearance),
        owner: find_reagent_col(headers, ReagentField::Owner),
        added_at: find_reagent_col(headers, ReagentField::AddedAt),
        batch_number: find_reagent_col(headers, ReagentField::BatchNumber),
        quantity_pcs: find_reagent_col(headers, ReagentField::QuantityPcs),
        quantity: find_reagent_col(headers, ReagentField::Quantity),
        units: find_reagent_col(headers, ReagentField::Units),
        expiry_date: find_reagent_col(headers, ReagentField::ExpiryDate),
        location: find_reagent_col(headers, ReagentField::Location),
        hazard: find_reagent_col(headers, ReagentField::Hazard),
    };
    let mut out: Vec<ReagentImportDto> = Vec::new();
    let mut errors: Vec<RowError> = Vec::new();
    let n = rows.len();
    proof {
        assert(tv.take(0) =~= Seq::<Seq<CellModel>>::empty());
        assert(decoded_reagent_views(out@) =~= decoded_reagents(hs, tv.take(0)));
        assert(row_error_views(errors@) =~= reagent_row_errors(hs, tv.take(0)));
    }
    let mut i: usize = 0;
    while i < n
        invariant
            0 <= i <= n,
            n == rows@.len(),
            n + 2 <= usize::MAX,
            hs == header_views(headers@),
            tv == table_views(rows@),
            col_iv(cols.name) == reagent_col(hs, ReagentField::Name),
            col_iv(cols.formula) == reagent_col(hs, ReagentField::Formula),
            col_iv(cols.cas) == reagent_col(hs, ReagentField::Cas),
            col_iv(cols.mol_weight) == reagent_col(hs, ReagentField::MolWeight),
            col_iv(cols.manufacturer) == reagent_col(hs, ReagentField::Manufacturer),
            col_iv(cols.description) == reagent_col(hs, ReagentField::Description),
            col_iv(cols.catalog_number) == reagent_col(hs, ReagentField::CatalogNumber),
            col_iv(cols.storage) == reagent_col(hs, ReagentField::Storage),
            col_iv(cols.appearance) == reagent_col(hs, ReagentField::Appearance),
            col_iv(cols.owner) == reagent_col(hs, ReagentField::Owner),
            col_iv(cols.added_at) == reagent_col(hs, ReagentField::AddedAt),
            col_iv(cols.batch_number) == reagent_col(hs, ReagentField::BatchNumber),
            col_iv(cols.quantity_pcs) == reagent_col(hs, ReagentField::QuantityPcs),
            col_iv(cols.quantity) == reagent_col(hs, ReagentField::Quantity),
            col_iv(cols.units) == reagent_col(hs, ReagentField::Units),
            col_iv(cols.expiry_date) == reagent_col(hs, ReagentField::ExpiryDate),
            col_iv(cols.location) == reagent_col(hs, ReagentField::Location),
            col_iv(cols.hazard) == reagent_col(hs, ReagentField::Hazard),
            decoded_reagent_views(out@) == decoded_reagents(hs, tv.take(i as int)),
            row_error_views(errors@) == reagent_row_errors(hs, tv.take(i as int)),
        decreases n - i,
    {
        let ghost rowv = tv[i as int];
        proof {
            assert(tv[i as int] == rows@[i as int]@.map_values(|c: CellValue| c@));
            assert(tv.take(i + 1).drop_last() =~= tv.take(i as int));
            assert(tv.take(i + 1).last() == tv[i as int]);
        }
        let name_cell = get_cell(&rows[i], &cols.name);
        let formula_cell = get_cell(&rows[i], &cols.formula);
        let cas_cell = get_cell(&rows[i], &cols.cas);
        let mw_cell = get_cell(&rows[i], &cols.mol_weight);
        let manufacturer_cell = get_cell(&rows[i], &cols.manufacturer);
        let description_cell = get_cell(&rows[i], &cols.description);
        let catalog_cell = get_cell(&rows[i], &cols.catalog_number);
        let storage_cell = get_cell(&rows[i], &cols.storage);
        let appearance_cell = get_cell(&rows[i], &cols.appearance);
        let owner_cell = get_cell(&rows[i], &cols.owner);
        let added_cell = get_cell(&rows[i], &cols.added_at);
        let batch_cell = get_cell(&rows[i], &cols.batch_number);
        let qty_pcs_cell = get_cell(&rows[i], &cols.quantity_pcs);
        let qty_cell = get_cell(&rows[i], &cols.quantity);
        let units_cell = get_cell(&rows[i], &cols.units);
        let expiry_cell = get_cell(&rows[i], &cols.expiry_date);
        let location_cell = get_cell(&rows[i], &cols.location);
        let hazard_cell = get_cell(&rows[i], &cols.hazard);
        let name_is_text = match &name_cell {
            CellValue::Text(_) => true,
            _ => false,
        };
        let ok = name_is_text && text_ok_exec(&formula_cell) && text_ok_exec(&cas_cell)
            && num_ok_exec(&mw_cell) && text_ok_exec(&manufacturer_cell) && text_ok_exec(
            &description_cell,
        ) && text_ok_exec(&catalog_cell) && text_ok_exec(&storage_cell) && text_ok_exec(
            &appearance_cell,
        ) && text_ok_exec(&owner_cell) && text_ok_exec(&added_cell) && text_ok_exec(&batch_cell)
            && text_ok_exec(&qty_pcs_cell) && num_ok_exec(&qty_cell) && text_ok_exec(&units_cell)
            && text_ok_exec(&location_cell) && text_ok_exec(&hazard_cell);
        proof {
            assert(ok == reagent_row_ok(hs, rowv));
        }
        if ok {
            let name = match name_cell {
                CellValue::Text(s) => s,
                _ => String::new(),
            };
            let dto = ReagentImportDto {
                name: name,
                formula: opt_text_exec(formula_cell),
                cas_number: opt_text_exec(cas_cell),
                molecular_weight_milli: opt_num_exec(mw_cell),
                manufacturer: opt_text_exec(manufacturer_cell),
                description: opt_text_exec(description_cell),
                catalog_number: opt_text_exec(catalog_cell),
                storage: opt_text_exec(storage_cell),
                appearance: opt_text_exec(appearance_cell),
                owner: opt_text_exec(owner_cell),
                added_at: opt_text_exec(added_cell),
                batch_number: opt_text_exec(batch_cell),
                quantity_pcs: opt_text_exec(qty_pcs_cell),
                quantity_milli: opt_num_exec(qty_cell),
                units: opt_text_exec(units_cell),
                expiry_date: date_exec(expiry_cell),
                location: opt_text_exec(location_cell),
                hazard_pictograms: opt_text_exec(hazard_cell),
            };
            proof {
                assert(dto@ =~= reagent_row_model(hs, rowv));
            }
            out.push(dto);
            proof {
                assert(decoded_reagent_views(out@) =~= decoded_reagents(hs, tv.take(i + 1)));
                assert(row_error_views(errors@) =~= reagent_row_errors(hs, tv.take(i + 1)));
            }
        } else {
            errors.push(RowError { row: i + 2, detail: String::from_str("malformed row") });
            proof {
                assert(decoded_reagent_views(out@) =~= decoded_reagents(hs, tv.take(i + 1)));
                assert(row_error_views(errors@) =~= reagent_row_errors(hs, tv.take(i + 1)));
            }
        }
        i = i + 1;
    }
    proof {
        assert(tv.take(n as int) =~= tv);
    }
    (out, errors)
}


/// The canonical fields of a batch-import row.
#[derive(Clone, Copy, PartialEq, Eq, Structural)]
pub enum BatchField {
    ReagentName,
    BatchNumber,
    Supplier,
    Quantity,
    Units,
    ExpirationDate,
    Location,
    Notes,
}

/// The canonical batch field a normalized header key names, if any.
pub open spec fn batch_field_spec(key: Seq<char>) -> Option<BatchField> {
    if key == "reagent_name"@ || key == "reagent name"@ {
        Some(BatchField::ReagentName)
    } else if key == "batch_number"@ || key == "batch number"@ {
        Some(BatchField::BatchNumber)
    } else if key == "supplier"@ {
        Some(BatchField::Supplier)
    } else if key == "quantity"@ || key == "amount"@ {
        Some(BatchField::Quantity)
    } else if key == "units"@ || key == "unit"@ {
        Some(BatchField::Units)
    } else if key == "expiration_date"@ {
        Some(BatchField::ExpirationDate)
    } else if key == "location"@ {
        Some(BatchField::Location)
    } else if key == "notes"@ {
        Some(BatchField::Notes)
    } else {
        None
    }
}

/// The canonical batch field a header names, executable form.
pub fn batch_field_of(key: &str) -> (r: Option<BatchField>)
    ensures
        r == batch_field_spec(key@),
{
    if str_eq(key, "reagent_name") || str_eq(key, "reagent name") {
        Some(BatchField::ReagentName)
    } else if str_eq(key, "batch_number") || str_eq(key, "batch number") {
        Some(BatchField::BatchNumber)
    } else if str_eq(key, "supplier") {
        Some(BatchField::Supplier)
    } else if str_eq(key, "quantity") || str_eq(key, "amount") {
        Some(BatchField::Quantity)
    } else if str_eq(key, "units") || str_eq(key, "unit") {
        Some(BatchField::Units)
    } else if str_eq(key, "expiration_date") {
        Some(BatchField::ExpirationDate)
    } else if str_eq(key, "location") {
        Some(BatchField::Location)
    } else if str_eq(key, "notes") {
        Some(BatchField::Notes)
    } else {
        None
    }
}

/// The first column whose header names the given batch field.
pub open spec fn batch_col(hs: Seq<Seq<char>>, f: BatchField) -> Option<int>
    decreases hs.len(),
{
    if hs.len() == 0 {
        None
    } else if batch_field_spec(key_seq(hs[0])) == Some(f) {
        Some(0)
    } else {
        match batch_col(hs.drop_first(), f) {
            None => None,
            Some(i) => Some(i + 1),
        }
    }
}

proof fn lemma_batch_col_props(hs: Seq<Seq<char>>, f: BatchField)
    ensures
        match batch_col(hs, f) {
            Some(i) => 0 <= i < hs.len() && batch_field_spec(key_seq(hs[i])) == Some(f)
                && forall|j: int|
                0 <= j < i ==> batch_field_spec(key_seq(#[trigger] hs[j])) != Some(f),
            None => forall|j: int|
                0 <= j < hs.len() ==> batch_field_spec(key_seq(#[trigger] hs[j])) != Some(f),
        },
    decreases hs.len(),
{
    if hs.len() > 0 && batch_field_spec(key_seq(hs[0])) != Some(f) {
        let t = hs.drop_first();
        lemma_batch_col_props(t, f);
        match batch_col(t, f) {
            Some(i) => {
                assert(hs[i + 1] == t[i]);
                assert forall|j: int|
                    0 <= j < i + 1 implies batch_field_spec(key_seq(#[trigger] hs[j]))
                    != Some(f) by {
                    if j > 0 {
                        assert(hs[j] == t[j - 1]);
                    }
                }
            },
            None => {
                assert forall|j: int|
                    0 <= j < hs.len() implies batch_field_spec(key_seq(#[trigger] hs[j]))
                    != Some(f) by {
                    if j > 0 {
                        assert(hs[j] == t[j - 1]);
                    }
                }
            },
        }
    }
}

/// Finds the first column whose header names the given batch field.
pub fn find_batch_col(headers: &Vec<String>, f: BatchField) -> (r: Option<usize>)
    ensures
        col_iv(r) == batch_col(header_views(headers@), f),
{
    let ghost hs = header_views(headers@);
    let n = headers.len();
    let mut i: usize = 0;
    while i < n
        invariant
            0 <= i <= n,
            n == headers@.len(),
            hs == header_views(headers@),
            forall|j: int| 0 <= j < i ==> batch_field_spec(key_seq(#[trigger] hs[j])) != Some(f),
        decreases n - i,
    {
        proof {
            assert(hs[i as int] == headers@[i as int]@);
        }
        let key = normalize_key(headers[i].as_str());
        match batch_field_of(key.as_str()) {
            Some(g) => {
                if g == f {
                    proof {
                        lemma_batch_col_props(hs, f);
                        match batch_col(hs, f) {
                            Some(ip) => {
                                assert(batch_field_spec(key_seq(hs[ip])) == Some(f));
                                assert(!(ip < i as int));
                                assert(!(ip > i as int));
                            },
                            None => {
                                assert(false);
                            },
                        }
                    }
                    return Some(i);
                }
            },
            None => {},
        }
        i = i + 1;
    }
    proof {
        lemma_batch_col_props(hs, f);
    }
    None
}

/// Whether a row decodes as a batch record: reagent name, batch number
/// and unit must hold text, the quantity must hold a number, descriptive
/// cells must not hold numbers.
pub open spec fn batch_row_ok(hs: Seq<Seq<char>>, row: Seq<CellModel>) -> bool {
    &&& cell_at(row, batch_col(hs, BatchField::ReagentName)) is Text
    &&& cell_at(row, batch_col(hs, BatchField::BatchNumber)) is Text
    &&& cell_at(row, batch_col(hs, BatchField::Quantity)) is Num
    &&& cell_at(row, batch_col(hs, BatchField::Units)) is Text
    &&& text_ok(cell_at(row, batch_col(hs, BatchField::Supplier)))
    &&& text_ok(cell_at(row, batch_col(hs, BatchField::Location)))
    &&& text_ok(cell_at(row, batch_col(hs, BatchField::Notes)))
}

/// The batch record a well-formed row decodes to.
pub open spec fn batch_row_model(hs: Seq<Seq<char>>, row: Seq<CellModel>) -> BatchRowModel {
    BatchRowModel {
        reagent_name: match cell_at(row, batch_col(hs, BatchField::ReagentName)) {
            CellModel::Text(s) => s,
            _ => Seq::empty(),
        },
        batch_number: match cell_at(row, batch_col(hs, BatchField::BatchNumber)) {
            CellModel::Text(s) => s,
            _ => Seq::empty(),
        },
        supplier: opt_text_val(cell_at(row, batch_col(hs, BatchField::Supplier))),
        quantity_milli: match cell_at(row, batch_col(hs, BatchField::Quantity)) {
            CellModel::Num(m) => m,
            _ => 0,
        },
        units: match cell_at(row, batch_col(hs, BatchField::Units)) {
            CellModel::Text(s) => s,
            _ => Seq::empty(),
        },
        expiration_date: date_val(cell_at(row, batch_col(hs, BatchField::ExpirationDate))),
        location: opt_text_val(cell_at(row, batch_col(hs, BatchField::Location))),
        notes: opt_text_val(cell_at(row, batch_col(hs, BatchField::Notes))),
    }
}

/// The well-formed rows of a batch table, decoded in order.
pub open spec fn decoded_batches(hs: Seq<Seq<char>>, rows: Seq<Seq<CellModel>>)
    -> Seq<BatchRowModel>
    decreases rows.len(),
{
    if rows.len() == 0 {
        Seq::empty()
    } else {
        let rest = decoded_batches(hs, rows.drop_last());
        if batch_row_ok(hs, rows.last()) {
            rest.push(batch_row_model(hs, rows.last()))
        } else {
            rest
        }
    }
}

/// The collected errors of a batch table's malformed rows.
pub open spec fn batch_row_errors(hs: Seq<Seq<char>>, rows: Seq<Seq<CellModel>>)
    -> Seq<RowErrorModel>
    decreases rows.len(),
{
    if rows.len() == 0 {
        Seq::empty()
    } else {
        let rest = batch_row_errors(hs, rows.drop_last());
        if batch_row_ok(hs, rows.last()) {
            rest
        } else {
            rest.push(RowErrorModel { row: rows.len() as int + 1, detail: "malformed row"@ })
        }
    }
}

/// The views of a vector of decoded batch rows.
pub open spec fn decoded_batch_views(recs: Seq<BatchImportDto>) -> Seq<BatchRowModel> {
    recs.map_values(|r: BatchImportDto| r@)
}

/// Decodes a table of loosely-typed cells into candidate batch records
/// plus row-indexed errors for the malformed rows.
#[verifier::rlimit(100)]
pub fn decode_batch_table(headers: &Vec<String>, rows: &Vec<Vec<CellValue>>) -> (r: (
    Vec<BatchImportDto>,
    Vec<RowError>,
))
    requires
        rows@.len() + 2 <= usize::MAX,
    ensures
        decoded_batch_views(r.0@) == decoded_batches(header_views(headers@), table_views(rows@)),
        row_error_views(r.1@) == batch_row_errors(header_views(headers@), table_views(rows@)),
{
    let ghost hs = header_views(headers@);
    let ghost tv = table_views(rows@);
    let c_name = find_batch_col(headers, BatchField::ReagentName);
    let c_bn = find_batch_col(headers, BatchField::BatchNumber);
    let c_supplier = find_batch_col(headers, BatchField::Supplier);
    let c_qty = find_batch_col(headers, BatchField::Quantity);
    let c_units = find_batch_col(headers, BatchField::Units);
    let c_exp = find_batch_col(headers, BatchField::ExpirationDate);
    let c_loc = find_batch_col(headers, BatchField::Location);
    let c_notes = find_batch_col(headers, BatchField::Notes);
    let mut out: Vec<BatchImportDto> = Vec::new();
    let mut errors: Vec<RowError> = Vec::new();
    let n = rows.len();
    proof {
        assert(tv.take(0) =~= Seq::<Seq<CellModel>>::empty());
        assert(decoded_batch_views(out@) =~= decoded_batches(hs, tv.take(0)));
        assert(row_error_views(errors@) =~= batch_row_errors(hs, tv.take(0)));
    }
    let mut i: usize = 0;
    while i < n
        invariant
            0 <= i <= n,
            n == rows@.len(),
            n + 2 <= usize::MAX,
            hs == header_views(headers@),
            tv == table_views(rows@),
            col_iv(c_name) == batch_col(hs, BatchField::ReagentName),
            col_iv(c_bn) == batch_col(hs, BatchField::BatchNumber),
            col_iv(c_supplier) == batch_col(hs, BatchField::Supplier),
            col_iv(c_qty) == batch_col(hs, BatchField::Quantity),
            col_iv(c_units) == batch_col(hs, BatchField::Units),
            col_iv(c_exp) == batch_col(hs, BatchField::ExpirationDate),
            col_iv(c_loc) == batch_col(hs, BatchField::Location),
            col_iv(c_notes) == batch_col(hs, BatchField::Notes),
            decoded_batch_views(out@) == decoded_batches(hs, tv.take(i as int)),
            row_error_views(errors@) == batch_row_errors(hs, tv.take(i as int)),
        decreases n - i,
    {
        let ghost rowv = tv[i as int];
        proof {
            assert(tv[i as int] == rows@[i as int]@.map_values(|c: CellValue| c@));
            assert(tv.take(i + 1).drop_last() =~= tv.take(i as int));
            assert(tv.take(i + 1).last() == tv[i as int]);
        }
        let name_cell = get_cell(&rows[i], &c_name);
        let bn_cell = get_cell(&rows[i], &c_bn);
        let supplier_cell = get_cell(&rows[i], &c_supplier);
        let qty_cell = get_cell(&rows[i], &c_qty);
        let units_cell = get_cell(&rows[i], &c_units);
        let exp_cell = get_cell(&rows[i], &c_exp);
        let loc_cell = get_cell(&rows[i], &c_loc);
        let notes_cell = get_cell(&rows[i], &c_notes);
        let name_is_text = match &name_cell {
            CellValue::Text(_) => true,
            _ => false,
        };
        let bn_is_text = match &bn_cell {
            CellValue::Text(_) => true,
            _ => false,
        };
        let qty_is_num = match &qty_cell {
            CellValue::Num(_) => true,
            _ => false,
        };
        let units_is_text = match &units_cell {
            CellValue::Text(_) => true,
            _ => false,
        };
        let ok = name_is_text && bn_is_text && qty_is_num && units_is_text && text_ok_exec(
            &supplier_cell,
        ) && text_ok_exec(&loc_cell) && text_ok_exec(&notes_cell);
        proof {
            assert(ok == batch_row_ok(hs, rowv));
        }
        if ok {
            let reagent_name = match name_cell {
                CellValue::Text(s) => s,
                _ => String::new(),
            };
            let batch_number = match bn_cell {
                CellValue::Text(s) => s,
                _ => String::new(),
            };
            let quantity_milli = match qty_cell {
                CellValue::Num(m) => m,
                _ => 0,
            };
            let units = match units_cell {
                CellValue::Text(s) => s,
                _ => String::new(),
            };
            let dto = BatchImportDto {
                reagent_name: reagent_name,
                batch_number: batch_number,
                supplier: opt_text_exec(supplier_cell),
                quantity_milli: quantity_milli,
                units: units,
                expiration_date: date_exec(exp_cell),
                location: opt_text_exec(loc_cell),
                notes: opt_text_exec(notes_cell),
            };
            proof {
                assert(dto@ =~= batch_row_model(hs, rowv));
            }
            out.push(dto);
            proof {
                assert(decoded_batch_views(out@) =~= decoded_batches(hs, tv.take(i + 1)));
                assert(row_error_views(errors@) =~= batch_row_errors(hs, tv.take(i + 1)));
            }
        } else {
            errors.push(RowError { row: i + 2, detail: String::from_str("malformed row") });
            proof {
                assert(decoded_batch_views(out@) =~= decoded_batches(hs, tv.take(i + 1)));
                assert(row_error_views(errors@) =~= batch_row_errors(hs, tv.take(i + 1)));
            }
        }
        i = i + 1;
    }
    proof {
        assert(tv.take(n as int) =~= tv);
    }
    (out, errors)
}


/// The canonical fields of an equipment-import row.
#[derive(Clone, Copy, PartialEq, Eq, Structural)]
pub enum EquipmentField {
    Name,
    Type,
    SerialNumber,
    Manufacturer,
    Quantity,
    Unit,
    Location,
    Description,
}

/// The canonical equipment field a normalized header key names, if any.
pub open spec fn equipment_field_spec(key: Seq<char>) -> Option<EquipmentField> {
    if key == "name"@ {
        Some(EquipmentField::Name)
    } else if key == "type"@ || key == "equipment_type"@ {
        Some(EquipmentField::Type)
    } else if key == "serial_number"@ {
        Some(EquipmentField::SerialNumber)
    } else if key == "manufacturer"@ {
        Some(EquipmentField::Manufacturer)
    } else if key == "quantity"@ {
        Some(EquipmentField::Quantity)
    } else if key == "unit"@ {
        Some(EquipmentField::Unit)
    } else if key == "location"@ {
        Some(EquipmentField::Location)
    } else if key == "description"@ {
        Some(EquipmentField::Description)
    } else {
        None
    }
}

/// The canonical equipment field a header names, executable form.
pub fn equipment_field_of(key: &str) -> (r: Option<EquipmentField>)
    ensures
        r == equipment_field_spec(key@),
{
    if str_eq(key, "name") {
        Some(EquipmentField::Name)
    } else if str_eq(key, "type") || str_eq(key, "equipment_type") {
        Some(EquipmentField::Type)
    } else if str_eq(key, "serial_number") {
        Some(EquipmentField::SerialNumber)
    } else if str_eq(key, "manufacturer") {
        Some(EquipmentField::Manufacturer)
    } else if str_eq(key, "quantity") {
        Some(EquipmentField::Quantity)
    } else if str_eq(key, "unit") {
        Some(EquipmentField::Unit)
    } else if str_eq(key, "location") {
        Some(EquipmentField::Location)
    } else if str_eq(key, "description") {
        Some(EquipmentField::Description)
    } else {
        None
    }
}

/// The first column whose header names the given equipment field.
pub open spec fn equipment_col(hs: Seq<Seq<char>>, f: EquipmentField) -> Option<int>
    decreases hs.len(),
{
    if hs.len() == 0 {
        None
    } else if equipment_field_spec(key_seq(hs[0])) == Some(f) {
        Some(0)
    } else {
        match equipment_col(hs.drop_first(), f) {
            None => None,
            Some(i) => Some(i + 1),
        }
    }
}

proof fn lemma_equipment_col_props(hs: Seq<Seq<char>>, f: EquipmentField)
    ensures
        match equipment_col(hs, f) {
            Some(i) => 0 <= i < hs.len() && equipment_field_spec(key_seq(hs[i])) == Some(f)
                && forall|j: int|
                0 <= j < i ==> equipment_field_spec(key_seq(#[trigger] hs[j])) != Some(f),
            None => forall|j: int|
                0 <= j < hs.len() ==> equipment_field_spec(key_seq(#[trigger] hs[j])) != Some(f),
        },
    decreases hs.len(),
{
    if hs.len() > 0 && equipment_field_spec(key_seq(hs[0])) != Some(f) {
        let t = hs.drop_first();
        lemma_equipment_col_props(t, f);
        match equipment_col(t, f) {
            Some(i) => {
                assert(hs[i + 1] == t[i]);
                assert forall|j: int|
                    0 <= j < i + 1 implies equipment_field_spec(key_seq(#[trigger] hs[j]))
                    != Some(f) by {
                    if j > 0 {
                        assert(hs[j] == t[j - 1]);
                    }
                }
            },
            None => {
                assert forall|j: int|
                    0 <= j < hs.len() implies equipment_field_spec(key_seq(#[trigger] hs[j]))
                    != Some(f) by {
                    if j > 0 {
                        assert(hs[j] == t[j - 1]);
                    }
                }
            },
        }
    }
}

/// Finds the first column whose header names the given equipment field.
pub fn find_equipment_col(headers: &Vec<String>, f: EquipmentField) -> (r: Option<usize>)
    ensures
        col_iv(r) == equipment_col(header_views(headers@), f),
{
    let ghost hs = header_views(headers@);
    let n = headers.len();
    let mut i: usize = 0;
    while i < n
        invariant
            0 <= i <= n,
            n == headers@.len(),
            hs == header_views(headers@),
            forall|j: int|
                0 <= j < i ==> equipment_field_spec(key_seq(#[trigger] hs[j])) != Some(f),
        decreases n - i,
    {
        proof {
            assert(hs[i as int] == headers@[i as int]@);
        }
        let key = normalize_key(headers[i].as_str());
        match equipment_field_of(key.as_str()) {
            Some(g) => {
                if g == f {
                    proof {
                        lemma_equipment_col_props(hs, f);
                        match equipment_col(hs, f) {
                            Some(ip) => {
                                assert(equipment_field_spec(key_seq(hs[ip])) == Some(f));
                                assert(!(ip < i as int));
                                assert(!(ip > i as int));
                            },
                            None => {
                                assert(false);
                            },
                        }
                    }
                    return Some(i);
                }
            },
            None => {},
        }
        i = i + 1;
    }
    proof {
        lemma_equipment_col_props(hs, f);
    }
    None
}

/// A quantity cell of an equipment row: empty, or a whole number that
/// fits the machine integer the record carries.
pub open spec fn equipment_qty_ok(c: CellModel) -> bool {
    match c {
        CellModel::Empty => true,
        CellModel::Text(_) => false,
        CellModel::Num(m) => m % 1000 == 0 && i32::MIN <= m / 1000 <= i32::MAX,
    }
}

/// Whether a row decodes as an equipment record.
pub open spec fn equipment_row_ok(hs: Seq<Seq<char>>, row: Seq<CellModel>) -> bool {
    &&& cell_at(row, equipment_col(hs, EquipmentField::Name)) is Text
    &&& cell_at(row, equipment_col(hs, EquipmentField::Type)) is Text
    &&& text_ok(cell_at(row, equipment_col(hs, EquipmentField::SerialNumber)))
    &&& text_ok(cell_at(row, equipment_col(hs, EquipmentField::Manufacturer)))
    &&& equipment_qty_ok(cell_at(row, equipment_col(hs, EquipmentField::Quantity)))
    &&& text_ok(cell_at(row, equipment_col(hs, EquipmentField::Unit)))
    &&& text_ok(cell_at(row, equipment_col(hs, EquipmentField::Location)))
    &&& text_ok(cell_at(row, equipment_col(hs, EquipmentField::Description)))
}

/// The equipment record a well-formed row decodes to.
pub open spec fn equipment_row_model(hs: Seq<Seq<char>>, row: Seq<CellModel>)
    -> EquipmentRowModel {
    EquipmentRowModel {
        name: match cell_at(row, equipment_col(hs, EquipmentField::Name)) {
            CellModel::Text(s) => s,
            _ => Seq::empty(),
        },
        equipment_type: match cell_at(row, equipment_col(hs, EquipmentField::Type)) {
            CellModel::Text(s) => s,
            _ => Seq::empty(),
        },
        serial_number: opt_text_val(cell_at(row, equipment_col(hs, EquipmentField::SerialNumber))),
        manufacturer: opt_text_val(cell_at(row, equipment_col(hs, EquipmentField::Manufacturer))),
        quantity: match cell_at(row, equipment_col(hs, EquipmentField::Quantity)) {
            CellModel::Num(m) => Some(m / 1000),
            _ => None,
        },
        unit: opt_text_val(cell_at(row, equipment_col(hs, EquipmentField::Unit))),
        location: opt_text_val(cell_at(row, equipment_col(hs, EquipmentField::Location))),
        description: opt_text_val(cell_at(row, equipment_col(hs, EquipmentField::Description))),
    }
}

/// The well-formed rows of an equipment table, decoded in order.
pub open spec fn decoded_equipment(hs: Seq<Seq<char>>, rows: Seq<Seq<CellModel>>)
    -> Seq<EquipmentRowModel>
    decreases rows.len(),
{
    if rows.len() == 0 {
        Seq::empty()
    } else {
        let rest = decoded_equipment(hs, rows.drop_last());
        if equipment_row_ok(hs, rows.last()) {
            rest.push(equipment_row_model(hs, rows.last()))
        } else {
            rest
        }
    }
}

/// The collected errors of an equipment table's malformed rows.
pub open spec fn equipment_row_errors(hs: Seq<Seq<char>>, rows: Seq<Seq<CellModel>>)
    -> Seq<RowErrorModel>
    decreases rows.len(),
{
    if rows.len() == 0 {
        Seq::empty()
    } else {
        let rest = equipment_row_errors(hs, rows.drop_last());
        if equipment_row_ok(hs, rows.last()) {
            rest
        } else {
            rest.push(RowErrorModel { row: rows.len() as int + 1, detail: "malformed row"@ })
        }
    }
}

/// The views of a vector of decoded equipment rows.
pub open spec fn decoded_equipment_views(recs: Seq<EquipmentImportDto>) -> Seq<EquipmentRowModel> {
    recs.map_values(|r: EquipmentImportDto| r@)
}

/// Decodes a table of loosely-typed cells into candidate equipment
/// records plus row-indexed errors for the malformed rows.
#[verifier::rlimit(100)]
pub fn decode_equipment_table(headers: &Vec<String>, rows: &Vec<Vec<CellValue>>) -> (r: (
    Vec<EquipmentImportDto>,
    Vec<RowError>,
))
    requires
        rows@.len() + 2 <= usize::MAX,
    ensures
        decoded_equipment_views(r.0@) == decoded_equipment(
            header_views(headers@),
            table_views(rows@),
        ),
        row_error_views(r.1@) == equipment_row_errors(header_views(headers@), table_views(rows@)),
{
    let ghost hs = header_views(headers@);
    let ghost tv = table_views(rows@);
    let c_name = find_equipment_col(headers, EquipmentField::Name);
    let c_type = find_equipment_col(headers, EquipmentField::Type);
    let c_serial = find_equipment_col(headers, EquipmentField::SerialNumber);
    let c_manu = find_equipment_col(headers, EquipmentField::Manufacturer);
    let c_qty = find_equipment_col(headers, EquipmentField::Quantity);
    let c_unit = find_equipment_col(headers, EquipmentField::Unit);
    let c_loc = find_equipment_col(headers, EquipmentField::Location);
    let c_desc = find_equipment_col(headers, EquipmentField::Description);
    let mut out: Vec<EquipmentImportDto> = Vec::new();
    let mut errors: Vec<RowError> = Vec::new();
    let n = rows.len();
    proof {
        assert(tv.take(0) =~= Seq::<Seq<CellModel>>::empty());
        assert(decoded_equipment_views(out@) =~= decoded_equipment(hs, tv.take(0)));
        assert(row_error_views(errors@) =~= equipment_row_errors(hs, tv.take(0)));
    }
    let mut i: usize = 0;
    while i < n
        invariant
            0 <= i <= n,
            n == rows@.len(),
            n + 2 <= usize::MAX,
            hs == header_views(headers@),
            tv == table_views(rows@),
            col_iv(c_name) == equipment_col(hs, EquipmentField::Name),
            col_iv(c_type) == equipment_col(hs, EquipmentField::Type),
            col_iv(c_serial) == equipment_col(hs, EquipmentField::SerialNumber),
            col_iv(c_manu) == equipment_col(hs, EquipmentField::Manufacturer),
            col_iv(c_qty) == equipment_col(hs, EquipmentField::Quantity),
            col_iv(c_unit) == equipment_col(hs, EquipmentField::Unit),
            col_iv(c_loc) == equipment_col(hs, EquipmentField::Location),
            col_iv(c_desc) == equipment_col(hs, EquipmentField::Description),
            decoded_equipment_views(out@) == decoded_equipment(hs, tv.take(i as int)),
            row_error_views(errors@) == equipment_row_errors(hs, tv.take(i as int)),
        decreases n - i,
    {
        let ghost rowv = tv[i as int];
        proof {
            assert(tv[i as int] == rows@[i as int]@.map_values(|c: CellValue| c@));
            assert(tv.take(i + 1).drop_last() =~= tv.take(i as int));
            assert(tv.take(i + 1).last() == tv[i as int]);
        }
        let name_cell = get_cell(&rows[i], &c_name);
        let type_cell = get_cell(&rows[i], &c_type);
        let serial_cell = get_cell(&rows[i], &c_serial);
        let manu_cell = get_cell(&rows[i], &c_manu);
        let qty_cell = get_cell(&rows[i], &c_qty);
        let unit_cell = get_cell(&rows[i], &c_unit);
        let loc_cell = get_cell(&rows[i], &c_loc);
        let desc_cell = get_cell(&rows[i], &c_desc);
        let name_is_text = match &name_cell {
            CellValue::Text(_) => true,
            _ => false,
        };
        let type_is_text = match &type_cell {
            CellValue::Text(_) => true,
            _ => false,
        };
        let qty_ok = match &qty_cell {
            CellValue::Empty => true,
            CellValue::Text(_) => false,
            CellValue::Num(m) => *m % 1000 == 0 && i32::MIN as i64 <= *m / 1000 && *m / 1000
                <= i32::MAX as i64,
        };
        let ok = name_is_text && type_is_text && text_ok_exec(&serial_cell) && text_ok_exec(
            &manu_cell,
        ) && qty_ok && text_ok_exec(&unit_cell) && text_ok_exec(&loc_cell) && text_ok_exec(
            &desc_cell,
        );
        proof {
            assert(ok == equipment_row_ok(hs, rowv));
        }
        if ok {
            let name = match name_cell {
                CellValue::Text(s) => s,
                _ => String::new(),
            };
            let equipment_type = match type_cell {
                CellValue::Text(s) => s,
                _ => String::new(),
            };
            let quantity: Option<i32> = match qty_cell {
                CellValue::Num(m) => Some((m / 1000) as i32),
                _ => None,
            };
            let dto = EquipmentImportDto {
                name: name,
                equipment_type: equipment_type,
                serial_number: opt_text_exec(serial_cell),
                manufacturer: opt_text_exec(manu_cell),
                quantity: quantity,
                unit: opt_text_exec(unit_cell),
                location: opt_text_exec(loc_cell),
                description: opt_text_exec(desc_cell),
            };
            proof {
                assert(dto@ =~= equipment_row_model(hs, rowv));
            }
            out.push(dto);
            proof {
                assert(decoded_equipment_views(out@) =~= decoded_equipment(hs, tv.take(i + 1)));
                assert(row_error_views(errors@) =~= equipment_row_errors(hs, tv.take(i + 1)));
            }
        } else {
            errors.push(RowError { row: i + 2, detail: String::from_str("malformed row") });
            proof {
                assert(decoded_equipment_views(out@) =~= decoded_equipment(hs, tv.take(i + 1)));
                assert(row_error_views(errors@) =~= equipment_row_errors(hs, tv.take(i + 1)));
            }
        }
        i = i + 1;
    }
    proof {
        assert(tv.take(n as int) =~= tv);
    }
    (out, errors)
}

} // verus!
