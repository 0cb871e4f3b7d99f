//! Candidate records: loosely-validated projections of external input
//! onto canonical field names.  They are produced by the row decoder (or
//! by the shell around the library, for structured JSON bodies) and
//! consumed by the reconciliation engine; they are never persisted
//! directly.  Quantities and molecular weights are carried in thousandths
//! of a unit, so fractional amounts survive without floating point.

use vstd::prelude::*;
use crate::dates::opt_sv;
use crate::store::{opt_iv, ReagentFieldsModel};

verus! {

/// One candidate reagent-import row, possibly carrying an embedded
/// initial batch.
pub struct ReagentImportDto {
    pub name: String,
    pub formula: Option<String>,
    pub cas_number: Option<String>,
    pub molecular_weight_milli: Option<i64>,
    pub manufacturer: Option<String>,
    pub description: Option<String>,
    pub catalog_number: Option<String>,
    pub storage: Option<String>,
    pub appearance: Option<String>,
    pub owner: Option<String>,
    pub added_at: Option<String>,
    pub batch_number: Option<String>,
    pub quantity_pcs: Option<String>,
    pub quantity_milli: Option<i64>,
    pub units: Option<String>,
    pub expiry_date: Option<String>,
    pub location: Option<String>,
    pub hazard_pictograms: Option<String>,
}

/// The mathematical view of a reagent-import row.
#[verifier::ext_equal]
pub ghost struct ReagentRowModel {
    pub name: Seq<char>,
    pub formula: Option<Seq<char>>,
    pub cas_number: Option<Seq<char>>,
    pub molecular_weight_milli: Option<int>,
    pub manufacturer: Option<Seq<char>>,
    pub description: Option<Seq<char>>,
    pub catalog_number: Option<Seq<char>>,
    pub storage: Option<Seq<char>>,
    pub appearance: Option<Seq<char>>,
    pub owner: Option<Seq<char>>,
    pub added_at: Option<Seq<char>>,
    pub batch_number: Option<Seq<char>>,
    pub quantity_pcs: Option<Seq<char>>,
    pub quantity_milli: Option<int>,
    pub units: Option<Seq<char>>,
    pub expiry_date: Option<Seq<char>>,
    pub location: Option<Seq<char>>,
    pub hazard_pictograms: Option<Seq<char>>,
}

impl View for ReagentImportDto {
    type V = ReagentRowModel;

    open spec fn view(&self) -> ReagentRowModel {
        ReagentRowModel {
            name: self.name@,
            formula: opt_sv(self.formula),
            cas_number: opt_sv(self.cas_number),
            molecular_weight_milli: opt_iv(self.molecular_weight_milli),
            manufacturer: opt_sv(self.manufacturer),
            description: opt_sv(self.description),
            catalog_number: opt_sv(self.catalog_number),
            storage: opt_sv(self.storage),
            appearance: opt_sv(self.appearance),
            owner: opt_sv(self.owner),
            added_at: opt_sv(self.added_at),
            batch_number: opt_sv(self.batch_number),
            quantity_pcs: opt_sv(self.quantity_pcs),
            quantity_milli: opt_iv(self.quantity_milli),
            units: opt_sv(self.units),
            expiry_date: opt_sv(self.expiry_date),
            location: opt_sv(self.location),
            hazard_pictograms: opt_sv(self.hazard_pictograms),
        }
    }
}

/// The descriptive fields a reagent row proposes for the reagent entity.
pub open spec fn reagent_fields_of(r: ReagentRowModel) -> ReagentFieldsModel {
    ReagentFieldsModel {
        formula: r.formula,
        cas_number: r.cas_number,
        manufacturer: r.manufacturer,
        description: r.description,
        storage_conditions: r.storage,
        appearance: r.appearance,
        hazard_pictograms: r.hazard_pictograms,
        molecular_weight_milli: r.molecular_weight_milli,
    }
}

/// One candidate batch-import row.
pub struct BatchImportDto {
    pub reagent_name: String,
    pub batch_number: String,
    pub supplier: Option<String>,
    pub quantity_milli: i64,
    pub units: String,
    pub expiration_date: Option<String>,
    pub location: Option<String>,
    pub notes: Option<String>,
}

/// The mathematical view of a batch-import row.
#[verifier::ext_equal]
pub ghost struct BatchRowModel {
    pub reagent_name: Seq<char>,
    pub batch_number: Seq<char>,
    pub supplier: Option<Seq<char>>,
    pub quantity_milli: int,
    pub units: Seq<char>,
    pub expiration_date: Option<Seq<char>>,
    pub location: Option<Seq<char>>,
    pub notes: Option<Seq<char>>,
}

impl View for BatchImportDto {
    type V = BatchRowModel;

    open spec fn view(&self) -> BatchRowModel {
        BatchRowModel {
            reagent_name: self.reagent_name@,
            batch_number: self.batch_number@,
            supplier: opt_sv(self.supplier),
            quantity_milli: self.quantity_milli as int,
            units: self.units@,
            expiration_date: opt_sv(self.expiration_date),
            location: opt_sv(self.location),
            notes: opt_sv(self.notes),
        }
    }
}

/// One candidate equipment-import row.
pub struct EquipmentImportDto {
    pub name: String,
    pub equipment_type: String,
    pub serial_number: Option<String>,
    pub manufacturer: Option<String>,
    pub quantity: Option<i32>,
    pub unit: Option<String>,
    pub location: Option<String>,
    pub description: Option<String>,
}

/// The mathematical view of an equipment-import row.
#[verifier::ext_equal]
pub ghost struct EquipmentRowModel {
    pub name: Seq<char>,
    pub equipment_type: Seq<char>,
    pub serial_number: Option<Seq<char>>,
    pub manufacturer: Option<Seq<char>>,
    pub quantity: Option<int>,
    pub unit: Option<Seq<char>>,
    pub location: Option<Seq<char>>,
    pub description: Option<Seq<char>>,
}

impl View for EquipmentImportDto {
    type V = EquipmentRowModel;

    open spec fn view(&self) -> EquipmentRowModel {
        EquipmentRowModel {
            name: self.name@,
            equipment_type: self.equipment_type@,
            serial_number: opt_sv(self.serial_number),
            manufacturer: opt_sv(self.manufacturer),
            quantity: match self.quantity {
                None => None,
                Some(q) => Some(q as int),
            },
            unit: opt_sv(self.unit),
            location: opt_sv(self.location),
            description: opt_sv(self.description),
        }
    }
}

} // verus!
