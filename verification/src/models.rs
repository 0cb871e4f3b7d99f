//! Request shapes of the equipment endpoints: plain projections of the
//! caller-supplied bodies, handed in by the shell around the library.

use vstd::prelude::*;

verus! {

/// A request to create an equipment item.
pub struct CreateEquipmentRequest {
    pub name: String,
    pub type_: String,
    pub quantity: i32,
    pub unit: Option<String>,
    pub location: Option<String>,
    pub description: Option<String>,
    pub serial_number: Option<String>,
    pub manufacturer: Option<String>,
    pub model: Option<String>,
    pub purchase_date: Option<String>,
    pub warranty_until: Option<String>,
}

/// A request to create an equipment item, with the wider list of
/// accepted types.
pub struct CreateEquipmentRequestExtended {
    pub name: String,
    pub type_: String,
    pub quantity: i32,
    pub unit: Option<String>,
    pub location: Option<String>,
    pub description: Option<String>,
    pub serial_number: Option<String>,
    pub manufacturer: Option<String>,
    pub model: Option<String>,
    pub purchase_date: Option<String>,
    pub warranty_until: Option<String>,
}

/// A request to update an equipment item.
pub struct UpdateEquipmentRequest {
    pub name: Option<String>,
    pub unit: Option<String>,
    pub location: Option<String>,
    pub description: Option<String>,
    pub status: Option<String>,
    pub quantity: Option<i32>,
    pub serial_number: Option<String>,
    pub manufacturer: Option<String>,
    pub model: Option<String>,
    pub purchase_date: Option<String>,
    pub warranty_until: Option<String>,
}

/// A request to create a spare part of an equipment item.
pub struct CreateEquipmentPartRequest {
    pub name: String,
    pub part_number: Option<String>,
    pub manufacturer: Option<String>,
    pub quantity: Option<i32>,
    pub min_quantity: Option<i32>,
    pub status: Option<String>,
    pub last_replaced: Option<String>,
    pub next_replacement: Option<String>,
    pub notes: Option<String>,
}

/// A request to update a spare part.
pub struct UpdateEquipmentPartRequest {
    pub name: Option<String>,
    pub part_number: Option<String>,
    pub manufacturer: Option<String>,
    pub quantity: Option<i32>,
    pub min_quantity: Option<i32>,
    pub status: Option<String>,
    pub last_replaced: Option<String>,
    pub next_replacement: Option<String>,
    pub notes: Option<String>,
}

/// A request to mark a maintenance record completed.
pub struct CompleteMaintenanceRequest {
    pub completed_date: Option<String>,
    pub performed_by: Option<String>,
    pub notes: Option<String>,
}

/// A query for upcoming maintenance.
pub struct UpcomingMaintenanceQuery {
    pub days: Option<i32>,
    pub limit: Option<i32>,
}

/// A request accompanying an uploaded equipment file.
pub struct UploadFileRequest {
    pub file_type: Option<String>,
    pub description: Option<String>,
}

} // verus!
