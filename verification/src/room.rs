//! Room entities: the status enumeration with its textual forms, and
//! the create/update request shapes.

use vstd::prelude::*;
use crate::ext::lowercase;
use crate::text::{lower_of, str_eq};

verus! {

/// The lifecycle status of a room.
#[derive(Debug, Clone, Copy, PartialEq, Eq, Structural)]
pub enum RoomStatus {
    Available,
    Reserved,
    Occupied,
    Maintenance,
    Unavailable,
}

/// The canonical text of a room status.
pub open spec fn room_status_text(s: RoomStatus) -> Seq<char> {
    match s {
        RoomStatus::Available => "available"@,
        RoomStatus::Reserved => "reserved"@,
        RoomStatus::Occupied => "occupied"@,
        RoomStatus::Maintenance => "maintenance"@,
        RoomStatus::Unavailable => "unavailable"@,
    }
}

/// The status named by a string, compared case-insensitively.
pub open spec fn room_status_of(s: Seq<char>) -> Option<RoomStatus> {
    let f = lower_of(s);
    if f == "available"@ {
        Some(RoomStatus::Available)
    } else if f == "reserved"@ {
        Some(RoomStatus::Reserved)
    } else if f == "occupied"@ {
        Some(RoomStatus::Occupied)
    } else if f == "maintenance"@ {
        Some(RoomStatus::Maintenance)
    } else if f == "unavailable"@ {
        Some(RoomStatus::Unavailable)
    } else {
        None
    }
}

impl RoomStatus {
    /// The canonical text of this status.
    pub fn as_str(&self) -> (r: &'static str)
        ensures
            r@ == room_status_text(*self),
    {
        match self {
            RoomStatus::Available => "available",
            RoomStatus::Reserved => "reserved",
            RoomStatus::Occupied => "occupied",
            RoomStatus::Maintenance => "maintenance",
            RoomStatus::Unavailable => "unavailable",
        }
    }

    /// Parses a status name, case-insensitively.
    pub fn from_str(s: &str) -> (r: Option<RoomStatus>)
        ensures
            r == room_status_of(s@),
    {
        let f = lowercase(s);
        if str_eq(f.as_str(), "available") {
            Some(RoomStatus::Available)
        } else if str_eq(f.as_str(), "reserved") {
            Some(RoomStatus::Reserved)
        } else if str_eq(f.as_str(), "occupied") {
            Some(RoomStatus::Occupied)
        } else if str_eq(f.as_str(), "maintenance") {
            Some(RoomStatus::Maintenance)
        } else if str_eq(f.as_str(), "unavailable") {
            Some(RoomStatus::Unavailable)
        } else {
            None
        }
    }

    /// Whether a string names a status.
    pub fn is_valid(s: &str) -> (r: bool)
        ensures
            r == (room_status_of(s@) is Some),
    {
        Self::from_str(s).is_some()
    }

    /// Every status name, in declaration order.
    pub fn all_values() -> (r: Vec<&'static str>)
        ensures
            r@.len() == 5,
            r@[0]@ == "available"@,
            r@[1]@ == "reserved"@,
            r@[2]@ == "occupied"@,
            r@[3]@ == "maintenance"@,
            r@[4]@ == "unavailable"@,
    {
        let mut v: Vec<&'static str> = Vec::new();
        v.push("available");
        v.push("reserved");
        v.push("occupied");
        v.push("maintenance");
        v.push("unavailable");
        v
    }
}

impl Default for RoomStatus {
    /// The status a room starts in.
    fn default() -> (r: RoomStatus)
        ensures
            r == RoomStatus::Available,
    {
        RoomStatus::Available
    }
}

/// A request to create a room.
pub struct CreateRoomRequest {
    pub name: String,
    pub description: Option<String>,
    pub capacity: Option<i32>,
    pub color: Option<String>,
}

/// A request to update a room.
pub struct UpdateRoomRequest {
    pub name: Option<String>,
    pub description: Option<String>,
    pub capacity: Option<i32>,
    pub color: Option<String>,
    pub status: Option<String>,
}

/// A rejected room-status value.
pub struct RoomStatusError {
    pub code: &'static str,
    pub message: &'static str,
}

/// Accepts exactly the strings that name a room status; a rejection
/// carries the fixed code and message the boundary reports.
pub fn validate_room_status(value: &str) -> (r: Result<(), RoomStatusError>)
    ensures
        r is Ok <==> room_status_of(value@) is Some,
        r matches Err(e) ==> e.code@ == "invalid_room_status"@ && e.message@
            == "Room status must be 'available', 'reserved', 'occupied', 'maintenance', or 'unavailable'"@,
{
    if RoomStatus::is_valid(value) {
        Ok(())
    } else {
        Err(
            RoomStatusError {
                code: "invalid_room_status",
                message: "Room status must be 'available', 'reserved', 'occupied', 'maintenance', or 'unavailable'",
            },
        )
    }
}

} // verus!
