use lims_ingest::room::{validate_room_status, RoomStatus};

#[test]
fn status_round_trips_through_text() {
    for s in [
        RoomStatus::Available,
        RoomStatus::Reserved,
        RoomStatus::Occupied,
        RoomStatus::Maintenance,
        RoomStatus::Unavailable,
    ] {
        assert_eq!(RoomStatus::from_str(s.as_str()), Some(s));
    }
}

#[test]
fn status_parsing_ignores_case() {
    assert_eq!(RoomStatus::from_str("AVAILABLE"), Some(RoomStatus::Available));
    assert_eq!(RoomStatus::from_str("Maintenance"), Some(RoomStatus::Maintenance));
    assert_eq!(RoomStatus::from_str("broom closet"), None);
}

#[test]
fn status_validity() {
    assert!(RoomStatus::is_valid("reserved"));
    assert!(!RoomStatus::is_valid(""));
}

#[test]
fn all_status_names_in_order() {
    assert_eq!(
        RoomStatus::all_values(),
        vec!["available", "reserved", "occupied", "maintenance", "unavailable"]
    );
}

#[test]
fn default_status_is_available() {
    assert_eq!(RoomStatus::default(), RoomStatus::Available);
}

#[test]
fn room_status_validation_reports_fixed_error() {
    assert!(validate_room_status("occupied").is_ok());
    let err = validate_room_status("loud").err().unwrap();
    assert_eq!(err.code, "invalid_room_status");
    assert_eq!(
        err.message,
        "Room status must be 'available', 'reserved', 'occupied', 'maintenance', or 'unavailable'"
    );
}
