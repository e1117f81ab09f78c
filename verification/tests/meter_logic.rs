use frontend::i18n::Catalog;
use frontend::meters::{
    building_filter, calibration_status, filter_meters, meter_matches_calibration,
    meter_matches_search, meter_update_request, new_meter_request, optional_field,
    parse_due_date, reading_request, reading_source_badge, require_field,
    validate_meter_registration, MeterWithApartment,
};

const EN: &str = "properties-not-set = Not set\nmeters-unknown = Unknown\nmeters-overdue-by-days = Overdue by { $days } days\nmeters-due-in-days = Due in { $days } days\nmeters-valid-days = Valid ({ $days } days)\n";

fn badge_catalog() -> Catalog {
    Catalog::new(vec![("en".to_string(), EN.to_string())]).unwrap()
}

fn meter(id: u64, serial: &str, building: Option<u64>, due: Option<&str>) -> MeterWithApartment {
    MeterWithApartment {
        id,
        apartment_id: 1,
        meter_type: "ColdWater".to_string(),
        serial_number: serial.to_string(),
        installation_date: None,
        calibration_due_date: due.map(|s| s.to_string()),
        last_calibration_date: None,
        is_active: true,
        apartment_number: Some("12A".to_string()),
        building_id: building,
        building_address: Some("Main Street 5".to_string()),
        last_reading_value: None,
        last_reading_timestamp: None,
        last_reading_unit: None,
    }
}

#[test]
fn due_dates_are_read() {
    assert_eq!(parse_due_date("2025-03-31"), Some((2025, 3, 31)));
    assert_eq!(parse_due_date("2025-3"), None);
    assert_eq!(parse_due_date("2025-xx-01"), None);
    assert_eq!(parse_due_date("-1-2-3"), None);
    assert_eq!(parse_due_date(""), None);
}

#[test]
fn calibration_badges() {
    let c = badge_catalog();
    let (cls, text) = calibration_status(&c, &None, 0);
    assert_eq!((cls, text.as_str()), ("badge bg-secondary", "Not set"));
    let (cls, text) = calibration_status(&c, &Some("soon".to_string()), 0);
    assert_eq!((cls, text.as_str()), ("badge bg-secondary", "Unknown"));
    let due = Some("2025-01-01".to_string());
    let (cls, text) = calibration_status(&c, &due, -5);
    assert_eq!((cls, text.as_str()), ("badge bg-danger", "Overdue by \u{2068}5\u{2069} days"));
    let (cls, text) = calibration_status(&c, &due, 30);
    assert_eq!((cls, text.as_str()), ("badge bg-warning text-dark", "Due in \u{2068}30\u{2069} days"));
    let (cls, text) = calibration_status(&c, &due, 31);
    assert_eq!((cls, text.as_str()), ("badge bg-success", "Valid (\u{2068}31\u{2069} days)"));
    let (cls, _) = calibration_status(&c, &due, 0);
    assert_eq!(cls, "badge bg-warning text-dark");
}

#[test]
fn search_is_case_insensitive() {
    let m = meter(1, "SN-ABC", None, None);
    assert!(meter_matches_search(&m, ""));
    assert!(meter_matches_search(&m, "abc"));
    assert!(meter_matches_search(&m, "COLD"));
    assert!(meter_matches_search(&m, "12a"));
    assert!(meter_matches_search(&m, "main street"));
    assert!(!meter_matches_search(&m, "hot"));
    let u = meter(2, "ÁBC-Straße", None, None);
    assert!(meter_matches_search(&u, "ábc-strasse") == false);
    assert!(meter_matches_search(&u, "ÁbC-STRAßE"));
}

#[test]
fn building_choice() {
    assert_eq!(building_filter(""), None);
    assert_eq!(building_filter("4"), Some(4));
    assert_eq!(building_filter("x"), None);
}

#[test]
fn calibration_filter() {
    let m = meter(1, "A", None, Some("2025-01-01"));
    assert!(meter_matches_calibration(&m, "overdue", -1));
    assert!(!meter_matches_calibration(&m, "overdue", 0));
    assert!(meter_matches_calibration(&m, "due_soon", 0));
    assert!(meter_matches_calibration(&m, "due_soon", 30));
    assert!(!meter_matches_calibration(&m, "due_soon", 31));
    assert!(meter_matches_calibration(&m, "valid", 31));
    assert!(meter_matches_calibration(&m, "", -100));
    let n = meter(2, "B", None, None);
    assert!(!meter_matches_calibration(&n, "overdue", -1));
    assert!(!meter_matches_calibration(&n, "valid", 100));
    assert!(meter_matches_calibration(&n, "all", 0));
}

#[test]
fn list_filtering_keeps_order() {
    let meters = vec![
        meter(1, "AAA", Some(1), Some("2025-01-01")),
        meter(2, "BBB", Some(2), Some("2025-01-01")),
        meter(3, "AAB", Some(1), None),
        meter(4, "AAC", Some(1), Some("2025-01-01")),
    ];
    let days = vec![-3, -3, 0, 50];
    assert_eq!(filter_meters(&meters, &days, "", "", ""), vec![0, 1, 2, 3]);
    assert_eq!(filter_meters(&meters, &days, "aa", "", ""), vec![0, 2, 3]);
    assert_eq!(filter_meters(&meters, &days, "aa", "1", "overdue"), vec![0]);
    assert_eq!(filter_meters(&meters, &days, "", "1", "valid"), vec![3]);
    assert_eq!(filter_meters(&meters, &days, "", "2", ""), vec![1]);
    assert_eq!(filter_meters(&meters, &days, "zzz", "", ""), Vec::<usize>::new());
}

#[test]
fn reading_sources() {
    assert_eq!(reading_source_badge("Webhook"), "badge bg-info");
    assert_eq!(reading_source_badge("Manual"), "badge bg-secondary");
}

#[test]
fn registration_checks() {
    assert_eq!(validate_meter_registration("", "SN1"), Err("Please select an apartment"));
    assert_eq!(validate_meter_registration("", " "), Err("Please select an apartment"));
    assert_eq!(validate_meter_registration("3", "  "), Err("Serial number is required"));
    assert_eq!(validate_meter_registration("x", "SN1"), Err("Invalid apartment selected"));
    assert_eq!(validate_meter_registration("3", "SN1"), Ok(3));
}

#[test]
fn optional_and_required_fields() {
    assert_eq!(optional_field(""), None);
    assert_eq!(optional_field(" a").as_deref(), Some(" a"));
    assert_eq!(require_field(" ", "meters-value-required"), Err("meters-value-required"));
    assert_eq!(require_field("12.5", "meters-value-required"), Ok(()));
}

#[test]
fn registration_requests() {
    assert_eq!(new_meter_request("", "Gas", "SN", "", "").err(), Some("Please select an apartment"));
    assert_eq!(new_meter_request("2", "Gas", " ", "", "").err(), Some("Serial number is required"));
    assert_eq!(new_meter_request("z", "Gas", "SN", "", "").err(), Some("Invalid apartment selected"));
    let m = new_meter_request("2", "Gas", "SN-9", "2024-01-01", "").unwrap();
    assert_eq!(m.apartment_id, 2);
    assert_eq!(m.meter_type, "Gas");
    assert_eq!(m.serial_number, "SN-9");
    assert_eq!(m.installation_date.as_deref(), Some("2024-01-01"));
    assert_eq!(m.calibration_due_date, None);
}

#[test]
fn edit_requests() {
    assert_eq!(meter_update_request("Gas", "  ", true, "", "").err(), Some("meters-serial-required"));
    let u = meter_update_request("Gas", "SN", false, "", "2026-05-01").unwrap();
    assert_eq!(u.meter_type.as_deref(), Some("Gas"));
    assert_eq!(u.serial_number.as_deref(), Some("SN"));
    assert_eq!(u.is_visible_to_renters, Some(false));
    assert_eq!(u.installation_date, None);
    assert_eq!(u.calibration_due_date.as_deref(), Some("2026-05-01"));
}

#[test]
fn reading_requests() {
    assert_eq!(reading_request(" ", "m3").err(), Some("meters-reading-required"));
    let r = reading_request("12.5", "kWh").unwrap();
    assert_eq!(r.reading_value, "12.5");
    assert_eq!(r.unit, "kWh");
    assert_eq!(r.timestamp, None);
}

#[test]
fn no_filter_lists_every_meter() {
    let meters = vec![meter(1, "A", Some(1), None), meter(2, "B", None, Some("2025-01-01"))];
    assert_eq!(filter_meters(&meters, &vec![0, -9], "", "", "all"), vec![0, 1]);
}
