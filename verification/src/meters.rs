//! Meters: reading a calibration due date, the badge it earns, the filters
//! of the meter list, and the checks of the meter forms.
use vstd::prelude::*;
use crate::announcements::opt_is;
use crate::i18n::{t, t_with_args, arg_views, Catalog};
use crate::text::{
    chars_of, contains_seq, i64_to_string, lowercase, parse_i32, parse_i32_spec, parse_u32,
    parse_u32_spec, parse_u64, parse_u64_spec, signed_decimal, split_chars, split_on, str_contains,
    str_is, str_is_blank, string_from, string_of, to_lowercase, is_blank,
};

verus! {

/// A meter as the meter list shows it.
pub struct MeterWithApartment {
    pub id: u64,
    pub apartment_id: u64,
    pub meter_type: String,
    pub serial_number: String,
    pub installation_date: Option<String>,
    pub calibration_due_date: Option<String>,
    pub last_calibration_date: Option<String>,
    pub is_active: bool,
    pub apartment_number: Option<String>,
    pub building_id: Option<u64>,
    pub building_address: Option<String>,
    pub last_reading_value: Option<String>,
    pub last_reading_timestamp: Option<String>,
    pub last_reading_unit: Option<String>,
}

// ---------------------------------------------------------------------
// Due dates
// ---------------------------------------------------------------------

/// A `YYYY-MM-DD` date: three `-`-separated parts that read as a signed
/// year and unsigned month and day.
pub open spec fn due_date_spec(s: Seq<char>) -> Option<(i32, u32, u32)> {
    let parts = split_on(s, '-');
    if parts.len() != 3 {
        None
    } else {
        match (parse_i32_spec(parts[0]), parse_u32_spec(parts[1]), parse_u32_spec(parts[2])) {
            (Some(y), Some(m), Some(d)) => Some((y, m, d)),
            _ => None,
        }
    }
}

/// The year, month and day of a due date.
pub fn parse_due_date(s: &str) -> (r: Option<(i32, u32, u32)>)
    ensures
        r == due_date_spec(s@),
{
    let v = chars_of(s);
    let parts = split_chars(&v, '-');
    if parts.len() != 3 {
        return None;
    }
    let p0 = string_of(parts[0].as_slice());
    let p1 = string_of(parts[1].as_slice());
    let p2 = string_of(parts[2].as_slice());
    match (parse_i32(p0.as_str()), parse_u32(p1.as_str()), parse_u32(p2.as_str())) {
        (Some(y), Some(m), Some(d)) => Some((y, m, d)),
        _ => None,
    }
}

/// Whether a meter's due date is set and reads as a date.
pub open spec fn has_due_date(due: Option<String>) -> bool {
    match due {
        Some(d) => due_date_spec(d@) is Some,
        None => false,
    }
}

/// The badge for a due date `days_until` days away (negative when past).
pub open spec fn badge_for_days(days_until: int) -> Seq<char> {
    if days_until < 0 {
        "badge bg-danger"@
    } else if days_until <= 30 {
        "badge bg-warning text-dark"@
    } else {
        "badge bg-success"@
    }
}

/// The message for a due date `days_until` days away.
pub open spec fn message_key_for_days(days_until: int) -> Seq<char> {
    if days_until < 0 {
        "meters-overdue-by-days"@
    } else if days_until <= 30 {
        "meters-due-in-days"@
    } else {
        "meters-valid-days"@
    }
}

/// The number of days that message shows: how long ago for a past date.
pub open spec fn shown_days(days_until: int) -> int {
    if days_until < 0 {
        -days_until
    } else {
        days_until
    }
}

/// The calibration badge of a meter: its class and its text. Without a
/// due date the badge says the date is not set; with one that does not
/// read as a date it says the status is unknown; otherwise the date is
/// `days_until` days away, and the badge says it is overdue, due soon
/// (within 30 days) or valid.
pub fn calibration_status(catalog: &Catalog, due: &Option<String>, days_until: i32) -> (r: (
    &'static str,
    String,
))
    requires
        days_until > i32::MIN,
    ensures
        match due {
            None => r.0@ == "badge bg-secondary"@ && r.1@ == catalog@.translate(
                "properties-not-set"@,
                None,
            ),
            Some(d) => if due_date_spec(d@) is None {
                r.0@ == "badge bg-secondary"@ && r.1@ == catalog@.translate(
                    "meters-unknown"@,
                    None,
                )
            } else {
                r.0@ == badge_for_days(days_until as int) && r.1@ == catalog@.translate(
                    message_key_for_days(days_until as int),
                    Some(seq![("days"@, signed_decimal(shown_days(days_until as int)))]),
                )
            },
        },
{
    proof {
        reveal_strlit("badge bg-secondary");
        reveal_strlit("badge bg-danger");
        reveal_strlit("badge bg-warning text-dark");
        reveal_strlit("badge bg-success");
    }
    match due {
        None => ("badge bg-secondary", t(catalog, "properties-not-set")),
        Some(d) => {
            match parse_due_date(d.as_str()) {
                None => ("badge bg-secondary", t(catalog, "meters-unknown")),
                Some(_) => {
                    let shown: i32 = if days_until < 0 {
                        -days_until
                    } else {
                        days_until
                    };
                    let n = i64_to_string(shown as i64);
                    let args: [(&str, &str); 1] = [("days", n.as_str())];
                    proof {
                        assert(arg_views(args@) =~= seq![("days"@, n@)]);
                    }
                    if days_until < 0 {
                        ("badge bg-danger", t_with_args(catalog, "meters-overdue-by-days", args.as_slice()))
                    } else if days_until <= 30 {
                        ("badge bg-warning text-dark", t_with_args(catalog, "meters-due-in-days", args.as_slice()))
                    } else {
                        ("badge bg-success", t_with_args(catalog, "meters-valid-days", args.as_slice()))
                    }
                },
            }
        },
    }
}

// ---------------------------------------------------------------------
// The meter list's filters
// ---------------------------------------------------------------------

/// Whether `field` holds `query` once lowercased.
pub open spec fn field_matches(field: Seq<char>, query: Seq<char>) -> bool {
    contains_seq(lowercase(field), query)
}

pub open spec fn opt_field_matches(field: Option<String>, query: Seq<char>) -> bool {
    match field {
        Some(f) => field_matches(f@, query),
        None => false,
    }
}

/// Whether a meter matches the search text: an empty search matches every
/// meter; otherwise the lowercased search must occur in the lowercased
/// serial number, type, apartment number or building address.
pub open spec fn search_matches(m: MeterWithApartment, search: Seq<char>) -> bool {
    let q = lowercase(search);
    q.len() == 0 || field_matches(m.serial_number@, q) || field_matches(m.meter_type@, q)
        || opt_field_matches(m.apartment_number, q) || opt_field_matches(m.building_address, q)
}

fn lower_contains(field: &str, q: &str) -> (r: bool)
    ensures
        r == field_matches(field@, q@),
{
    let l = to_lowercase(field);
    str_contains(l.as_str(), q)
}

fn opt_lower_contains(field: &Option<String>, q: &str) -> (r: bool)
    ensures
        r == opt_field_matches(*field, q@),
{
    match field {
        Some(f) => lower_contains(f.as_str(), q),
        None => false,
    }
}

/// Whether `meter` matches the search text.
pub fn meter_matches_search(meter: &MeterWithApartment, search: &str) -> (r: bool)
    ensures
        r == search_matches(*meter, search@),
{
    let q = to_lowercase(search);
    q.as_str().is_empty() || lower_contains(meter.serial_number.as_str(), q.as_str()) || lower_contains(
        meter.meter_type.as_str(),
        q.as_str(),
    ) || opt_lower_contains(&meter.apartment_number, q.as_str()) || opt_lower_contains(
        &meter.building_address,
        q.as_str(),
    )
}

/// The building chosen in the filter: none for "all buildings" (the empty
/// choice) or a choice that is not a number.
pub fn building_filter(choice: &str) -> (r: Option<u64>)
    ensures
        r == (if choice@.len() == 0 {
            None
        } else {
            parse_u64_spec(choice@)
        }),
{
    if choice.is_empty() {
        None
    } else {
        parse_u64(choice)
    }
}

/// Whether a meter passes the calibration filter, its due date being
/// `days_until` days away when it has one: `overdue` wants a past date,
/// `due_soon` one within 30 days, `valid` one further off, and any other
/// choice passes every meter. A meter without a readable date passes only
/// the latter.
pub open spec fn calibration_matches(
    filter: Seq<char>,
    due: Option<String>,
    days_until: int,
) -> bool {
    if filter == "overdue"@ {
        has_due_date(due) && days_until < 0
    } else if filter == "due_soon"@ {
        has_due_date(due) && 0 <= days_until <= 30
    } else if filter == "valid"@ {
        has_due_date(due) && days_until > 30
    } else {
        true
    }
}

fn due_date_readable(due: &Option<String>) -> (r: bool)
    ensures
        r == has_due_date(*due),
{
    match due {
        Some(d) => parse_due_date(d.as_str()).is_some(),
        None => false,
    }
}

/// Whether `meter` passes the calibration filter.
pub fn meter_matches_calibration(meter: &MeterWithApartment, filter: &str, days_until: i32) -> (r:
    bool)
    ensures
        r == calibration_matches(filter@, meter.calibration_due_date, days_until as int),
{
    proof {
        reveal_strlit("overdue");
        reveal_strlit("due_soon");
        reveal_strlit("valid");
    }
    if str_is(filter, "overdue") {
        due_date_readable(&meter.calibration_due_date) && days_until < 0
    } else if str_is(filter, "due_soon") {
        due_date_readable(&meter.calibration_due_date) && 0 <= days_until && days_until <= 30
    } else if str_is(filter, "valid") {
        due_date_readable(&meter.calibration_due_date) && days_until > 30
    } else {
        true
    }
}

/// Whether a meter is listed: it matches the search, belongs to the
/// chosen building (any building when none is chosen), and passes the
/// calibration filter.
pub open spec fn meter_listed(
    m: MeterWithApartment,
    search: Seq<char>,
    building: Option<u64>,
    calibration: Seq<char>,
    days_until: int,
) -> bool {
    &&& search_matches(m, search)
    &&& (building is None || m.building_id == building)
    &&& calibration_matches(calibration, m.calibration_due_date, days_until)
}

/// Whether `meter` is listed.
pub fn meter_matches(
    meter: &MeterWithApartment,
    search: &str,
    building: Option<u64>,
    calibration: &str,
    days_until: i32,
) -> (r: bool)
    ensures
        r == meter_listed(*meter, search@, building, calibration@, days_until as int),
{
    meter_matches_search(meter, search) && (building.is_none() || meter.building_id == building)
        && meter_matches_calibration(meter, calibration, days_until)
}

/// The positions, in order, of the meters that are listed, `days[k]`
/// being how far off meter `k`'s due date is.
pub open spec fn listed_positions(
    meters: Seq<MeterWithApartment>,
    days: Seq<i32>,
    search: Seq<char>,
    building: Option<u64>,
    calibration: Seq<char>,
    n: int,
) -> Seq<usize>
    decreases n,
{
    if n <= 0 {
        Seq::empty()
    } else {
        let rest = listed_positions(meters, days, search, building, calibration, n - 1);
        if meter_listed(meters[n - 1], search, building, calibration, days[n - 1] as int) {
            rest.push((n - 1) as usize)
        } else {
            rest
        }
    }
}

/// The positions of the meters that the list shows.
pub fn filter_meters(
    meters: &Vec<MeterWithApartment>,
    days: &Vec<i32>,
    search: &str,
    building: &str,
    calibration: &str,
) -> (r: Vec<usize>)
    requires
        days@.len() == meters@.len(),
    ensures
        r@ == listed_positions(
            meters@,
            days@,
            search@,
            if building@.len() == 0 {
                None
            } else {
                parse_u64_spec(building@)
            },
            calibration@,
            meters@.len() as int,
        ),
{
    let b = building_filter(building);
    let mut out: Vec<usize> = Vec::new();
    let mut k: usize = 0;
    while k < meters.len()
        invariant
            k <= meters@.len(),
            days@.len() == meters@.len(),
            out@ == listed_positions(meters@, days@, search@, b, calibration@, k as int),
        decreases meters.len() - k,
    {
        if meter_matches(&meters[k], search, b, calibration, days[k]) {
            out.push(k);
        }
        k += 1;
    }
    out
}

// ---------------------------------------------------------------------
// The meter forms
// ---------------------------------------------------------------------

/// The badge of a reading's source: readings that came in by webhook are
/// marked apart from the others.
pub fn reading_source_badge(source: &str) -> (r: &'static str)
    ensures
        r@ == (if source@ == "Webhook"@ {
            "badge bg-info"@
        } else {
            "badge bg-secondary"@
        }),
{
    proof {
        reveal_strlit("Webhook");
        reveal_strlit("badge bg-info");
        reveal_strlit("badge bg-secondary");
    }
    if str_is(source, "Webhook") {
        "badge bg-info"
    } else {
        "badge bg-secondary"
    }
}

/// The checks of the meter registration form, in order: an apartment must
/// be chosen, the serial number must not be blank, and the chosen
/// apartment must be a number, which is the result.
pub fn validate_meter_registration(apartment: &str, serial_number: &str) -> (r: Result<
    u64,
    &'static str,
>)
    ensures
        apartment@.len() == 0 ==> (r matches Err(e) && e@ == "Please select an apartment"@),
        apartment@.len() > 0 && is_blank(serial_number@) ==> (r matches Err(e) && e@
            == "Serial number is required"@),
        apartment@.len() > 0 && !is_blank(serial_number@) ==> r == (match parse_u64_spec(
            apartment@,
        ) {
            Some(id) => Ok(id),
            None => Err("Invalid apartment selected"),
        }),
{
    if apartment.is_empty() {
        proof {
            reveal_strlit("Please select an apartment");
        }
        return Err("Please select an apartment");
    }
    if str_is_blank(serial_number) {
        proof {
            reveal_strlit("Serial number is required");
        }
        return Err("Serial number is required");
    }
    match parse_u64(apartment) {
        Some(id) => Ok(id),
        None => Err("Invalid apartment selected"),
    }
}

/// A form field that may be left empty: nothing when it is empty.
pub fn optional_field(value: &str) -> (r: Option<String>)
    ensures
        value@.len() == 0 ==> r is None,
        value@.len() > 0 ==> (r matches Some(s) && s@ == value@),
{
    if value.is_empty() {
        None
    } else {
        Some(string_from(value))
    }
}

/// A required field of a form: the translation key of its error when it
/// is blank.
pub fn require_field(value: &str, error_key: &'static str) -> (r: Result<(), &'static str>)
    ensures
        is_blank(value@) ==> r == Err::<(), &'static str>(error_key),
        !is_blank(value@) ==> r is Ok,
{
    if str_is_blank(value) {
        Err(error_key)
    } else {
        Ok(())
    }
}

/// A meter to register.
pub struct NewMeter {
    pub apartment_id: u64,
    pub meter_type: String,
    pub serial_number: String,
    pub installation_date: Option<String>,
    pub calibration_due_date: Option<String>,
}

/// The text of an optional form field: none when it is empty.
pub open spec fn optional_text(value: Seq<char>, field: Option<String>) -> bool {
    match field {
        Some(s) => value.len() > 0 && s@ == value,
        None => value.len() == 0,
    }
}

/// The registration the form sends once its checks pass: the chosen
/// apartment, the type and serial number as entered, and the dates when
/// they are filled in.
pub fn new_meter_request(
    apartment: &str,
    meter_type: &str,
    serial_number: &str,
    installation_date: &str,
    calibration_due: &str,
) -> (r: Result<NewMeter, &'static str>)
    ensures
        match validate_meter_registration_spec(apartment@, serial_number@) {
            Err(e) => r matches Err(x) && x@ == e,
            Ok(id) => r matches Ok(m) && m.apartment_id == id && m.meter_type@ == meter_type@
                && m.serial_number@ == serial_number@ && optional_text(
                installation_date@,
                m.installation_date,
            ) && optional_text(calibration_due@, m.calibration_due_date),
        },
{
    match validate_meter_registration(apartment, serial_number) {
        Err(e) => Err(e),
        Ok(id) => Ok(
            NewMeter {
                apartment_id: id,
                meter_type: string_from(meter_type),
                serial_number: string_from(serial_number),
                installation_date: optional_field(installation_date),
                calibration_due_date: optional_field(calibration_due),
            },
        ),
    }
}

/// The outcome of the registration checks as a spec: the error message,
/// or the apartment id.
pub open spec fn validate_meter_registration_spec(apartment: Seq<char>, serial_number: Seq<char>) -> Result<
    u64,
    Seq<char>,
> {
    if apartment.len() == 0 {
        Err("Please select an apartment"@)
    } else if is_blank(serial_number) {
        Err("Serial number is required"@)
    } else {
        match parse_u64_spec(apartment) {
            Some(id) => Ok(id),
            None => Err("Invalid apartment selected"@),
        }
    }
}

/// The changes the meter edit form sends.
pub struct UpdateMeterRequest {
    pub meter_type: Option<String>,
    pub serial_number: Option<String>,
    pub is_visible_to_renters: Option<bool>,
    pub installation_date: Option<String>,
    pub calibration_due_date: Option<String>,
}

/// The changes the edit form sends: refused (with the translation key
/// `meters-serial-required`) when the serial number is blank; otherwise
/// the type, serial number and visibility as set, and the dates when they
/// are filled in.
pub fn meter_update_request(
    meter_type: &str,
    serial_number: &str,
    visible: bool,
    installation_date: &str,
    calibration_due: &str,
) -> (r: Result<UpdateMeterRequest, &'static str>)
    ensures
        is_blank(serial_number@) ==> (r matches Err(e) && e@ == "meters-serial-required"@),
        !is_blank(serial_number@) ==> (r matches Ok(u) && opt_is(u.meter_type, meter_type@)
            && opt_is(u.serial_number, serial_number@) && u.is_visible_to_renters == Some(visible)
            && optional_text(installation_date@, u.installation_date) && optional_text(
            calibration_due@,
            u.calibration_due_date,
        )),
{
    if str_is_blank(serial_number) {
        return Err("meters-serial-required");
    }
    Ok(
        UpdateMeterRequest {
            meter_type: Some(string_from(meter_type)),
            serial_number: Some(string_from(serial_number)),
            is_visible_to_renters: Some(visible),
            installation_date: optional_field(installation_date),
            calibration_due_date: optional_field(calibration_due),
        },
    )
}

/// A reading entered by hand.
pub struct CreateReadingRequest {
    pub reading_value: String,
    pub timestamp: Option<String>,
    pub unit: String,
}

/// The reading the entry form sends: refused (with the translation key
/// `meters-reading-required`) when the value is blank; otherwise the
/// value and unit as entered, stamped by the server (no timestamp).
pub fn reading_request(value: &str, unit: &str) -> (r: Result<CreateReadingRequest, &'static str>)
    ensures
        is_blank(value@) ==> (r matches Err(e) && e@ == "meters-reading-required"@),
        !is_blank(value@) ==> (r matches Ok(q) && q.reading_value@ == value@ && q.unit@ == unit@
            && q.timestamp is None),
{
    if str_is_blank(value) {
        return Err("meters-reading-required");
    }
    Ok(CreateReadingRequest { reading_value: string_from(value), timestamp: None, unit: string_from(unit) })
}

/// The meter list shows exactly the meters that pass all three filters,
/// each once, in their order.
pub proof fn law_listed_exactly(
    meters: Seq<MeterWithApartment>,
    days: Seq<i32>,
    search: Seq<char>,
    building: Option<u64>,
    calibration: Seq<char>,
    n: int,
)
    requires
        0 <= n <= meters.len(),
        n <= days.len(),
        n <= usize::MAX,
    ensures
        forall|k: int|
            0 <= k < n ==> (listed_positions(meters, days, search, building, calibration, n).contains(
                k as usize,
            ) <==> meter_listed(meters[k], search, building, calibration, days[k] as int)),
        forall|i: int, j: int|
            0 <= i < j < listed_positions(meters, days, search, building, calibration, n).len()
                ==> #[trigger] listed_positions(meters, days, search, building, calibration, n)[i]
                < #[trigger] listed_positions(meters, days, search, building, calibration, n)[j],
        forall|i: int|
            0 <= i < listed_positions(meters, days, search, building, calibration, n).len() ==> #[trigger] listed_positions(
                meters,
                days,
                search,
                building,
                calibration,
                n,
            )[i] < n,
    decreases n,
{
    if n > 0 {
        law_listed_exactly(meters, days, search, building, calibration, n - 1);
        let rest = listed_positions(meters, days, search, building, calibration, n - 1);
        let all = listed_positions(meters, days, search, building, calibration, n);
        assert forall|k: int| 0 <= k < n implies (all.contains(k as usize) <==> meter_listed(
            meters[k],
            search,
            building,
            calibration,
            days[k] as int,
        )) by {
            if k < n - 1 {
                if all.contains(k as usize) {
                    let i = choose|i: int| 0 <= i < all.len() && all[i] == k as usize;
                    if i < rest.len() {
                        assert(rest[i] == k as usize);
                    }
                }
                if rest.contains(k as usize) {
                    let i = choose|i: int| 0 <= i < rest.len() && rest[i] == k as usize;
                    assert(all[i] == k as usize);
                }
            } else {
                if all.contains(k as usize) {
                    let i = choose|i: int| 0 <= i < all.len() && all[i] == k as usize;
                    if i < rest.len() {
                        assert(rest[i] < n - 1);
                    }
                }
                if meter_listed(meters[k], search, building, calibration, days[k] as int) {
                    assert(all[rest.len() as int] == k as usize);
                }
            }
        }
    }
}

/// With no search, no building and no calibration filter, every meter is
/// listed.
pub proof fn law_no_filter_lists_all(
    meters: Seq<MeterWithApartment>,
    days: Seq<i32>,
    search: Seq<char>,
    n: int,
)
    requires
        0 <= n <= meters.len(),
        n <= days.len(),
        n <= usize::MAX,
        lowercase(search).len() == 0,
    ensures
        listed_positions(meters, days, search, None, "all"@, n) == Seq::new(
            n as nat,
            |k: int| k as usize,
        ),
    decreases n,
{
    reveal_strlit("all");
    reveal_strlit("overdue");
    reveal_strlit("due_soon");
    reveal_strlit("valid");
    assert("all"@ != "overdue"@ && "all"@ != "due_soon"@ && "all"@ != "valid"@) by {
        assert("all"@.len() == 3);
        assert("overdue"@.len() == 7);
        assert("due_soon"@.len() == 8);
        assert("valid"@.len() == 5);
    }
    if n > 0 {
        law_no_filter_lists_all(meters, days, search, n - 1);
        assert(search_matches(meters[n - 1], search));
        assert(meter_listed(meters[n - 1], search, None, "all"@, days[n - 1] as int));
        assert(listed_positions(meters, days, search, None, "all"@, n) =~= Seq::new(
            n as nat,
            |k: int| k as usize,
        ));
    } else {
        assert(listed_positions(meters, days, search, None, "all"@, n) =~= Seq::new(
            n as nat,
            |k: int| k as usize,
        ));
    }
}

} // verus!
