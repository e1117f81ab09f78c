use frontend::i18n::Catalog;
use frontend::properties::{
    attachment_icon, can_invite, event_icon, invite_feedback, map_renters, metadata_label,
    metadata_value_text, new_building_request, MetadataValue,
    offered_users, pending_invitations, renter_status_word, renter_toggle, renter_user_ids,
    selection_after_delete, split_renters, validate_apartment_number, AssignOwnerRequest,
    InvitationInfo, RenterInfo, RenterWithUser, UserInfo,
};

fn user_info(id: u64, name: &str, email: &str) -> UserInfo {
    UserInfo { id, name: name.to_string(), email: email.to_string() }
}

fn renter(id: u64, user_id: u64, active: bool) -> RenterInfo {
    RenterInfo {
        id,
        user_id,
        apartment_id: 1,
        start_date: None,
        end_date: None,
        is_active: active,
        user_name: format!("user{}", user_id),
        user_email: format!("user{}@x.cz", user_id),
    }
}

#[test]
fn building_requests() {
    let b = new_building_request("Main 1", "1999").unwrap();
    assert_eq!(b.address, "Main 1");
    assert_eq!(b.construction_year, Some(1999));
    let c = new_building_request("Main 1", "").unwrap();
    assert_eq!(c.construction_year, None);
    assert_eq!(new_building_request("  ", "1999").err(), Some("properties-address-required"));
}

#[test]
fn apartment_number_required() {
    assert_eq!(validate_apartment_number(" "), Err("properties-apt-number-required"));
    assert_eq!(validate_apartment_number("3B"), Ok(()));
}

#[test]
fn owner_request() {
    assert_eq!(AssignOwnerRequest::new(17).user_id, 17);
}

#[test]
fn offered_users_match_and_exclude() {
    let users = vec![
        user_info(1, "Alice Smith", "alice@x.cz"),
        user_info(2, "Bob", "bob@x.cz"),
        user_info(3, "ALICE Jones", "aj@x.cz"),
        user_info(4, "Carol", "carol@alice.org"),
    ];
    assert_eq!(offered_users(&users, "alice", &vec![], 5), vec![0, 2, 3]);
    assert_eq!(offered_users(&users, "alice", &vec![3], 5), vec![0, 3]);
    assert_eq!(offered_users(&users, "", &vec![], 5), vec![0, 1, 2, 3]);
    assert_eq!(offered_users(&users, "", &vec![], 2), vec![0, 1]);
    assert_eq!(offered_users(&users, "zzz", &vec![], 5), Vec::<usize>::new());
}

#[test]
fn renters_split_by_status() {
    let rs = vec![renter(1, 10, true), renter(2, 11, false), renter(3, 12, true)];
    assert_eq!(renter_user_ids(&rs), vec![10, 11, 12]);
    let (active, past) = split_renters(&rs);
    assert_eq!(active, vec![0, 2]);
    assert_eq!(past, vec![1]);
}

#[test]
fn pending_invitations_only() {
    let inv = |id: u64, status: &str| InvitationInfo {
        id,
        email: "a@b.c".to_string(),
        status: status.to_string(),
        invited_by_name: "Admin".to_string(),
        expires_at: "2025-01-01".to_string(),
    };
    let list = vec![inv(1, "pending"), inv(2, "accepted"), inv(3, "pending")];
    assert_eq!(pending_invitations(&list), vec![0, 2]);
}

#[test]
fn invitations_need_an_address() {
    assert!(can_invite("a@b.c"));
    assert!(!can_invite("abc"));
    assert!(!can_invite(""));
}

#[test]
fn renters_are_mapped_in_order() {
    let list = vec![
        RenterWithUser {
            id: 5,
            apartment_id: 2,
            user_id: 7,
            start_date: Some("2024-01-01".to_string()),
            end_date: None,
            is_active: true,
            user: user_info(7, "Eva", "eva@x.cz"),
        },
        RenterWithUser {
            id: 6,
            apartment_id: 2,
            user_id: 8,
            start_date: None,
            end_date: Some("2024-12-31".to_string()),
            is_active: false,
            user: user_info(8, "Jan", "jan@x.cz"),
        },
    ];
    let out = map_renters(list);
    assert_eq!(out.len(), 2);
    assert_eq!(out[0].id, 5);
    assert_eq!(out[0].user_name, "Eva");
    assert_eq!(out[0].start_date.as_deref(), Some("2024-01-01"));
    assert_eq!(out[1].user_email, "jan@x.cz");
    assert!(!out[1].is_active);
}

#[test]
fn history_icons() {
    assert_eq!(event_icon("owner_added"), "bi-person-plus-fill text-success");
    assert_eq!(event_icon("renter_removed"), "bi-house-dash-fill text-secondary");
    assert_eq!(event_icon("other"), "bi-circle-fill text-muted");
}

#[test]
fn attachment_icons() {
    assert_eq!(attachment_icon("image/png"), "bi bi-file-image text-success");
    assert_eq!(attachment_icon("application/pdf"), "bi bi-file-pdf text-danger");
    assert_eq!(attachment_icon("text/plain"), "bi bi-file-earmark text-secondary");
    assert_eq!(attachment_icon("image"), "bi bi-file-earmark text-secondary");
}

#[test]
fn renter_toggling() {
    let rs = vec![renter(1, 10, true), renter(2, 11, false), renter(3, 10, false)];
    assert_eq!(renter_toggle(&rs, 10), Some(false));
    assert_eq!(renter_toggle(&rs, 11), Some(true));
    assert_eq!(renter_toggle(&rs, 99), None);
    assert_eq!(renter_status_word(true), "active");
    assert_eq!(renter_status_word(false), "inactive");
}

#[test]
fn deleted_selection_is_dropped() {
    assert_eq!(selection_after_delete(Some(3), 3), None);
    assert_eq!(selection_after_delete(Some(3), 4), Some(3));
    assert_eq!(selection_after_delete(None, 4), None);
}

#[test]
fn invitation_answers() {
    let c = Catalog::new(vec![(
        "en".to_string(),
        "properties-invitation-processed = Invitation processed\n".to_string(),
    )])
    .unwrap();
    assert_eq!(
        invite_feedback(&c, &Some("pending".to_string()), Some("Invitation sent".to_string())),
        ("Invitation sent".to_string(), true)
    );
    assert_eq!(invite_feedback(&c, &None, None), ("Invitation processed".to_string(), false));
    assert_eq!(invite_feedback(&c, &Some("added".to_string()), None), ("Invitation processed".to_string(), false));
}

#[test]
fn metadata_entries() {
    let c = Catalog::new(vec![("en".to_string(), "properties-not-set = Not set\n".to_string())]).unwrap();
    assert_eq!(metadata_label("start_date"), "start date:");
    assert_eq!(metadata_label("role"), "role:");
    assert_eq!(metadata_value_text(&c, &MetadataValue::Text("Eva".to_string())), "Eva");
    assert_eq!(metadata_value_text(&c, &MetadataValue::Text("null".to_string())), "Not set");
    assert_eq!(metadata_value_text(&c, &MetadataValue::Null), "Not set");
    assert_eq!(metadata_value_text(&c, &MetadataValue::Flag(true)), "true");
    assert_eq!(metadata_value_text(&c, &MetadataValue::Other("42".to_string())), "42");
    assert_eq!(metadata_value_text(&c, &MetadataValue::Other("\"\"x\"".to_string())), "x");
    assert_eq!(metadata_value_text(&c, &MetadataValue::Other("[1,\"a\"]".to_string())), "[1,\"a\"]");
    assert_eq!(metadata_value_text(&c, &MetadataValue::Other("\"".to_string())), "");
}
