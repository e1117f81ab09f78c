use frontend::announcements::{
    announcement_payload, apartments_in_building, audience_badges, audience_roles,
    comment_actions, comment_postable, comments_path, datetime_local_to_naive, display_html,
    editor_fields, load_failure_message, optional_datetime, parse_roles_csv, preview_html,
    publish_now_id, role_input_id, role_label_key, roles_to_csv, status_flags, str_less,
    toggle_role, validate_announcement, AnnouncementFull, CommentAction,
};
use frontend::announcements::{
    manage_outcome, manage_request, remaining_after_purge, selected_position, ManageAnswer,
    ManageCommand, ManageMethod,
};
use frontend::i18n::Catalog;

fn strings(v: &[&str]) -> Vec<String> {
    v.iter().map(|s| s.to_string()).collect()
}

fn existing(publish_at: Option<&str>) -> AnnouncementFull {
    AnnouncementFull {
        id: 9,
        title: "Water outage".to_string(),
        body_md: "No water *today*".to_string(),
        body_html: "<p>No water <em>today</em></p>".to_string(),
        pinned: true,
        public: false,
        roles_csv: Some("Admin, Renter,,".to_string()),
        building_id: Some(2),
        apartment_id: None,
        comments_enabled: true,
        publish_at: publish_at.map(|s| s.to_string()),
        expire_at: None,
    }
}

#[test]
fn roles_are_parsed_and_trimmed() {
    assert_eq!(parse_roles_csv("Admin, Manager ,,Renter"), strings(&["Admin", "Manager", "Renter"]));
    assert_eq!(parse_roles_csv(""), Vec::<String>::new());
    assert_eq!(parse_roles_csv(" , "), Vec::<String>::new());
    assert_eq!(audience_roles(&None), Vec::<String>::new());
    assert_eq!(audience_roles(&Some("Homeowner".to_string())), strings(&["Homeowner"]));
}

#[test]
fn roles_are_joined() {
    assert_eq!(roles_to_csv(&Vec::new()), None);
    assert_eq!(roles_to_csv(&strings(&["Admin", "Renter"])).as_deref(), Some("Admin,Renter"));
}

#[test]
fn roles_round_trip() {
    let roles = strings(&["Admin", "Manager", "Renter"]);
    let csv = roles_to_csv(&roles).unwrap();
    assert_eq!(parse_roles_csv(&csv), roles);
}

#[test]
fn string_order_is_code_point_order() {
    assert!(str_less("2024-01-01T00:00", "2024-01-02T00:00"));
    assert!(!str_less("b", "a"));
    assert!(!str_less("a", "a"));
    assert!(str_less("a", "ab"));
    assert!(str_less("", "a"));
    for (a, b) in [("Z", "a"), ("é", "z"), ("abc", "abd"), ("x", "")] {
        assert_eq!(str_less(a, b), a < b);
    }
}

#[test]
fn status_of_announcements() {
    let now = "2024-06-01T12:00:00";
    let f = status_flags(true, &Some("2024-07-01T00:00:00".to_string()), &None, now);
    assert!(f.pinned && f.scheduled && !f.expired && !f.draft);
    let g = status_flags(false, &None, &Some("2024-05-01T00:00:00".to_string()), now);
    assert!(!g.pinned && !g.scheduled && g.expired && g.draft);
    let h = status_flags(false, &Some("2024-01-01T00:00:00".to_string()), &Some("2025-01-01T00:00:00".to_string()), now);
    assert!(!h.scheduled && !h.expired && !h.draft);
}

#[test]
fn stored_html_is_shown() {
    assert_eq!(display_html("<p>Hi</p>", "Hi"), "<p>Hi</p>");
}

#[test]
fn blank_html_shows_escaped_markdown() {
    assert_eq!(display_html("  ", "a < b & c > d"), "<pre>a &lt; b &amp; c &gt; d</pre>");
    assert_eq!(display_html("", "\"quoted\""), "<pre>\"quoted\"</pre>");
}

fn preview_catalog() -> Catalog {
    Catalog::new(vec![("en".to_string(), "preview-empty = Nothing to preview\n".to_string())]).unwrap()
}

#[test]
fn preview_of_empty_body() {
    assert_eq!(preview_html(&preview_catalog(), ""), "<em class='text-muted'>Nothing to preview</em>");
}

#[test]
fn preview_renders_markdown() {
    assert_eq!(preview_html(&preview_catalog(), "**bold**"), "<p><strong>bold</strong></p>\n");
}

#[test]
fn preview_is_sanitised() {
    let html = preview_html(&preview_catalog(), "<script>alert(1)</script>hi");
    assert!(!html.contains("<script>"));
}

#[test]
fn preview_of_unsafe_only_body_is_escaped() {
    assert_eq!(
        preview_html(&preview_catalog(), "<script>x</script>"),
        "<pre>&lt;script&gt;x&lt;/script&gt;</pre>"
    );
}

#[test]
fn new_announcement_fields() {
    let f = editor_fields(&None);
    assert_eq!(f.title, "");
    assert!(f.public && !f.pinned && !f.comments_enabled);
    assert!(f.roles.is_empty());
    assert_eq!(f.publish_at, "");
    assert_eq!(f.building_id, None);
}

#[test]
fn existing_announcement_fields() {
    let f = editor_fields(&Some(existing(Some(" 2024-06-01T10:00 "))));
    assert_eq!(f.title, "Water outage");
    assert_eq!(f.body_md, "No water *today*");
    assert!(!f.public && f.pinned && f.comments_enabled);
    assert_eq!(f.roles, strings(&["Admin", "Renter"]));
    assert_eq!(f.publish_at, "2024-06-01T10:00");
    assert_eq!(f.expire_at, "");
    assert_eq!(f.building_id, Some(2));
}

#[test]
fn publish_now_only_for_unpublished() {
    assert_eq!(publish_now_id(&None), None);
    assert_eq!(publish_now_id(&Some(existing(None))), Some(9));
    assert_eq!(publish_now_id(&Some(existing(Some("2024-01-01T00:00")))), None);
}

#[test]
fn validation_errors() {
    assert_eq!(validate_announcement(" ", "body"), Err("announcement-title-label"));
    assert_eq!(validate_announcement(" ", " "), Err("announcement-title-label"));
    assert_eq!(validate_announcement("Title", "\n"), Err("announcement-body-label"));
    assert_eq!(validate_announcement("Title", "body"), Ok(()));
}

#[test]
fn datetime_values() {
    assert_eq!(datetime_local_to_naive("2024-06-01T10:30"), "2024-06-01T10:30:00");
    assert_eq!(datetime_local_to_naive("2024-06-01T10:30:15"), "2024-06-01T10:30:15");
    assert_eq!(optional_datetime(""), None);
    assert_eq!(optional_datetime("  "), None);
    assert_eq!(optional_datetime("2024-06-01T10:30").as_deref(), Some("2024-06-01T10:30:00"));
}

#[test]
fn payload_from_fields() {
    let mut f = editor_fields(&Some(existing(Some("2024-06-01T10:00"))));
    f.expire_at = String::new();
    let p = announcement_payload(&f);
    assert_eq!(p.title, "Water outage");
    assert_eq!(p.roles_csv.as_deref(), Some("Admin,Renter"));
    assert_eq!(p.publish_at.as_deref(), Some("2024-06-01T10:00:00"));
    assert_eq!(p.expire_at, None);
    assert_eq!(p.building_id, Some(2));
    let q = announcement_payload(&editor_fields(&None));
    assert_eq!(q.roles_csv, None);
}

#[test]
fn comment_paths() {
    assert_eq!(comments_path(12, false), "/api/v1/announcements/12/comments");
    assert_eq!(comments_path(0, true), "/api/v1/announcements/0/comments?include_deleted=true");
}

#[test]
fn blank_comments_are_not_posted() {
    assert!(!comment_postable(""));
    assert!(!comment_postable(" \n"));
    assert!(comment_postable("ok"));
}

#[test]
fn ticking_and_clearing_roles() {
    let roles = strings(&["Admin", "Renter"]);
    assert_eq!(toggle_role(&roles, "Manager", true), strings(&["Admin", "Renter", "Manager"]));
    assert_eq!(toggle_role(&roles, "Admin", true), roles);
    assert_eq!(toggle_role(&roles, "Admin", false), strings(&["Renter"]));
    assert_eq!(toggle_role(&roles, "Manager", false), roles);
    let dup = strings(&["Admin", "Renter", "Admin"]);
    assert_eq!(toggle_role(&dup, "Admin", false), strings(&["Renter"]));
    let on = toggle_role(&roles, "HOA Member", true);
    assert_eq!(toggle_role(&on, "HOA Member", false), roles);
}

#[test]
fn role_labels_and_ids() {
    assert_eq!(role_label_key("Admin"), "role-admin");
    assert_eq!(role_label_key("HOA Member"), "role-hoa-member");
    assert_eq!(role_label_key("Guest"), "role-unknown");
    assert_eq!(role_input_id("HOA Member"), "role_HOA_Member");
    assert_eq!(role_input_id("Renter"), "role_Renter");
}

#[test]
fn apartments_of_chosen_building() {
    let apts = vec![(1, 10, "1A".to_string()), (2, 11, "2B".to_string()), (3, 10, "3C".to_string())];
    assert_eq!(apartments_in_building(&apts, Some(10)), vec![0, 2]);
    assert_eq!(apartments_in_building(&apts, Some(12)), Vec::<usize>::new());
    assert_eq!(apartments_in_building(&apts, None), Vec::<usize>::new());
}

#[test]
fn moderation_buttons() {
    assert_eq!(comment_actions(false, false), vec![]);
    assert_eq!(comment_actions(false, true), vec![]);
    assert_eq!(comment_actions(true, false), vec![CommentAction::Delete]);
    assert_eq!(comment_actions(true, true), vec![CommentAction::Restore, CommentAction::Purge]);
}

#[test]
fn load_failure_text() {
    let c = Catalog::new(vec![("en".to_string(), "error-load-failed = Loading failed\n".to_string())]).unwrap();
    assert_eq!(load_failure_message(&c, 503), "Loading failed: 503");
}

#[test]
fn audience_badge_list() {
    let b = audience_badges(
        false,
        &Some("Admin, Renter".to_string()),
        &Some("Main 5".to_string()),
        &Some("12".to_string()),
        "Public",
        "Private",
        "Bldg:",
        "Apt:",
    );
    let got: Vec<(&str, &str)> = b.iter().map(|(c, t)| (*c, t.as_str())).collect();
    assert_eq!(
        got,
        vec![
            ("badge bg-secondary me-1", "Private"),
            ("badge bg-primary me-1", "Admin"),
            ("badge bg-primary me-1", "Renter"),
            ("badge bg-info text-dark me-1", "Bldg: Main 5"),
            ("badge bg-warning text-dark me-1", "Apt: 12"),
        ]
    );
    let p = audience_badges(true, &None, &None, &None, "Public", "Private", "Bldg:", "Apt:");
    assert_eq!(p.len(), 1);
    assert_eq!(p[0], ("badge bg-success me-1", "Public".to_string()));
}

#[test]
fn seconds_added_once() {
    let once = datetime_local_to_naive("2024-06-01T10:30");
    assert_eq!(datetime_local_to_naive(&once), once);
    let other = datetime_local_to_naive("2024-06-01");
    assert_eq!(datetime_local_to_naive(&other), other);
}

#[test]
fn manage_requests() {
    let r = manage_request(ManageCommand::PublishNow(7));
    assert_eq!((r.method, r.path.as_str(), r.comments_enabled), (ManageMethod::Post, "/api/v1/announcements/7/publish", None));
    let r = manage_request(ManageCommand::TogglePin(7));
    assert_eq!((r.method, r.path.as_str()), (ManageMethod::Post, "/api/v1/announcements/7/pin"));
    let r = manage_request(ManageCommand::Delete(7));
    assert_eq!((r.method, r.path.as_str()), (ManageMethod::Delete, "/api/v1/announcements/7"));
    let r = manage_request(ManageCommand::Restore(7));
    assert_eq!((r.method, r.path.as_str()), (ManageMethod::Post, "/api/v1/announcements/7/restore"));
    let r = manage_request(ManageCommand::Purge(7));
    assert_eq!((r.method, r.path.as_str()), (ManageMethod::Delete, "/api/v1/announcements/7/purge"));
    let r = manage_request(ManageCommand::ToggleComments(7, true));
    assert_eq!((r.method, r.path.as_str(), r.comments_enabled), (ManageMethod::Put, "/api/v1/announcements/7", Some(false)));
    let r = manage_request(ManageCommand::ToggleComments(7, false));
    assert_eq!(r.comments_enabled, Some(true));
}

#[test]
fn manage_outcomes() {
    let o = manage_outcome(ManageCommand::Restore(1), ManageAnswer::Done);
    assert!(o.reload_active && o.reload_deleted && o.error.is_none());
    let o = manage_outcome(ManageCommand::Purge(1), ManageAnswer::Done);
    assert!(!o.reload_active && o.reload_deleted);
    let o = manage_outcome(ManageCommand::TogglePin(1), ManageAnswer::Done);
    assert!(o.reload_active && !o.reload_deleted);
    let o = manage_outcome(ManageCommand::PublishNow(1), ManageAnswer::Status(500));
    assert_eq!(o.error.as_deref(), Some("Publish failed 500"));
    assert!(!o.reload_active);
    let o = manage_outcome(ManageCommand::ToggleComments(1, true), ManageAnswer::Status(403));
    assert_eq!(o.error.as_deref(), Some("Toggle comments failed 403"));
    let o = manage_outcome(ManageCommand::ToggleComments(1, true), ManageAnswer::NetworkError);
    assert_eq!(o.error.as_deref(), Some("Network error"));
    let o = manage_outcome(ManageCommand::Delete(1), ManageAnswer::Status(500));
    assert_eq!(o.error, None);
    assert!(!o.reload_active && !o.reload_deleted);
}

#[test]
fn purge_and_selection() {
    let ids = vec![4, 9, 4, 2];
    assert_eq!(remaining_after_purge(&ids, 4), vec![1, 3]);
    assert_eq!(remaining_after_purge(&ids, 5), vec![0, 1, 2, 3]);
    assert_eq!(selected_position(&ids, Some(4)), Some(0));
    assert_eq!(selected_position(&ids, Some(2)), Some(3));
    assert_eq!(selected_position(&ids, Some(5)), None);
    assert_eq!(selected_position(&ids, None), None);
}
