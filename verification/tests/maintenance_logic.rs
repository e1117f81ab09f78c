use frontend::forms::id_choice;
use frontend::i18n::Catalog;
use frontend::maintenance::{
    attachment_download_path, can_delete_comment, comment_submittable, history_shows_note_only,
    EscalationPanel, ManagementPanel, PanelField, UpdateOutcome,
};

const EN: &str = "maintenance-status-updated = Status updated\nmaintenance-priority-updated = Priority updated\nmaintenance-assigned-success = Assigned\nmaintenance-no-permission-update = No permission\nmaintenance-no-permission-assign = Cannot assign\nmaintenance-failed-update-status = Status failed: { $error }\nmaintenance-failed-update-priority = Priority failed: { $error }\nmaintenance-failed-assign = Assign failed: { $error }\n";

fn panel_catalog() -> Catalog {
    Catalog::new(vec![("en".to_string(), EN.to_string())]).unwrap()
}

#[test]
fn comment_deletion_rights() {
    assert!(can_delete_comment(true, 1, 2));
    assert!(can_delete_comment(false, 3, 3));
    assert!(!can_delete_comment(false, 3, 4));
}

#[test]
fn history_entries() {
    assert!(history_shows_note_only(&None, &Some("Priority changed".to_string())));
    assert!(!history_shows_note_only(&Some("Open".to_string()), &Some("n".to_string())));
    assert!(!history_shows_note_only(&None, &None));
}

#[test]
fn id_selection() {
    assert_eq!(id_choice(""), Some(None));
    assert_eq!(id_choice("12"), Some(Some(12)));
    assert_eq!(id_choice("abc"), None);
}

#[test]
fn comments_submitted_once() {
    assert!(comment_submittable("hi", false));
    assert!(!comment_submittable("hi", true));
    assert!(!comment_submittable("", false));
    assert!(comment_submittable(" ", false));
}

#[test]
fn download_paths() {
    assert_eq!(attachment_download_path(4, 17), "/api/v1/requests/4/attachments/17/download");
}

#[test]
fn panel_sends_only_the_chosen_field() {
    let mut p = ManagementPanel::new();
    assert!(!p.can_submit(PanelField::Status));
    assert!(p.begin_update(PanelField::Status).is_none());
    p.choose_status("");
    assert!(!p.can_submit(PanelField::Status));
    p.choose_status("Resolved");
    assert!(p.can_submit(PanelField::Status));
    let req = p.begin_update(PanelField::Status).unwrap();
    assert_eq!(req.status.as_deref(), Some("Resolved"));
    assert_eq!(req.priority, None);
    assert_eq!(req.assigned_to, None);
    assert!(!p.can_submit(PanelField::Status));
    let f = p.finish_update(&panel_catalog(), PanelField::Status, UpdateOutcome::Done);
    assert!(f.success);
    assert_eq!(f.message, "Status updated");
    let (updating, status, _, _) = p.view_state();
    assert!(!updating);
    assert_eq!(status, None);
}

#[test]
fn panel_keeps_choice_on_failure() {
    let c = panel_catalog();
    let mut p = ManagementPanel::new();
    p.choose_priority("High");
    p.begin_update(PanelField::Priority).unwrap();
    let f = p.finish_update(&c, PanelField::Priority, UpdateOutcome::Failed("timeout".to_string()));
    assert!(!f.success);
    assert_eq!(f.message, "Priority failed: \u{2068}timeout\u{2069}");
    let (updating, _, priority, _) = p.view_state();
    assert!(!updating);
    assert_eq!(priority.as_deref(), Some("High"));
    let g = p.finish_update(&c, PanelField::Priority, UpdateOutcome::Forbidden);
    assert_eq!(g.message, "No permission");
}

#[test]
fn panel_assignee_needs_an_id() {
    let c = panel_catalog();
    let mut p = ManagementPanel::new();
    p.choose_assignee("x");
    assert!(!p.can_submit(PanelField::Assignee));
    p.choose_assignee("7");
    let req = p.begin_update(PanelField::Assignee).unwrap();
    assert_eq!(req.assigned_to, Some(7));
    assert_eq!(req.status, None);
    let f = p.finish_update(&c, PanelField::Assignee, UpdateOutcome::Forbidden);
    assert_eq!(f.message, "Cannot assign");
    let g = p.finish_update(&c, PanelField::Assignee, UpdateOutcome::Done);
    assert_eq!(g.message, "Assigned");
    assert_eq!(p.view_state().3, None);
}

#[test]
fn escalation_flow() {
    let mut e = EscalationPanel::new();
    assert!(!e.open);
    e.show();
    assert!(e.open && e.loading_managers);
    e.managers_loaded(None);
    assert_eq!(e.manager_count, 0);
    assert!(!e.loading_managers);
    e.managers_loaded(Some(2));
    assert!(!e.can_escalate());
    e.select_manager("5");
    assert_eq!(e.selected, Some(5));
    e.select_manager("oops");
    assert_eq!(e.selected, Some(5));
    assert!(e.can_escalate());
    assert_eq!(e.escalate(), Some(5));
    assert!(e.escalating && !e.can_escalate());
    assert_eq!(e.escalation_answered(Err("HTTP 500".to_string())).as_deref(), Some("Failed to escalate: HTTP 500"));
    assert!(!e.escalating && e.open);
    e.escalate();
    assert_eq!(e.escalation_answered(Ok(())), None);
    assert!(!e.open && e.selected.is_none());
}

#[test]
fn escalation_cancel_forgets_manager() {
    let mut e = EscalationPanel::new();
    e.show();
    e.select_manager("3");
    e.cancel();
    assert!(!e.open);
    assert_eq!(e.selected, None);
    e.select_manager("");
    assert_eq!(e.escalate(), None);
    assert!(!e.escalating);
}
