use frontend::forms::{
    checkbox_class, control_class, counter_text, form_group_class, spinner_class, spinner_layout,
    textarea_counter,
    SelectOption,
};

#[test]
fn control_classes() {
    assert_eq!(control_class("form-control", "", false, ""), "form-control");
    assert_eq!(control_class("form-control", "sm", false, ""), "form-control form-control-sm");
    assert_eq!(control_class("form-select", "lg", true, "w-50"), "form-select form-select-lg is-invalid w-50");
    assert_eq!(control_class("form-control", "xl", false, ""), "form-control form-control");
    assert_eq!(control_class("form-control", "", true, ""), "form-control is-invalid");
}

#[test]
fn checkbox_classes() {
    assert_eq!(checkbox_class(false, false, ""), "form-check");
    assert_eq!(checkbox_class(true, true, "ms-2"), "form-check form-switch form-check-inline ms-2");
}

#[test]
fn form_group_classes() {
    assert_eq!(form_group_class("compact", ""), "mb-2");
    assert_eq!(form_group_class("spacious", "row"), "mb-4 row");
    assert_eq!(form_group_class("normal", ""), "mb-3");
}

#[test]
fn textarea_counter_counts_characters() {
    assert_eq!(textarea_counter("hello", Some(10)), (5, "text-muted"));
    assert_eq!(textarea_counter("hello", Some(4)), (5, "text-danger"));
    assert_eq!(textarea_counter("hello", Some(0)), (5, "text-muted"));
    assert_eq!(textarea_counter("héllo", None), (5, "text-muted"));
    assert_eq!(textarea_counter("čř", None), (2, "text-muted"));
    assert_eq!(textarea_counter("čřš", Some(2)), (3, "text-danger"));
    assert_eq!(textarea_counter("čř", Some(3)), (2, "text-muted"));
    let (n, _) = textarea_counter("čř", None);
    assert_eq!(counter_text(n, None), "2 characters");
}

#[test]
fn counter_texts() {
    assert_eq!(counter_text(5, Some(100)), "5 / 100");
    assert_eq!(counter_text(0, None), "0 characters");
}

#[test]
fn spinner_classes() {
    assert_eq!(spinner_class("primary", false, ""), "spinner-border text-primary");
    assert_eq!(spinner_class("light", true, "me-2"), "spinner-border spinner-border-sm text-light me-2");
}

#[test]
fn spinner_extra_classes_go_on_the_outer_div() {
    let (inner, outer) = spinner_layout("secondary", true, true, "my-3");
    assert_eq!(inner, "spinner-border spinner-border-sm text-secondary");
    assert_eq!(outer.as_deref(), Some("d-flex justify-content-center align-items-center my-3"));
    let (inner, outer) = spinner_layout("secondary", true, true, "");
    assert_eq!(inner, "spinner-border spinner-border-sm text-secondary");
    assert_eq!(outer.as_deref(), Some("d-flex justify-content-center align-items-center"));
    let (inner, outer) = spinner_layout("primary", false, false, "my-3");
    assert_eq!(inner, "spinner-border text-primary my-3");
    assert_eq!(outer, None);
}

#[test]
fn select_options() {
    let o = SelectOption::new("1".to_string(), "One".to_string());
    assert_eq!(o.value, "1");
    assert_eq!(o.label, "One");
    assert!(!o.disabled);
    let d = o.with_disabled(true);
    assert!(d.disabled);
    assert_eq!(d.label, "One");
}
