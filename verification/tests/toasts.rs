use frontend::toast::{ToastLevel, Toasts};

fn ids(t: &Toasts) -> Vec<u32> {
    t.toasts().iter().map(|x| x.id).collect()
}

#[test]
fn toasts_are_numbered_from_one() {
    let mut t = Toasts::new();
    assert!(t.toasts().is_empty());
    assert_eq!(t.show("saved".to_string(), ToastLevel::Success), 1);
    assert_eq!(t.show("oops".to_string(), ToastLevel::Error), 2);
    assert_eq!(ids(&t), vec![1, 2]);
    assert_eq!(t.toasts()[1].message, "oops");
    assert_eq!(t.toasts()[1].level, ToastLevel::Error);
}

#[test]
fn dismiss_removes_only_that_toast() {
    let mut t = Toasts::new();
    t.show("a".to_string(), ToastLevel::Info);
    let b = t.show("b".to_string(), ToastLevel::Warning);
    t.show("c".to_string(), ToastLevel::Info);
    t.dismiss(b);
    assert_eq!(ids(&t), vec![1, 3]);
}

#[test]
fn dismiss_unknown_changes_nothing() {
    let mut t = Toasts::new();
    t.show("a".to_string(), ToastLevel::Info);
    t.dismiss(42);
    assert_eq!(ids(&t), vec![1]);
}

#[test]
fn numbers_are_not_reused_after_dismiss() {
    let mut t = Toasts::new();
    let a = t.show("a".to_string(), ToastLevel::Info);
    t.dismiss(a);
    assert!(t.toasts().is_empty());
    assert_eq!(t.show("b".to_string(), ToastLevel::Info), 2);
}

#[test]
fn level_presentation() {
    assert_eq!(ToastLevel::Success.css_class(), "bg-success text-white");
    assert_eq!(ToastLevel::Error.css_class(), "bg-danger text-white");
    assert_eq!(ToastLevel::Warning.css_class(), "bg-warning text-dark");
    assert_eq!(ToastLevel::Info.css_class(), "bg-info text-dark");
    assert_eq!(ToastLevel::Success.icon(), "bi-check-circle-fill");
    assert_eq!(ToastLevel::Error.icon(), "bi-exclamation-triangle-fill");
    assert_eq!(ToastLevel::Warning.icon(), "bi-exclamation-circle-fill");
    assert_eq!(ToastLevel::Info.icon(), "bi-info-circle-fill");
    assert_eq!(ToastLevel::Warning.title(), "Warning");
    assert_eq!(ToastLevel::Info.title(), "Info");
}

#[test]
fn two_toasts_in_a_row() {
    let mut t = Toasts::new();
    t.show("a".to_string(), ToastLevel::Info);
    let before = t.last_id();
    let x = t.show("x".to_string(), ToastLevel::Success);
    let y = t.show("y".to_string(), ToastLevel::Error);
    assert_eq!((x, y), (before + 1, before + 2));
    assert_eq!(ids(&t), vec![1, 2, 3]);
    assert_eq!(t.last_id(), before + 2);
}
