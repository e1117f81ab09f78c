use frontend::auth::{
    jwt_payload_base64, jwt_payload_text, role_badge_text, user_from_claims, user_is_admin,
    user_is_admin_or_manager, AuthForm, AuthRequest, AuthState, LoginAnswer, User,
};
use frontend::i18n::Catalog;

fn account(roles: &[&str]) -> User {
    User {
        id: 3,
        email: "u@example.com".to_string(),
        name: "U".to_string(),
        roles: roles.iter().map(|r| r.to_string()).collect(),
    }
}

fn signed_in(roles: &[&str]) -> AuthState {
    AuthState { token: Some("tok".to_string()), user: Some(account(roles)) }
}

#[test]
fn authenticated_needs_token_and_user() {
    assert!(signed_in(&[]).is_authenticated());
    assert!(!AuthState { token: None, user: Some(account(&[])) }.is_authenticated());
    assert!(!AuthState { token: Some("t".to_string()), user: None }.is_authenticated());
    assert!(!AuthState { token: None, user: None }.is_authenticated());
}

#[test]
fn roles_of_signed_in_user() {
    let s = signed_in(&["Homeowner", "Manager"]);
    assert!(s.has_role("Manager"));
    assert!(!s.has_role("Admin"));
    assert!(!s.has_role("manager"));
    assert!(s.has_any_role(&["Admin", "Homeowner"]));
    assert!(!s.has_any_role(&["Admin", "Renter"]));
    assert!(!s.has_any_role(&[]));
    assert!(s.is_admin_or_manager());
}

#[test]
fn signed_out_has_no_role() {
    let s = AuthState { token: None, user: None };
    assert!(!s.has_role("Admin"));
    assert!(!s.has_any_role(&["Admin"]));
    assert!(!s.is_admin_or_manager());
}

#[test]
fn user_role_checks() {
    assert!(user_is_admin(&account(&["Admin"])));
    assert!(!user_is_admin(&account(&["Manager"])));
    assert!(user_is_admin_or_manager(&account(&["Manager"])));
    assert!(user_is_admin_or_manager(&account(&["Admin"])));
    assert!(!user_is_admin_or_manager(&account(&["Renter"])));
}

const TOKEN: &str = "eyJhbGciOiJIUzI1NiJ9.eyJzdWIiOiI3IiwiZW1haWwiOiJhQGIuYyIsIm5hbWUiOiJBbm4iLCJyb2xlcyI6WyJBZG1pbiJdfQ.c2ln";

#[test]
fn payload_is_padded() {
    assert_eq!(
        jwt_payload_base64(TOKEN).as_deref(),
        Some("eyJzdWIiOiI3IiwiZW1haWwiOiJhQGIuYyIsIm5hbWUiOiJBbm4iLCJyb2xlcyI6WyJBZG1pbiJdfQ==")
    );
}

#[test]
fn payload_url_alphabet_is_mapped() {
    assert_eq!(jwt_payload_base64("h.eyJuIjoiw6k_PiJ9.s").as_deref(), Some("eyJuIjoiw6k/PiJ9"));
    assert_eq!(jwt_payload_base64("h.a-b_cd.s").as_deref(), Some("a+b/cd=="));
}

#[test]
fn payload_text_is_decoded() {
    assert_eq!(
        jwt_payload_text(TOKEN).as_deref(),
        Some(r#"{"sub":"7","email":"a@b.c","name":"Ann","roles":["Admin"]}"#)
    );
    assert_eq!(jwt_payload_text("h.eyJuIjoiw6k_PiJ9.s").as_deref(), Some("{\"n\":\"é?>\"}"));
}

#[test]
fn malformed_tokens_are_refused() {
    assert_eq!(jwt_payload_base64("only.two"), None);
    assert_eq!(jwt_payload_base64("a.b.c.d"), None);
    assert_eq!(jwt_payload_base64("a.abcde.c"), None);
    assert_eq!(jwt_payload_text("a.!!!!.c"), None);
    assert_eq!(jwt_payload_text("a.gA.c"), None);
}

#[test]
fn invalid_utf8_is_refused() {
    // "/w==" decodes to the lone byte 0xff
    assert_eq!(jwt_payload_text("h./w.s"), None);
    assert_eq!(jwt_payload_text("h.aGk.s").as_deref(), Some("hi"));
}

#[test]
fn claims_make_a_user() {
    let u = user_from_claims("7", "a@b.c".to_string(), "Ann".to_string(), vec!["Admin".to_string()]);
    assert_eq!(u.id, 7);
    assert_eq!(u.email, "a@b.c");
    assert_eq!(u.name, "Ann");
    assert_eq!(u.roles, vec!["Admin".to_string()]);
    let v = user_from_claims("abc", String::new(), String::new(), Vec::new());
    assert_eq!(v.id, 0);
}

#[test]
fn login_flow() {
    let mut f = AuthForm::new();
    assert!(!f.registering() && !f.loading());
    match f.submit("a@b.c", "pw", "ignored") {
        AuthRequest::Login { email, password } => {
            assert_eq!(email, "a@b.c");
            assert_eq!(password, "pw");
        }
        AuthRequest::Register { .. } => panic!("expected a login"),
    }
    assert!(f.loading());
    assert!(f.login_answered(LoginAnswer::Unauthorized("401".to_string()), false).is_none());
    assert!(!f.loading());
    assert_eq!(f.message().as_deref(), Some("Invalid email or password"));
    f.submit("a@b.c", "pw", "");
    assert_eq!(f.message(), None);
    assert!(f.login_answered(LoginAnswer::Failed("HTTP 500".to_string()), false).is_none());
    assert_eq!(f.message().as_deref(), Some("Login failed: HTTP 500"));
    f.submit("a@b.c", "pw", "");
    assert!(f.login_answered(LoginAnswer::Token("t".to_string(), None), false).is_none());
    assert_eq!(f.message().as_deref(), Some("Failed to decode token"));
    f.submit("a@b.c", "pw", "");
    let (tok, u) = f.login_answered(LoginAnswer::Token("t".to_string(), Some(account(&["Admin"]))), false).unwrap();
    assert_eq!(tok, "t");
    assert_eq!(u.roles, vec!["Admin".to_string()]);
    assert!(f.loading());
}

#[test]
fn register_flow() {
    let mut f = AuthForm::new();
    f.toggle();
    assert!(f.registering());
    match f.submit("n@x.cz", "secret", "Nina") {
        AuthRequest::Register { email, name, password } => {
            assert_eq!((email.as_str(), name.as_str(), password.as_str()), ("n@x.cz", "Nina", "secret"));
        }
        AuthRequest::Login { .. } => panic!("expected a registration"),
    }
    assert!(f.registration_answered(Err("taken".to_string()), "n@x.cz", "secret").is_none());
    assert_eq!(f.message().as_deref(), Some("Registration failed: taken"));
    assert!(!f.loading());
    f.submit("n@x.cz", "secret", "Nina");
    match f.registration_answered(Ok(()), "n@x.cz", "secret") {
        Some(AuthRequest::Login { email, password }) => {
            assert_eq!((email.as_str(), password.as_str()), ("n@x.cz", "secret"));
        }
        _ => panic!("expected the login that follows"),
    }
    assert!(f.loading());
    f.login_answered(LoginAnswer::Unauthorized("Unauthorized".to_string()), true);
    assert_eq!(f.message().as_deref(), Some("Registered, but login failed: Unauthorized"));
    f.toggle();
    assert!(!f.registering());
    assert_eq!(f.message(), None);
}

#[test]
fn navbar_role_badges() {
    let c = Catalog::new(vec![("en".to_string(), "role-admin = Administrator\n".to_string())]).unwrap();
    assert_eq!(role_badge_text(&c, "Admin"), "Administrator");
    assert_eq!(role_badge_text(&c, "Renter"), "role-renter");
    assert_eq!(role_badge_text(&c, "Plumber"), "Plumber");
}
