//! The signed-in user, role checks, reading the user out of a login token
//! (a JWT whose payload carries the user's claims), and the sign-in form
//! that logs in or registers and then logs in.
use vstd::prelude::*;
use vstd::utf8::{decode_utf8, valid_utf8};
use base64::Engine;
use crate::announcements::{role_label_key, role_label_key_spec};
use crate::i18n::{t, Catalog};
use crate::text::{
    chars_of, parse_u64, parse_u64_spec, push_char, push_str, split_chars, split_on, str_eq,
    str_is, string_from, string_of, views,
};

verus! {

/// A user as the application knows it.
pub struct User {
    pub id: u64,
    pub email: String,
    pub name: String,
    pub roles: Vec<String>,
}

/// The login state: the token and the user it belongs to, when signed in.
pub struct AuthState {
    pub token: Option<String>,
    pub user: Option<User>,
}

pub open spec fn admin_role() -> Seq<char> {
    seq!['A', 'd', 'm', 'i', 'n']
}

pub open spec fn manager_role() -> Seq<char> {
    seq!['M', 'a', 'n', 'a', 'g', 'e', 'r']
}

/// The views of a slice of string slices.
pub open spec fn str_views(v: Seq<&str>) -> Seq<Seq<char>> {
    v.map_values(|s: &str| s@)
}

/// Whether one of `roles` is `role`.
pub open spec fn roles_have(roles: Seq<String>, role: Seq<char>) -> bool {
    exists|j: int| 0 <= j < roles.len() && #[trigger] roles[j]@ == role
}

/// Whether one of `roles` is one of `wanted`.
pub open spec fn roles_meet(roles: Seq<String>, wanted: Seq<Seq<char>>) -> bool {
    exists|i: int| 0 <= i < wanted.len() && roles_have(roles, #[trigger] wanted[i])
}

/// Whether `user` has one of the roles in `wanted`.
pub open spec fn has_any_role_spec(user: Option<User>, wanted: Seq<Seq<char>>) -> bool {
    match user {
        Some(u) => roles_meet(u.roles@, wanted),
        None => false,
    }
}

/// Whether `user` has the role `role`.
pub open spec fn has_role_spec(user: Option<User>, role: Seq<char>) -> bool {
    match user {
        Some(u) => roles_have(u.roles@, role),
        None => false,
    }
}

/// Whether one of `roles` is `role`.
fn roles_contain(roles: &Vec<String>, role: &str) -> (r: bool)
    ensures
        r == roles_have(roles@, role@),
{
    let mut j: usize = 0;
    while j < roles.len()
        invariant
            j <= roles.len(),
            forall|k: int| 0 <= k < j ==> #[trigger] roles@[k]@ != role@,
        decreases roles.len() - j,
    {
        if str_eq(roles[j].as_str(), role) {
            return true;
        }
        j += 1;
    }
    false
}

impl AuthState {
    /// Signed in: both a token and a user are known.
    pub fn is_authenticated(&self) -> (r: bool)
        ensures
            r == (self.token is Some && self.user is Some),
    {
        self.token.is_some() && self.user.is_some()
    }

    /// Whether the signed-in user has the role `role`.
    pub fn has_role(&self, role: &str) -> (r: bool)
        ensures
            r == has_role_spec(self.user, role@),
    {
        match &self.user {
            Some(u) => roles_contain(&u.roles, role),
            None => false,
        }
    }

    /// Whether the signed-in user has at least one of `roles`.
    pub fn has_any_role(&self, roles: &[&str]) -> (r: bool)
        ensures
            r == has_any_role_spec(self.user, str_views(roles@)),
    {
        match &self.user {
            Some(u) => {
                let mut i: usize = 0;
                while i < roles.len()
                    invariant
                        i <= roles.len(),
                        self.user == Some(*u),
                        forall|k: int| 0 <= k < i ==> !roles_have(u.roles@, #[trigger] str_views(roles@)[k]),
                    decreases roles.len() - i,
                {
                    if roles_contain(&u.roles, roles[i]) {
                        assert(str_views(roles@)[i as int] == roles@[i as int]@);
                        assert(roles_have(u.roles@, str_views(roles@)[i as int]));
                        return true;
                    }
                    assert(str_views(roles@)[i as int] == roles@[i as int]@);
                    i += 1;
                }
                false
            },
            None => false,
        }
    }

    /// Whether the signed-in user is an administrator or a manager.
    pub fn is_admin_or_manager(&self) -> (r: bool)
        ensures
            r == (has_role_spec(self.user, admin_role()) || has_role_spec(
                self.user,
                manager_role(),
            )),
    {
        let roles: [&str; 2] = ["Admin", "Manager"];
        proof {
            reveal_strlit("Admin");
            reveal_strlit("Manager");
        }
        let r = self.has_any_role(roles.as_slice());
        proof {
            let w = str_views(roles@);
            assert(w[0] =~= admin_role());
            assert(w[1] =~= manager_role());
            if self.user is Some {
                let u = self.user->Some_0;
                if roles_have(u.roles@, admin_role()) {
                    assert(roles_have(u.roles@, w[0]));
                }
                if roles_have(u.roles@, manager_role()) {
                    assert(roles_have(u.roles@, w[1]));
                }
                if roles_meet(u.roles@, w) {
                    let i = choose|i: int| 0 <= i < w.len() && roles_have(u.roles@, #[trigger] w[i]);
                    assert(i == 0 || i == 1);
                }
            }
        }
        r
    }
}

/// Whether `user` is an administrator or a manager (the check the
/// navigation and the comment moderation make on the stored user).
pub fn user_is_admin_or_manager(user: &User) -> (r: bool)
    ensures
        r == (has_role_spec(Some(*user), admin_role()) || has_role_spec(
            Some(*user),
            manager_role(),
        )),
{
    proof {
        reveal_strlit("Admin");
        reveal_strlit("Manager");
        assert("Admin"@ =~= admin_role());
        assert("Manager"@ =~= manager_role());
    }
    roles_contain(&user.roles, "Admin") || roles_contain(&user.roles, "Manager")
}

/// Whether `user` is an administrator.
pub fn user_is_admin(user: &User) -> (r: bool)
    ensures
        r == has_role_spec(Some(*user), admin_role()),
{
    proof {
        reveal_strlit("Admin");
        assert("Admin"@ =~= admin_role());
    }
    roles_contain(&user.roles, "Admin")
}

/// Whether `role` is one of the roles the application names.
pub open spec fn known_role(role: Seq<char>) -> bool {
    role == "Admin"@ || role == "Manager"@ || role == "Homeowner"@ || role == "Renter"@ || role
        == "HOA Member"@
}

/// The text of a role's badge in the navigation bar: the translated label
/// of a role the application names, the role itself otherwise.
pub fn role_badge_text(catalog: &Catalog, role: &str) -> (r: String)
    ensures
        r@ == (if known_role(role@) {
            catalog@.translate(role_label_key_spec(role@), None)
        } else {
            role@
        }),
{
    let known = str_is(role, "Admin") || str_is(role, "Manager") || str_is(role, "Homeowner")
        || str_is(role, "Renter") || str_is(role, "HOA Member");
    if known {
        t(catalog, role_label_key(role))
    } else {
        string_from(role)
    }
}

// ---------------------------------------------------------------------
// Login tokens
// ---------------------------------------------------------------------

/// The padding that makes a base64 text of `n` bytes (modulo 4) whole;
/// none exists for a remainder of 1.
pub open spec fn base64_padding(m: nat) -> Option<Seq<char>> {
    if m == 0 {
        Some(Seq::<char>::empty())
    } else if m == 2 {
        Some(seq!['=', '='])
    } else if m == 3 {
        Some(seq!['='])
    } else {
        None
    }
}

/// The base64url alphabet mapped onto the standard one (`-` to `+`, `_` to
/// `/`).
pub open spec fn url_to_standard(s: Seq<char>) -> Seq<char> {
    s.map_values(
        |c: char|
            if c == '-' {
                '+'
            } else if c == '_' {
                '/'
            } else {
                c
            },
    )
}

/// The payload of a token as standard, padded base64: the middle of its
/// three dot-separated parts. `None` for a token without exactly three
/// parts or a payload whose length cannot be padded.
pub open spec fn jwt_payload_base64_spec(token: Seq<char>) -> Option<Seq<char>> {
    let parts = split_on(token, '.');
    if parts.len() != 3 {
        None
    } else {
        let p = parts[1];
        match base64_padding(vstd::utf8::encode_utf8(p).len() % 4) {
            Some(pad) => Some(url_to_standard(p + pad)),
            None => None,
        }
    }
}

/// The payload of `token` as standard, padded base64.
pub fn jwt_payload_base64(token: &str) -> (r: Option<String>)
    ensures
        opt_str_view(r) == jwt_payload_base64_spec(token@),
{
    let v = chars_of(token);
    let parts = split_chars(&v, '.');
    if parts.len() != 3 {
        return None;
    }
    let m = crate::text::utf8_len_mod4(&parts[1]);
    proof {
        assert(parts@[1]@ == split_on(token@, '.')[1]);
    }
    let mut padded: Vec<char> = Vec::new();
    let mut i: usize = 0;
    while i < parts[1].len()
        invariant
            i <= parts@[1]@.len(),
            parts@.len() == 3,
            padded@ == url_to_standard(parts@[1]@.take(i as int)),
        decreases parts@[1]@.len() - i,
    {
        let c = parts[1][i];
        let d = if c == '-' {
            '+'
        } else if c == '_' {
            '/'
        } else {
            c
        };
        padded.push(d);
        proof {
            assert(parts@[1]@.take(i + 1) =~= parts@[1]@.take(i as int).push(c));
            assert(url_to_standard(parts@[1]@.take(i + 1)) =~= url_to_standard(
                parts@[1]@.take(i as int),
            ).push(d));
        }
        i += 1;
    }
    proof {
        assert(parts@[1]@.take(parts@[1]@.len() as int) =~= parts@[1]@);
    }
    if m == 1 {
        return None;
    }
    let ghost p = parts@[1]@;
    if m == 2 {
        padded.push('=');
        padded.push('=');
        proof {
            assert(url_to_standard(p + seq!['=', '=']) =~= url_to_standard(p).push('=').push('='));
        }
    } else if m == 3 {
        padded.push('=');
        proof {
            assert(url_to_standard(p + seq!['=']) =~= url_to_standard(p).push('='));
        }
    } else {
        proof {
            assert(p + Seq::<char>::empty() =~= p);
        }
    }
    Some(string_of(padded.as_slice()))
}

pub open spec fn opt_str_view(s: Option<String>) -> Option<Seq<char>> {
    match s {
        Some(x) => Some(x@),
        None => None,
    }
}

pub open spec fn opt_bytes_view(b: Option<Vec<u8>>) -> Option<Seq<u8>> {
    match b {
        Some(x) => Some(x@),
        None => None,
    }
}

/// What the standard base64 engine (padding required, canonical trailing
/// bits) decodes from `text`; `None` where it reports an error.
pub uninterp spec fn base64_standard_decode(text: Seq<char>) -> Option<Seq<u8>>;

/// `base64::engine::general_purpose::STANDARD.decode`: the decoded bytes,
/// or `None` where the engine reports an error. The decoding is named,
/// not restated.
#[verifier::external_body]
fn base64_decode(text: &str) -> (r: Option<Vec<u8>>)
    ensures
        opt_bytes_view(r) == base64_standard_decode(text@),
{
    base64::engine::general_purpose::STANDARD.decode(text).ok()
}

/// `String::from_utf8`: the text the bytes encode when they are valid
/// UTF-8, `None` otherwise.
#[verifier::external_body]
pub(crate) fn utf8_to_string(bytes: Vec<u8>) -> (r: Option<String>)
    ensures
        r is Some <==> valid_utf8(bytes@),
        r matches Some(s) ==> s@ == decode_utf8(bytes@),
{
    String::from_utf8(bytes).ok()
}

/// The text of a token's payload: its base64 form decoded, when that is
/// valid UTF-8.
pub open spec fn jwt_payload_text_spec(token: Seq<char>) -> Option<Seq<char>> {
    match jwt_payload_base64_spec(token) {
        Some(b) => match base64_standard_decode(b) {
            Some(bytes) => if valid_utf8(bytes) {
                Some(decode_utf8(bytes))
            } else {
                None
            },
            None => None,
        },
        None => None,
    }
}

/// The JSON text of a token's payload, which carries the user's claims.
pub fn jwt_payload_text(token: &str) -> (r: Option<String>)
    ensures
        opt_str_view(r) == jwt_payload_text_spec(token@),
{
    let b = match jwt_payload_base64(token) {
        Some(b) => b,
        None => return None,
    };
    let bytes = match base64_decode(b.as_str()) {
        Some(bytes) => bytes,
        None => return None,
    };
    utf8_to_string(bytes)
}

/// The user that a token's claims describe: the subject is the id when it
/// reads as a number, and 0 otherwise.
pub fn user_from_claims(sub: &str, email: String, name: String, roles: Vec<String>) -> (u: User)
    ensures
        u.id == (match parse_u64_spec(sub@) {
            Some(v) => v,
            None => 0,
        }),
        u.email == email,
        u.name == name,
        u.roles == roles,
{
    let id = match parse_u64(sub) {
        Some(v) => v,
        None => 0,
    };
    User { id, email, name, roles }
}

// ---------------------------------------------------------------------
// The sign-in form
// ---------------------------------------------------------------------

/// What the form asks the server for.
pub enum AuthRequest {
    Register { email: String, name: String, password: String },
    Login { email: String, password: String },
}

/// The server's answer to a login: a token (with the user its claims
/// describe, when they could be read), a refusal of the credentials, or
/// another failure; the refusal and the failure carry the error's text.
pub enum LoginAnswer {
    Token(String, Option<User>),
    Unauthorized(String),
    Failed(String),
}

/// The sign-in form: whether it registers (or logs in), whether a request
/// is under way, and the message it shows.
pub struct AuthForm {
    registering: bool,
    loading: bool,
    message: Option<String>,
}

/// What the form holds.
pub struct AuthFormView {
    pub registering: bool,
    pub loading: bool,
    pub message: Option<Seq<char>>,
}

impl View for AuthForm {
    type V = AuthFormView;

    closed spec fn view(&self) -> AuthFormView {
        AuthFormView {
            registering: self.registering,
            loading: self.loading,
            message: opt_str_view(self.message),
        }
    }
}

impl AuthFormView {
    /// After switching between logging in and registering: the message
    /// is gone.
    pub open spec fn toggled(self) -> AuthFormView {
        AuthFormView { registering: !self.registering, message: None, ..self }
    }

    /// After submitting: a request is under way and the message is gone.
    pub open spec fn submitted(self) -> AuthFormView {
        AuthFormView { loading: true, message: None, ..self }
    }

    /// After a request failed with `message`.
    pub open spec fn failed(self, message: Seq<char>) -> AuthFormView {
        AuthFormView { loading: false, message: Some(message), ..self }
    }
}

/// `r` is the request a submit sends: registration when registering,
/// login otherwise, with the fields as entered.
pub open spec fn submit_request(
    registering: bool,
    email: Seq<char>,
    password: Seq<char>,
    name: Seq<char>,
    r: AuthRequest,
) -> bool {
    match r {
        AuthRequest::Register { email: e, name: n, password: p } => registering && e@ == email
            && n@ == name && p@ == password,
        AuthRequest::Login { email: e, password: p } => !registering && e@ == email && p@
            == password,
    }
}

/// The message shown when registering failed with `e`.
pub open spec fn registration_failed_text(e: Seq<char>) -> Seq<char> {
    "Registration failed: "@ + e
}

/// The message shown when a login failed: after a registration any
/// failure reads "Registered, but login failed"; a plain login refused
/// for its credentials reads "Invalid email or password".
pub open spec fn login_failed_text(after_register: bool, answer: LoginAnswer) -> Seq<char> {
    match answer {
        LoginAnswer::Token(_, _) => "Failed to decode token"@,
        LoginAnswer::Unauthorized(e) => if after_register {
            "Registered, but login failed: "@ + e@
        } else {
            "Invalid email or password"@
        },
        LoginAnswer::Failed(e) => if after_register {
            "Registered, but login failed: "@ + e@
        } else {
            "Login failed: "@ + e@
        },
    }
}

/// Whether a login answer signs the user in: a token whose claims were
/// read.
pub open spec fn signs_in(answer: LoginAnswer) -> bool {
    match answer {
        LoginAnswer::Token(_, u) => u is Some,
        _ => false,
    }
}

fn prefixed_message(prefix: &str, e: &str) -> (r: String)
    ensures
        r@ == prefix@ + e@,
{
    let mut s = string_from(prefix);
    push_str(&mut s, e);
    s
}

impl AuthForm {
    /// A login form, idle, without a message.
    pub fn new() -> (r: AuthForm)
        ensures
            r@ == (AuthFormView { registering: false, loading: false, message: None }),
    {
        AuthForm { registering: false, loading: false, message: None }
    }

    /// Whether the form registers.
    pub fn registering(&self) -> (r: bool)
        ensures
            r == self@.registering,
    {
        self.registering
    }

    /// Whether a request is under way (the inputs are disabled).
    pub fn loading(&self) -> (r: bool)
        ensures
            r == self@.loading,
    {
        self.loading
    }

    /// The message shown, if any.
    pub fn message(&self) -> (r: Option<String>)
        ensures
            opt_str_view(r) == self@.message,
    {
        match &self.message {
            Some(m) => Some(string_from(m.as_str())),
            None => None,
        }
    }

    /// Switches between logging in and registering.
    pub fn toggle(&mut self)
        ensures
            final(self)@ == old(self)@.toggled(),
    {
        self.registering = !self.registering;
        self.message = None;
    }

    /// Submits the form: the request to send.
    pub fn submit(&mut self, email: &str, password: &str, name: &str) -> (r: AuthRequest)
        ensures
            final(self)@ == old(self)@.submitted(),
            submit_request(old(self)@.registering, email@, password@, name@, r),
    {
        self.loading = true;
        self.message = None;
        if self.registering {
            AuthRequest::Register {
                email: string_from(email),
                name: string_from(name),
                password: string_from(password),
            }
        } else {
            AuthRequest::Login { email: string_from(email), password: string_from(password) }
        }
    }

    /// The registration was answered: on success the login that follows
    /// it (with the same e-mail address and password), on failure nothing
    /// more, and the form shows why.
    pub fn registration_answered(&mut self, result: Result<(), String>, email: &str, password: &str) -> (r:
        Option<AuthRequest>)
        ensures
            result is Ok ==> final(self)@ == old(self)@ && (r matches Some(q) && submit_request(
                false,
                email@,
                password@,
                Seq::empty(),
                q,
            )),
            result matches Err(e) ==> final(self)@ == old(self)@.failed(
                registration_failed_text(e@),
            ) && r is None,
    {
        match result {
            Ok(()) => Some(AuthRequest::Login { email: string_from(email), password: string_from(password) }),
            Err(e) => {
                self.loading = false;
                self.message = Some(prefixed_message("Registration failed: ", e.as_str()));
                None
            },
        }
    }

    /// A login was answered (`after_register` when it followed a
    /// registration): the token and user to sign in with, or nothing, and
    /// the form shows why.
    pub fn login_answered(&mut self, answer: LoginAnswer, after_register: bool) -> (r: Option<
        (String, User),
    >)
        ensures
            r is Some <==> signs_in(answer),
            signs_in(answer) ==> final(self)@ == old(self)@,
            !signs_in(answer) ==> final(self)@ == old(self)@.failed(
                login_failed_text(after_register, answer),
            ),
            r matches Some(p) ==> (answer matches LoginAnswer::Token(tok, Some(u)) && p.0 == tok
                && p.1 == u),
    {
        match answer {
            LoginAnswer::Token(tok, Some(u)) => Some((tok, u)),
            LoginAnswer::Token(_, None) => {
                self.loading = false;
                self.message = Some(string_from("Failed to decode token"));
                None
            },
            LoginAnswer::Unauthorized(e) => {
                self.loading = false;
                self.message = Some(
                    if after_register {
                        prefixed_message("Registered, but login failed: ", e.as_str())
                    } else {
                        string_from("Invalid email or password")
                    },
                );
                None
            },
            LoginAnswer::Failed(e) => {
                self.loading = false;
                self.message = Some(
                    if after_register {
                        prefixed_message("Registered, but login failed: ", e.as_str())
                    } else {
                        prefixed_message("Login failed: ", e.as_str())
                    },
                );
                None
            },
        }
    }
}

/// Switching twice between logging in and registering comes back to the
/// same mode, without a message.
pub proof fn law_toggle_twice(v: AuthFormView)
    ensures
        v.toggled().toggled() == (AuthFormView { message: None, ..v }),
{
}

/// Every failure ends the request and shows a message; a submit starts a
/// request and clears the message.
pub proof fn law_failure_ends_request(v: AuthFormView, m: Seq<char>)
    ensures
        !v.submitted().failed(m).loading,
        v.submitted().failed(m).message == Some(m),
        v.submitted().loading,
        v.submitted().message is None,
        v.submitted().failed(m).registering == v.registering,
{
}

} // verus!
