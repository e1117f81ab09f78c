//! Announcements: the audience roles kept as comma-separated text, the
//! status an announcement shows (pinned, scheduled, expired, draft), the
//! editor's fields, validation and the payload it sends, and the HTML
//! shown for a body (the stored HTML, or the escaped Markdown source, or
//! the rendered and sanitised Markdown in the preview).
use vstd::prelude::*;
use crate::i18n::{t, Catalog, CatalogView};
use crate::text::{
    chars_of, join_strings, join_with, push_char, push_str, split_chars, split_on, str_eq, str_is,
    str_is_blank, string_from, string_of, trim, trim_chars, trim_str, u64_to_string, views,
    is_blank, decimal,
};

verus! {

// ---------------------------------------------------------------------
// Roles
// ---------------------------------------------------------------------

/// `parts` without the empty ones, in order.
pub open spec fn non_empty(parts: Seq<Seq<char>>) -> Seq<Seq<char>>
    decreases parts.len(),
{
    if parts.len() == 0 {
        Seq::empty()
    } else {
        let rest = non_empty(parts.drop_last());
        if parts.last().len() == 0 {
            rest
        } else {
            rest.push(parts.last())
        }
    }
}

/// The roles that a comma-separated list names: each piece trimmed, empty
/// pieces left out.
pub open spec fn roles_from_csv(csv: Seq<char>) -> Seq<Seq<char>> {
    non_empty(split_on(csv, ',').map_values(|p: Seq<char>| trim(p)))
}

/// The roles that `csv` names.
pub fn parse_roles_csv(csv: &str) -> (r: Vec<String>)
    ensures
        views(r@) == roles_from_csv(csv@),
{
    let v = chars_of(csv);
    let parts = split_chars(&v, ',');
    let ghost pieces = split_on(csv@, ',').map_values(|p: Seq<char>| trim(p));
    let mut out: Vec<String> = Vec::new();
    let mut i: usize = 0;
    while i < parts.len()
        invariant
            i <= parts@.len(),
            parts@.len() == split_on(csv@, ',').len(),
            forall|k: int| 0 <= k < parts@.len() ==> #[trigger] parts@[k]@ == split_on(csv@, ',')[k],
            pieces == split_on(csv@, ',').map_values(|p: Seq<char>| trim(p)),
            views(out@) == non_empty(pieces.take(i as int)),
        decreases parts.len() - i,
    {
        let piece = trim_chars(&parts[i]);
        proof {
            assert(pieces.take(i + 1).drop_last() =~= pieces.take(i as int));
            assert(pieces.take(i + 1).last() == piece@);
        }
        if piece.len() > 0 {
            let ghost before = out@;
            out.push(string_of(piece.as_slice()));
            proof {
                assert(views(out@) =~= views(before).push(piece@));
            }
        }
        i += 1;
    }
    proof {
        assert(pieces.take(parts@.len() as int) =~= pieces);
    }
    out
}

/// The roles of an announcement, none when it names none.
pub fn audience_roles(roles_csv: &Option<String>) -> (r: Vec<String>)
    ensures
        views(r@) == (match roles_csv {
            Some(csv) => roles_from_csv(csv@),
            None => Seq::empty(),
        }),
{
    match roles_csv {
        Some(csv) => parse_roles_csv(csv.as_str()),
        None => {
            let r: Vec<String> = Vec::new();
            assert(views(r@) =~= Seq::<Seq<char>>::empty());
            r
        },
    }
}

/// The roles as stored: none for no roles, else the roles joined with
/// commas.
pub fn roles_to_csv(roles: &Vec<String>) -> (r: Option<String>)
    ensures
        r is None <==> roles@.len() == 0,
        r matches Some(s) ==> s@ == join_with(views(roles@), ","@),
{
    if roles.len() == 0 {
        None
    } else {
        Some(join_strings(roles, ","))
    }
}

/// `roles` without `role`, in order.
pub open spec fn without_role(roles: Seq<Seq<char>>, role: Seq<char>) -> Seq<Seq<char>>
    decreases roles.len(),
{
    if roles.len() == 0 {
        Seq::empty()
    } else {
        let rest = without_role(roles.drop_last(), role);
        if roles.last() == role {
            rest
        } else {
            rest.push(roles.last())
        }
    }
}

/// The audience after the check box of `role` is ticked (`checked`) or
/// cleared: a ticked role is added at the end unless it is there already,
/// a cleared one is taken out wherever it occurs.
pub open spec fn toggled_roles(roles: Seq<Seq<char>>, role: Seq<char>, checked: bool) -> Seq<
    Seq<char>,
> {
    if checked {
        if roles.contains(role) {
            roles
        } else {
            roles.push(role)
        }
    } else {
        without_role(roles, role)
    }
}

fn contains_role(roles: &Vec<String>, role: &str) -> (r: bool)
    ensures
        r == views(roles@).contains(role@),
{
    let mut k: usize = 0;
    while k < roles.len()
        invariant
            k <= roles@.len(),
            forall|j: int| 0 <= j < k ==> views(roles@)[j] != role@,
        decreases roles.len() - k,
    {
        if str_eq(roles[k].as_str(), role) {
            proof {
                assert(views(roles@)[k as int] == role@);
            }
            return true;
        }
        k += 1;
    }
    false
}

/// The audience after the check box of `role` changes.
pub fn toggle_role(roles: &Vec<String>, role: &str, checked: bool) -> (r: Vec<String>)
    ensures
        views(r@) == toggled_roles(views(roles@), role@, checked),
{
    let mut out: Vec<String> = Vec::new();
    if checked {
        let mut k: usize = 0;
        while k < roles.len()
            invariant
                k <= roles@.len(),
                views(out@) == views(roles@).take(k as int),
            decreases roles.len() - k,
        {
            let ghost before = out@;
            out.push(string_from(roles[k].as_str()));
            proof {
                assert(views(out@) =~= views(before).push(roles@[k as int]@));
                assert(views(roles@).take(k + 1) =~= views(roles@).take(k as int).push(
                    roles@[k as int]@,
                ));
            }
            k += 1;
        }
        proof {
            assert(views(roles@).take(roles@.len() as int) =~= views(roles@));
        }
        if !contains_role(roles, role) {
            let ghost before = out@;
            out.push(string_from(role));
            proof {
                assert(views(out@) =~= views(before).push(role@));
            }
        }
    } else {
        let mut k: usize = 0;
        while k < roles.len()
            invariant
                k <= roles@.len(),
                views(out@) == without_role(views(roles@).take(k as int), role@),
            decreases roles.len() - k,
        {
            proof {
                assert(views(roles@).take(k + 1).drop_last() =~= views(roles@).take(k as int));
            }
            if !str_eq(roles[k].as_str(), role) {
                let ghost before = out@;
                out.push(string_from(roles[k].as_str()));
                proof {
                    assert(views(out@) =~= views(before).push(roles@[k as int]@));
                }
            }
            k += 1;
        }
        proof {
            assert(views(roles@).take(roles@.len() as int) =~= views(roles@));
        }
    }
    out
}

/// The translation key of a role's label.
pub open spec fn role_label_key_spec(role: Seq<char>) -> Seq<char> {
    if role == "Admin"@ {
        "role-admin"@
    } else if role == "Manager"@ {
        "role-manager"@
    } else if role == "Homeowner"@ {
        "role-homeowner"@
    } else if role == "Renter"@ {
        "role-renter"@
    } else if role == "HOA Member"@ {
        "role-hoa-member"@
    } else {
        "role-unknown"@
    }
}

/// The translation key of a role's label.
pub fn role_label_key(role: &str) -> (r: &'static str)
    ensures
        r@ == role_label_key_spec(role@),
{
    if str_is(role, "Admin") {
        "role-admin"
    } else if str_is(role, "Manager") {
        "role-manager"
    } else if str_is(role, "Homeowner") {
        "role-homeowner"
    } else if str_is(role, "Renter") {
        "role-renter"
    } else if str_is(role, "HOA Member") {
        "role-hoa-member"
    } else {
        "role-unknown"
    }
}

/// The id of a role's check box: `role_` and the role with its spaces
/// written as underscores.
pub open spec fn role_input_id_spec(role: Seq<char>) -> Seq<char> {
    "role_"@ + role.map_values(
        |c: char|
            if c == ' ' {
                '_'
            } else {
                c
            },
    )
}

/// The id of a role's check box.
pub fn role_input_id(role: &str) -> (r: String)
    ensures
        r@ == role_input_id_spec(role@),
{
    let v = chars_of(role);
    let mut s = string_from("role_");
    let ghost head = s@;
    let mut k: usize = 0;
    while k < v.len()
        invariant
            k <= v@.len(),
            v@ == role@,
            head == "role_"@,
            s@ == head + role@.take(k as int).map_values(
                |c: char|
                    if c == ' ' {
                        '_'
                    } else {
                        c
                    },
            ),
        decreases v.len() - k,
    {
        let c = if v[k] == ' ' {
            '_'
        } else {
            v[k]
        };
        push_char(&mut s, c);
        proof {
            assert(role@.take(k + 1) =~= role@.take(k as int).push(role@[k as int]));
            assert(role@.take(k + 1).map_values(
                |c: char|
                    if c == ' ' {
                        '_'
                    } else {
                        c
                    },
            ) =~= role@.take(k as int).map_values(
                |c: char|
                    if c == ' ' {
                        '_'
                    } else {
                        c
                    },
            ).push(c));
        }
        k += 1;
    }
    proof {
        assert(role@.take(v@.len() as int) =~= role@);
    }
    s
}

/// The positions, in order, of the apartments (id, building id, number)
/// of the chosen building; none without a chosen building.
pub open spec fn apartments_of(
    apartments: Seq<(u64, u64, String)>,
    building: Option<u64>,
    n: int,
) -> Seq<usize>
    decreases n,
{
    if n <= 0 {
        Seq::empty()
    } else {
        let rest = apartments_of(apartments, building, n - 1);
        if Some(apartments[n - 1].1) == building {
            rest.push((n - 1) as usize)
        } else {
            rest
        }
    }
}

/// The apartments the editor offers for the chosen building.
pub fn apartments_in_building(apartments: &Vec<(u64, u64, String)>, building: Option<u64>) -> (r:
    Vec<usize>)
    ensures
        r@ == apartments_of(apartments@, building, apartments@.len() as int),
{
    let mut out: Vec<usize> = Vec::new();
    let mut k: usize = 0;
    while k < apartments.len()
        invariant
            k <= apartments@.len(),
            out@ == apartments_of(apartments@, building, k as int),
        decreases apartments.len() - k,
    {
        if Some(apartments[k].1) == building {
            out.push(k);
        }
        k += 1;
    }
    out
}

// ---------------------------------------------------------------------
// Status
// ---------------------------------------------------------------------

/// Whether `a` sorts before `b` (strings compare by their characters'
/// code points, which is the order of their UTF-8 bytes).
pub open spec fn lex_less(a: Seq<char>, b: Seq<char>) -> bool
    decreases a.len(),
{
    if a.len() == 0 {
        b.len() > 0
    } else if b.len() == 0 {
        false
    } else if a[0] != b[0] {
        (a[0] as u32) < (b[0] as u32)
    } else {
        lex_less(a.drop_first(), b.drop_first())
    }
}

/// Whether `a` sorts before `b`.
pub fn str_less(a: &str, b: &str) -> (r: bool)
    ensures
        r == lex_less(a@, b@),
{
    let va = chars_of(a);
    let vb = chars_of(b);
    let mut i: usize = 0;
    assert(a@.skip(0) =~= a@);
    assert(b@.skip(0) =~= b@);
    while i < va.len() && i < vb.len()
        invariant
            i <= va.len(),
            i <= vb.len(),
            va@ == a@,
            vb@ == b@,
            forall|k: int| 0 <= k < i ==> va@[k] == vb@[k],
            lex_less(a@, b@) == lex_less(a@.skip(i as int), b@.skip(i as int)),
        decreases va.len() - i,
    {
        proof {
            let sa = a@.skip(i as int);
            let sb = b@.skip(i as int);
            assert(sa[0] == va@[i as int]);
            assert(sb[0] == vb@[i as int]);
            assert(sa.drop_first() =~= a@.skip(i + 1));
            assert(sb.drop_first() =~= b@.skip(i + 1));
        }
        if va[i] != vb[i] {
            return (va[i] as u32) < (vb[i] as u32);
        }
        i += 1;
    }
    proof {
        assert(a@.skip(i as int).len() == va.len() - i);
        assert(b@.skip(i as int).len() == vb.len() - i);
    }
    i == va.len() && i < vb.len()
}

/// What an announcement's status badges show.
pub struct StatusFlags {
    pub pinned: bool,
    pub scheduled: bool,
    pub expired: bool,
    pub draft: bool,
}

/// The status of an announcement at time `now` (an ISO timestamp): pinned
/// as flagged; scheduled when its publish time sorts after now; expired
/// when its expiry sorts before now; a draft when it has no publish time.
pub fn status_flags(
    pinned: bool,
    publish_at: &Option<String>,
    expire_at: &Option<String>,
    now: &str,
) -> (r: StatusFlags)
    ensures
        r.pinned == pinned,
        r.scheduled == (match publish_at {
            Some(p) => lex_less(now@, p@),
            None => false,
        }),
        r.expired == (match expire_at {
            Some(e) => lex_less(e@, now@),
            None => false,
        }),
        r.draft == (publish_at is None),
{
    let scheduled = match publish_at {
        Some(p) => str_less(now, p.as_str()),
        None => false,
    };
    let expired = match expire_at {
        Some(e) => str_less(e.as_str(), now),
        None => false,
    };
    StatusFlags { pinned, scheduled, expired, draft: publish_at.is_none() }
}

/// The views of badges (class, text).
pub open spec fn badge_views(b: Seq<(&'static str, String)>) -> Seq<(Seq<char>, Seq<char>)> {
    b.map_values(|x: (&'static str, String)| (x.0@, x.1@))
}

/// The audience badges of an announcement, in order: public or private,
/// one per role it names, then the building and the apartment it is
/// limited to, each behind its prefix and a space.
pub open spec fn audience_badges_spec(
    public: bool,
    roles_csv: Option<String>,
    building: Option<String>,
    apartment: Option<String>,
    public_label: Seq<char>,
    private_label: Seq<char>,
    building_prefix: Seq<char>,
    apartment_prefix: Seq<char>,
) -> Seq<(Seq<char>, Seq<char>)> {
    let first = if public {
        ("badge bg-success me-1"@, public_label)
    } else {
        ("badge bg-secondary me-1"@, private_label)
    };
    let roles = match roles_csv {
        Some(c) => roles_from_csv(c@),
        None => Seq::empty(),
    };
    let b = match building {
        Some(a) => seq![("badge bg-info text-dark me-1"@, building_prefix + " "@ + a@)],
        None => Seq::empty(),
    };
    let ap = match apartment {
        Some(n) => seq![("badge bg-warning text-dark me-1"@, apartment_prefix + " "@ + n@)],
        None => Seq::empty(),
    };
    seq![first] + roles.map_values(|r: Seq<char>| ("badge bg-primary me-1"@, r)) + b + ap
}

fn prefixed(prefix: &str, value: &str) -> (r: String)
    ensures
        r@ == prefix@ + " "@ + value@,
{
    let mut s = string_from(prefix);
    push_str(&mut s, " ");
    push_str(&mut s, value);
    s
}

/// The audience badges of an announcement, as (class, text) pairs.
pub fn audience_badges(
    public: bool,
    roles_csv: &Option<String>,
    building: &Option<String>,
    apartment: &Option<String>,
    public_label: &str,
    private_label: &str,
    building_prefix: &str,
    apartment_prefix: &str,
) -> (r: Vec<(&'static str, String)>)
    ensures
        badge_views(r@) == audience_badges_spec(
            public,
            *roles_csv,
            *building,
            *apartment,
            public_label@,
            private_label@,
            building_prefix@,
            apartment_prefix@,
        ),
{
    let mut out: Vec<(&'static str, String)> = Vec::new();
    if public {
        out.push(("badge bg-success me-1", string_from(public_label)));
    } else {
        out.push(("badge bg-secondary me-1", string_from(private_label)));
    }
    let ghost head = badge_views(out@);
    let roles = audience_roles(roles_csv);
    let ghost rv = views(roles@);
    let mut k: usize = 0;
    while k < roles.len()
        invariant
            k <= roles@.len(),
            rv == views(roles@),
            badge_views(out@) == head + rv.take(k as int).map_values(
                |r: Seq<char>| ("badge bg-primary me-1"@, r),
            ),
        decreases roles.len() - k,
    {
        let ghost before = out@;
        out.push(("badge bg-primary me-1", string_from(roles[k].as_str())));
        proof {
            assert(badge_views(out@) =~= badge_views(before).push(
                ("badge bg-primary me-1"@, rv[k as int]),
            ));
            assert(rv.take(k + 1) =~= rv.take(k as int).push(rv[k as int]));
            assert(rv.take(k + 1).map_values(|r: Seq<char>| ("badge bg-primary me-1"@, r))
                =~= rv.take(k as int).map_values(|r: Seq<char>| ("badge bg-primary me-1"@, r)).push(
                ("badge bg-primary me-1"@, rv[k as int]),
            ));
        }
        k += 1;
    }
    proof {
        assert(rv.take(roles@.len() as int) =~= rv);
    }
    let ghost mid = badge_views(out@);
    if let Some(a) = building {
        out.push(("badge bg-info text-dark me-1", prefixed(building_prefix, a.as_str())));
        proof {
            assert(badge_views(out@) =~= mid.push(
                ("badge bg-info text-dark me-1"@, building_prefix@ + " "@ + a@),
            ));
        }
    }
    let ghost mid2 = badge_views(out@);
    if let Some(n) = apartment {
        out.push(("badge bg-warning text-dark me-1", prefixed(apartment_prefix, n.as_str())));
        proof {
            assert(badge_views(out@) =~= mid2.push(
                ("badge bg-warning text-dark me-1"@, apartment_prefix@ + " "@ + n@),
            ));
        }
    }
    proof {
        let sp = audience_badges_spec(
            public,
            *roles_csv,
            *building,
            *apartment,
            public_label@,
            private_label@,
            building_prefix@,
            apartment_prefix@,
        );
        assert(badge_views(out@) =~= sp);
    }
    out
}

// ---------------------------------------------------------------------
// Bodies
// ---------------------------------------------------------------------

/// Text with `&`, `<` and `>` written as HTML entities.
pub open spec fn escape_text(s: Seq<char>) -> Seq<char>
    decreases s.len(),
{
    if s.len() == 0 {
        Seq::empty()
    } else {
        let rest = escape_text(s.drop_last());
        let c = s.last();
        if c == '&' {
            rest + "&amp;"@
        } else if c == '<' {
            rest + "&lt;"@
        } else if c == '>' {
            rest + "&gt;"@
        } else {
            rest.push(c)
        }
    }
}

/// `html_escape::encode_text`: replaces `&`, `<` and `>` with `&amp;`,
/// `&lt;` and `&gt;` and keeps every other character.
#[verifier::external_body]
fn encode_text(s: &str) -> (r: String)
    ensures
        r@ == escape_text(s@),
{
    html_escape::encode_text(s).to_string()
}

/// The Markdown source shown as preformatted, escaped text.
pub open spec fn pre_block(md: Seq<char>) -> Seq<char> {
    "<pre>"@ + escape_text(md) + "</pre>"@
}

fn pre_escaped(md: &str) -> (r: String)
    ensures
        r@ == pre_block(md@),
{
    let mut s = string_from("<pre>");
    let e = encode_text(md);
    push_str(&mut s, e.as_str());
    push_str(&mut s, "</pre>");
    s
}

/// The HTML shown for an announcement: the stored HTML, or the escaped
/// Markdown source when the stored HTML is blank.
pub fn display_html(body_html: &str, body_md: &str) -> (r: String)
    ensures
        r@ == (if is_blank(body_html@) {
            pre_block(body_md@)
        } else {
            body_html@
        }),
{
    if str_is_blank(body_html) {
        pre_escaped(body_md)
    } else {
        string_from(body_html)
    }
}

/// The HTML that pulldown-cmark renders from Markdown with every extension
/// on.
pub uninterp spec fn markdown_html(md: Seq<char>) -> Seq<char>;

/// The HTML that ammonia's default cleaner keeps of `html`.
pub uninterp spec fn ammonia_clean(html: Seq<char>) -> Seq<char>;

/// `pulldown_cmark::html::push_html` over `Parser::new_ext` with
/// `Options::all()`, into an empty string. The rendering is named, not
/// restated.
#[verifier::external_body]
fn render_markdown(md: &str) -> (r: String)
    ensures
        r@ == markdown_html(md@),
{
    let mut buf = String::new();
    let parser = pulldown_cmark::Parser::new_ext(md, pulldown_cmark::Options::all());
    pulldown_cmark::html::push_html(&mut buf, parser);
    buf
}

/// `ammonia::Builder::default().clean`: the sanitised HTML, named, not
/// restated.
#[verifier::external_body]
fn sanitize_html(html: &str) -> (r: String)
    ensures
        r@ == ammonia_clean(html@),
{
    ammonia::Builder::default().clean(html).to_string()
}

/// The preview of an announcement body that is not empty: the rendered,
/// sanitised Markdown, or the escaped source when nothing survives.
pub open spec fn preview_of(md: Seq<char>) -> Seq<char> {
    let clean = ammonia_clean(markdown_html(md));
    if is_blank(clean) {
        pre_block(md)
    } else {
        clean
    }
}

/// What the editor's preview shows for `md`: a muted note (translated
/// `preview-empty`) for an empty body, its rendering otherwise.
pub fn preview_html(catalog: &Catalog, md: &str) -> (r: String)
    ensures
        r@ == (if md@.len() == 0 {
            "<em class='text-muted'>"@ + catalog@.translate("preview-empty"@, None) + "</em>"@
        } else {
            preview_of(md@)
        }),
{
    if md.is_empty() {
        let mut s = string_from("<em class='text-muted'>");
        let note = t(catalog, "preview-empty");
        push_str(&mut s, note.as_str());
        push_str(&mut s, "</em>");
        return s;
    }
    let html = render_markdown(md);
    let clean = sanitize_html(html.as_str());
    if str_is_blank(clean.as_str()) {
        pre_escaped(md)
    } else {
        clean
    }
}

// ---------------------------------------------------------------------
// The editor
// ---------------------------------------------------------------------

/// An announcement as the editor receives it.
pub struct AnnouncementFull {
    pub id: u64,
    pub title: String,
    pub body_md: String,
    pub body_html: String,
    pub pinned: bool,
    pub public: bool,
    pub roles_csv: Option<String>,
    pub building_id: Option<u64>,
    pub apartment_id: Option<u64>,
    pub comments_enabled: bool,
    pub publish_at: Option<String>,
    pub expire_at: Option<String>,
}

/// The editor's fields.
pub struct EditorFields {
    pub title: String,
    pub body_md: String,
    pub public: bool,
    pub pinned: bool,
    pub comments_enabled: bool,
    pub publish_at: String,
    pub expire_at: String,
    pub roles: Vec<String>,
    pub building_id: Option<u64>,
    pub apartment_id: Option<u64>,
}

pub open spec fn opt_text(s: Option<String>) -> Seq<char> {
    match s {
        Some(x) => x@,
        None => Seq::empty(),
    }
}

/// The editor's fields for `existing`, or those of a new announcement:
/// public, not pinned, no comments, nothing else set.
pub fn editor_fields(existing: &Option<AnnouncementFull>) -> (f: EditorFields)
    ensures
        match existing {
            Some(a) => {
                &&& f.title@ == a.title@
                &&& f.body_md@ == a.body_md@
                &&& f.public == a.public
                &&& f.pinned == a.pinned
                &&& f.comments_enabled == a.comments_enabled
                &&& f.publish_at@ == trim(opt_text(a.publish_at))
                &&& f.expire_at@ == trim(opt_text(a.expire_at))
                &&& views(f.roles@) == (match a.roles_csv {
                    Some(csv) => roles_from_csv(csv@),
                    None => Seq::empty(),
                })
                &&& f.building_id == a.building_id
                &&& f.apartment_id == a.apartment_id
            },
            None => {
                &&& f.title@.len() == 0
                &&& f.body_md@.len() == 0
                &&& f.public
                &&& !f.pinned
                &&& !f.comments_enabled
                &&& f.publish_at@.len() == 0
                &&& f.expire_at@.len() == 0
                &&& f.roles@.len() == 0
                &&& f.building_id is None
                &&& f.apartment_id is None
            },
        },
{
    match existing {
        Some(a) => {
            let publish_at = match &a.publish_at {
                Some(p) => trim_str(p.as_str()),
                None => {
                    let e = String::new();
                    assert(trim(Seq::<char>::empty()) =~= Seq::<char>::empty());
                    e
                },
            };
            let expire_at = match &a.expire_at {
                Some(p) => trim_str(p.as_str()),
                None => {
                    let e = String::new();
                    assert(trim(Seq::<char>::empty()) =~= Seq::<char>::empty());
                    e
                },
            };
            EditorFields {
                title: string_from(a.title.as_str()),
                body_md: string_from(a.body_md.as_str()),
                public: a.public,
                pinned: a.pinned,
                comments_enabled: a.comments_enabled,
                publish_at,
                expire_at,
                roles: audience_roles(&a.roles_csv),
                building_id: a.building_id,
                apartment_id: a.apartment_id,
            }
        },
        None => EditorFields {
            title: String::new(),
            body_md: String::new(),
            public: true,
            pinned: false,
            comments_enabled: false,
            publish_at: String::new(),
            expire_at: String::new(),
            roles: Vec::new(),
            building_id: None,
            apartment_id: None,
        },
    }
}

/// The announcement to offer "publish now" for: an existing one without a
/// publish time.
pub fn publish_now_id(existing: &Option<AnnouncementFull>) -> (r: Option<u64>)
    ensures
        r == (match existing {
            Some(a) => if a.publish_at is None {
                Some(a.id)
            } else {
                None
            },
            None => None,
        }),
{
    match existing {
        Some(a) => if a.publish_at.is_none() {
            Some(a.id)
        } else {
            None
        },
        None => None,
    }
}

/// `r` is the error `k`.
pub open spec fn err_is(r: Result<(), &'static str>, k: Seq<char>) -> bool {
    match r {
        Err(x) => x@ == k,
        Ok(_) => false,
    }
}

/// `o` holds the text `s`.
pub open spec fn opt_is(o: Option<String>, s: Seq<char>) -> bool {
    match o {
        Some(x) => x@ == s,
        None => false,
    }
}

/// The length in bytes of the UTF-8 encoding of `s`, as `str::len`
/// reports it.
pub open spec fn byte_len(s: Seq<char>) -> usize {
    vstd::utf8::encode_utf8(s).len() as usize
}

/// Why the editor refuses to save: the translation key of the field that
/// is missing (the title first, then the body).
pub fn validate_announcement(title: &str, body_md: &str) -> (r: Result<(), &'static str>)
    ensures
        is_blank(title@) ==> err_is(r, "announcement-title-label"@),
        !is_blank(title@) && is_blank(body_md@) ==> err_is(r, "announcement-body-label"@),
        !is_blank(title@) && !is_blank(body_md@) ==> r is Ok,
{
    if str_is_blank(title) {
        return Err("announcement-title-label");
    }
    if str_is_blank(body_md) {
        return Err("announcement-body-label");
    }
    Ok(())
}

/// A `datetime-local` value (`YYYY-MM-DDTHH:MM`, 16 bytes) with seconds
/// added; any other value as it is.
pub open spec fn naive_datetime(val: Seq<char>, byte_len: usize) -> Seq<char> {
    if byte_len == 16 {
        val + ":00"@
    } else {
        val
    }
}

/// A `datetime-local` value as the server expects it.
pub fn datetime_local_to_naive(val: &str) -> (r: String)
    ensures
        r@ == naive_datetime(val@, byte_len(val@)),
{
    let mut s = string_from(val);
    if val.len() == 16 {
        push_str(&mut s, ":00");
    }
    s
}

/// An optional time field: nothing when blank, else the value with
/// seconds added.
pub fn optional_datetime(val: &str) -> (r: Option<String>)
    ensures
        is_blank(val@) ==> r is None,
        !is_blank(val@) ==> opt_is(r, naive_datetime(val@, byte_len(val@))),
{
    if str_is_blank(val) {
        None
    } else {
        Some(datetime_local_to_naive(val))
    }
}

/// What the editor sends to create or update an announcement.
pub struct AnnouncementPayload {
    pub title: String,
    pub body_md: String,
    pub public: bool,
    pub pinned: bool,
    pub roles_csv: Option<String>,
    pub building_id: Option<u64>,
    pub apartment_id: Option<u64>,
    pub comments_enabled: bool,
    pub publish_at: Option<String>,
    pub expire_at: Option<String>,
}

/// The payload for the editor's fields: roles as comma-separated text (or
/// none), and each time field left out when blank, with seconds added
/// otherwise.
pub fn announcement_payload(f: &EditorFields) -> (p: AnnouncementPayload)
    ensures
        p.title@ == f.title@,
        p.body_md@ == f.body_md@,
        p.public == f.public,
        p.pinned == f.pinned,
        p.comments_enabled == f.comments_enabled,
        p.roles_csv is None <==> f.roles@.len() == 0,
        p.roles_csv matches Some(s) ==> s@ == join_with(views(f.roles@), ","@),
        p.building_id == f.building_id,
        p.apartment_id == f.apartment_id,
        is_blank(f.publish_at@) ==> p.publish_at is None,
        !is_blank(f.publish_at@) ==> opt_is(
            p.publish_at,
            naive_datetime(f.publish_at@, byte_len(f.publish_at@)),
        ),
        is_blank(f.expire_at@) ==> p.expire_at is None,
        !is_blank(f.expire_at@) ==> opt_is(
            p.expire_at,
            naive_datetime(f.expire_at@, byte_len(f.expire_at@)),
        ),
{
    AnnouncementPayload {
        title: string_from(f.title.as_str()),
        body_md: string_from(f.body_md.as_str()),
        public: f.public,
        pinned: f.pinned,
        roles_csv: roles_to_csv(&f.roles),
        building_id: f.building_id,
        apartment_id: f.apartment_id,
        comments_enabled: f.comments_enabled,
        publish_at: optional_datetime(f.publish_at.as_str()),
        expire_at: optional_datetime(f.expire_at.as_str()),
    }
}

// ---------------------------------------------------------------------
// Managing announcements
// ---------------------------------------------------------------------

/// What an administrator does to an announcement from the management list.
#[derive(Debug, Clone, Copy, PartialEq, Eq, Structural)]
pub enum ManageCommand {
    PublishNow(u64),
    TogglePin(u64),
    Delete(u64),
    Restore(u64),
    Purge(u64),
    /// Switch the comments of an announcement whose comments are (`true`)
    /// or are not enabled.
    ToggleComments(u64, bool),
}

#[derive(Debug, Clone, Copy, PartialEq, Eq, Structural)]
pub enum ManageMethod {
    Post,
    Put,
    Delete,
}

/// The request a command sends: its method, its path, and for the
/// comments switch the new setting sent in the body.
pub struct ManageRequest {
    pub method: ManageMethod,
    pub path: String,
    pub comments_enabled: Option<bool>,
}

/// The API path of an announcement.
pub open spec fn announcement_path(id: u64) -> Seq<char> {
    "/api/v1/announcements/"@ + decimal(id as nat)
}

/// The method, path and comments setting of the request for `c`.
pub open spec fn manage_request_spec(c: ManageCommand) -> (ManageMethod, Seq<char>, Option<bool>) {
    match c {
        ManageCommand::PublishNow(id) => (ManageMethod::Post, announcement_path(id) + "/publish"@, None),
        ManageCommand::TogglePin(id) => (ManageMethod::Post, announcement_path(id) + "/pin"@, None),
        ManageCommand::Delete(id) => (ManageMethod::Delete, announcement_path(id), None),
        ManageCommand::Restore(id) => (ManageMethod::Post, announcement_path(id) + "/restore"@, None),
        ManageCommand::Purge(id) => (ManageMethod::Delete, announcement_path(id) + "/purge"@, None),
        ManageCommand::ToggleComments(id, current) => (
            ManageMethod::Put,
            announcement_path(id),
            Some(!current),
        ),
    }
}

fn announcement_path_exec(id: u64, suffix: &str) -> (r: String)
    ensures
        r@ == announcement_path(id) + suffix@,
{
    let mut s = string_from("/api/v1/announcements/");
    let n = u64_to_string(id);
    push_str(&mut s, n.as_str());
    push_str(&mut s, suffix);
    s
}

/// The request a command sends.
pub fn manage_request(c: ManageCommand) -> (r: ManageRequest)
    ensures
        (r.method, r.path@, r.comments_enabled) == manage_request_spec(c),
{
    proof {
        reveal_strlit("");
        assert(announcement_path(0) + ""@ =~= announcement_path(0));
    }
    match c {
        ManageCommand::PublishNow(id) => ManageRequest {
            method: ManageMethod::Post,
            path: announcement_path_exec(id, "/publish"),
            comments_enabled: None,
        },
        ManageCommand::TogglePin(id) => ManageRequest {
            method: ManageMethod::Post,
            path: announcement_path_exec(id, "/pin"),
            comments_enabled: None,
        },
        ManageCommand::Delete(id) => {
            let path = announcement_path_exec(id, "");
            assert(path@ =~= announcement_path(id));
            ManageRequest { method: ManageMethod::Delete, path, comments_enabled: None }
        },
        ManageCommand::Restore(id) => ManageRequest {
            method: ManageMethod::Post,
            path: announcement_path_exec(id, "/restore"),
            comments_enabled: None,
        },
        ManageCommand::Purge(id) => ManageRequest {
            method: ManageMethod::Delete,
            path: announcement_path_exec(id, "/purge"),
            comments_enabled: None,
        },
        ManageCommand::ToggleComments(id, current) => {
            let path = announcement_path_exec(id, "");
            assert(path@ =~= announcement_path(id));
            ManageRequest { method: ManageMethod::Put, path, comments_enabled: Some(!current) }
        },
    }
}

/// How the server answered a command: done, another HTTP status, or no
/// answer at all.
#[derive(Debug, Clone, Copy, PartialEq, Eq, Structural)]
pub enum ManageAnswer {
    Done,
    Status(u16),
    NetworkError,
}

/// What the list does after an answer: reload the active announcements,
/// reload the deleted ones, and the error to show, if any.
pub struct ManageOutcome {
    pub reload_active: bool,
    pub reload_deleted: bool,
    pub error: Option<String>,
}

/// A done command reloads the active list, except a purge; a restore or a
/// purge also reloads the deleted list. Only publishing and the comments
/// switch report failures: the status for an HTTP error, a network error
/// otherwise; the other commands fail silently.
pub open spec fn reloads_active(c: ManageCommand, a: ManageAnswer) -> bool {
    a is Done && !(c is Purge)
}

pub open spec fn reloads_deleted(c: ManageCommand, a: ManageAnswer) -> bool {
    a is Done && (c is Restore || c is Purge)
}

pub open spec fn manage_error(c: ManageCommand, a: ManageAnswer) -> Option<Seq<char>> {
    match a {
        ManageAnswer::Done => None,
        ManageAnswer::Status(st) => match c {
            ManageCommand::PublishNow(_) => Some("Publish failed "@ + decimal(st as nat)),
            ManageCommand::ToggleComments(_, _) => Some("Toggle comments failed "@ + decimal(st as nat)),
            _ => None,
        },
        ManageAnswer::NetworkError => match c {
            ManageCommand::PublishNow(_) => Some("Network error"@),
            ManageCommand::ToggleComments(_, _) => Some("Network error"@),
            _ => None,
        },
    }
}

fn status_message(prefix: &str, status: u16) -> (r: String)
    ensures
        r@ == prefix@ + decimal(status as nat),
{
    let mut s = string_from(prefix);
    let n = u64_to_string(status as u64);
    push_str(&mut s, n.as_str());
    s
}

/// What the list does after the answer `a` to command `c`.
pub fn manage_outcome(c: ManageCommand, a: ManageAnswer) -> (r: ManageOutcome)
    ensures
        r.reload_active == reloads_active(c, a),
        r.reload_deleted == reloads_deleted(c, a),
        crate::auth::opt_str_view(r.error) == manage_error(c, a),
{
    let reports = match c {
        ManageCommand::PublishNow(_) => true,
        ManageCommand::ToggleComments(_, _) => true,
        _ => false,
    };
    let error = match a {
        ManageAnswer::Done => None,
        ManageAnswer::Status(st) => match c {
            ManageCommand::PublishNow(_) => Some(status_message("Publish failed ", st)),
            ManageCommand::ToggleComments(_, _) => Some(status_message("Toggle comments failed ", st)),
            _ => None,
        },
        ManageAnswer::NetworkError => if reports {
            Some(string_from("Network error"))
        } else {
            None
        },
    };
    let done = match a {
        ManageAnswer::Done => true,
        _ => false,
    };
    let purge = match c {
        ManageCommand::Purge(_) => true,
        _ => false,
    };
    let restore = match c {
        ManageCommand::Restore(_) => true,
        _ => false,
    };
    ManageOutcome { reload_active: done && !purge, reload_deleted: done && (restore || purge), error }
}

/// The positions, in order, of the announcements (by id) that stay in the
/// deleted list once `id` is purged.
pub open spec fn kept_after_purge(ids: Seq<u64>, id: u64, n: int) -> Seq<usize>
    decreases n,
{
    if n <= 0 {
        Seq::empty()
    } else {
        let rest = kept_after_purge(ids, id, n - 1);
        if ids[n - 1] != id {
            rest.push((n - 1) as usize)
        } else {
            rest
        }
    }
}

/// The deleted list after purging `id`, as positions into it.
pub fn remaining_after_purge(ids: &Vec<u64>, id: u64) -> (r: Vec<usize>)
    ensures
        r@ == kept_after_purge(ids@, id, ids@.len() as int),
{
    let mut out: Vec<usize> = Vec::new();
    let mut k: usize = 0;
    while k < ids.len()
        invariant
            k <= ids@.len(),
            out@ == kept_after_purge(ids@, id, k as int),
        decreases ids.len() - k,
    {
        if ids[k] != id {
            out.push(k);
        }
        k += 1;
    }
    out
}

/// The first position of announcement `id` in a list, for the selected
/// announcement's details.
pub open spec fn first_position(ids: Seq<u64>, id: u64) -> Option<usize>
    decreases ids.len(),
{
    if ids.len() == 0 {
        None
    } else if ids.last() == id && first_position(ids.drop_last(), id) is None {
        Some((ids.len() - 1) as usize)
    } else {
        first_position(ids.drop_last(), id)
    }
}

/// Where the selected announcement stands in the list, if it is there.
pub fn selected_position(ids: &Vec<u64>, selected: Option<u64>) -> (r: Option<usize>)
    ensures
        r == (match selected {
            Some(id) => first_position(ids@, id),
            None => None,
        }),
{
    let id = match selected {
        Some(id) => id,
        None => return None,
    };
    let mut k: usize = 0;
    while k < ids.len()
        invariant
            k <= ids@.len(),
            selected == Some(id),
            first_position(ids@.take(k as int), id) is None,
        decreases ids.len() - k,
    {
        proof {
            assert(ids@.take(k + 1).drop_last() =~= ids@.take(k as int));
            assert(ids@.take(k + 1).last() == ids@[k as int]);
        }
        if ids[k] == id {
            proof {
                lemma_first_position_prefix(ids@, id, k as int);
            }
            return Some(k);
        }
        k += 1;
    }
    proof {
        assert(ids@.take(ids@.len() as int) =~= ids@);
    }
    None
}

proof fn lemma_first_position_prefix(ids: Seq<u64>, id: u64, k: int)
    requires
        0 <= k < ids.len(),
        ids[k] == id,
        first_position(ids.take(k), id) is None,
    ensures
        first_position(ids, id) == Some(k as usize),
    decreases ids.len(),
{
    if ids.len() - 1 == k {
        assert(ids.drop_last() =~= ids.take(k));
    } else {
        assert(ids.drop_last().take(k) =~= ids.take(k));
        lemma_first_position_prefix(ids.drop_last(), id, k);
    }
}

/// A purge takes out every announcement with that id and keeps all the
/// others, in order.
pub proof fn law_purge_removes_exactly(ids: Seq<u64>, id: u64, n: int)
    requires
        0 <= n <= ids.len(),
        n <= usize::MAX,
    ensures
        forall|k: int| 0 <= k < n ==> (kept_after_purge(ids, id, n).contains(k as usize) <==> ids[k] != id),
        forall|i: int, j: int|
            0 <= i < j < kept_after_purge(ids, id, n).len() ==> #[trigger] kept_after_purge(ids, id, n)[i]
                < #[trigger] kept_after_purge(ids, id, n)[j],
        forall|i: int| 0 <= i < kept_after_purge(ids, id, n).len() ==> #[trigger] kept_after_purge(ids, id, n)[i] < n,
    decreases n,
{
    if n > 0 {
        law_purge_removes_exactly(ids, id, n - 1);
        let rest = kept_after_purge(ids, id, n - 1);
        let all = kept_after_purge(ids, id, n);
        assert forall|k: int| 0 <= k < n implies (all.contains(k as usize) <==> ids[k] != id) by {
            if all.contains(k as usize) {
                let i = choose|i: int| 0 <= i < all.len() && all[i] == k as usize;
                if i < rest.len() {
                    assert(rest[i] == k as usize);
                }
            }
            if k < n - 1 && rest.contains(k as usize) {
                let i = choose|i: int| 0 <= i < rest.len() && rest[i] == k as usize;
                assert(all[i] == k as usize);
            }
            if k == n - 1 && ids[k] != id {
                assert(all[rest.len() as int] == k as usize);
            }
        }
    }
}

/// A command the server carried out refreshes every list it changed: all
/// commands but a purge change the active list (deleting takes the
/// announcement out of it, restoring puts it back, the others change it in
/// place), and restoring or purging changes the deleted list. A command
/// that was not carried out refreshes nothing.
pub proof fn law_done_commands_refresh_their_lists(c: ManageCommand, a: ManageAnswer)
    ensures
        !(c is Purge) ==> reloads_active(c, ManageAnswer::Done),
        (c is Delete || c is Restore || c is PublishNow || c is TogglePin || c is ToggleComments)
            ==> reloads_active(c, ManageAnswer::Done),
        (c is Restore || c is Purge) ==> reloads_deleted(c, ManageAnswer::Done),
        !(a is Done) ==> !reloads_active(c, a) && !reloads_deleted(c, a),
        reloads_active(c, a) || reloads_deleted(c, a) ==> manage_error(c, a) is None,
{
}

/// The comments switch always sends the opposite of the current setting.
pub proof fn law_toggle_comments_flips(id: u64, current: bool)
    ensures
        manage_request_spec(ManageCommand::ToggleComments(id, current)).2 == Some(!current),
        manage_request_spec(ManageCommand::ToggleComments(id, current)).1 == announcement_path(id),
{
}

// ---------------------------------------------------------------------
// Comments
// ---------------------------------------------------------------------

/// The API path of an announcement's comments, asking for deleted ones too
/// when `include_deleted` is set.
pub open spec fn comments_path_spec(announcement_id: u64, include_deleted: bool) -> Seq<char> {
    "/api/v1/announcements/"@ + crate::text::decimal(announcement_id as nat) + "/comments"@ + (
    if include_deleted {
        "?include_deleted=true"@
    } else {
        Seq::empty()
    })
}

/// The API path of an announcement's comments.
pub fn comments_path(announcement_id: u64, include_deleted: bool) -> (r: String)
    ensures
        r@ == comments_path_spec(announcement_id, include_deleted),
{
    let mut s = string_from("/api/v1/announcements/");
    let n = crate::text::u64_to_string(announcement_id);
    push_str(&mut s, n.as_str());
    push_str(&mut s, "/comments");
    if include_deleted {
        push_str(&mut s, "?include_deleted=true");
    }
    proof {
        if !include_deleted {
            assert(s@ =~= comments_path_spec(announcement_id, include_deleted));
        }
    }
    s
}

/// A comment is posted only when its text is not blank.
pub fn comment_postable(body_md: &str) -> (r: bool)
    ensures
        r == !is_blank(body_md@),
{
    !str_is_blank(body_md)
}

/// What a moderator can do with a comment.
#[derive(Debug, Clone, Copy, PartialEq, Eq, Structural)]
pub enum CommentAction {
    Delete,
    Restore,
    Purge,
}

/// The buttons a comment shows: none for a reader who does not moderate;
/// for a moderator, delete on a live comment, restore and purge on a
/// deleted one.
pub open spec fn comment_actions_spec(is_manager: bool, is_deleted: bool) -> Seq<CommentAction> {
    if !is_manager {
        Seq::empty()
    } else if !is_deleted {
        seq![CommentAction::Delete]
    } else {
        seq![CommentAction::Restore, CommentAction::Purge]
    }
}

/// The buttons a comment shows.
pub fn comment_actions(is_manager: bool, is_deleted: bool) -> (r: Vec<CommentAction>)
    ensures
        r@ == comment_actions_spec(is_manager, is_deleted),
{
    let mut v: Vec<CommentAction> = Vec::new();
    if is_manager {
        if !is_deleted {
            v.push(CommentAction::Delete);
        } else {
            v.push(CommentAction::Restore);
            v.push(CommentAction::Purge);
        }
    }
    proof {
        if is_manager && !is_deleted {
            assert(v@ =~= seq![CommentAction::Delete]);
        } else if is_manager {
            assert(v@ =~= seq![CommentAction::Restore, CommentAction::Purge]);
        } else {
            assert(v@ =~= Seq::<CommentAction>::empty());
        }
    }
    v
}

/// The error shown when the comments could not be loaded: the translated
/// `error-load-failed`, a colon and the HTTP status.
pub open spec fn load_failure_text(c: CatalogView, status: u16) -> Seq<char> {
    c.translate("error-load-failed"@, None) + ": "@ + decimal(status as nat)
}

/// The error shown when the server answered with `status`.
pub fn load_failure_message(catalog: &Catalog, status: u16) -> (r: String)
    ensures
        r@ == load_failure_text(catalog@, status),
{
    let mut s = t(catalog, "error-load-failed");
    push_str(&mut s, ": ");
    let n = u64_to_string(status as u64);
    push_str(&mut s, n.as_str());
    s
}

// ---------------------------------------------------------------------
// Laws
// ---------------------------------------------------------------------

proof fn lemma_split_append_plain(x: Seq<char>, t: Seq<char>, sep: char)
    requires
        !t.contains(sep),
    ensures
        split_on(x + t, sep) == ({
            let p = split_on(x, sep);
            p.update(p.len() - 1, p.last() + t)
        }),
    decreases t.len(),
{
    crate::text::lemma_split_nonempty(x, sep);
    let p = split_on(x, sep);
    if t.len() == 0 {
        assert(x + t =~= x);
        assert(p.update(p.len() - 1, p.last() + t) =~= p);
    } else {
        let u = t.drop_last();
        assert(!u.contains(sep)) by {
            if u.contains(sep) {
                let k = choose|k: int| 0 <= k < u.len() && u[k] == sep;
                assert(t[k] == sep);
            }
        }
        lemma_split_append_plain(x, u, sep);
        assert((x + t).drop_last() =~= x + u);
        assert((x + t).last() == t.last());
        assert(t.last() != sep) by {
            assert(t[t.len() - 1] == t.last());
        }
        let q = split_on(x + u, sep);
        crate::text::lemma_split_nonempty(x + u, sep);
        assert(split_on(x + t, sep) =~= q.update(q.len() - 1, q.last().push(t.last())));
        assert(q.last().push(t.last()) =~= p.last() + t);
        assert(q.update(q.len() - 1, q.last().push(t.last())) =~= p.update(p.len() - 1, p.last() + t));
    }
}

proof fn lemma_split_join(roles: Seq<Seq<char>>)
    requires
        roles.len() >= 1,
        forall|i: int| 0 <= i < roles.len() ==> !(#[trigger] roles[i]).contains(','),
    ensures
        split_on(join_with(roles, seq![',']), ',') == roles,
    decreases roles.len(),
{
    if roles.len() == 1 {
        lemma_split_append_plain(Seq::<char>::empty(), roles[0], ',');
        assert(Seq::<char>::empty() + roles[0] =~= roles[0]);
        assert(split_on(Seq::<char>::empty(), ',') =~= seq![Seq::<char>::empty()]);
        assert(split_on(roles[0], ',') =~= roles);
    } else {
        let front = roles.drop_last();
        assert forall|i: int| 0 <= i < front.len() implies !(#[trigger] front[i]).contains(',') by {
            assert(front[i] == roles[i]);
        }
        lemma_split_join(front);
        let j = join_with(front, seq![',']);
        let x = j + seq![','];
        assert(x.drop_last() =~= j);
        assert(split_on(x, ',') =~= front.push(Seq::<char>::empty()));
        assert(!roles.last().contains(',')) by {
            assert(roles.last() == roles[roles.len() - 1]);
        }
        lemma_split_append_plain(x, roles.last(), ',');
        assert(join_with(roles, seq![',']) =~= x + roles.last());
        let p = front.push(Seq::<char>::empty());
        assert(p.update(p.len() - 1, p.last() + roles.last()) =~= roles);
    }
}

proof fn lemma_non_empty_keeps(parts: Seq<Seq<char>>)
    requires
        forall|i: int| 0 <= i < parts.len() ==> (#[trigger] parts[i]).len() > 0,
    ensures
        non_empty(parts) == parts,
    decreases parts.len(),
{
    if parts.len() > 0 {
        let front = parts.drop_last();
        assert forall|i: int| 0 <= i < front.len() implies (#[trigger] front[i]).len() > 0 by {
            assert(front[i] == parts[i]);
        }
        lemma_non_empty_keeps(front);
        assert(parts.last() == parts[parts.len() - 1]);
        assert(front.push(parts.last()) =~= parts);
    }
}

/// Roles saved by the editor read back as the same roles: joining roles
/// that are non-empty, already trimmed and free of commas with commas,
/// then reading the text as a role list, gives the roles back.
pub proof fn law_roles_round_trip(roles: Seq<Seq<char>>)
    requires
        forall|i: int|
            0 <= i < roles.len() ==> (#[trigger] roles[i]).len() > 0 && trim(roles[i]) == roles[i]
                && !roles[i].contains(','),
    ensures
        roles_from_csv(join_with(roles, ","@)) == roles,
{
    reveal_strlit(",");
    assert(","@ =~= seq![',']);
    if roles.len() == 0 {
        assert(join_with(roles, ","@) =~= Seq::<char>::empty());
        assert(split_on(Seq::<char>::empty(), ',') =~= seq![Seq::<char>::empty()]);
        let m = seq![Seq::<char>::empty()].map_values(|p: Seq<char>| trim(p));
        assert(trim(Seq::<char>::empty()) =~= Seq::<char>::empty());
        assert(m =~= seq![Seq::<char>::empty()]);
        assert(non_empty(m) =~= non_empty(m.drop_last()));
        assert(m.drop_last() =~= Seq::<Seq<char>>::empty());
    } else {
        lemma_split_join(roles);
        let m = roles.map_values(|p: Seq<char>| trim(p));
        assert(m =~= roles);
        lemma_non_empty_keeps(roles);
    }
}

proof fn lemma_push_contains(s: Seq<Seq<char>>, a: Seq<char>, x: Seq<char>)
    ensures
        s.push(a).contains(x) <==> (s.contains(x) || a == x),
{
    let p = s.push(a);
    if p.contains(x) {
        let i = choose|i: int| 0 <= i < p.len() && p[i] == x;
        if i < s.len() {
            assert(s[i] == x);
        }
    }
    if s.contains(x) {
        let i = choose|i: int| 0 <= i < s.len() && s[i] == x;
        assert(p[i] == x);
    }
    if a == x {
        assert(p[s.len() as int] == x);
    }
}

proof fn lemma_without_role(roles: Seq<Seq<char>>, role: Seq<char>)
    ensures
        !without_role(roles, role).contains(role),
        forall|x: Seq<char>| x != role ==> (#[trigger] without_role(roles, role).contains(x)
            <==> roles.contains(x)),
        !roles.contains(role) ==> without_role(roles, role) == roles,
    decreases roles.len(),
{
    if roles.len() > 0 {
        let front = roles.drop_last();
        let last = roles.last();
        lemma_without_role(front, role);
        let rest = without_role(front, role);
        assert(front.push(last) =~= roles);
        if last != role {
            lemma_push_contains(rest, last, role);
        }
        assert forall|x: Seq<char>| x != role implies (#[trigger] without_role(roles, role).contains(
            x) <==> roles.contains(x)) by {
            lemma_push_contains(front, last, x);
            if last != role {
                lemma_push_contains(rest, last, x);
            }
        }
        if !roles.contains(role) {
            lemma_push_contains(front, last, role);
        }
    }
}

/// Ticking a role's check box puts the role in the audience, clearing it
/// takes the role out, and either leaves every other role as it was.
pub proof fn law_toggle_role(roles: Seq<Seq<char>>, role: Seq<char>)
    ensures
        toggled_roles(roles, role, true).contains(role),
        !toggled_roles(roles, role, false).contains(role),
        forall|x: Seq<char>|
            x != role ==> (#[trigger] toggled_roles(roles, role, true).contains(x)
                <==> roles.contains(x)),
        forall|x: Seq<char>|
            x != role ==> (#[trigger] toggled_roles(roles, role, false).contains(x)
                <==> roles.contains(x)),
{
    lemma_without_role(roles, role);
    if !roles.contains(role) {
        lemma_push_contains(roles, role, role);
        assert forall|x: Seq<char>| x != role implies (#[trigger] roles.push(role).contains(x)
            <==> roles.contains(x)) by {
            lemma_push_contains(roles, role, x);
        }
    }
}

/// Ticking a role twice is ticking it once.
pub proof fn law_tick_role_idempotent(roles: Seq<Seq<char>>, role: Seq<char>)
    ensures
        toggled_roles(toggled_roles(roles, role, true), role, true) == toggled_roles(
            roles,
            role,
            true,
        ),
{
    law_toggle_role(roles, role);
}

/// Ticking a role the audience lacks and then clearing it gives the
/// audience back.
pub proof fn law_tick_then_clear_role(roles: Seq<Seq<char>>, role: Seq<char>)
    requires
        !roles.contains(role),
    ensures
        toggled_roles(toggled_roles(roles, role, true), role, false) == roles,
{
    lemma_without_role(roles, role);
    let p = roles.push(role);
    assert(p.drop_last() =~= roles);
    assert(p.last() == role);
}

proof fn lemma_encode_append(a: Seq<char>, b: Seq<char>)
    ensures
        vstd::utf8::encode_utf8(a + b) == vstd::utf8::encode_utf8(a) + vstd::utf8::encode_utf8(b),
    decreases a.len(),
{
    if a.len() > 0 {
        lemma_encode_append(a.drop_first(), b);
        assert((a + b).drop_first() =~= a.drop_first() + b);
        assert((a + b)[0] == a[0]);
        assert(vstd::utf8::encode_scalar(a[0] as u32) + (vstd::utf8::encode_utf8(a.drop_first())
            + vstd::utf8::encode_utf8(b)) =~= (vstd::utf8::encode_scalar(a[0] as u32)
            + vstd::utf8::encode_utf8(a.drop_first())) + vstd::utf8::encode_utf8(b));
    } else {
        assert(a + b =~= b);
        assert(vstd::utf8::encode_utf8(a) =~= Seq::<u8>::empty());
        assert(Seq::<u8>::empty() + vstd::utf8::encode_utf8(b) =~= vstd::utf8::encode_utf8(b));
    }
}

/// Seconds are added to a time field once: a value that already went
/// through `datetime_local_to_naive` comes out of it unchanged (for any
/// text whose length fits in memory).
pub proof fn law_seconds_added_once(val: Seq<char>)
    requires
        vstd::utf8::encode_utf8(val).len() + 3 <= usize::MAX,
    ensures
        ({
            let once = naive_datetime(val, byte_len(val));
            naive_datetime(once, byte_len(once)) == once
        }),
{
    if byte_len(val) == 16 {
        let tail = ":00"@;
        reveal_strlit(":00");
        lemma_encode_append(val, tail);
        assert(tail.drop_first().drop_first().drop_first() =~= Seq::<char>::empty());
        assert(vstd::utf8::encode_utf8(tail).len() == 3) by {
            reveal_with_fuel(vstd::utf8::encode_utf8, 4);
        }
    }
}

} // verus!
