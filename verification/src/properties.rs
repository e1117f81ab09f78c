//! Buildings, apartments, owners and renters: the requests the property
//! administration sends, the user search of the owner and renter panels,
//! and how renters, invitations, history events and attachments are
//! presented.
use vstd::prelude::*;
use crate::i18n::{t, Catalog, CatalogView};
use crate::text::{
    contains_seq, lowercase, parse_i32, parse_i32_spec, str_contains, str_is, str_is_blank,
    str_starts_with, string_from, to_lowercase, is_blank,
};

verus! {

/// A building to create.
pub struct NewBuilding {
    pub address: String,
    pub construction_year: Option<i32>,
}

/// A request to make a user an owner of an apartment.
pub struct AssignOwnerRequest {
    pub user_id: u64,
}

impl AssignOwnerRequest {
    pub fn new(user_id: u64) -> (r: AssignOwnerRequest)
        ensures
            r.user_id == user_id,
    {
        AssignOwnerRequest { user_id }
    }
}

/// The building the form describes: the address must not be blank (the
/// error is the translation key `properties-address-required`), and the
/// construction year is kept when it reads as a number.
pub fn new_building_request(address: &str, year: &str) -> (r: Result<NewBuilding, &'static str>)
    ensures
        is_blank(address@) ==> (r matches Err(e) && e@ == "properties-address-required"@),
        !is_blank(address@) ==> (r matches Ok(b) && b.address@ == address@
            && b.construction_year == parse_i32_spec(year@)),
{
    if str_is_blank(address) {
        proof {
            reveal_strlit("properties-address-required");
        }
        return Err("properties-address-required");
    }
    Ok(NewBuilding { address: string_from(address), construction_year: parse_i32(year) })
}

/// The apartment form needs a number: the translation key of the error
/// when it is blank.
pub fn validate_apartment_number(number: &str) -> (r: Result<(), &'static str>)
    ensures
        is_blank(number@) ==> (r matches Err(e) && e@ == "properties-apt-number-required"@),
        !is_blank(number@) ==> r is Ok,
{
    if str_is_blank(number) {
        proof {
            reveal_strlit("properties-apt-number-required");
        }
        Err("properties-apt-number-required")
    } else {
        Ok(())
    }
}

// ---------------------------------------------------------------------
// Users, owners and renters
// ---------------------------------------------------------------------

/// A user who can be made owner or renter.
pub struct UserInfo {
    pub id: u64,
    pub name: String,
    pub email: String,
}

/// A renter of an apartment.
pub struct RenterInfo {
    pub id: u64,
    pub user_id: u64,
    pub apartment_id: u64,
    pub start_date: Option<String>,
    pub end_date: Option<String>,
    pub is_active: bool,
    pub user_name: String,
    pub user_email: String,
}

/// A renter as the server sends it, with the user inside.
pub struct RenterWithUser {
    pub id: u64,
    pub apartment_id: u64,
    pub user_id: u64,
    pub start_date: Option<String>,
    pub end_date: Option<String>,
    pub is_active: bool,
    pub user: UserInfo,
}

/// An invitation to rent an apartment, sent by e-mail.
pub struct InvitationInfo {
    pub id: u64,
    pub email: String,
    pub status: String,
    pub invited_by_name: String,
    pub expires_at: String,
}

/// Whether a user matches the search: every user matches an empty search;
/// otherwise the lowercased search must occur in the lowercased name or
/// e-mail address.
pub open spec fn user_matches(u: UserInfo, query: Seq<char>) -> bool {
    query.len() == 0 || contains_seq(lowercase(u.name@), lowercase(query)) || contains_seq(
        lowercase(u.email@),
        lowercase(query),
    )
}

/// The users the owner and renter panels offer, as positions into
/// `users`: those matching the search and not `excluded`, in order, at
/// most `limit` of them.
pub open spec fn offered(
    users: Seq<UserInfo>,
    query: Seq<char>,
    excluded: Seq<u64>,
    limit: nat,
    n: int,
) -> Seq<usize>
    decreases n,
{
    if n <= 0 {
        Seq::empty()
    } else {
        let rest = offered(users, query, excluded, limit, n - 1);
        if rest.len() < limit && user_matches(users[n - 1], query) && !excluded.contains(
            users[n - 1].id,
        ) {
            rest.push((n - 1) as usize)
        } else {
            rest
        }
    }
}

fn user_matches_query(u: &UserInfo, query: &str) -> (r: bool)
    ensures
        r == user_matches(*u, query@),
{
    if query.is_empty() {
        return true;
    }
    let q = to_lowercase(query);
    let n = to_lowercase(u.name.as_str());
    if str_contains(n.as_str(), q.as_str()) {
        return true;
    }
    let e = to_lowercase(u.email.as_str());
    str_contains(e.as_str(), q.as_str())
}

fn id_in(ids: &Vec<u64>, id: u64) -> (r: bool)
    ensures
        r == ids@.contains(id),
{
    let mut k: usize = 0;
    while k < ids.len()
        invariant
            k <= ids.len(),
            forall|j: int| 0 <= j < k ==> ids@[j] != id,
        decreases ids.len() - k,
    {
        if ids[k] == id {
            assert(ids@[k as int] == id);
            return true;
        }
        k += 1;
    }
    false
}

/// The users to offer: those matching `query` who are not among
/// `excluded`, in order, the first `limit` of them (five in the panels).
pub fn offered_users(users: &Vec<UserInfo>, query: &str, excluded: &Vec<u64>, limit: usize) -> (r:
    Vec<usize>)
    ensures
        r@ == offered(users@, query@, excluded@, limit as nat, users@.len() as int),
{
    let mut out: Vec<usize> = Vec::new();
    let mut k: usize = 0;
    while k < users.len()
        invariant
            k <= users@.len(),
            out@ == offered(users@, query@, excluded@, limit as nat, k as int),
            out@.len() <= limit,
        decreases users.len() - k,
    {
        if out.len() < limit && user_matches_query(&users[k], query) && !id_in(excluded, users[k].id) {
            out.push(k);
        }
        k += 1;
    }
    out
}

/// The user ids of the renters.
pub fn renter_user_ids(renters: &Vec<RenterInfo>) -> (r: Vec<u64>)
    ensures
        r@ == renters@.map_values(|x: RenterInfo| x.user_id),
{
    let mut out: Vec<u64> = Vec::new();
    let mut k: usize = 0;
    while k < renters.len()
        invariant
            k <= renters@.len(),
            out@ == renters@.take(k as int).map_values(|x: RenterInfo| x.user_id),
        decreases renters.len() - k,
    {
        out.push(renters[k].user_id);
        assert(renters@.take(k + 1).map_values(|x: RenterInfo| x.user_id) =~= renters@.take(
            k as int,
        ).map_values(|x: RenterInfo| x.user_id).push(renters@[k as int].user_id));
        k += 1;
    }
    assert(renters@.take(renters@.len() as int) =~= renters@);
    out
}

/// The positions of the renters that are (or are not) active, in order.
pub open spec fn renters_with_status(renters: Seq<RenterInfo>, active: bool, n: int) -> Seq<usize>
    decreases n,
{
    if n <= 0 {
        Seq::empty()
    } else {
        let rest = renters_with_status(renters, active, n - 1);
        if renters[n - 1].is_active == active {
            rest.push((n - 1) as usize)
        } else {
            rest
        }
    }
}

/// The active renters and the past ones, as positions, each in order.
pub fn split_renters(renters: &Vec<RenterInfo>) -> (r: (Vec<usize>, Vec<usize>))
    ensures
        r.0@ == renters_with_status(renters@, true, renters@.len() as int),
        r.1@ == renters_with_status(renters@, false, renters@.len() as int),
{
    let mut active: Vec<usize> = Vec::new();
    let mut past: Vec<usize> = Vec::new();
    let mut k: usize = 0;
    while k < renters.len()
        invariant
            k <= renters@.len(),
            active@ == renters_with_status(renters@, true, k as int),
            past@ == renters_with_status(renters@, false, k as int),
        decreases renters.len() - k,
    {
        if renters[k].is_active {
            active.push(k);
        } else {
            past.push(k);
        }
        k += 1;
    }
    (active, past)
}

/// The positions of the invitations still pending, in order.
pub open spec fn pending_positions(invitations: Seq<InvitationInfo>, n: int) -> Seq<usize>
    decreases n,
{
    if n <= 0 {
        Seq::empty()
    } else {
        let rest = pending_positions(invitations, n - 1);
        if invitations[n - 1].status@ == "pending"@ {
            rest.push((n - 1) as usize)
        } else {
            rest
        }
    }
}

/// The invitations still pending.
pub fn pending_invitations(invitations: &Vec<InvitationInfo>) -> (r: Vec<usize>)
    ensures
        r@ == pending_positions(invitations@, invitations@.len() as int),
{
    let mut out: Vec<usize> = Vec::new();
    let mut k: usize = 0;
    while k < invitations.len()
        invariant
            k <= invitations@.len(),
            out@ == pending_positions(invitations@, k as int),
        decreases invitations.len() - k,
    {
        if str_is(invitations[k].status.as_str(), "pending") {
            out.push(k);
        }
        k += 1;
    }
    out
}

/// An invitation can be sent once the address holds an `@`.
pub fn can_invite(email: &str) -> (r: bool)
    ensures
        r == email@.contains('@'),
{
    let found = str_contains(email, "@");
    proof {
        reveal_strlit("@");
        if found {
            let i = choose|i: int| crate::text::occurs_at(email@, "@"@, i);
            assert(email@.subrange(i, i + 1)[0] == email@[i]);
        }
        if email@.contains('@') {
            let i = choose|i: int| 0 <= i < email@.len() && email@[i] == '@';
            assert(email@.subrange(i, i + 1) =~= "@"@);
            assert(crate::text::occurs_at(email@, "@"@, i));
        }
    }
    found
}

/// A renter as the panels show it: the server's renter with the user's
/// name and e-mail address beside it.
pub open spec fn renter_info_of(r: RenterWithUser, x: RenterInfo) -> bool {
    &&& x.id == r.id
    &&& x.user_id == r.user_id
    &&& x.apartment_id == r.apartment_id
    &&& x.start_date == r.start_date
    &&& x.end_date == r.end_date
    &&& x.is_active == r.is_active
    &&& x.user_name == r.user.name
    &&& x.user_email == r.user.email
}

/// The renters as the panels show them, in the same order.
pub fn map_renters(list: Vec<RenterWithUser>) -> (r: Vec<RenterInfo>)
    ensures
        r@.len() == list@.len(),
        forall|k: int| 0 <= k < r@.len() ==> renter_info_of(list@[k], #[trigger] r@[k]),
{
    let mut out: Vec<RenterInfo> = Vec::new();
    let mut list = list;
    let ghost orig = list@;
    // take the renters from the back, then restore the order
    let mut rev: Vec<RenterInfo> = Vec::new();
    while list.len() > 0
        invariant
            list@.len() + rev@.len() == orig.len(),
            list@ == orig.take(list@.len() as int),
            forall|k: int|
                0 <= k < rev@.len() ==> renter_info_of(
                    orig[orig.len() - 1 - k],
                    #[trigger] rev@[k],
                ),
        decreases list.len(),
    {
        let ghost before = list@;
        let r = list.pop().unwrap();
        proof {
            assert(r == before[before.len() - 1]);
            assert(list@ =~= orig.take(list@.len() as int));
        }
        rev.push(RenterInfo {
            id: r.id,
            user_id: r.user_id,
            apartment_id: r.apartment_id,
            start_date: r.start_date,
            end_date: r.end_date,
            is_active: r.is_active,
            user_name: r.user.name,
            user_email: r.user.email,
        });
    }
    while rev.len() > 0
        invariant
            out@.len() + rev@.len() == orig.len(),
            forall|k: int|
                0 <= k < rev@.len() ==> renter_info_of(
                    orig[orig.len() - 1 - k],
                    #[trigger] rev@[k],
                ),
            forall|k: int| 0 <= k < out@.len() ==> renter_info_of(orig[k], #[trigger] out@[k]),
        decreases rev.len(),
    {
        let ghost before = rev@;
        let x = rev.pop().unwrap();
        proof {
            assert(x == before[before.len() - 1]);
            assert(renter_info_of(orig[orig.len() - 1 - (before.len() - 1)], x));
        }
        out.push(x);
    }
    out
}

// ---------------------------------------------------------------------
// The administration panel's answers
// ---------------------------------------------------------------------

/// The status a renter is switched to: the opposite of that of the first
/// renter who is user `user_id`; none when no renter is.
pub open spec fn toggled_status(renters: Seq<RenterInfo>, user_id: u64) -> Option<bool>
    decreases renters.len(),
{
    if renters.len() == 0 {
        None
    } else if renters[0].user_id == user_id {
        Some(!renters[0].is_active)
    } else {
        toggled_status(renters.drop_first(), user_id)
    }
}

/// The status to switch user `user_id`'s renting to.
pub fn renter_toggle(renters: &Vec<RenterInfo>, user_id: u64) -> (r: Option<bool>)
    ensures
        r == toggled_status(renters@, user_id),
{
    let mut k: usize = 0;
    assert(renters@.skip(0) =~= renters@);
    while k < renters.len()
        invariant
            k <= renters@.len(),
            toggled_status(renters@, user_id) == toggled_status(renters@.skip(k as int), user_id),
        decreases renters.len() - k,
    {
        let ghost rest = renters@.skip(k as int);
        if renters[k].user_id == user_id {
            proof {
                assert(rest[0] == renters@[k as int]);
            }
            return Some(!renters[k].is_active);
        }
        proof {
            assert(rest.drop_first() =~= renters@.skip(k + 1));
        }
        k += 1;
    }
    None
}

/// The word the confirmation uses for a renter's new status.
pub fn renter_status_word(active: bool) -> (r: &'static str)
    ensures
        r@ == (if active {
            "active"@
        } else {
            "inactive"@
        }),
{
    if active {
        "active"
    } else {
        "inactive"
    }
}

/// The building or apartment still selected once `deleted` is deleted:
/// the selection is dropped when it was the deleted one.
pub fn selection_after_delete(selected: Option<u64>, deleted: u64) -> (r: Option<u64>)
    ensures
        r == (if selected == Some(deleted) {
            None
        } else {
            selected
        }),
{
    if selected == Some(deleted) {
        None
    } else {
        selected
    }
}

/// The message shown once an invitation is sent: the server's message,
/// else the translation of `properties-invitation-processed`.
pub open spec fn invite_message(c: CatalogView, message: Option<String>) -> Seq<char> {
    match message {
        Some(m) => m@,
        None => c.translate("properties-invitation-processed"@, None),
    }
}

/// Whether the invitations are reloaded after one is sent: when the
/// server says it is pending (its status defaults to `sent`).
pub open spec fn invite_reloads(status: Option<String>) -> bool {
    match status {
        Some(s) => s@ == "pending"@,
        None => false,
    }
}

/// What the panel does with the server's answer to an invitation: the
/// message to show, and whether to reload the invitations.
pub fn invite_feedback(catalog: &Catalog, status: &Option<String>, message: Option<String>) -> (r: (
    String,
    bool,
))
    ensures
        r.0@ == invite_message(catalog@, message),
        r.1 == invite_reloads(*status),
{
    let reload = match status {
        Some(s) => str_is(s.as_str(), "pending"),
        None => false,
    };
    let text = match message {
        Some(m) => m,
        None => t(catalog, "properties-invitation-processed"),
    };
    (text, reload)
}

// ---------------------------------------------------------------------
// History and attachments
// ---------------------------------------------------------------------

/// The icon of a property history event.
pub open spec fn event_icon_spec(event_type: Seq<char>) -> Seq<char> {
    if event_type == "owner_added"@ {
        "bi-person-plus-fill text-success"@
    } else if event_type == "owner_removed"@ {
        "bi-person-dash-fill text-danger"@
    } else if event_type == "renter_added"@ {
        "bi-house-add-fill text-info"@
    } else if event_type == "renter_updated"@ {
        "bi-pencil-fill text-warning"@
    } else if event_type == "renter_removed"@ {
        "bi-house-dash-fill text-secondary"@
    } else {
        "bi-circle-fill text-muted"@
    }
}

/// The icon of a property history event.
pub fn event_icon(event_type: &str) -> (r: &'static str)
    ensures
        r@ == event_icon_spec(event_type@),
{
    proof {
        reveal_strlit("owner_added");
        reveal_strlit("owner_removed");
        reveal_strlit("renter_added");
        reveal_strlit("renter_updated");
        reveal_strlit("renter_removed");
    }
    if str_is(event_type, "owner_added") {
        "bi-person-plus-fill text-success"
    } else if str_is(event_type, "owner_removed") {
        "bi-person-dash-fill text-danger"
    } else if str_is(event_type, "renter_added") {
        "bi-house-add-fill text-info"
    } else if str_is(event_type, "renter_updated") {
        "bi-pencil-fill text-warning"
    } else if str_is(event_type, "renter_removed") {
        "bi-house-dash-fill text-secondary"
    } else {
        "bi-circle-fill text-muted"
    }
}

/// The icon of an attachment: images and PDF files have their own.
pub open spec fn attachment_icon_spec(mime: Seq<char>) -> Seq<char> {
    if "image/"@.len() <= mime.len() && mime.subrange(0, "image/"@.len() as int) == "image/"@ {
        "bi bi-file-image text-success"@
    } else if mime == "application/pdf"@ {
        "bi bi-file-pdf text-danger"@
    } else {
        "bi bi-file-earmark text-secondary"@
    }
}

/// The icon of an attachment.
pub fn attachment_icon(mime_type: &str) -> (r: &'static str)
    ensures
        r@ == attachment_icon_spec(mime_type@),
{
    if str_starts_with(mime_type, "image/") {
        "bi bi-file-image text-success"
    } else if str_is(mime_type, "application/pdf") {
        "bi bi-file-pdf text-danger"
    } else {
        "bi bi-file-earmark text-secondary"
    }
}

/// A value of a history event's metadata, as the server's JSON holds it:
/// text, a flag, null, or any other value with its JSON rendering.
pub enum MetadataValue {
    Text(String),
    Flag(bool),
    Null,
    Other(String),
}

/// The label of a metadata key: its underscores written as spaces, then a
/// colon.
pub open spec fn metadata_label_spec(key: Seq<char>) -> Seq<char> {
    key.map_values(
        |c: char|
            if c == '_' {
                ' '
            } else {
                c
            },
    ) + ":"@
}

/// The label of a metadata key.
pub fn metadata_label(key: &str) -> (r: String)
    ensures
        r@ == metadata_label_spec(key@),
{
    let v = crate::text::chars_of(key);
    let mut s = String::new();
    let mut k: usize = 0;
    while k < v.len()
        invariant
            k <= v@.len(),
            v@ == key@,
            s@ == key@.take(k as int).map_values(
                |c: char|
                    if c == '_' {
                        ' '
                    } else {
                        c
                    },
            ),
        decreases v.len() - k,
    {
        let c = if v[k] == '_' {
            ' '
        } else {
            v[k]
        };
        crate::text::push_char(&mut s, c);
        proof {
            assert(key@.take(k + 1) =~= key@.take(k as int).push(key@[k as int]));
            assert(key@.take(k + 1).map_values(
                |c: char|
                    if c == '_' {
                        ' '
                    } else {
                        c
                    },
            ) =~= key@.take(k as int).map_values(
                |c: char|
                    if c == '_' {
                        ' '
                    } else {
                        c
                    },
            ).push(c));
        }
        k += 1;
    }
    proof {
        assert(key@.take(v@.len() as int) =~= key@);
    }
    crate::text::push_str(&mut s, ":");
    s
}

/// `s` without the double quotes at its start and end.
pub open spec fn trim_quotes(s: Seq<char>) -> Seq<char>
    decreases s.len(),
{
    if s.len() > 0 && s[0] == '"' {
        trim_quotes(s.drop_first())
    } else if s.len() > 0 && s.last() == '"' {
        trim_quotes(s.drop_last())
    } else {
        s
    }
}

fn trim_quotes_exec(s: &str) -> (r: String)
    ensures
        r@ == trim_quotes(s@),
{
    let v = crate::text::chars_of(s);
    let mut lo: usize = 0;
    let mut hi: usize = v.len();
    assert(v@.subrange(0, v@.len() as int) =~= v@);
    while lo < hi && (v[lo] == '"' || v[hi - 1] == '"')
        invariant
            lo <= hi <= v@.len(),
            v@ == s@,
            trim_quotes(s@) == trim_quotes(v@.subrange(lo as int, hi as int)),
        decreases hi - lo,
    {
        let ghost t = v@.subrange(lo as int, hi as int);
        if v[lo] == '"' {
            proof {
                assert(t[0] == v@[lo as int]);
                assert(t.drop_first() =~= v@.subrange(lo + 1, hi as int));
            }
            lo += 1;
        } else {
            proof {
                assert(t.last() == v@[hi - 1]);
                assert(t.drop_last() =~= v@.subrange(lo as int, hi - 1));
            }
            hi -= 1;
        }
    }
    let ghost kept = v@.subrange(lo as int, hi as int);
    proof {
        if kept.len() > 0 {
            assert(kept[0] == v@[lo as int]);
            assert(kept.last() == v@[hi - 1]);
        }
    }
    let mut out = String::new();
    let mut k: usize = lo;
    while k < hi
        invariant
            lo <= k <= hi <= v@.len(),
            kept == v@.subrange(lo as int, hi as int),
            out@ == v@.subrange(lo as int, k as int),
        decreases hi - k,
    {
        crate::text::push_char(&mut out, v[k]);
        proof {
            assert(v@.subrange(lo as int, k + 1) =~= v@.subrange(lo as int, k as int).push(v@[k as int]));
        }
        k += 1;
    }
    out
}

/// The text shown for a metadata value: the text itself (the text
/// `null` and null both read as not set), `true` or `false`, and any
/// other value's JSON rendering without surrounding quotes.
pub open spec fn metadata_value_text_spec(c: CatalogView, v: MetadataValue) -> Seq<char> {
    match v {
        MetadataValue::Text(s) => if s@ == "null"@ {
            c.translate("properties-not-set"@, None)
        } else {
            s@
        },
        MetadataValue::Flag(b) => if b {
            "true"@
        } else {
            "false"@
        },
        MetadataValue::Null => c.translate("properties-not-set"@, None),
        MetadataValue::Other(json) => trim_quotes(json@),
    }
}

/// The text shown for a metadata value.
pub fn metadata_value_text(catalog: &Catalog, v: &MetadataValue) -> (r: String)
    ensures
        r@ == metadata_value_text_spec(catalog@, *v),
{
    match v {
        MetadataValue::Text(s) => if str_is(s.as_str(), "null") {
            t(catalog, "properties-not-set")
        } else {
            string_from(s.as_str())
        },
        MetadataValue::Flag(b) => if *b {
            string_from("true")
        } else {
            string_from("false")
        },
        MetadataValue::Null => t(catalog, "properties-not-set"),
        MetadataValue::Other(json) => trim_quotes_exec(json.as_str()),
    }
}

// ---------------------------------------------------------------------
// Laws
// ---------------------------------------------------------------------

/// The panels never offer more users than the limit, never a user who is
/// excluded (an owner or renter already), and only users who match.
pub proof fn law_offered_users(
    users: Seq<UserInfo>,
    query: Seq<char>,
    excluded: Seq<u64>,
    limit: nat,
    n: int,
)
    requires
        0 <= n <= users.len(),
        n <= usize::MAX,
    ensures
        offered(users, query, excluded, limit, n).len() <= limit,
        forall|k: int|
            0 <= k < offered(users, query, excluded, limit, n).len() ==> {
                let p = #[trigger] offered(users, query, excluded, limit, n)[k] as int;
                0 <= p < n && user_matches(users[p], query) && !excluded.contains(users[p].id)
            },
    decreases n,
{
    if n > 0 {
        law_offered_users(users, query, excluded, limit, n - 1);
        let rest = offered(users, query, excluded, limit, n - 1);
        let s = offered(users, query, excluded, limit, n);
        assert forall|k: int| 0 <= k < s.len() implies {
            let p = #[trigger] s[k] as int;
            0 <= p < n && user_matches(users[p], query) && !excluded.contains(users[p].id)
        } by {
            if k < rest.len() {
                assert(s[k] == rest[k]);
            } else {
                assert(s[k] == (n - 1) as usize);
            }
        }
    }
}

/// Every renter is either active or past, never both: the two lists
/// together hold each renter exactly once.
pub proof fn law_renters_partitioned(renters: Seq<RenterInfo>, n: int)
    requires
        0 <= n <= renters.len(),
        n <= usize::MAX,
    ensures
        renters_with_status(renters, true, n).len() + renters_with_status(renters, false, n).len()
            == n,
        forall|k: int|
            0 <= k < renters_with_status(renters, true, n).len() ==> #[trigger] renters_with_status(
                renters,
                true,
                n,
            )[k] < n,
        forall|k: int|
            0 <= k < renters_with_status(renters, false, n).len() ==> #[trigger] renters_with_status(
                renters,
                false,
                n,
            )[k] < n,
        forall|k: int|
            0 <= k < renters_with_status(renters, true, n).len() ==> renters[#[trigger] renters_with_status(
                renters,
                true,
                n,
            )[k] as int].is_active,
        forall|k: int|
            0 <= k < renters_with_status(renters, false, n).len() ==> !renters[#[trigger] renters_with_status(
                renters,
                false,
                n,
            )[k] as int].is_active,
    decreases n,
{
    if n > 0 {
        law_renters_partitioned(renters, n - 1);
        let a = renters_with_status(renters, true, n);
        let ra = renters_with_status(renters, true, n - 1);
        let b = renters_with_status(renters, false, n);
        let rb = renters_with_status(renters, false, n - 1);
        assert forall|k: int| 0 <= k < a.len() implies #[trigger] a[k] < n && renters[a[k] as int].is_active by {
            if k < ra.len() {
                assert(a[k] == ra[k]);
            } else {
                assert(a[k] == (n - 1) as usize);
            }
        }
        assert forall|k: int| 0 <= k < b.len() implies #[trigger] b[k] < n && !renters[b[k] as int].is_active by {
            if k < rb.len() {
                assert(b[k] == rb[k]);
            } else {
                assert(b[k] == (n - 1) as usize);
            }
        }
    }
}

/// The user search ignores case: two searches that lowercase alike (and
/// are both empty or both not) match the same users.
pub proof fn law_user_search_ignores_case(u: UserInfo, q1: Seq<char>, q2: Seq<char>)
    requires
        lowercase(q1) == lowercase(q2),
        (q1.len() == 0) == (q2.len() == 0),
    ensures
        user_matches(u, q1) == user_matches(u, q2),
{
}

/// A user whose lowercased name or address holds the lowercased search is
/// matched.
pub proof fn law_user_found_by_name_or_address(u: UserInfo, q: Seq<char>)
    requires
        contains_seq(lowercase(u.name@), lowercase(q)) || contains_seq(
            lowercase(u.email@),
            lowercase(q),
        ),
    ensures
        user_matches(u, q),
{
}

/// The panels offer the same users for searches that differ only in case.
pub proof fn law_offered_users_ignore_case(
    users: Seq<UserInfo>,
    q1: Seq<char>,
    q2: Seq<char>,
    excluded: Seq<u64>,
    limit: nat,
    n: int,
)
    requires
        lowercase(q1) == lowercase(q2),
        (q1.len() == 0) == (q2.len() == 0),
        0 <= n <= users.len(),
    ensures
        offered(users, q1, excluded, limit, n) == offered(users, q2, excluded, limit, n),
    decreases n,
{
    if n > 0 {
        law_offered_users_ignore_case(users, q1, q2, excluded, limit, n - 1);
        law_user_search_ignores_case(users[n - 1], q1, q2);
    }
}

/// A flag of the metadata reads as `true` or `false`, whatever the
/// language.
pub proof fn law_metadata_flag_reads_as_value(c: CatalogView, b: bool)
    ensures
        metadata_value_text_spec(c, MetadataValue::Flag(b)) == (if b {
            "true"@
        } else {
            "false"@
        }),
{
}

/// Only a missing value (null, or the text `null`) depends on the
/// language: every other metadata value reads the same in every catalog,
/// and a text other than `null` reads as itself.
pub proof fn law_metadata_value_language_independent(c1: CatalogView, c2: CatalogView, v: MetadataValue)
    requires
        !(v is Null),
        !(v matches MetadataValue::Text(s) && s@ == "null"@),
    ensures
        metadata_value_text_spec(c1, v) == metadata_value_text_spec(c2, v),
        v matches MetadataValue::Text(s) ==> metadata_value_text_spec(c1, v) == s@,
{
}

} // verus!
