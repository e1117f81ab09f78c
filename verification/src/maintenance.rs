//! Maintenance requests: who may delete a comment, how a history entry
//! reads, the management panel that changes a request's status, priority
//! and assignee, and the panel that escalates a request to a manager.
use vstd::prelude::*;
use crate::i18n::{arg_views, t, t_with_args, Catalog, CatalogView};
use crate::text::{decimal, parse_u64, parse_u64_spec, push_str, string_from, u64_to_string};

verus! {

/// A comment can be deleted by its author and by administrators and
/// managers.
pub fn can_delete_comment(is_admin_or_manager: bool, author_id: u64, current_user_id: u64) -> (r:
    bool)
    ensures
        r == (is_admin_or_manager || author_id == current_user_id),
{
    is_admin_or_manager || author_id == current_user_id
}

/// A history entry without a previous status but with a note (a change of
/// priority or assignment) shows only its note; every other entry shows a
/// change of status.
pub fn history_shows_note_only(from_status: &Option<String>, note: &Option<String>) -> (r: bool)
    ensures
        r == (from_status is None && note is Some),
{
    from_status.is_none() && note.is_some()
}

/// A comment is sent when its text is not empty and no comment is being
/// sent already.
pub fn comment_submittable(text: &str, submitting: bool) -> (r: bool)
    ensures
        r == (text@.len() > 0 && !submitting),
{
    !text.is_empty() && !submitting
}

/// The download path of attachment `attachment_id` of request
/// `request_id`.
pub open spec fn attachment_download_path_spec(request_id: u64, attachment_id: u64) -> Seq<char> {
    "/api/v1/requests/"@ + decimal(request_id as nat) + "/attachments/"@ + decimal(
        attachment_id as nat,
    ) + "/download"@
}

/// The download path of an attachment.
pub fn attachment_download_path(request_id: u64, attachment_id: u64) -> (r: String)
    ensures
        r@ == attachment_download_path_spec(request_id, attachment_id),
{
    let mut s = string_from("/api/v1/requests/");
    let a = u64_to_string(request_id);
    push_str(&mut s, a.as_str());
    push_str(&mut s, "/attachments/");
    let b = u64_to_string(attachment_id);
    push_str(&mut s, b.as_str());
    push_str(&mut s, "/download");
    s
}

// ---------------------------------------------------------------------
// The management panel
// ---------------------------------------------------------------------

/// What the management panel changes.
#[derive(Debug, Clone, Copy, PartialEq, Eq, Structural)]
pub enum PanelField {
    Status,
    Priority,
    Assignee,
}

/// The change sent for a request: only the field being changed is set.
pub struct UpdateRequest {
    pub status: Option<String>,
    pub priority: Option<String>,
    pub assigned_to: Option<u64>,
}

/// How the server answered an update: done, refused for lack of rights,
/// or failed with the error's text.
pub enum UpdateOutcome {
    Done,
    Forbidden,
    Failed(String),
}

/// What the panel reports once an update is answered: a success (after
/// which the request is reloaded) or an error, and its message.
pub struct Feedback {
    pub success: bool,
    pub message: String,
}

/// The panel's state: whether an update is under way, and the status,
/// priority and assignee chosen but not sent yet.
pub struct ManagementPanel {
    updating: bool,
    new_status: Option<String>,
    new_priority: Option<String>,
    new_assigned: Option<u64>,
}

/// What the panel holds.
pub struct PanelView {
    pub updating: bool,
    pub status: Option<Seq<char>>,
    pub priority: Option<Seq<char>>,
    pub assignee: Option<u64>,
}

pub open spec fn opt_text_view(s: Option<String>) -> Option<Seq<char>> {
    match s {
        Some(x) => Some(x@),
        None => None,
    }
}

impl View for ManagementPanel {
    type V = PanelView;

    closed spec fn view(&self) -> PanelView {
        PanelView {
            updating: self.updating,
            status: opt_text_view(self.new_status),
            priority: opt_text_view(self.new_priority),
            assignee: self.new_assigned,
        }
    }
}

impl PanelView {
    /// Whether something is chosen for `f`.
    pub open spec fn chosen(self, f: PanelField) -> bool {
        match f {
            PanelField::Status => self.status is Some,
            PanelField::Priority => self.priority is Some,
            PanelField::Assignee => self.assignee is Some,
        }
    }

    /// After choosing status `value`: an empty choice changes nothing.
    pub open spec fn with_status(self, value: Seq<char>) -> PanelView {
        if value.len() == 0 {
            self
        } else {
            PanelView { status: Some(value), ..self }
        }
    }

    /// After choosing priority `value`: an empty choice changes nothing.
    pub open spec fn with_priority(self, value: Seq<char>) -> PanelView {
        if value.len() == 0 {
            self
        } else {
            PanelView { priority: Some(value), ..self }
        }
    }

    /// After choosing assignee `value`: only a user id changes the choice.
    pub open spec fn with_assignee(self, value: Seq<char>) -> PanelView {
        if value.len() > 0 && parse_u64_spec(value) is Some {
            PanelView { assignee: parse_u64_spec(value), ..self }
        } else {
            self
        }
    }

    /// The button that sends `f` is enabled: a choice is made and no
    /// update is under way.
    pub open spec fn can_submit(self, f: PanelField) -> bool {
        self.chosen(f) && !self.updating
    }

    /// After asking to send `f`: an update is under way when a choice was
    /// made; nothing changes otherwise.
    pub open spec fn began(self, f: PanelField) -> PanelView {
        if self.chosen(f) {
            PanelView { updating: true, ..self }
        } else {
            self
        }
    }

    /// The choice for `f` forgotten.
    pub open spec fn cleared(self, f: PanelField) -> PanelView {
        match f {
            PanelField::Status => PanelView { status: None, ..self },
            PanelField::Priority => PanelView { priority: None, ..self },
            PanelField::Assignee => PanelView { assignee: None, ..self },
        }
    }

    /// After the answer to an update of `f`: no update is under way, and
    /// the choice is forgotten when the update was done.
    pub open spec fn finished(self, f: PanelField, done: bool) -> PanelView {
        let p = PanelView { updating: false, ..self };
        if done {
            p.cleared(f)
        } else {
            p
        }
    }
}

/// `r` sends the choice `v` holds for `f`, and nothing else.
pub open spec fn sends(v: PanelView, f: PanelField, r: UpdateRequest) -> bool {
    match f {
        PanelField::Status => opt_text_view(r.status) == v.status && r.priority is None
            && r.assigned_to is None,
        PanelField::Priority => r.status is None && opt_text_view(r.priority) == v.priority
            && r.assigned_to is None,
        PanelField::Assignee => r.status is None && r.priority is None && r.assigned_to
            == v.assignee,
    }
}

/// The message key of a done update.
pub open spec fn done_key(f: PanelField) -> Seq<char> {
    match f {
        PanelField::Status => "maintenance-status-updated"@,
        PanelField::Priority => "maintenance-priority-updated"@,
        PanelField::Assignee => "maintenance-assigned-success"@,
    }
}

/// The message key of a refused update.
pub open spec fn forbidden_key(f: PanelField) -> Seq<char> {
    match f {
        PanelField::Assignee => "maintenance-no-permission-assign"@,
        _ => "maintenance-no-permission-update"@,
    }
}

/// The message key of a failed update, which shows the error.
pub open spec fn failed_key(f: PanelField) -> Seq<char> {
    match f {
        PanelField::Status => "maintenance-failed-update-status"@,
        PanelField::Priority => "maintenance-failed-update-priority"@,
        PanelField::Assignee => "maintenance-failed-assign"@,
    }
}

/// The message reported for outcome `o` of an update of `f`.
pub open spec fn feedback_text(c: CatalogView, f: PanelField, o: UpdateOutcome) -> Seq<char> {
    match o {
        UpdateOutcome::Done => c.translate(done_key(f), None),
        UpdateOutcome::Forbidden => c.translate(forbidden_key(f), None),
        UpdateOutcome::Failed(e) => c.translate(failed_key(f), Some(seq![("error"@, e@)])),
    }
}

fn take_choice(s: &Option<String>) -> (r: Option<String>)
    ensures
        opt_text_view(r) == opt_text_view(*s),
{
    match s {
        Some(x) => Some(string_from(x.as_str())),
        None => None,
    }
}

impl ManagementPanel {
    /// Nothing chosen, no update under way.
    pub fn new() -> (r: ManagementPanel)
        ensures
            r@ == (PanelView { updating: false, status: None, priority: None, assignee: None }),
    {
        ManagementPanel { updating: false, new_status: None, new_priority: None, new_assigned: None }
    }

    /// The panel as it stands.
    pub fn view_state(&self) -> (r: (bool, Option<String>, Option<String>, Option<u64>))
        ensures
            r.0 == self@.updating,
            opt_text_view(r.1) == self@.status,
            opt_text_view(r.2) == self@.priority,
            r.3 == self@.assignee,
    {
        (self.updating, take_choice(&self.new_status), take_choice(&self.new_priority), self.new_assigned)
    }

    /// The status list changed to `value`.
    pub fn choose_status(&mut self, value: &str)
        ensures
            final(self)@ == old(self)@.with_status(value@),
    {
        if !value.is_empty() {
            self.new_status = Some(string_from(value));
        }
    }

    /// The priority list changed to `value`.
    pub fn choose_priority(&mut self, value: &str)
        ensures
            final(self)@ == old(self)@.with_priority(value@),
    {
        if !value.is_empty() {
            self.new_priority = Some(string_from(value));
        }
    }

    /// The assignee list changed to `value`.
    pub fn choose_assignee(&mut self, value: &str)
        ensures
            final(self)@ == old(self)@.with_assignee(value@),
    {
        if !value.is_empty() {
            if let Some(id) = parse_u64(value) {
                self.new_assigned = Some(id);
            }
        }
    }

    /// Whether the button that sends `field` is enabled.
    pub fn can_submit(&self, field: PanelField) -> (r: bool)
        ensures
            r == self@.can_submit(field),
    {
        let chosen = match field {
            PanelField::Status => self.new_status.is_some(),
            PanelField::Priority => self.new_priority.is_some(),
            PanelField::Assignee => self.new_assigned.is_some(),
        };
        chosen && !self.updating
    }

    /// Starts sending the choice for `field`: the change to send, or none
    /// when nothing is chosen for it.
    pub fn begin_update(&mut self, field: PanelField) -> (r: Option<UpdateRequest>)
        ensures
            r is Some <==> old(self)@.chosen(field),
            r matches Some(req) ==> sends(old(self)@, field, req),
            final(self)@ == old(self)@.began(field),
    {
        let req = match field {
            PanelField::Status => match &self.new_status {
                Some(s) => Some(
                    UpdateRequest { status: Some(string_from(s.as_str())), priority: None, assigned_to: None },
                ),
                None => None,
            },
            PanelField::Priority => match &self.new_priority {
                Some(s) => Some(
                    UpdateRequest { status: None, priority: Some(string_from(s.as_str())), assigned_to: None },
                ),
                None => None,
            },
            PanelField::Assignee => match self.new_assigned {
                Some(id) => Some(UpdateRequest { status: None, priority: None, assigned_to: Some(id) }),
                None => None,
            },
        };
        if req.is_some() {
            self.updating = true;
        }
        req
    }

    /// The server answered the update of `field`: the update is over, the
    /// choice is forgotten when it was done, and the report says how it
    /// went.
    pub fn finish_update(&mut self, catalog: &Catalog, field: PanelField, outcome: UpdateOutcome) -> (r:
        Feedback)
        ensures
            final(self)@ == old(self)@.finished(field, outcome is Done),
            r.success == (outcome is Done),
            r.message@ == feedback_text(catalog@, field, outcome),
    {
        self.updating = false;
        match outcome {
            UpdateOutcome::Done => {
                let key = match field {
                    PanelField::Status => {
                        self.new_status = None;
                        "maintenance-status-updated"
                    },
                    PanelField::Priority => {
                        self.new_priority = None;
                        "maintenance-priority-updated"
                    },
                    PanelField::Assignee => {
                        self.new_assigned = None;
                        "maintenance-assigned-success"
                    },
                };
                Feedback { success: true, message: t(catalog, key) }
            },
            UpdateOutcome::Forbidden => {
                let key = match field {
                    PanelField::Assignee => "maintenance-no-permission-assign",
                    _ => "maintenance-no-permission-update",
                };
                Feedback { success: false, message: t(catalog, key) }
            },
            UpdateOutcome::Failed(e) => {
                let key = match field {
                    PanelField::Status => "maintenance-failed-update-status",
                    PanelField::Priority => "maintenance-failed-update-priority",
                    PanelField::Assignee => "maintenance-failed-assign",
                };
                let args: [(&str, &str); 1] = [("error", e.as_str())];
                proof {
                    assert(arg_views(args@) =~= seq![("error"@, e@)]);
                }
                Feedback { success: false, message: t_with_args(catalog, key, args.as_slice()) }
            },
        }
    }
}

/// A done update of `f` forgets its choice and ends the update; the
/// other choices stay as they were.
pub proof fn law_done_update_clears_choice(v: PanelView, f: PanelField)
    ensures
        !v.began(f).finished(f, true).chosen(f),
        !v.began(f).finished(f, true).updating,
        forall|g: PanelField| g != f ==> (v.began(f).finished(f, true).chosen(g) <==> v.chosen(g)),
{
}

/// An update that is refused or fails keeps the choice, so that it can be
/// sent again, and ends the update.
pub proof fn law_failed_update_keeps_choice(v: PanelView, f: PanelField)
    ensures
        v.began(f).finished(f, false) == (PanelView { updating: false, ..v }),
{
}

/// Nothing is sent for a field without a choice, and the panel is left as
/// it was.
pub proof fn law_nothing_chosen_nothing_sent(v: PanelView, f: PanelField)
    requires
        !v.chosen(f),
    ensures
        v.began(f) == v,
{
}

/// The latest choice counts: choosing a status, priority or assignee
/// replaces any earlier choice of it, leaves the other two and the update
/// state alone, and choosing twice is choosing the second value.
pub proof fn law_latest_choice_counts(v: PanelView, a: Seq<char>, b: Seq<char>)
    requires
        b.len() > 0,
    ensures
        v.with_status(b).status == Some(b),
        v.with_status(b).priority == v.priority && v.with_status(b).assignee == v.assignee
            && v.with_status(b).updating == v.updating,
        v.with_status(a).with_status(b) == v.with_status(b),
        v.with_priority(b).priority == Some(b),
        v.with_priority(b).status == v.status && v.with_priority(b).assignee == v.assignee
            && v.with_priority(b).updating == v.updating,
        v.with_priority(a).with_priority(b) == v.with_priority(b),
        parse_u64_spec(b) is Some ==> v.with_assignee(b).assignee == parse_u64_spec(b)
            && v.with_assignee(a).with_assignee(b) == v.with_assignee(b),
        v.with_assignee(b).status == v.status && v.with_assignee(b).priority == v.priority
            && v.with_assignee(b).updating == v.updating,
{
}

/// Choosing the empty value in any of the three lists keeps the earlier
/// choice.
pub proof fn law_empty_choice_keeps_selection(v: PanelView, value: Seq<char>)
    requires
        value.len() == 0,
    ensures
        v.with_status(value) == v,
        v.with_priority(value) == v,
        v.with_assignee(value) == v,
{
}

// ---------------------------------------------------------------------
// Escalation
// ---------------------------------------------------------------------

/// The escalation panel: whether it is open, whether the managers are
/// being loaded, how many managers were loaded, the manager chosen, and
/// whether the escalation is under way.
pub struct EscalationPanel {
    pub open: bool,
    pub loading_managers: bool,
    pub manager_count: usize,
    pub selected: Option<u64>,
    pub escalating: bool,
}

/// The message shown when the escalation failed with `e`.
pub open spec fn escalation_failed_text(e: Seq<char>) -> Seq<char> {
    "Failed to escalate: "@ + e
}

impl EscalationPanel {
    /// A closed panel.
    pub fn new() -> (r: EscalationPanel)
        ensures
            !r.open && !r.loading_managers && r.manager_count == 0 && r.selected is None
                && !r.escalating,
    {
        EscalationPanel {
            open: false,
            loading_managers: false,
            manager_count: 0,
            selected: None,
            escalating: false,
        }
    }

    /// Opens the panel; the building's managers are to be loaded.
    pub fn show(&mut self)
        ensures
            final(self).open && final(self).loading_managers,
            final(self).manager_count == old(self).manager_count,
            final(self).selected == old(self).selected,
            final(self).escalating == old(self).escalating,
    {
        self.open = true;
        self.loading_managers = true;
    }

    /// The managers arrived (`Some` with how many) or could not be loaded
    /// (`None`, which shows none).
    pub fn managers_loaded(&mut self, count: Option<usize>)
        ensures
            !final(self).loading_managers,
            final(self).manager_count == (match count {
                Some(n) => n,
                None => 0,
            }),
            final(self).open == old(self).open,
            final(self).selected == old(self).selected,
            final(self).escalating == old(self).escalating,
    {
        self.loading_managers = false;
        self.manager_count = match count {
            Some(n) => n,
            None => 0,
        };
    }

    /// Closes the panel and forgets the chosen manager.
    pub fn cancel(&mut self)
        ensures
            !final(self).open,
            final(self).selected is None,
            final(self).loading_managers == old(self).loading_managers,
            final(self).manager_count == old(self).manager_count,
            final(self).escalating == old(self).escalating,
    {
        self.open = false;
        self.selected = None;
    }

    /// The manager list changed to `value`: the empty choice clears the
    /// selection, a manager's id selects it, any other value is ignored.
    pub fn select_manager(&mut self, value: &str)
        ensures
            final(self).selected == (if value@.len() == 0 {
                None
            } else {
                match parse_u64_spec(value@) {
                    Some(id) => Some(id),
                    None => old(self).selected,
                }
            }),
            final(self).open == old(self).open,
            final(self).loading_managers == old(self).loading_managers,
            final(self).manager_count == old(self).manager_count,
            final(self).escalating == old(self).escalating,
    {
        if value.is_empty() {
            self.selected = None;
        } else if let Some(id) = parse_u64(value) {
            self.selected = Some(id);
        }
    }

    /// Whether the confirm button is enabled.
    pub fn can_escalate(&self) -> (r: bool)
        ensures
            r == (self.selected is Some && !self.escalating),
    {
        self.selected.is_some() && !self.escalating
    }

    /// Confirms the escalation: the manager to escalate to, when one is
    /// chosen (the escalation is then under way).
    pub fn escalate(&mut self) -> (r: Option<u64>)
        ensures
            r == old(self).selected,
            final(self).escalating == (old(self).escalating || old(self).selected is Some),
            final(self).open == old(self).open,
            final(self).selected == old(self).selected,
            final(self).loading_managers == old(self).loading_managers,
            final(self).manager_count == old(self).manager_count,
    {
        if self.selected.is_some() {
            self.escalating = true;
        }
        self.selected
    }

    /// The escalation was answered: on success the panel closes and
    /// forgets the manager (the request is then reloaded); on failure the
    /// error message to show.
    pub fn escalation_answered(&mut self, result: Result<(), String>) -> (r: Option<String>)
        ensures
            !final(self).escalating,
            final(self).loading_managers == old(self).loading_managers,
            final(self).manager_count == old(self).manager_count,
            result is Ok ==> r is None && !final(self).open && final(self).selected is None,
            result matches Err(e) ==> (r matches Some(m) && m@ == escalation_failed_text(e@))
                && final(self).open == old(self).open && final(self).selected == old(self).selected,
    {
        self.escalating = false;
        match result {
            Ok(()) => {
                self.open = false;
                self.selected = None;
                None
            },
            Err(e) => {
                let mut m = string_from("Failed to escalate: ");
                push_str(&mut m, e.as_str());
                Some(m)
            },
        }
    }
}

} // verus!
