//! Toast notifications: their levels and how each is shown, and the list
//! of toasts on screen with the counter that numbers them.
use vstd::prelude::*;

verus! {

/// How serious a toast is.
#[derive(Debug, Clone, Copy, PartialEq, Eq, Structural)]
pub enum ToastLevel {
    Success,
    Error,
    Warning,
    Info,
}

impl ToastLevel {
    /// The header's colour classes.
    pub fn css_class(&self) -> (r: &'static str)
        ensures
            r@ == css_class_spec(*self),
    {
        proof {
            reveal_strlit("bg-success text-white");
            reveal_strlit("bg-danger text-white");
            reveal_strlit("bg-warning text-dark");
            reveal_strlit("bg-info text-dark");
        }
        match self {
            ToastLevel::Success => "bg-success text-white",
            ToastLevel::Error => "bg-danger text-white",
            ToastLevel::Warning => "bg-warning text-dark",
            ToastLevel::Info => "bg-info text-dark",
        }
    }

    /// The header's icon.
    pub fn icon(&self) -> (r: &'static str)
        ensures
            r@ == icon_spec(*self),
    {
        proof {
            reveal_strlit("bi-check-circle-fill");
            reveal_strlit("bi-exclamation-triangle-fill");
            reveal_strlit("bi-exclamation-circle-fill");
            reveal_strlit("bi-info-circle-fill");
        }
        match self {
            ToastLevel::Success => "bi-check-circle-fill",
            ToastLevel::Error => "bi-exclamation-triangle-fill",
            ToastLevel::Warning => "bi-exclamation-circle-fill",
            ToastLevel::Info => "bi-info-circle-fill",
        }
    }

    /// The header's title.
    pub fn title(&self) -> (r: &'static str)
        ensures
            r@ == title_spec(*self),
    {
        proof {
            reveal_strlit("Success");
            reveal_strlit("Error");
            reveal_strlit("Warning");
            reveal_strlit("Info");
        }
        match self {
            ToastLevel::Success => "Success",
            ToastLevel::Error => "Error",
            ToastLevel::Warning => "Warning",
            ToastLevel::Info => "Info",
        }
    }
}

pub open spec fn css_class_spec(l: ToastLevel) -> Seq<char> {
    match l {
        ToastLevel::Success => "bg-success text-white"@,
        ToastLevel::Error => "bg-danger text-white"@,
        ToastLevel::Warning => "bg-warning text-dark"@,
        ToastLevel::Info => "bg-info text-dark"@,
    }
}

pub open spec fn icon_spec(l: ToastLevel) -> Seq<char> {
    match l {
        ToastLevel::Success => "bi-check-circle-fill"@,
        ToastLevel::Error => "bi-exclamation-triangle-fill"@,
        ToastLevel::Warning => "bi-exclamation-circle-fill"@,
        ToastLevel::Info => "bi-info-circle-fill"@,
    }
}

pub open spec fn title_spec(l: ToastLevel) -> Seq<char> {
    match l {
        ToastLevel::Success => "Success"@,
        ToastLevel::Error => "Error"@,
        ToastLevel::Warning => "Warning"@,
        ToastLevel::Info => "Info"@,
    }
}

/// One toast on screen.
pub struct Toast {
    pub id: u32,
    pub message: String,
    pub level: ToastLevel,
}

/// What a toast shows: its number, its text and its level.
pub struct ToastView {
    pub id: u32,
    pub message: Seq<char>,
    pub level: ToastLevel,
}

pub open spec fn toast_view(t: Toast) -> ToastView {
    ToastView { id: t.id, message: t.message@, level: t.level }
}

/// The toasts on screen, oldest first, and the number the last toast got.
pub struct Toasts {
    toasts: Vec<Toast>,
    counter: u32,
}

/// What the toast list holds.
pub struct ToastsView {
    pub toasts: Seq<ToastView>,
    pub counter: u32,
}

impl View for Toasts {
    type V = ToastsView;

    closed spec fn view(&self) -> ToastsView {
        ToastsView { toasts: self.toasts@.map_values(|t: Toast| toast_view(t)), counter: self.counter }
    }
}

/// `toasts` without those numbered `id`, in the same order.
pub open spec fn without_id(toasts: Seq<ToastView>, id: u32) -> Seq<ToastView>
    decreases toasts.len(),
{
    if toasts.len() == 0 {
        Seq::empty()
    } else {
        let rest = without_id(toasts.drop_last(), id);
        if toasts.last().id == id {
            rest
        } else {
            rest.push(toasts.last())
        }
    }
}

impl ToastsView {
    /// Toast numbers increase from oldest to newest and none exceeds the
    /// counter.
    pub open spec fn numbered(self) -> bool {
        &&& forall|i: int, j: int|
            0 <= i < j < self.toasts.len() ==> #[trigger] self.toasts[i].id
                < #[trigger] self.toasts[j].id
        &&& forall|i: int| 0 <= i < self.toasts.len() ==> #[trigger] self.toasts[i].id <= self.counter
    }

    /// The list after showing `message` at `level`: it is numbered one past
    /// the counter and added last.
    pub open spec fn shown(self, message: Seq<char>, level: ToastLevel) -> ToastsView {
        let id = (self.counter + 1) as u32;
        ToastsView {
            toasts: self.toasts.push(ToastView { id, message, level }),
            counter: id,
        }
    }

    /// The list after dismissing toast `id`.
    pub open spec fn dismissed(self, id: u32) -> ToastsView {
        ToastsView { toasts: without_id(self.toasts, id), counter: self.counter }
    }
}

impl Toasts {
    /// Toast numbers increase from oldest to newest, none past the counter.
    #[verifier::type_invariant]
    spec fn numbered_inv(self) -> bool {
        self@.numbered()
    }

    /// No toast on screen; the counter starts at 0.
    pub fn new() -> (r: Toasts)
        ensures
            r@.toasts.len() == 0,
            r@.counter == 0,
            r@.numbered(),
    {
        let r = Toasts { toasts: Vec::new(), counter: 0 };
        assert(r@.toasts =~= Seq::<ToastView>::empty());
        r
    }

    /// The toasts on screen, oldest first.
    pub fn toasts(&self) -> (r: &Vec<Toast>)
        ensures
            r@.map_values(|t: Toast| toast_view(t)) == self@.toasts,
            self@.numbered(),
    {
        proof {
            use_type_invariant(self);
        }
        &self.toasts
    }

    /// The number the last toast got (0 before the first).
    pub fn last_id(&self) -> (r: u32)
        ensures
            r == self@.counter,
    {
        self.counter
    }

    /// Shows `message` at `level` and gives the new toast's number.
    pub fn show(&mut self, message: String, level: ToastLevel) -> (id: u32)
        requires
            old(self)@.counter < u32::MAX,
        ensures
            id == old(self)@.counter + 1,
            final(self)@ == old(self)@.shown(message@, level),
            final(self)@.numbered(),
    {
        proof {
            use_type_invariant(&*self);
        }
        let id = self.counter + 1;
        self.counter = id;
        let ghost before = self.toasts@;
        let mut list: Vec<Toast> = Vec::new();
        std::mem::swap(&mut list, &mut self.toasts);
        list.push(Toast { id, message, level });
        proof {
            assert(list@.map_values(|t: Toast| toast_view(t)) =~= before.map_values(
                |t: Toast| toast_view(t),
            ).push(ToastView { id, message: message@, level }));
        }
        self.toasts = list;
        id
    }

    /// Takes toast `id` off the screen.
    pub fn dismiss(&mut self, id: u32)
        ensures
            final(self)@ == old(self)@.dismissed(id),
            final(self)@.numbered(),
    {
        proof {
            use_type_invariant(&*self);
        }
        let ghost av = self@.toasts;
        let mut kept: Vec<Toast> = Vec::new();
        let n = self.toasts.len();
        let mut i: usize = 0;
        while i < n
            invariant
                n == self.toasts@.len(),
                i <= n,
                av == self@.toasts,
                kept@.map_values(|t: Toast| toast_view(t)) == without_id(av.take(i as int), id),
            decreases n - i,
        {
            let t = &self.toasts[i];
            proof {
                assert(av.take(i + 1).drop_last() =~= av.take(i as int));
                assert(av.take(i + 1).last() == toast_view(*t));
            }
            if t.id != id {
                let copy = Toast { id: t.id, message: t.message.clone(), level: t.level };
                let ghost before = kept@;
                kept.push(copy);
                proof {
                    assert(kept@.map_values(|t: Toast| toast_view(t)) =~= before.map_values(
                        |t: Toast| toast_view(t),
                    ).push(toast_view(copy)));
                }
            }
            i += 1;
        }
        proof {
            assert(av.take(n as int) =~= av);
            lemma_without_id_numbered(av, id, self.counter);
        }
        self.toasts = kept;
    }
}

proof fn lemma_without_id_numbered(s: Seq<ToastView>, id: u32, counter: u32)
    requires
        forall|i: int, j: int| 0 <= i < j < s.len() ==> #[trigger] s[i].id < #[trigger] s[j].id,
        forall|i: int| 0 <= i < s.len() ==> #[trigger] s[i].id <= counter,
    ensures
        forall|i: int, j: int|
            0 <= i < j < without_id(s, id).len() ==> #[trigger] without_id(s, id)[i].id
                < #[trigger] without_id(s, id)[j].id,
        forall|i: int|
            0 <= i < without_id(s, id).len() ==> #[trigger] without_id(s, id)[i].id <= counter,
        forall|i: int|
            0 <= i < without_id(s, id).len() ==> #[trigger] without_id(s, id)[i].id != id,
        forall|i: int| 0 <= i < without_id(s, id).len() ==> s.contains(#[trigger] without_id(s, id)[i]),
    decreases s.len(),
{
    if s.len() > 0 {
        let p = s.drop_last();
        lemma_without_id_numbered(p, id, counter);
        let w = without_id(s, id);
        let wp = without_id(p, id);
        assert forall|i: int| 0 <= i < wp.len() implies s.contains(#[trigger] wp[i]) by {
            assert(p.contains(wp[i]));
            let k = choose|k: int| 0 <= k < p.len() && p[k] == wp[i];
            assert(s[k] == wp[i]);
        }
        if s.last().id != id {
            assert(w =~= wp.push(s.last()));
            assert forall|i: int| 0 <= i < wp.len() implies #[trigger] wp[i].id < s.last().id by {
                assert(p.contains(wp[i]));
                let k = choose|k: int| 0 <= k < p.len() && p[k] == wp[i];
                assert(s[k] == wp[i]);
            }
            assert forall|i: int| 0 <= i < w.len() implies s.contains(#[trigger] w[i]) by {
                if i < wp.len() {
                    assert(w[i] == wp[i]);
                } else {
                    assert(s[s.len() - 1] == w[i]);
                }
            }
            assert forall|i: int, j: int| 0 <= i < j < w.len() implies #[trigger] w[i].id
                < #[trigger] w[j].id by {
                if j < wp.len() {
                    assert(w[i] == wp[i]);
                    assert(w[j] == wp[j]);
                } else {
                    assert(w[i] == wp[i]);
                }
            }
        }
    }
}

// ---------------------------------------------------------------------
// Laws
// ---------------------------------------------------------------------

/// Dismissing the toast just shown gives back the list as it was, with
/// the counter advanced.
pub proof fn law_show_then_dismiss(t: ToastsView, message: Seq<char>, level: ToastLevel)
    requires
        t.numbered(),
        t.counter < u32::MAX,
    ensures
        t.shown(message, level).dismissed((t.counter + 1) as u32).toasts == t.toasts,
{
    let id = (t.counter + 1) as u32;
    let pushed = t.toasts.push(ToastView { id, message, level });
    assert(pushed.drop_last() =~= t.toasts);
    lemma_without_absent(t.toasts, id);
}

/// Dismissing a number no toast has changes nothing.
pub proof fn law_dismiss_unknown(t: ToastsView, id: u32)
    requires
        forall|i: int| 0 <= i < t.toasts.len() ==> #[trigger] t.toasts[i].id != id,
    ensures
        t.dismissed(id) == t,
{
    lemma_without_absent(t.toasts, id);
}

/// After dismissing toast `id` no toast with that number is left, and
/// every toast left was on screen before.
pub proof fn law_dismiss_removes(t: ToastsView, id: u32)
    requires
        t.numbered(),
    ensures
        forall|i: int|
            0 <= i < t.dismissed(id).toasts.len() ==> #[trigger] t.dismissed(id).toasts[i].id
                != id,
        forall|i: int|
            0 <= i < t.dismissed(id).toasts.len() ==> t.toasts.contains(
                #[trigger] t.dismissed(id).toasts[i],
            ),
        t.dismissed(id).numbered(),
{
    lemma_without_id_numbered(t.toasts, id, t.counter);
}

/// A shown toast is on screen, last, with the number it was given, and
/// the numbering stays in order.
pub proof fn law_show_appends(t: ToastsView, message: Seq<char>, level: ToastLevel)
    requires
        t.numbered(),
        t.counter < u32::MAX,
    ensures
        t.shown(message, level).toasts.last() == (ToastView {
            id: (t.counter + 1) as u32,
            message,
            level,
        }),
        t.shown(message, level).numbered(),
{
}

/// Two toasts shown in a row are both on screen, after those already
/// there, numbered one and two past the counter; the numbers of all toasts
/// stay distinct.
pub proof fn law_show_twice(
    t: ToastsView,
    m1: Seq<char>,
    l1: ToastLevel,
    m2: Seq<char>,
    l2: ToastLevel,
)
    requires
        t.numbered(),
        t.counter + 2 <= u32::MAX,
    ensures
        t.shown(m1, l1).shown(m2, l2).toasts == t.toasts.push(
            ToastView { id: (t.counter + 1) as u32, message: m1, level: l1 },
        ).push(ToastView { id: (t.counter + 2) as u32, message: m2, level: l2 }),
        t.shown(m1, l1).shown(m2, l2).counter == t.counter + 2,
        forall|i: int, j: int|
            0 <= i < j < t.shown(m1, l1).shown(m2, l2).toasts.len() ==> #[trigger] t.shown(
                m1,
                l1,
            ).shown(m2, l2).toasts[i].id != #[trigger] t.shown(m1, l1).shown(m2, l2).toasts[j].id,
{
    law_show_appends(t, m1, l1);
    law_show_appends(t.shown(m1, l1), m2, l2);
}

proof fn lemma_without_absent(s: Seq<ToastView>, id: u32)
    requires
        forall|i: int| 0 <= i < s.len() ==> #[trigger] s[i].id != id,
    ensures
        without_id(s, id) == s,
    decreases s.len(),
{
    if s.len() > 0 {
        let p = s.drop_last();
        assert forall|i: int| 0 <= i < p.len() implies #[trigger] p[i].id != id by {
            assert(p[i] == s[i]);
        }
        lemma_without_absent(p, id);
        assert(s.last().id == s[s.len() - 1].id);
        assert(p.push(s.last()) =~= s);
    }
}

} // verus!
