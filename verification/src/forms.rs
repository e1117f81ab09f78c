//! The CSS classes and counters of the form controls: inputs, selects,
//! text areas, check boxes, form groups and the spinner.
use vstd::prelude::*;
use crate::text::{
    chars_of, concat, join_strings, join_with, parse_u64, parse_u64_spec, push_str, str_is, string_from,
    u64_to_string, decimal, views,
};

verus! {

/// One choice of a select box.
pub struct SelectOption {
    pub value: String,
    pub label: String,
    pub disabled: bool,
}

impl SelectOption {
    /// An enabled choice.
    pub fn new(value: String, label: String) -> (r: SelectOption)
        ensures
            r.value == value,
            r.label == label,
            !r.disabled,
    {
        SelectOption { value, label, disabled: false }
    }

    /// The same choice, disabled or not as `disabled` says.
    pub fn with_disabled(self, disabled: bool) -> (r: SelectOption)
        ensures
            r.value == self.value,
            r.label == self.label,
            r.disabled == disabled,
    {
        let mut s = self;
        s.disabled = disabled;
        s
    }
}

/// The size class of a control: `base-sm`, `base-lg`, or `base` itself
/// for any other size.
pub open spec fn sized_class(base: Seq<char>, size: Seq<char>) -> Seq<char> {
    if size == "sm"@ {
        base + "-sm"@
    } else if size == "lg"@ {
        base + "-lg"@
    } else {
        base
    }
}

/// The classes of a control, in order: its base class, its size class when
/// a size is given, `is-invalid` when it shows an error, and the extra
/// classes when there are any.
pub open spec fn control_class_parts(
    base: Seq<char>,
    size: Seq<char>,
    has_error: bool,
    extra: Seq<char>,
) -> Seq<Seq<char>> {
    let a = seq![base];
    let b = if size.len() > 0 {
        a.push(sized_class(base, size))
    } else {
        a
    };
    let c = if has_error {
        b.push("is-invalid"@)
    } else {
        b
    };
    if extra.len() > 0 {
        c.push(extra)
    } else {
        c
    }
}

/// The class attribute of an input, select or text area whose base class
/// is `base` (`form-control` or `form-select`).
pub fn control_class(base: &str, size: &str, has_error: bool, extra: &str) -> (r: String)
    ensures
        r@ == join_with(control_class_parts(base@, size@, has_error, extra@), " "@),
{
    proof {
        reveal_strlit("sm");
        reveal_strlit("lg");
        reveal_strlit("-sm");
        reveal_strlit("-lg");
        reveal_strlit("is-invalid");
    }
    let mut parts: Vec<String> = Vec::new();
    parts.push(string_from(base));
    if !size.is_empty() {
        let sized = if str_is(size, "sm") {
            concat(base, "-sm")
        } else if str_is(size, "lg") {
            concat(base, "-lg")
        } else {
            string_from(base)
        };
        parts.push(sized);
    }
    if has_error {
        parts.push(string_from("is-invalid"));
    }
    if !extra.is_empty() {
        parts.push(string_from(extra));
    }
    proof {
        assert(views(parts@) =~= control_class_parts(base@, size@, has_error, extra@));
    }
    join_strings(&parts, " ")
}

/// The classes of a check box's container.
pub open spec fn checkbox_class_parts(switch: bool, inline: bool, extra: Seq<char>) -> Seq<
    Seq<char>,
> {
    let a = seq!["form-check"@];
    let b = if switch {
        a.push("form-switch"@)
    } else {
        a
    };
    let c = if inline {
        b.push("form-check-inline"@)
    } else {
        b
    };
    if extra.len() > 0 {
        c.push(extra)
    } else {
        c
    }
}

/// The class attribute of a check box's container.
pub fn checkbox_class(switch: bool, inline: bool, extra: &str) -> (r: String)
    ensures
        r@ == join_with(checkbox_class_parts(switch, inline, extra@), " "@),
{
    let mut parts: Vec<String> = Vec::new();
    parts.push(string_from("form-check"));
    if switch {
        parts.push(string_from("form-switch"));
    }
    if inline {
        parts.push(string_from("form-check-inline"));
    }
    if !extra.is_empty() {
        parts.push(string_from(extra));
    }
    proof {
        assert(views(parts@) =~= checkbox_class_parts(switch, inline, extra@));
    }
    join_strings(&parts, " ")
}

/// The spacing class of a form group: `mb-2` for `compact`, `mb-4` for
/// `spacious`, `mb-3` otherwise.
pub open spec fn spacing_class(spacing: Seq<char>) -> Seq<char> {
    if spacing == "compact"@ {
        "mb-2"@
    } else if spacing == "spacious"@ {
        "mb-4"@
    } else {
        "mb-3"@
    }
}

pub open spec fn form_group_class_parts(spacing: Seq<char>, extra: Seq<char>) -> Seq<Seq<char>> {
    if extra.len() > 0 {
        seq![spacing_class(spacing), extra]
    } else {
        seq![spacing_class(spacing)]
    }
}

/// The class attribute of a form group.
pub fn form_group_class(spacing: &str, extra: &str) -> (r: String)
    ensures
        r@ == join_with(form_group_class_parts(spacing@, extra@), " "@),
{
    proof {
        reveal_strlit("compact");
        reveal_strlit("spacious");
    }
    let sp = if str_is(spacing, "compact") {
        "mb-2"
    } else if str_is(spacing, "spacious") {
        "mb-4"
    } else {
        "mb-3"
    };
    let mut parts: Vec<String> = Vec::new();
    parts.push(string_from(sp));
    if !extra.is_empty() {
        parts.push(string_from(extra));
    }
    proof {
        assert(views(parts@) =~= form_group_class_parts(spacing@, extra@));
    }
    join_strings(&parts, " ")
}

/// Whether a text area's counter warns: a positive limit that the text's
/// number of characters exceeds.
pub open spec fn counter_warns(len: int, max_length: Option<u32>) -> bool {
    let max = match max_length {
        Some(m) => m as int,
        None => 0,
    };
    max > 0 && len > max
}

/// A text area's character counter: the number of characters of the text
/// and the counter's class, `text-danger` over the limit and `text-muted`
/// otherwise.
pub fn textarea_counter(value: &str, max_length: Option<u32>) -> (r: (usize, &'static str))
    ensures
        r.0 == value@.len(),
        r.1@ == (if counter_warns(r.0 as int, max_length) {
            "text-danger"@
        } else {
            "text-muted"@
        }),
{
    proof {
        reveal_strlit("text-danger");
        reveal_strlit("text-muted");
    }
    let count = chars_of(value).len();
    let class = match max_length {
        Some(m) => if m > 0 && count > m as usize {
            "text-danger"
        } else {
            "text-muted"
        },
        None => "text-muted",
    };
    (count, class)
}

/// The counter's text: `count / max` with a limit, `count characters`
/// without one.
pub open spec fn counter_text_spec(count: nat, max_length: Option<u32>) -> Seq<char> {
    match max_length {
        Some(m) => decimal(count) + " / "@ + decimal(m as nat),
        None => decimal(count) + " characters"@,
    }
}

/// The counter's text.
pub fn counter_text(count: usize, max_length: Option<u32>) -> (r: String)
    ensures
        r@ == counter_text_spec(count as nat, max_length),
{
    let mut s = u64_to_string(count as u64);
    match max_length {
        Some(m) => {
            push_str(&mut s, " / ");
            let t = u64_to_string(m as u64);
            push_str(&mut s, t.as_str());
        },
        None => {
            push_str(&mut s, " characters");
        },
    }
    s
}

/// The spinner's classes: `spinner-border`, the small variant when asked
/// for, the colour, and the extra classes.
pub open spec fn spinner_class_spec(color: Seq<char>, small: bool, extra: Seq<char>) -> Seq<char> {
    let base = "spinner-border"@ + (if small {
        " spinner-border-sm"@
    } else {
        Seq::<char>::empty()
    }) + " text-"@ + color;
    if extra.len() > 0 {
        base + " "@ + extra
    } else {
        base
    }
}

/// The spinner's class attribute.
pub fn spinner_class(color: &str, small: bool, extra: &str) -> (r: String)
    ensures
        r@ == spinner_class_spec(color@, small, extra@),
{
    let mut s = string_from("spinner-border");
    if small {
        push_str(&mut s, " spinner-border-sm");
    }
    push_str(&mut s, " text-");
    push_str(&mut s, color);
    if !extra.is_empty() {
        push_str(&mut s, " ");
        push_str(&mut s, extra);
    }
    proof {
        let base = "spinner-border"@ + (if small {
            " spinner-border-sm"@
        } else {
            Seq::<char>::empty()
        }) + " text-"@ + color@;
        if extra@.len() > 0 {
            assert(s@ =~= base + " "@ + extra@);
        } else {
            assert(s@ =~= base);
        }
    }
    s
}

/// The classes of the container that centres a spinner, with the extra
/// classes after them.
pub open spec fn centred_class_spec(extra: Seq<char>) -> Seq<char> {
    "d-flex justify-content-center align-items-center"@ + (if extra.len() > 0 {
        " "@ + extra
    } else {
        Seq::<char>::empty()
    })
}

/// The classes of a spinner and of the container that centres it, when it
/// is centred. The extra classes go on the outer div: the container when
/// the spinner is centred, the spinner itself otherwise.
pub fn spinner_layout(color: &str, small: bool, center: bool, extra: &str) -> (r: (
    String,
    Option<String>,
))
    ensures
        center ==> r.0@ == spinner_class_spec(color@, small, Seq::empty()) && (r.1 matches Some(w)
            && w@ == centred_class_spec(extra@)),
        !center ==> r.0@ == spinner_class_spec(color@, small, extra@) && r.1 is None,
{
    if center {
        proof {
            reveal_strlit("");
        }
        let inner = spinner_class(color, small, "");
        let mut outer = string_from("d-flex justify-content-center align-items-center");
        if !extra.is_empty() {
            push_str(&mut outer, " ");
            push_str(&mut outer, extra);
        }
        proof {
            if extra@.len() == 0 {
                assert(outer@ =~= centred_class_spec(extra@));
            } else {
                assert(outer@ =~= centred_class_spec(extra@));
            }
        }
        (inner, Some(outer))
    } else {
        (spinner_class(color, small, extra), None)
    }
}

/// What choosing `value` in a select box of ids does (the manager of the
/// escalation panel, the building and apartment of the announcement
/// editor): the empty choice clears the selection (`Some(None)`), an id
/// selects it, and any other value leaves the selection as it was
/// (`None`).
pub fn id_choice(value: &str) -> (r: Option<Option<u64>>)
    ensures
        value@.len() == 0 ==> r == Some(None::<u64>),
        value@.len() > 0 ==> r == (match parse_u64_spec(value@) {
            Some(id) => Some(Some(id)),
            None => None,
        }),
{
    if value.is_empty() {
        Some(None)
    } else {
        match parse_u64(value) {
            Some(id) => Some(Some(id)),
            None => None,
        }
    }
}

} // verus!
