//! Tasks and the per-field text codec: each editable property can be
//! rendered to a text buffer and decoded back, with defined fallback on
//! malformed input (retain the prior value or clear; never fail).

use vstd::prelude::*;
use crate::date;
use crate::date::DueDate;
use crate::label;
use crate::text;

verus! {

/// The task properties a session can edit, in their fixed cyclic order.
#[derive(Clone, Copy, PartialEq, Eq, Structural, Debug)]
pub enum EditableTaskProperty {
    Title,
    Label,
    DueDate,
    Notes,
    Priority,
}

impl Default for EditableTaskProperty {
    fn default() -> (p: Self)
        ensures
            p == EditableTaskProperty::Title,
    {
        EditableTaskProperty::Title
    }
}

impl EditableTaskProperty {
    /// The next property in the cycle.
    pub open spec fn spec_next(self) -> Self {
        match self {
            EditableTaskProperty::Title => EditableTaskProperty::Label,
            EditableTaskProperty::Label => EditableTaskProperty::DueDate,
            EditableTaskProperty::DueDate => EditableTaskProperty::Notes,
            EditableTaskProperty::Notes => EditableTaskProperty::Priority,
            EditableTaskProperty::Priority => EditableTaskProperty::Title,
        }
    }

    /// The previous property in the cycle.
    pub open spec fn spec_prev(self) -> Self {
        match self {
            EditableTaskProperty::Title => EditableTaskProperty::Priority,
            EditableTaskProperty::Label => EditableTaskProperty::Title,
            EditableTaskProperty::DueDate => EditableTaskProperty::Label,
            EditableTaskProperty::Notes => EditableTaskProperty::DueDate,
            EditableTaskProperty::Priority => EditableTaskProperty::Notes,
        }
    }

    pub fn next(self) -> (p: Self)
        ensures
            p == self.spec_next(),
    {
        match self {
            EditableTaskProperty::Title => EditableTaskProperty::Label,
            EditableTaskProperty::Label => EditableTaskProperty::DueDate,
            EditableTaskProperty::DueDate => EditableTaskProperty::Notes,
            EditableTaskProperty::Notes => EditableTaskProperty::Priority,
            EditableTaskProperty::Priority => EditableTaskProperty::Title,
        }
    }

    pub fn prev(self) -> (p: Self)
        ensures
            p == self.spec_prev(),
    {
        match self {
            EditableTaskProperty::Title => EditableTaskProperty::Priority,
            EditableTaskProperty::Label => EditableTaskProperty::Title,
            EditableTaskProperty::DueDate => EditableTaskProperty::Label,
            EditableTaskProperty::Notes => EditableTaskProperty::DueDate,
            EditableTaskProperty::Priority => EditableTaskProperty::Notes,
        }
    }

    /// The display name of the property.
    pub open spec fn spec_name(self) -> Seq<char> {
        match self {
            EditableTaskProperty::Title => "Title"@,
            EditableTaskProperty::Label => "Label"@,
            EditableTaskProperty::DueDate => "DueDate"@,
            EditableTaskProperty::Notes => "Notes"@,
            EditableTaskProperty::Priority => "Priority"@,
        }
    }

    pub fn name_str(self) -> (r: &'static str)
        ensures
            r@ == self.spec_name(),
    {
        match self {
            EditableTaskProperty::Title => "Title",
            EditableTaskProperty::Label => "Label",
            EditableTaskProperty::DueDate => "DueDate",
            EditableTaskProperty::Notes => "Notes",
            EditableTaskProperty::Priority => "Priority",
        }
    }
}

/// Task priority levels.
#[derive(Clone, Copy, PartialEq, Eq, Structural, Debug)]
pub enum Priority {
    /// No priority assigned; displayed as `"None"`.
    Unset,
    Low,
    Medium,
    High,
}

impl Default for Priority {
    fn default() -> (p: Self)
        ensures
            p == Priority::Unset,
    {
        Priority::Unset
    }
}

impl Priority {
    /// The display name, as the codec writes and reads it.
    pub open spec fn spec_name(self) -> Seq<char> {
        match self {
            Priority::Unset => "None"@,
            Priority::Low => "Low"@,
            Priority::Medium => "Medium"@,
            Priority::High => "High"@,
        }
    }

    pub fn name_str(self) -> (r: &'static str)
        ensures
            r@ == self.spec_name(),
    {
        match self {
            Priority::Unset => "None",
            Priority::Low => "Low",
            Priority::Medium => "Medium",
            Priority::High => "High",
        }
    }

    pub fn name_string(self) -> (r: String)
        ensures
            r@ == self.spec_name(),
    {
        self.name_str().to_owned()
    }

    /// The priority whose display name matches exactly, if any
    /// (case-sensitive).
    pub open spec fn spec_from_name(s: Seq<char>) -> Option<Priority> {
        if s == "None"@ {
            Some(Priority::Unset)
        } else if s == "Low"@ {
            Some(Priority::Low)
        } else if s == "Medium"@ {
            Some(Priority::Medium)
        } else if s == "High"@ {
            Some(Priority::High)
        } else {
            None
        }
    }

    pub fn from_name(s: &str) -> (r: Option<Priority>)
        ensures
            r == Self::spec_from_name(s@),
    {
        if text::str_eq(s, "None") {
            Some(Priority::Unset)
        } else if text::str_eq(s, "Low") {
            Some(Priority::Low)
        } else if text::str_eq(s, "Medium") {
            Some(Priority::Medium)
        } else if text::str_eq(s, "High") {
            Some(Priority::High)
        } else {
            None
        }
    }
}

/// A task. The label field is a non-owning reference by identity: the
/// short code of a label that should be present in the owning store.
#[derive(Debug)]
pub struct Task {
    pub title: String,
    pub priority: Priority,
    pub notes: String,
    pub due_date: Option<DueDate>,
    pub label: Option<String>,
    pub done: bool,
}

/// The day written two characters wide, space-padded on the left.
pub open spec fn spec_day_field(d: int) -> Seq<char> {
    if d < 10 {
        seq![' '] + text::dec_digits(d)
    } else {
        text::dec_digits(d)
    }
}

/// An hour or minute written two characters wide, zero-padded.
pub open spec fn spec_two_digit(x: int) -> Seq<char> {
    if x < 10 {
        seq!['0'] + text::dec_digits(x)
    } else {
        text::dec_digits(x)
    }
}

/// `"<day> <3-letter month> <year>"` for a set date, empty when unset.
pub open spec fn spec_date_string(due: Option<DueDate>) -> Seq<char> {
    match due {
        Option::None => Seq::empty(),
        Option::Some(dd) => spec_day_field(dd.day as int) + seq![' '] + date::spec_month_name(
            dd.month as int,
        ) + seq![' '] + text::signed_dec_digits(dd.year as int),
    }
}

/// `"HH:MM"` zero-padded for a set date, empty when unset.
pub open spec fn spec_time_string(due: Option<DueDate>) -> Seq<char> {
    match due {
        Option::None => Seq::empty(),
        Option::Some(dd) => spec_two_digit(dd.hour as int) + seq![':'] + spec_two_digit(
            dd.minute as int,
        ),
    }
}

/// The calendar part a due-date buffer decodes to: the three date tokens
/// if they parse and name a real day, the prior date on a parse failure,
/// nothing when the tokens parse but name no real day.
pub open spec fn decoded_date(
    old_due: Option<DueDate>,
    t0: Seq<char>,
    t1: Seq<char>,
    t2: Seq<char>,
) -> Option<(int, int, int)> {
    if text::parses_as_u32(t0) && date::spec_month_from_name(t1) is Some && text::parses_as_i32(
        t2,
    ) {
        let d = text::dec_value(t0);
        let m = date::spec_month_from_name(t1)->Some_0 as int;
        let y = text::signed_dec_value(t2);
        if date::ymd_valid(y, m, d) {
            Some((y, m, d))
        } else {
            Option::None
        }
    } else {
        match old_due {
            Option::Some(dd) => Some((dd.year as int, dd.month as int, dd.day as int)),
            Option::None => Option::None,
        }
    }
}

/// The time part a due-date buffer decodes to: `H:M` if the token is two
/// integers joined by one colon, the prior time on a parse failure,
/// nothing when the integers parse but are no wall-clock time.
pub open spec fn decoded_time(old_due: Option<DueDate>, t3: Seq<char>) -> Option<(int, int)> {
    let ps = text::split_char(t3, ':');
    if ps.len() == 2 && text::parses_as_u32(ps[0]) && text::parses_as_u32(ps[1]) {
        let h = text::dec_value(ps[0]);
        let mi = text::dec_value(ps[1]);
        if date::hm_valid(h, mi) {
            Some((h, mi))
        } else {
            Option::None
        }
    } else {
        match old_due {
            Option::Some(dd) => Some((dd.hour as int, dd.minute as int)),
            Option::None => Option::None,
        }
    }
}

/// What the due date becomes after decoding a buffer: cleared on an empty
/// buffer; rebuilt from four tokens when both parts resolve; otherwise
/// unchanged.
pub open spec fn decoded_due(old_due: Option<DueDate>, s: Seq<char>) -> Option<DueDate> {
    let toks = text::ws_tokens(s);
    if toks.len() == 0 {
        Option::None
    } else if toks.len() == 4 {
        let dp = decoded_date(old_due, toks[0], toks[1], toks[2]);
        let tp = decoded_time(old_due, toks[3]);
        if dp is Some && tp is Some {
            Some(
                DueDate {
                    year: dp->Some_0.0 as i32,
                    month: dp->Some_0.1 as u8,
                    day: dp->Some_0.2 as u8,
                    hour: tp->Some_0.0 as u8,
                    minute: tp->Some_0.1 as u8,
                },
            )
        } else {
            old_due
        }
    } else {
        old_due
    }
}

impl Task {
    /// A label reference, when set, is a full-width short code, and a set
    /// due date is a real instant.
    pub open spec fn wf(&self) -> bool {
        &&& match self.label {
            Option::Some(code) => code@.len() == label::LABEL_LEN,
            Option::None => true,
        }
        &&& match self.due_date {
            Option::Some(dd) => dd.valid(),
            Option::None => true,
        }
    }

    /// The task's label code, if any.
    pub open spec fn spec_label_code(&self) -> Option<Seq<char>> {
        match self.label {
            Option::Some(code) => Some(code@),
            Option::None => Option::None,
        }
    }

    pub fn new(title: &str, priority: Priority) -> (t: Self)
        ensures
            t.wf(),
            t.title@ == title@,
            t.priority == priority,
            t.notes@ == Seq::<char>::empty(),
            t.due_date is None,
            t.label is None,
            !t.done,
    {
        Task {
            title: title.to_owned(),
            priority,
            notes: String::new(),
            due_date: None,
            label: None,
            done: false,
        }
    }

    pub fn builder() -> (b: TaskBuilder)
        ensures
            b.task.wf(),
            b.task.title@ == Seq::<char>::empty(),
            b.task.priority == Priority::Unset,
            b.task.notes@ == Seq::<char>::empty(),
            b.task.due_date is None,
            b.task.label is None,
            !b.task.done,
    {
        TaskBuilder::new()
    }

    pub fn remove_label(&mut self)
        ensures
            final(self).label is None,
            final(self).title == old(self).title,
            final(self).priority == old(self).priority,
            final(self).notes == old(self).notes,
            final(self).due_date == old(self).due_date,
            final(self).done == old(self).done,
    {
        self.label = None;
    }

    pub fn title(&self) -> (r: &str)
        ensures
            r@ == self.title@,
    {
        self.title.as_str()
    }

    pub fn label(&self) -> (r: &Option<String>)
        ensures
            r == self.label,
    {
        &self.label
    }

    pub fn is_done(&self) -> (r: bool)
        ensures
            r == self.done,
    {
        self.done
    }

    pub fn toggle_done(&mut self)
        ensures
            final(self).done == !old(self).done,
            final(self).title == old(self).title,
            final(self).priority == old(self).priority,
            final(self).notes == old(self).notes,
            final(self).due_date == old(self).due_date,
            final(self).label == old(self).label,
    {
        self.done = !self.done;
    }

    pub fn priority(&self) -> (r: Priority)
        ensures
            r == self.priority,
    {
        self.priority
    }

    pub fn notes(&self) -> (r: &str)
        ensures
            r@ == self.notes@,
    {
        self.notes.as_str()
    }

    pub fn due_date(&self) -> (r: Option<DueDate>)
        ensures
            r == self.due_date,
    {
        self.due_date
    }

    pub fn set_title(&mut self, title: &str)
        ensures
            final(self).title@ == title@,
            final(self).priority == old(self).priority,
            final(self).notes == old(self).notes,
            final(self).due_date == old(self).due_date,
            final(self).label == old(self).label,
            final(self).done == old(self).done,
    {
        self.title = title.to_owned();
    }

    pub fn set_notes(&mut self, notes: &str)
        ensures
            final(self).notes@ == notes@,
            final(self).title == old(self).title,
            final(self).priority == old(self).priority,
            final(self).due_date == old(self).due_date,
            final(self).label == old(self).label,
            final(self).done == old(self).done,
    {
        self.notes = notes.to_owned();
    }

    pub fn set_priority(&mut self, priority: Priority)
        ensures
            final(self).priority == priority,
            final(self).title == old(self).title,
            final(self).notes == old(self).notes,
            final(self).due_date == old(self).due_date,
            final(self).label == old(self).label,
            final(self).done == old(self).done,
    {
        self.priority = priority;
    }

    pub fn set_label(&mut self, label: Option<String>)
        requires
            label is Some ==> label->0@.len() == label::LABEL_LEN,
        ensures
            final(self).label == label,
            final(self).title == old(self).title,
            final(self).priority == old(self).priority,
            final(self).notes == old(self).notes,
            final(self).due_date == old(self).due_date,
            final(self).done == old(self).done,
    {
        self.label = label;
    }

    pub fn set_date(&mut self, date: &DueDate)
        ensures
            final(self).due_date == Some(*date),
            final(self).title == old(self).title,
            final(self).priority == old(self).priority,
            final(self).notes == old(self).notes,
            final(self).label == old(self).label,
            final(self).done == old(self).done,
    {
        self.due_date = Some(*date);
    }

    pub fn set_no_date(&mut self)
        ensures
            final(self).due_date is None,
            final(self).title == old(self).title,
            final(self).priority == old(self).priority,
            final(self).notes == old(self).notes,
            final(self).label == old(self).label,
            final(self).done == old(self).done,
    {
        self.due_date = None;
    }

    /// A field-for-field copy, equal to the original.
    pub fn duplicate(&self) -> (t: Self)
        ensures
            t == *self,
    {
        Task {
            title: self.title.clone(),
            priority: self.priority,
            notes: self.notes.clone(),
            due_date: self.due_date,
            label: match &self.label {
                Some(code) => Some(code.clone()),
                None => None,
            },
            done: self.done,
        }
    }

    /// The date fields rendered for display and editing.
    pub fn date_string(&self) -> (r: String)
        requires
            self.wf(),
        ensures
            r@ == spec_date_string(self.due_date),
    {
        match &self.due_date {
            None => String::new(),
            Some(dd) => {
                let mut out = String::new();
                if dd.day < 10 {
                    out.append(" ");
                    proof {
                        reveal_strlit(" ");
                        assert(" "@ =~= seq![' ']);
                    }
                }
                out.append(text::u32_to_string(dd.day as u32).as_str());
                out.append(" ");
                out.append(date::month_name(dd.month));
                out.append(" ");
                out.append(text::i32_to_string(dd.year).as_str());
                proof {
                    reveal_strlit(" ");
                    assert(" "@ =~= seq![' ']);
                    assert(out@ =~= spec_day_field(dd.day as int) + seq![' ']
                        + date::spec_month_name(dd.month as int) + seq![' ']
                        + text::signed_dec_digits(dd.year as int));
                }
                out
            },
        }
    }

    /// The time fields rendered for display and editing.
    pub fn time_string(&self) -> (r: String)
        requires
            self.wf(),
        ensures
            r@ == spec_time_string(self.due_date),
    {
        match &self.due_date {
            None => String::new(),
            Some(dd) => {
                let mut out = String::new();
                if dd.hour < 10 {
                    out.append("0");
                }
                out.append(text::u32_to_string(dd.hour as u32).as_str());
                out.append(":");
                if dd.minute < 10 {
                    out.append("0");
                }
                out.append(text::u32_to_string(dd.minute as u32).as_str());
                proof {
                    reveal_strlit("0");
                    reveal_strlit(":");
                    assert("0"@ =~= seq!['0']);
                    assert(":"@ =~= seq![':']);
                    assert(out@ =~= spec_two_digit(dd.hour as int) + seq![':'] + spec_two_digit(
                        dd.minute as int,
                    ));
                }
                out
            },
        }
    }

    /// What the edit buffer holds for each property.
    pub open spec fn spec_text_to_edit(&self, property: EditableTaskProperty) -> Seq<char> {
        match property {
            EditableTaskProperty::Title => self.title@,
            EditableTaskProperty::Notes => self.notes@,
            EditableTaskProperty::Priority => self.priority.spec_name(),
            EditableTaskProperty::DueDate => spec_date_string(self.due_date) + seq![' ']
                + spec_time_string(self.due_date),
            EditableTaskProperty::Label => match self.label {
                Option::Some(code) => code@,
                Option::None => Seq::empty(),
            },
        }
    }

    /// Encodes one property into its edit buffer.
    pub fn text_to_edit(&self, property: EditableTaskProperty) -> (r: String)
        requires
            self.wf(),
        ensures
            r@ == self.spec_text_to_edit(property),
    {
        match property {
            EditableTaskProperty::Title => self.title.clone(),
            EditableTaskProperty::Notes => self.notes.clone(),
            EditableTaskProperty::Priority => self.priority.name_string(),
            EditableTaskProperty::DueDate => {
                let mut out = self.date_string();
                out.append(" ");
                proof {
                    reveal_strlit(" ");
                    assert(" "@ =~= seq![' ']);
                }
                out.append(self.time_string().as_str());
                out
            },
            EditableTaskProperty::Label => match &self.label {
                Some(code) => code.clone(),
                None => String::new(),
            },
        }
    }

    /// Decodes a due-date buffer into the task, with the documented
    /// fallbacks; every other field is untouched.
    pub fn set_date_str(&mut self, date: &str)
        ensures
            final(self).due_date == decoded_due(old(self).due_date, date@),
            final(self).title == old(self).title,
            final(self).priority == old(self).priority,
            final(self).notes == old(self).notes,
            final(self).label == old(self).label,
            final(self).done == old(self).done,
            old(self).wf() ==> final(self).wf(),
    {
        let words = text::tokenize(date);
        let ghost toks = text::ws_tokens(date@);
        if words.len() == 0 {
            self.due_date = None;
        } else if words.len() == 4 {
            proof {
                assert(words.deep_view()[0] == words[0]@);
                assert(words.deep_view()[1] == words[1]@);
                assert(words.deep_view()[2] == words[2]@);
                assert(words.deep_view()[3] == words[3]@);
            }
            let day_p = text::parse_u32(words[0].as_str());
            let month_p = date::month_from_name(words[1].as_str());
            let year_p = text::parse_i32(words[2].as_str());

            let new_date: Option<(i32, u8, u8)> =
                if day_p.is_none() || month_p.is_none() || year_p.is_none() {
                match &self.due_date {
                    Some(dd) => Some((dd.year, dd.month, dd.day)),
                    None => None,
                }
            } else {
                let d = day_p.unwrap();
                let m = month_p.unwrap();
                let y = year_p.unwrap();
                if date::ymd_is_valid(y, m as u32, d) {
                    Some((y, m, d as u8))
                } else {
                    None
                }
            };

            let pieces = text::split_on(words[3].as_str(), ':');
            let new_time: Option<(u8, u8)> = if pieces.len() != 2 {
                match &self.due_date {
                    Some(dd) => Some((dd.hour, dd.minute)),
                    None => None,
                }
            } else {
                proof {
                    assert(pieces.deep_view()[0] == pieces[0]@);
                    assert(pieces.deep_view()[1] == pieces[1]@);
                }
                let hour_p = text::parse_u32(pieces[0].as_str());
                let minute_p = text::parse_u32(pieces[1].as_str());
                match (hour_p, minute_p) {
                    (Some(h), Some(mi)) => {
                        if date::hm_is_valid(h, mi) {
                            Some((h as u8, mi as u8))
                        } else {
                            None
                        }
                    },
                    _ => match &self.due_date {
                        Some(dd) => Some((dd.hour, dd.minute)),
                        None => None,
                    },
                }
            };

            match (new_date, new_time) {
                (Some(dp), Some(tp)) => {
                    self.due_date = Some(
                        DueDate {
                            year: dp.0,
                            month: dp.1,
                            day: dp.2,
                            hour: tp.0,
                            minute: tp.1,
                        },
                    );
                },
                _ => {},
            }
        }
    }

    /// Decodes one property's buffer into the task. Title and notes are
    /// assigned verbatim; an unknown priority name or a label buffer is
    /// ignored (the label is reconciled against the store elsewhere).
    pub fn set_property_from_str(&mut self, property: EditableTaskProperty, value: &str)
        ensures
            final(self).title@ == (if property is Title {
                value@
            } else {
                old(self).title@
            }),
            final(self).notes@ == (if property is Notes {
                value@
            } else {
                old(self).notes@
            }),
            final(self).priority == (if property is Priority {
                match Priority::spec_from_name(value@) {
                    Option::Some(p) => p,
                    Option::None => old(self).priority,
                }
            } else {
                old(self).priority
            }),
            final(self).due_date == (if property is DueDate {
                decoded_due(old(self).due_date, value@)
            } else {
                old(self).due_date
            }),
            final(self).label == old(self).label,
            final(self).done == old(self).done,
            old(self).wf() ==> final(self).wf(),
    {
        match property {
            EditableTaskProperty::Title => {
                self.set_title(value);
            },
            EditableTaskProperty::Notes => {
                self.set_notes(value);
            },
            EditableTaskProperty::DueDate => {
                self.set_date_str(value);
            },
            EditableTaskProperty::Priority => {
                match Priority::from_name(value) {
                    Some(p) => {
                        self.set_priority(p);
                    },
                    None => {},
                }
            },
            EditableTaskProperty::Label => {},
        }
    }
}

/// A due-date buffer with any token count other than zero or four leaves
/// the due date bit-for-bit unchanged.
pub proof fn lemma_due_decode_wrong_token_count(old_due: Option<DueDate>, s: Seq<char>)
    requires
        text::ws_tokens(s).len() != 0,
        text::ws_tokens(s).len() != 4,
    ensures
        decoded_due(old_due, s) == old_due,
{
}

impl Default for Task {
    /// All fields at their empty defaults.
    fn default() -> (t: Self)
        ensures
            t.wf(),
            t.title@ == Seq::<char>::empty(),
            t.priority == Priority::Unset,
            t.notes@ == Seq::<char>::empty(),
            t.due_date is None,
            t.label is None,
            !t.done,
    {
        Task {
            title: String::new(),
            priority: Priority::Unset,
            notes: String::new(),
            due_date: None,
            label: None,
            done: false,
        }
    }
}

/// Builds a task field by field.
#[derive(Debug, Default)]
pub struct TaskBuilder {
    pub task: Task,
}

impl TaskBuilder {
    pub fn new() -> (b: Self)
        ensures
            b.task.wf(),
            b.task.title@ == Seq::<char>::empty(),
            b.task.priority == Priority::Unset,
            b.task.notes@ == Seq::<char>::empty(),
            b.task.due_date is None,
            b.task.label is None,
            !b.task.done,
    {
        TaskBuilder { task: Task::default() }
    }

    pub fn build(self) -> (t: Task)
        ensures
            t == self.task,
    {
        self.task
    }

    pub fn with_title(self, title: &str) -> (b: Self)
        ensures
            b.task.title@ == title@,
            b.task.priority == self.task.priority,
            b.task.notes == self.task.notes,
            b.task.due_date == self.task.due_date,
            b.task.label == self.task.label,
            b.task.done == self.task.done,
    {
        let mut t = self.task;
        t.set_title(title);
        TaskBuilder { task: t }
    }

    pub fn with_notes(self, notes: &str) -> (b: Self)
        ensures
            b.task.notes@ == notes@,
            b.task.title == self.task.title,
            b.task.priority == self.task.priority,
            b.task.due_date == self.task.due_date,
            b.task.label == self.task.label,
            b.task.done == self.task.done,
    {
        let mut t = self.task;
        t.set_notes(notes);
        TaskBuilder { task: t }
    }

    pub fn with_priority(self, priority: Priority) -> (b: Self)
        ensures
            b.task.priority == priority,
            b.task.title == self.task.title,
            b.task.notes == self.task.notes,
            b.task.due_date == self.task.due_date,
            b.task.label == self.task.label,
            b.task.done == self.task.done,
    {
        let mut t = self.task;
        t.set_priority(priority);
        TaskBuilder { task: t }
    }

    pub fn with_due_date(self, date: Option<DueDate>) -> (b: Self)
        ensures
            b.task.due_date == date,
            b.task.title == self.task.title,
            b.task.priority == self.task.priority,
            b.task.notes == self.task.notes,
            b.task.label == self.task.label,
            b.task.done == self.task.done,
    {
        let mut t = self.task;
        t.due_date = date;
        TaskBuilder { task: t }
    }

    pub fn with_label(self, label: Option<String>) -> (b: Self)
        requires
            label is Some ==> label->0@.len() == label::LABEL_LEN,
        ensures
            b.task.label == label,
            b.task.title == self.task.title,
            b.task.priority == self.task.priority,
            b.task.notes == self.task.notes,
            b.task.due_date == self.task.due_date,
            b.task.done == self.task.done,
    {
        let mut t = self.task;
        t.set_label(label);
        TaskBuilder { task: t }
    }
}

} // verus!
