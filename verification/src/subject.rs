//! The interaction subject: the owner of memory.
//!
//! A subject identifies one side of an interaction. Identity is the
//! `(SubjectType, id)` pair: a user `42` and an agent `42` are different
//! subjects.

use vstd::prelude::*;

use crate::text::{concat, same_text, Text};

verus! {

/// The kind of an interaction subject.
#[derive(Debug, Clone, Copy, PartialEq, Eq, Hash, Structural)]
pub enum SubjectType {
    /// A human user.
    User,
    /// An agent.
    Agent,
}

impl DeepView for SubjectType {
    type V = SubjectType;

    open spec fn deep_view(&self) -> SubjectType {
        *self
    }
}

/// The name a subject type is shown under.
pub open spec fn subject_type_name(subject_type: SubjectType) -> Seq<char> {
    match subject_type {
        SubjectType::User => "User"@,
        SubjectType::Agent => "Agent"@,
    }
}

/// The subject of an interaction: its type and its id.
#[derive(Debug, PartialEq, Eq, Hash)]
pub struct Subject {
    subject_type: SubjectType,
    id: String,
}

/// What a [`Subject`] holds.
pub ghost struct SubjectView {
    pub subject_type: SubjectType,
    pub id: Seq<char>,
}

impl DeepView for Subject {
    type V = SubjectView;

    closed spec fn deep_view(&self) -> SubjectView {
        SubjectView { subject_type: self.subject_type, id: self.id@ }
    }
}

/// The text form of a subject: the type's name, a colon, the id.
pub open spec fn subject_text(subject: SubjectView) -> Seq<char> {
    subject_type_name(subject.subject_type) + ":"@ + subject.id
}

impl Clone for Subject {
    fn clone(&self) -> (copy: Self)
        ensures
            copy.deep_view() == self.deep_view(),
    {
        Subject { subject_type: self.subject_type, id: self.id.clone() }
    }
}

impl Subject {
    /// Identifies a subject by its type and id.
    pub fn of(subject_type: SubjectType, id: impl Text) -> (subject: Self)
        ensures
            subject.deep_view() == (SubjectView { subject_type, id: id.text() }),
    {
        Subject { subject_type, id: id.into_text() }
    }

    /// The subject's type.
    pub fn subject_type(&self) -> (subject_type: SubjectType)
        ensures
            subject_type == self.deep_view().subject_type,
    {
        self.subject_type
    }

    /// The subject's id within its type.
    pub fn id(&self) -> (id: &str)
        ensures
            id@ == self.deep_view().id,
    {
        self.id.as_str()
    }

    /// The text form, which [`Subject::parse`] reads back.
    pub fn to_string(&self) -> (text: String)
        ensures
            text@ == subject_text(self.deep_view()),
    {
        let name = match self.subject_type {
            SubjectType::User => "User",
            SubjectType::Agent => "Agent",
        };
        let head = concat(name, ":");
        concat(head.as_str(), self.id.as_str())
    }

    /// Reads a subject back from its text form; `None` when the text is not
    /// one.
    pub fn parse(text: &str) -> (subject: Option<Subject>)
        ensures
            match subject {
                Some(subject) => text@ == subject_text(subject.deep_view()),
                None => forall|subject: SubjectView| text@ != #[trigger] subject_text(subject),
            },
            subject.deep_view() == parsed(text@),
    {
        let subject = match Self::parse_as(text, SubjectType::User) {
            Some(subject) => Some(subject),
            None => Self::parse_as(text, SubjectType::Agent),
        };
        proof {
            if let Some(found) = subject.deep_view() {
                parsing_undoes_the_text_form(found);
            }
        }
        subject
    }

    fn parse_as(text: &str, subject_type: SubjectType) -> (subject: Option<Subject>)
        ensures
            match subject {
                Some(subject) => text@ == subject_text(subject.deep_view())
                    && subject.deep_view().subject_type == subject_type,
                None => forall|subject: SubjectView|
                    subject.subject_type == subject_type ==> text@ != #[trigger] subject_text(
                        subject,
                    ),
            },
    {
        let prefix = match subject_type {
            SubjectType::User => "User:",
            SubjectType::Agent => "Agent:",
        };
        proof {
            reveal_strlit("User:");
            reveal_strlit("Agent:");
            reveal_strlit("User");
            reveal_strlit("Agent");
            reveal_strlit(":");
        }
        let ghost head = subject_type_name(subject_type) + ":"@;
        assert(prefix@ =~= head);
        let skip: usize = prefix.unicode_len();
        let total: usize = text.unicode_len();
        if total < skip {
            assert forall|subject: SubjectView|
                subject.subject_type == subject_type implies text@ != #[trigger] subject_text(
                subject,
            ) by {
                assert(subject_text(subject).len() == head.len() + subject.id.len());
            }
            return None;
        }
        if !same_text(text.substring_char(0, skip), prefix) {
            assert forall|subject: SubjectView|
                subject.subject_type == subject_type implies text@ != #[trigger] subject_text(
                subject,
            ) by {
                assert(subject_text(subject).subrange(0, skip as int) =~= head);
            }
            return None;
        }
        let id = text.substring_char(skip, total).to_owned();
        assert(text@ =~= head + id@);
        Some(Subject { subject_type, id })
    }
}

/// The subject a text is the text form of.
pub open spec fn parsed(text: Seq<char>) -> Option<SubjectView> {
    if exists|subject: SubjectView| text == #[trigger] subject_text(subject) {
        Some(choose|subject: SubjectView| text == #[trigger] subject_text(subject))
    } else {
        None
    }
}

/// Parsing reads back what the text form shows.
pub proof fn parsing_undoes_the_text_form(subject: SubjectView)
    ensures
        parsed(subject_text(subject)) == Some(subject),
{
    let text = subject_text(subject);
    assert(text == subject_text(subject));
    let found = choose|found: SubjectView| text == #[trigger] subject_text(found);
    subject_text_is_injective(found, subject);
}

/// Different subjects have different text forms.
pub proof fn subject_text_is_injective(a: SubjectView, b: SubjectView)
    requires
        subject_text(a) == subject_text(b),
    ensures
        a == b,
{
    reveal_strlit("User");
    reveal_strlit("Agent");
    reveal_strlit(":");
    let ta = subject_text(a);
    let tb = subject_text(b);
    assert(ta[0] == subject_type_name(a.subject_type)[0]);
    assert(tb[0] == subject_type_name(b.subject_type)[0]);
    assert(a.subject_type == b.subject_type);
    let skip = subject_type_name(a.subject_type).len() + 1;
    assert(ta.subrange(skip as int, ta.len() as int) =~= a.id);
    assert(tb.subrange(skip as int, tb.len() as int) =~= b.id);
}

/// The text form is the kind of subject, a colon, and the id; a text that is
/// the form of no subject is not parsed.
pub proof fn subjects_read_as_kind_and_id(id: Seq<char>, text: Seq<char>)
    ensures
        subject_text(SubjectView { subject_type: SubjectType::User, id }) == "User"@ + ":"@ + id,
        subject_text(SubjectView { subject_type: SubjectType::Agent, id }) == "Agent"@ + ":"@ + id,
        parsed("User"@ + ":"@ + id) == Some(SubjectView { subject_type: SubjectType::User, id }),
        parsed("Agent"@ + ":"@ + id) == Some(SubjectView { subject_type: SubjectType::Agent, id }),
        parsed(text) matches Some(subject) ==> text == (match subject.subject_type {
            SubjectType::User => "User"@,
            SubjectType::Agent => "Agent"@,
        }) + ":"@ + subject.id,
{
    parsing_undoes_the_text_form(SubjectView { subject_type: SubjectType::User, id });
    parsing_undoes_the_text_form(SubjectView { subject_type: SubjectType::Agent, id });
}

} // verus!
