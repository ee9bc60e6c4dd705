//! The five patterns that are looked for in a line, what each match is
//! replaced with, and one pass of one pattern over a text.

use regex::Regex;
use vstd::prelude::*;
use vstd::string::StringExecFns;

use crate::engine::compile;
use crate::engine::regex_compiles;
use crate::engine::regex_matches;
use crate::engine::regex_source;
use crate::engine::replace_all;
use crate::mock::MOCK_PHONE;
use crate::splice::lemma_spliced_holds_replacement;
use crate::splice::spans_in_order;
use crate::splice::spliced;
use crate::splice::written_at;

verus! {

/// An e-mail address followed by a tab, as in a row of tab-separated values.
pub const EMAIL_SQL: &'static str = r#"[A-Za-z0-9._%+-]+@[A-Za-z0-9.-]+\.[A-Za-z]+\t"#;

/// An e-mail address, a tab, and ten digits that end at a word boundary.
pub const EMAIL_PHONE_SQL: &'static str =
    r#"[A-Za-z0-9._%+-]+@[A-Za-z0-9.-]+\.[A-Za-z]+\t[0-9]{10}\b"#;

/// A JSON field `email` whose value is an e-mail address.
pub const EMAIL_JSON: &'static str = r#""email": "[A-Za-z0-9._%+-]+@[A-Za-z0-9.-]+\.[A-Za-z]+""#;

/// A JSON field `subscriber_email` whose value is an e-mail address.
pub const SUBSCRIBER_EMAIL_JSON: &'static str =
    r#""subscriber_email": "[A-Za-z0-9._%+-]+@[A-Za-z0-9.-]+\.[A-Za-z]+""#;

/// A JSON field `phone_number` whose value is ten digits.
pub const PHONE_NUMBER_JSON: &'static str = r#""phone_number": "[0-9]{10}""#;

/// The JSON field that stands in for every phone number field: the field
/// with the mock phone number.
pub open spec fn mock_phone_field() -> Seq<char> {
    "\"phone_number\": \""@ + MOCK_PHONE@ + "\""@
}

/// The five patterns, in the order in which a line is passed through them.
#[derive(Clone, Copy, Debug, PartialEq, Eq, Structural)]
pub enum PatternKind {
    EmailSql,
    EmailPhoneSql,
    EmailJson,
    SubscriberEmailJson,
    PhoneNumberJson,
}

impl PatternKind {
    /// The pattern in the regex crate's syntax.
    pub open spec fn source_text(self) -> Seq<char> {
        match self {
            PatternKind::EmailSql => EMAIL_SQL@,
            PatternKind::EmailPhoneSql => EMAIL_PHONE_SQL@,
            PatternKind::EmailJson => EMAIL_JSON@,
            PatternKind::SubscriberEmailJson => SUBSCRIBER_EMAIL_JSON@,
            PatternKind::PhoneNumberJson => PHONE_NUMBER_JSON@,
        }
    }

    /// What a match of the pattern is replaced with in a line whose mock
    /// e-mail is `email`.
    pub open spec fn replacement_text(self, email: Seq<char>) -> Seq<char> {
        match self {
            PatternKind::EmailSql => email + "\t"@,
            PatternKind::EmailPhoneSql => email + "\t"@ + MOCK_PHONE@ + "\t"@,
            PatternKind::EmailJson => "\"email\": \""@ + email + "\""@,
            PatternKind::SubscriberEmailJson => "\"subscriber_email\": \""@ + email + "\""@,
            PatternKind::PhoneNumberJson => mock_phone_field(),
        }
    }

    /// The pattern in the regex crate's syntax.
    pub fn source(self) -> (source: &'static str)
        ensures
            source@ == self.source_text(),
    {
        match self {
            PatternKind::EmailSql => EMAIL_SQL,
            PatternKind::EmailPhoneSql => EMAIL_PHONE_SQL,
            PatternKind::EmailJson => EMAIL_JSON,
            PatternKind::SubscriberEmailJson => SUBSCRIBER_EMAIL_JSON,
            PatternKind::PhoneNumberJson => PHONE_NUMBER_JSON,
        }
    }

    /// Builds what a match of the pattern is replaced with in a line whose
    /// mock e-mail is `email`.
    pub fn replacement(self, email: &str) -> (out: String)
        ensures
            out@ == self.replacement_text(email@),
    {
        match self {
            PatternKind::EmailSql => {
                let mut out = email.to_owned();
                out.append("\t");
                out
            },
            PatternKind::EmailPhoneSql => {
                let mut out = email.to_owned();
                out.append("\t");
                out.append(MOCK_PHONE);
                out.append("\t");
                out
            },
            PatternKind::EmailJson => {
                let mut out = "\"email\": \"".to_owned();
                out.append(email);
                out.append("\"");
                out
            },
            PatternKind::SubscriberEmailJson => {
                let mut out = "\"subscriber_email\": \"".to_owned();
                out.append(email);
                out.append("\"");
                out
            },
            PatternKind::PhoneNumberJson => {
                let mut out = "\"phone_number\": \"".to_owned();
                out.append(MOCK_PHONE);
                out.append("\"");
                out
            },
        }
    }
}

/// The matches of a pattern in a text: the spans that one pass replaces.
pub open spec fn matches_in(kind: PatternKind, text: Seq<char>) -> Seq<(int, int)> {
    regex_matches(kind.source_text(), text)
}

/// One pass: the text with every match of the pattern replaced by the
/// pattern's replacement for the given mock e-mail.
pub open spec fn pass(kind: PatternKind, text: Seq<char>, email: Seq<char>) -> Seq<char> {
    spliced(text, matches_in(kind, text), kind.replacement_text(email))
}

/// Whether `out` holds the pattern's replacement for each match of the
/// pattern in `text`, at the place to which the replacements before it have
/// moved that match.
pub open spec fn holds_replacements(
    out: Seq<char>,
    kind: PatternKind,
    text: Seq<char>,
    email: Seq<char>,
) -> bool {
    forall|i: int|
        0 <= i < matches_in(kind, text).len() ==> out.subrange(
            #[trigger] written_at(
                matches_in(kind, text),
                kind.replacement_text(email).len() as int,
                i,
            ),
            written_at(matches_in(kind, text), kind.replacement_text(email).len() as int, i)
                + kind.replacement_text(email).len(),
        ) == kind.replacement_text(email)
}

/// Says which pattern could not be compiled.
#[derive(Clone, Copy, Debug, PartialEq, Eq, Structural)]
pub struct PatternError {
    pub kind: PatternKind,
}

/// One of the five patterns, compiled and ready to search.
pub struct Pattern {
    kind: PatternKind,
    regex: Regex,
}

impl View for Pattern {
    type V = PatternKind;

    /// A compiled pattern stands for its kind.
    closed spec fn view(&self) -> PatternKind {
        self.kind
    }
}

impl Pattern {
    /// The compiled regex searches by the pattern of the kind.
    #[verifier::type_invariant]
    spec fn searches_by_kind(self) -> bool {
        regex_source(self.regex) == self.kind.source_text()
    }

    /// Which of the five patterns this is.
    pub fn kind(&self) -> (kind: PatternKind)
        ensures
            kind == self@,
    {
        self.kind
    }

    /// Compiles the pattern of the given kind: the source of the kind is
    /// what the regex crate is handed. An error names the kind.
    pub fn compile(kind: PatternKind) -> (r: Result<Pattern, PatternError>)
        ensures
            r is Ok <==> regex_compiles(kind.source_text()),
            r matches Ok(pattern) ==> pattern@ == kind,
            r matches Err(error) ==> error.kind == kind,
    {
        Pattern::from_compiled(kind, compile(kind.source()))
    }

    /// Takes what `Regex::new` made of the source of the given kind: the
    /// compiled pattern where there is one, else the error that names the
    /// kind. A regex built in another way, or under other options, does not
    /// meet the condition, whatever its text.
    pub fn from_compiled(kind: PatternKind, compiled: Result<Regex, regex::Error>) -> (r:
        Result<Pattern, PatternError>)
        requires
            compiled matches Ok(regex) ==> regex_source(regex) == kind.source_text(),
        ensures
            r is Ok <==> compiled is Ok,
            r matches Ok(pattern) ==> pattern@ == kind,
            r matches Err(error) ==> error.kind == kind,
    {
        match compiled {
            Ok(regex) => Ok(Pattern { kind, regex }),
            Err(_) => Err(PatternError { kind }),
        }
    }

    /// Passes a text through the pattern: every match is replaced by the
    /// pattern's replacement for the given mock e-mail, and the rest of the
    /// text is kept. With no match the text comes back as it was.
    pub fn apply(&self, text: &str, email: &str) -> (out: String)
        ensures
            out@ == pass(self@, text@, email@),
            spans_in_order(matches_in(self@, text@), text@.len() as int),
            matches_in(self@, text@).len() == 0 ==> out@ == text@,
            holds_replacements(out@, self@, text@, email@),
    {
        proof {
            use_type_invariant(self);
        }
        let replacement = self.kind.replacement(email);
        let out = replace_all(&self.regex, text, replacement.as_str());
        proof {
            let spans = matches_in(self@, text@);
            assert forall|i: int| 0 <= i < spans.len() implies out@.subrange(
                #[trigger] written_at(spans, replacement@.len() as int, i),
                written_at(spans, replacement@.len() as int, i) + replacement@.len(),
            ) == replacement@ by {
                lemma_spliced_holds_replacement(text@, spans, replacement@, i);
            }
        }
        out
    }
}

} // verus!
