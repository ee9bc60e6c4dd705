//! The redaction of a line: five passes in a fixed order, each over what the
//! pass before it left.

use rand::rngs::StdRng;
use vstd::prelude::*;

use crate::engine::regex_compiles;
use crate::mock::is_mock_email;
use crate::mock::mock_email;
use crate::mock::MOCK_PHONE;
use crate::pattern::holds_replacements;
use crate::pattern::matches_in;
use crate::pattern::mock_phone_field;
use crate::pattern::pass;
use crate::pattern::Pattern;
use crate::pattern::PatternError;
use crate::pattern::PatternKind;
use crate::splice::lemma_spliced_holds_replacement;
use crate::splice::lemma_spliced_in_place;
use crate::splice::rewritten_in_place;
use crate::splice::spans_in_order;
use crate::splice::spliced;
use crate::splice::written_at;

verus! {

/// The line after the four passes that replace e-mail addresses: first the
/// addresses before a tab, then those before a tab and a phone number, then
/// the two JSON fields. Each pass reads what the pass before it wrote.
pub open spec fn emails_redacted(line: Seq<char>, email: Seq<char>) -> Seq<char> {
    let line = pass(PatternKind::EmailSql, line, email);
    let line = pass(PatternKind::EmailPhoneSql, line, email);
    let line = pass(PatternKind::EmailJson, line, email);
    pass(PatternKind::SubscriberEmailJson, line, email)
}

/// The redacted line: the e-mail passes, then the pass that replaces the
/// JSON phone numbers.
pub open spec fn redacted(line: Seq<char>, email: Seq<char>) -> Seq<char> {
    pass(PatternKind::PhoneNumberJson, emails_redacted(line, email), email)
}

/// The text that the pass of a kind reads: the line for the first pass, for
/// each later pass what the pass before it wrote.
pub open spec fn text_read_by(kind: PatternKind, line: Seq<char>, email: Seq<char>) -> Seq<char> {
    match kind {
        PatternKind::EmailSql => line,
        PatternKind::EmailPhoneSql => pass(PatternKind::EmailSql, line, email),
        PatternKind::EmailJson => {
            let line = pass(PatternKind::EmailSql, line, email);
            pass(PatternKind::EmailPhoneSql, line, email)
        },
        PatternKind::SubscriberEmailJson => {
            let line = pass(PatternKind::EmailSql, line, email);
            let line = pass(PatternKind::EmailPhoneSql, line, email);
            pass(PatternKind::EmailJson, line, email)
        },
        PatternKind::PhoneNumberJson => emails_redacted(line, email),
    }
}

/// Whether, in each of the five passes, the matches lie in order within the
/// text that the pass reads.
pub open spec fn matches_in_order(line: Seq<char>, email: Seq<char>) -> bool {
    forall|kind: PatternKind|
        spans_in_order(
            #[trigger] matches_in(kind, text_read_by(kind, line, email)),
            text_read_by(kind, line, email).len() as int,
        )
}

/// The five passes in their order.
pub open spec fn pass_order() -> Seq<PatternKind> {
    seq![
        PatternKind::EmailSql,
        PatternKind::EmailPhoneSql,
        PatternKind::EmailJson,
        PatternKind::SubscriberEmailJson,
        PatternKind::PhoneNumberJson,
    ]
}

/// Whether none of the five patterns has a match in the line.
pub open spec fn unmatched(line: Seq<char>) -> bool {
    &&& matches_in(PatternKind::EmailSql, line).len() == 0
    &&& matches_in(PatternKind::EmailPhoneSql, line).len() == 0
    &&& matches_in(PatternKind::EmailJson, line).len() == 0
    &&& matches_in(PatternKind::SubscriberEmailJson, line).len() == 0
    &&& matches_in(PatternKind::PhoneNumberJson, line).len() == 0
}

/// Whether the four passes that follow the first find nothing in what the
/// first pass wrote.
pub open spec fn only_tab_addresses(line: Seq<char>, email: Seq<char>) -> bool {
    let text = pass(PatternKind::EmailSql, line, email);
    &&& matches_in(PatternKind::EmailPhoneSql, text).len() == 0
    &&& matches_in(PatternKind::EmailJson, text).len() == 0
    &&& matches_in(PatternKind::SubscriberEmailJson, text).len() == 0
    &&& matches_in(PatternKind::PhoneNumberJson, text).len() == 0
}

/// Whether the four e-mail passes find nothing in the line, and every match
/// of the last pass is as long as the mock phone number field.
pub open spec fn only_phone_fields(line: Seq<char>) -> bool {
    &&& matches_in(PatternKind::EmailSql, line).len() == 0
    &&& matches_in(PatternKind::EmailPhoneSql, line).len() == 0
    &&& matches_in(PatternKind::EmailJson, line).len() == 0
    &&& matches_in(PatternKind::SubscriberEmailJson, line).len() == 0
    &&& forall|i: int|
        0 <= i < matches_in(PatternKind::PhoneNumberJson, line).len() ==> (
        #[trigger] matches_in(PatternKind::PhoneNumberJson, line)[i]).1 - matches_in(
            PatternKind::PhoneNumberJson,
            line,
        )[i].0 == mock_phone_field().len()
}

/// The first error among the outcomes of compiling the five patterns, taken
/// in the order of the passes.
pub open spec fn first_error(
    email_sql: Result<Pattern, PatternError>,
    email_phone_sql: Result<Pattern, PatternError>,
    email_json: Result<Pattern, PatternError>,
    subscriber_email_json: Result<Pattern, PatternError>,
    phone_number_json: Result<Pattern, PatternError>,
) -> Option<PatternError> {
    if let Err(error) = email_sql {
        Some(error)
    } else if let Err(error) = email_phone_sql {
        Some(error)
    } else if let Err(error) = email_json {
        Some(error)
    } else if let Err(error) = subscriber_email_json {
        Some(error)
    } else if let Err(error) = phone_number_json {
        Some(error)
    } else {
        None
    }
}

/// The first of the five patterns, in the order of the passes, that the regex
/// crate does not compile, if there is one.
pub open spec fn first_uncompiled() -> Option<PatternKind> {
    if !regex_compiles(PatternKind::EmailSql.source_text()) {
        Some(PatternKind::EmailSql)
    } else if !regex_compiles(PatternKind::EmailPhoneSql.source_text()) {
        Some(PatternKind::EmailPhoneSql)
    } else if !regex_compiles(PatternKind::EmailJson.source_text()) {
        Some(PatternKind::EmailJson)
    } else if !regex_compiles(PatternKind::SubscriberEmailJson.source_text()) {
        Some(PatternKind::SubscriberEmailJson)
    } else if !regex_compiles(PatternKind::PhoneNumberJson.source_text()) {
        Some(PatternKind::PhoneNumberJson)
    } else {
        None
    }
}

/// A line in which no pattern has a match is its own redaction, whatever the
/// mock e-mail.
pub proof fn lemma_unmatched_line_unchanged(line: Seq<char>, email: Seq<char>)
    requires
        unmatched(line),
    ensures
        redacted(line, email) == line,
{
}

/// Where the later passes find nothing in what the first pass wrote, the first
/// pass stands: the redacted line holds the mock e-mail and a tab for every
/// address before a tab that the first pass found, the same mock e-mail each
/// time.
pub proof fn lemma_tab_addresses_replaced(line: Seq<char>, email: Seq<char>)
    requires
        only_tab_addresses(line, email),
        spans_in_order(matches_in(PatternKind::EmailSql, line), line.len() as int),
    ensures
        redacted(line, email) == pass(PatternKind::EmailSql, line, email),
        holds_replacements(redacted(line, email), PatternKind::EmailSql, line, email),
{
    let spans = matches_in(PatternKind::EmailSql, line);
    let replacement = PatternKind::EmailSql.replacement_text(email);
    assert forall|i: int| 0 <= i < spans.len() implies redacted(line, email).subrange(
        #[trigger] written_at(spans, replacement.len() as int, i),
        written_at(spans, replacement.len() as int, i) + replacement.len(),
    ) == replacement by {
        lemma_spliced_holds_replacement(line, spans, replacement, i);
    }
}

/// Whether `needle` stands somewhere in `text`, whole.
pub open spec fn occurs_in(needle: Seq<char>, text: Seq<char>) -> bool {
    exists|at: int|
        0 <= at && at + needle.len() <= text.len() && #[trigger] text.subrange(
            at,
            at + needle.len(),
        ) == needle
}

/// A line of one address, a tab and a rest: where the first pass finds the
/// address with its tab and nothing else, and the later passes find nothing
/// in what it wrote, the redacted line is the mock e-mail, the tab and the
/// rest.
pub proof fn lemma_one_tab_address(address: Seq<char>, rest: Seq<char>, email: Seq<char>)
    requires
        matches_in(PatternKind::EmailSql, address + seq!['\t'] + rest) == seq![
            (0int, address.len() as int + 1),
        ],
        only_tab_addresses(address + seq!['\t'] + rest, email),
    ensures
        redacted(address + seq!['\t'] + rest, email) == email + seq!['\t'] + rest,
{
    reveal_strlit("\t");
    let line = address + seq!['\t'] + rest;
    let spans = seq![(0int, address.len() as int + 1)];
    let replacement = PatternKind::EmailSql.replacement_text(email);
    assert(replacement =~= email + seq!['\t']);
    assert(spans.drop_last() =~= Seq::<(int, int)>::empty());
    assert(spliced(line.subrange(0, 0), spans.drop_last(), replacement) =~= Seq::<char>::empty());
    assert(line.subrange(address.len() as int + 1, line.len() as int) =~= rest);
    assert(spliced(line, spans, replacement) =~= email + seq!['\t'] + rest);
}

/// A line of two addresses, each with its tab, and a rest: where the first
/// pass finds the two addresses with their tabs and nothing else, and the
/// later passes find nothing in what it wrote, the redacted line holds the
/// one mock e-mail in both places, and the tabs and the rest as they were.
pub proof fn lemma_two_tab_addresses(
    first: Seq<char>,
    second: Seq<char>,
    rest: Seq<char>,
    email: Seq<char>,
)
    requires
        matches_in(PatternKind::EmailSql, first + seq!['\t'] + second + seq!['\t'] + rest)
            == seq![
            (0int, first.len() as int + 1),
            (first.len() as int + 1, first.len() as int + second.len() as int + 2),
        ],
        only_tab_addresses(first + seq!['\t'] + second + seq!['\t'] + rest, email),
    ensures
        redacted(first + seq!['\t'] + second + seq!['\t'] + rest, email) == email + seq!['\t']
            + email + seq!['\t'] + rest,
{
    reveal_strlit("\t");
    let line = first + seq!['\t'] + second + seq!['\t'] + rest;
    let spans = seq![(0int, first.len() as int + 1), (first.len() as int + 1, first.len() as int + second.len() as int + 2)];
    let replacement = PatternKind::EmailSql.replacement_text(email);
    let before = line.subrange(0, first.len() as int + 1);
    assert(replacement =~= email + seq!['\t']);
    assert(spans.drop_last() =~= seq![(0int, first.len() as int + 1)]);
    assert(spans.drop_last().drop_last() =~= Seq::<(int, int)>::empty());
    assert(spliced(before.subrange(0, 0), spans.drop_last().drop_last(), replacement)
        =~= Seq::<char>::empty());
    assert(before.subrange(first.len() as int + 1, before.len() as int) =~= Seq::<char>::empty());
    assert(spliced(before, spans.drop_last(), replacement) =~= email + seq!['\t']);
    assert(line.subrange(first.len() as int + second.len() as int + 2, line.len() as int) =~= rest);
    assert(spliced(line, spans, replacement) =~= email + seq!['\t'] + email + seq!['\t']
        + rest);
}

/// An address, with its `@` and without a tab, that does not stand in the
/// mock e-mail stands nowhere in the mock e-mail, a tab and a rest without
/// `@`: the address is gone from such a line.
pub proof fn lemma_address_gone(address: Seq<char>, rest: Seq<char>, email: Seq<char>)
    requires
        address.contains('@'),
        !address.contains('\t'),
        !rest.contains('@'),
        !occurs_in(address, email),
    ensures
        !occurs_in(address, email + seq!['\t'] + rest),
{
    let text = email + seq!['\t'] + rest;
    if occurs_in(address, text) {
        let at = choose|at: int|
            0 <= at && at + address.len() <= text.len() && #[trigger] text.subrange(
                at,
                at + address.len(),
            ) == address;
        let found = text.subrange(at, at + address.len());
        let sign = choose|i: int| 0 <= i < address.len() && address[i] == '@';
        assert(found[sign] == text[at + sign]);
        if at + sign > email.len() {
            assert(rest[at + sign - email.len() - 1] == '@');
        }
        assert(at + sign < email.len());
        if at + address.len() > email.len() {
            assert(found[email.len() - at] == text[email.len() as int]);
            assert(address[email.len() - at] == '\t');
        }
        assert(email.subrange(at, at + address.len()) =~= found);
    }
}

/// Where only the last pass finds anything in a line, and what it finds is
/// as long as the mock phone number field, the line is rewritten in place:
/// the redacted line is as long as the line, holds the mock field at every
/// match, and is the line everywhere else.
pub proof fn lemma_phone_fields_rewritten_in_place(line: Seq<char>, email: Seq<char>)
    requires
        only_phone_fields(line),
        spans_in_order(matches_in(PatternKind::PhoneNumberJson, line), line.len() as int),
    ensures
        rewritten_in_place(
            redacted(line, email),
            line,
            matches_in(PatternKind::PhoneNumberJson, line),
            mock_phone_field(),
        ),
{
    assert(emails_redacted(line, email) == line);
    lemma_spliced_in_place(
        line,
        matches_in(PatternKind::PhoneNumberJson, line),
        mock_phone_field(),
    );
}

/// What the last pass writes for a phone number field does not depend on the
/// mock e-mail: it is the field with ten times the digit 5.
pub proof fn lemma_mock_phone_field(email: Seq<char>)
    ensures
        PatternKind::PhoneNumberJson.replacement_text(email) == mock_phone_field(),
        mock_phone_field() == "\"phone_number\": \""@ + Seq::new(10, |i: int| '5') + "\""@,
        mock_phone_field() == "\"phone_number\": \"5555555555\""@,
        mock_phone_field().len() == 28,
{
    reveal_strlit("5555555555");
    reveal_strlit("\"phone_number\": \"");
    reveal_strlit("\"");
    reveal_strlit("\"phone_number\": \"5555555555\"");
    assert(MOCK_PHONE@ =~= Seq::new(10, |i: int| '5'));
    assert(mock_phone_field() =~= "\"phone_number\": \"5555555555\""@);
}

/// The five compiled patterns. It keeps nothing from one line to the next.
pub struct Redactor {
    email_sql: Pattern,
    email_phone_sql: Pattern,
    email_json: Pattern,
    subscriber_email_json: Pattern,
    phone_number_json: Pattern,
}

impl View for Redactor {
    type V = Seq<PatternKind>;

    /// A redactor stands for the passes it makes, in their order.
    closed spec fn view(&self) -> Seq<PatternKind> {
        seq![
            self.email_sql@,
            self.email_phone_sql@,
            self.email_json@,
            self.subscriber_email_json@,
            self.phone_number_json@,
        ]
    }
}

impl Redactor {
    /// Each field holds the pattern of its name.
    #[verifier::type_invariant]
    spec fn holds_each_pattern(self) -> bool {
        &&& self.email_sql@ == PatternKind::EmailSql
        &&& self.email_phone_sql@ == PatternKind::EmailPhoneSql
        &&& self.email_json@ == PatternKind::EmailJson
        &&& self.subscriber_email_json@ == PatternKind::SubscriberEmailJson
        &&& self.phone_number_json@ == PatternKind::PhoneNumberJson
    }

    /// Compiles the five patterns. There is a redactor where the regex crate
    /// compiles all five; else the error names the first that it does not.
    pub fn new() -> (r: Result<Redactor, PatternError>)
        ensures
            r is Ok <==> first_uncompiled() is None,
            r matches Ok(redactor) ==> redactor@ == pass_order(),
            r matches Err(error) ==> first_uncompiled() == Some(error.kind),
    {
        Redactor::from_patterns(
            Pattern::compile(PatternKind::EmailSql),
            Pattern::compile(PatternKind::EmailPhoneSql),
            Pattern::compile(PatternKind::EmailJson),
            Pattern::compile(PatternKind::SubscriberEmailJson),
            Pattern::compile(PatternKind::PhoneNumberJson),
        )
    }

    /// Puts the five patterns together where all of them compiled, and else
    /// hands on the first error.
    pub fn from_patterns(
        email_sql: Result<Pattern, PatternError>,
        email_phone_sql: Result<Pattern, PatternError>,
        email_json: Result<Pattern, PatternError>,
        subscriber_email_json: Result<Pattern, PatternError>,
        phone_number_json: Result<Pattern, PatternError>,
    ) -> (r: Result<Redactor, PatternError>)
        requires
            email_sql matches Ok(pattern) ==> pattern@ == PatternKind::EmailSql,
            email_phone_sql matches Ok(pattern) ==> pattern@ == PatternKind::EmailPhoneSql,
            email_json matches Ok(pattern) ==> pattern@ == PatternKind::EmailJson,
            subscriber_email_json matches Ok(pattern) ==> pattern@
                == PatternKind::SubscriberEmailJson,
            phone_number_json matches Ok(pattern) ==> pattern@ == PatternKind::PhoneNumberJson,
        ensures
            r is Ok <==> first_error(
                email_sql,
                email_phone_sql,
                email_json,
                subscriber_email_json,
                phone_number_json,
            ) is None,
            r matches Err(error) ==> first_error(
                email_sql,
                email_phone_sql,
                email_json,
                subscriber_email_json,
                phone_number_json,
            ) == Some(error),
            r matches Ok(redactor) ==> redactor@ == pass_order(),
    {
        let email_sql = match email_sql {
            Ok(pattern) => pattern,
            Err(error) => {
                return Err(error);
            },
        };
        let email_phone_sql = match email_phone_sql {
            Ok(pattern) => pattern,
            Err(error) => {
                return Err(error);
            },
        };
        let email_json = match email_json {
            Ok(pattern) => pattern,
            Err(error) => {
                return Err(error);
            },
        };
        let subscriber_email_json = match subscriber_email_json {
            Ok(pattern) => pattern,
            Err(error) => {
                return Err(error);
            },
        };
        let phone_number_json = match phone_number_json {
            Ok(pattern) => pattern,
            Err(error) => {
                return Err(error);
            },
        };
        Ok(
            Redactor {
                email_sql,
                email_phone_sql,
                email_json,
                subscriber_email_json,
                phone_number_json,
            },
        )
    }

    /// Redacts a line with the given mock e-mail: the five passes, in order,
    /// each over what the pass before it left. The matches of each pass lie
    /// in order within the text that the pass read. A line in which no pattern
    /// has a match comes back as it was. Wherever the last pass finds a phone
    /// number field, the redacted line holds the field with the mock phone
    /// number. Where the later passes find nothing in what the first wrote,
    /// every address that the first pass found holds the mock e-mail and its
    /// tab; where only the last pass finds anything, and that as long as the
    /// mock field, the line is rewritten in place.
    pub fn redact_with(&self, line: &str, email: &str) -> (out: String)
        ensures
            out@ == redacted(line@, email@),
            matches_in_order(line@, email@),
            unmatched(line@) ==> out@ == line@,
            holds_replacements(
                out@,
                PatternKind::PhoneNumberJson,
                emails_redacted(line@, email@),
                email@,
            ),
            only_tab_addresses(line@, email@) ==> holds_replacements(
                out@,
                PatternKind::EmailSql,
                line@,
                email@,
            ),
            only_phone_fields(line@) ==> rewritten_in_place(
                out@,
                line@,
                matches_in(PatternKind::PhoneNumberJson, line@),
                mock_phone_field(),
            ),
    {
        proof {
            use_type_invariant(self);
            if unmatched(line@) {
                lemma_unmatched_line_unchanged(line@, email@);
            }
        }
        let second = self.email_sql.apply(line, email);
        let third = self.email_phone_sql.apply(second.as_str(), email);
        let fourth = self.email_json.apply(third.as_str(), email);
        let fifth = self.subscriber_email_json.apply(fourth.as_str(), email);
        let out = self.phone_number_json.apply(fifth.as_str(), email);
        proof {
            assert forall|kind: PatternKind|
                spans_in_order(
                    #[trigger] matches_in(kind, text_read_by(kind, line@, email@)),
                    text_read_by(kind, line@, email@).len() as int,
                ) by {
                match kind {
                    PatternKind::EmailSql => {},
                    PatternKind::EmailPhoneSql => {},
                    PatternKind::EmailJson => {},
                    PatternKind::SubscriberEmailJson => {},
                    PatternKind::PhoneNumberJson => {},
                }
            }
            if only_tab_addresses(line@, email@) {
                lemma_tab_addresses_replaced(line@, email@);
            }
            if only_phone_fields(line@) {
                lemma_phone_fields_rewritten_in_place(line@, email@);
            }
        }
        out
    }

    /// Redacts a line with a mock e-mail made afresh for it, match or no
    /// match: the one mock e-mail stands for every address in the line.
    pub fn redact_line(&self, line: &str, rng: &mut StdRng) -> (out: String)
        ensures
            exists|email: Seq<char>|
                is_mock_email(email) && out@ == #[trigger] redacted(line@, email)
                    && matches_in_order(line@, email) && holds_replacements(
                    out@,
                    PatternKind::PhoneNumberJson,
                    emails_redacted(line@, email),
                    email,
                ),
            unmatched(line@) ==> out@ == line@,
    {
        let email = mock_email(rng);
        let out = self.redact_with(line, email.as_str());
        proof {
            assert(is_mock_email(email@) && out@ == redacted(line@, email@));
        }
        out
    }
}

} // verus!
