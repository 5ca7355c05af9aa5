use vstd::prelude::*;
use crate::error::{
    invalid_record_text,
    number_error_text,
    pattern_error_text,
    Error,
    NumberError,
};
use crate::number::{parse_decimal, parsed_number};
use crate::pattern::{
    capture_groups,
    captured_groups,
    groups_view,
    pattern_refusal,
    refusal,
    text_view,
};
use crate::policy::{Policy, Record, RecordView};
use crate::text::{characters, stands_at};

verus! {

/// The shape of a line, as a regular expression: one or more decimal digits, a hyphen, one or
/// more decimal digits, one white-space character, one word character, a colon, one white-space
/// character, and then the password, one or more characters up to the end of the text, none of
/// them a line feed. The four fields are groups of the pattern, in this order.
pub const RECORD_PATTERN: &'static str =
    r"^(?P<from>\d+)-(?P<to>\d+)\s(?P<letter>\w):\s(?P<password>.+)$";

/// The number of groups in a match of the pattern: the whole match and the four fields.
pub const GROUP_COUNT: usize = 5;

/// What comes of reading a line, as contracts see it: the record, or the message of the error.
pub type Outcome = Result<RecordView, Seq<char>>;

/// The view of what reading a line returned.
pub open spec fn outcome_view(outcome: Result<Record, Error>) -> Outcome {
    match outcome {
        Ok(record) => Ok(record@),
        Err(error) => Err(error@),
    }
}

/// The fields of a line put together again: the first number, a hyphen, the second number, a
/// separator, the letter, a colon, a separator, and the password.
pub open spec fn joined(
    from: Seq<char>,
    to: Seq<char>,
    first: char,
    letter: char,
    second: char,
    password: Seq<char>,
) -> Seq<char> {
    from + seq!['-'] + to + seq![first, letter, ':', second] + password
}

/// The line is made of these fields and nothing else; the two separators are one character
/// each, whichever.
pub open spec fn spelled(
    line: Seq<char>,
    from: Seq<char>,
    to: Seq<char>,
    letter: char,
    password: Seq<char>,
) -> bool {
    exists|first: char, second: char|
        line == #[trigger] joined(from, to, first, letter, second, password)
}

/// The line has the shape of the record: it is made of a first number that reads as `from`, a
/// hyphen, a second number that reads as `to`, a separator, the letter, a colon, a separator,
/// and the password, which is not empty.
pub open spec fn has_shape_of(line: Seq<char>, record: RecordView) -> bool {
    exists|from: Seq<char>, to: Seq<char>|
        {
            &&& #[trigger] spelled(line, from, to, record.policy.letter, record.password)
            &&& parsed_number(from) == Ok::<u64, NumberError>(record.policy.from)
            &&& parsed_number(to) == Ok::<u64, NumberError>(record.policy.to)
            &&& record.password.len() > 0
        }
}

/// The groups have the form that a match of the record pattern gives: five of them, each with a
/// text, the letter's of one character, the password's not empty.
pub open spec fn well_formed(groups: Seq<Option<Seq<char>>>) -> bool {
    &&& groups.len() == GROUP_COUNT
    &&& forall|i: int| 0 <= i < groups.len() ==> (#[trigger] groups[i]) is Some
    &&& groups[3]->0.len() == 1
    &&& groups[4]->0.len() > 0
}

/// The groups are those of a match of the record pattern in `line`: they have its form, and the
/// four fields spell the line.
pub open spec fn matches_line(line: Seq<char>, groups: Seq<Option<Seq<char>>>) -> bool {
    well_formed(groups) && spelled(
        line,
        groups[1]->0,
        groups[2]->0,
        groups[3]->0[0],
        groups[4]->0,
    )
}

/// The record that the groups captured in `line` stand for.
///
/// No match, or groups that are not those of a match of the record pattern in this line, give
/// the error of an invalid record. Else the first number is read, then the second, and the first
/// that fails gives its error. The letter is the character of its group, and the password is its
/// group as it stands.
pub open spec fn record_of(line: Seq<char>, groups: Option<Seq<Option<Seq<char>>>>) -> Outcome {
    match groups {
        None => Err(invalid_record_text()),
        Some(groups) => if !matches_line(line, groups) {
            Err(invalid_record_text())
        } else {
            match (parsed_number(groups[1]->0), parsed_number(groups[2]->0)) {
                (Err(kind), _) => Err(number_error_text(kind)),
                (Ok(_), Err(kind)) => Err(number_error_text(kind)),
                (Ok(from), Ok(to)) => Ok(
                    RecordView {
                        policy: Policy { from, to, letter: groups[3]->0[0] },
                        password: groups[4]->0,
                    },
                ),
            }
        },
    }
}

/// What comes of reading `line`: the record of the groups that the record pattern captures in it.
pub open spec fn line_outcome(line: Seq<char>) -> Outcome {
    record_of(line, captured_groups(RECORD_PATTERN@, line))
}

/// A line in which the record pattern finds no match is no record: reading it gives the error
/// of an invalid record.
pub proof fn lemma_unmatched_line_is_rejected(line: Seq<char>)
    ensures
        captured_groups(RECORD_PATTERN@, line) is None ==> line_outcome(line) == Err::<
            RecordView,
            Seq<char>,
        >(invalid_record_text()),
{
}

/// A record is never made up: where `record_of` gives one, the line has its shape.
pub proof fn lemma_record_has_shape_of_line(line: Seq<char>, groups: Option<Seq<Option<Seq<char>>>>)
    requires
        record_of(line, groups) is Ok,
    ensures
        has_shape_of(line, record_of(line, groups)->Ok_0),
{
    let fields = groups->0;
    let record = record_of(line, groups)->Ok_0;
    assert(spelled(line, fields[1]->0, fields[2]->0, record.policy.letter, record.password));
}

/// A line that has the shape of no record is read as none, whatever the pattern captures in it.
pub proof fn lemma_line_of_another_shape_is_rejected(line: Seq<char>)
    requires
        forall|record: RecordView| !has_shape_of(line, record),
    ensures
        line_outcome(line) is Err,
{
    if line_outcome(line) is Ok {
        lemma_record_has_shape_of_line(line, captured_groups(RECORD_PATTERN@, line));
    }
}

/// Whether the four fields spell the line. Besides the fields the line holds five characters:
/// the hyphen, the two separators, the letter and the colon.
fn spells(
    line: &Vec<char>,
    from: &Vec<char>,
    to: &Vec<char>,
    letter: char,
    password: &Vec<char>,
) -> (yes: bool)
    ensures
        yes == spelled(line@, from@, to@, letter, password@),
{
    let fits = line.len() >= 5 && line.len() - 5 >= from.len() && line.len() - 5 - from.len()
        >= to.len() && line.len() - 5 - from.len() - to.len() == password.len();
    if !fits {
        assert forall|first: char, second: char|
            line@ != #[trigger] joined(from@, to@, first, letter, second, password@) by {
            assert(joined(from@, to@, first, letter, second, password@).len() == from@.len()
                + to@.len() + password@.len() + 5);
        }
        return false;
    }
    let hyphen = from.len();
    let gap = hyphen + 1 + to.len();
    let yes = stands_at(line, 0, from) && line[hyphen] == '-' && stands_at(line, hyphen + 1, to)
        && line[gap + 1] == letter && line[gap + 2] == ':' && stands_at(line, gap + 4, password);
    proof {
        if yes {
            assert(line@ == joined(from@, to@, line@[gap as int], letter, line@[gap + 3], password@));
        } else {
            assert forall|first: char, second: char|
                line@ != #[trigger] joined(from@, to@, first, letter, second, password@) by {
                let other = joined(from@, to@, first, letter, second, password@);
                if line@ == other {
                    assert(other.subrange(0, from@.len() as int) == from@);
                    assert(other.subrange(hyphen + 1, hyphen + 1 + to@.len()) == to@);
                    assert(other.subrange(gap + 4, gap + 4 + password@.len()) == password@);
                }
            }
        }
    }
    yes
}

/// Builds the record that the groups captured in `line` stand for.
///
/// The groups are not taken on trust: they are held against the line, so that a record that
/// comes out has the shape of the line it was read from, whatever captured the groups.
pub fn record_from_groups(line: &str, groups: Option<Vec<Option<String>>>) -> (outcome: Result<
    Record,
    Error,
>)
    ensures
        outcome_view(outcome) == record_of(line@, groups_view(groups)),
        outcome matches Ok(record) ==> has_shape_of(line@, record@),
{
    proof {
        if record_of(line@, groups_view(groups)) is Ok {
            lemma_record_has_shape_of_line(line@, groups_view(groups));
        }
    }
    let Some(mut texts) = groups else {
        return Err(Error::invalid_record());
    };
    if texts.len() != GROUP_COUNT {
        return Err(Error::invalid_record());
    }
    let ghost view = groups_view(groups)->0;
    assert(forall|i: int| 0 <= i < GROUP_COUNT ==> view[i] == text_view(#[trigger] texts@[i]));
    let password = texts.pop().unwrap();
    let letter = texts.pop().unwrap();
    let to = texts.pop().unwrap();
    let from = texts.pop().unwrap();
    let whole = texts.pop().unwrap();
    match (whole, from, to, letter, password) {
        (Some(_), Some(from), Some(to), Some(letter), Some(password)) => {
            let letter = characters(letter.as_str());
            let password_chars = characters(password.as_str());
            if letter.len() != 1 || password_chars.len() == 0 {
                return Err(Error::invalid_record());
            }
            let letter = letter[0];
            let spelled = spells(
                &characters(line),
                &characters(from.as_str()),
                &characters(to.as_str()),
                letter,
                &password_chars,
            );
            if !spelled {
                return Err(Error::invalid_record());
            }
            let from = match parse_decimal(from.as_str()) {
                Ok(number) => number,
                Err(kind) => {
                    return Err(Error::from_number_error(kind));
                },
            };
            let to = match parse_decimal(to.as_str()) {
                Ok(number) => number,
                Err(kind) => {
                    return Err(Error::from_number_error(kind));
                },
            };
            Ok(Record { policy: Policy { from, to, letter }, password })
        },
        _ => Err(Error::invalid_record()),
    }
}

/// Reads lines of the shape of `RECORD_PATTERN`. It holds the pattern as text.
pub struct Parser {
    pattern: String,
}

impl Parser {
    #[verifier::type_invariant]
    spec fn holds_record_pattern(self) -> bool {
        self.pattern@ == RECORD_PATTERN@
    }

    /// A parser, if the regex engine accepts the record pattern; else the error that carries
    /// the engine's words.
    pub fn new() -> (parser: Result<Parser, Error>)
        ensures
            match parser {
                Ok(_) => pattern_refusal(RECORD_PATTERN@) is None,
                Err(error) => pattern_refusal(RECORD_PATTERN@) matches Some(words)
                    && error@ == pattern_error_text(words),
            },
    {
        match refusal(RECORD_PATTERN) {
            None => Ok(Parser { pattern: RECORD_PATTERN.to_owned() }),
            Some(words) => Err(Error::from_pattern_error(words.as_str())),
        }
    }

    /// Reads one line: the record it stands for; or the error of an invalid record, where the
    /// pattern does not match the line; or the error of the first of the two numbers that cannot
    /// be read, because it is above the 64-bit range or written in digits other than `0` to `9`.
    pub fn parse(&self, line: &str) -> (outcome: Result<Record, Error>)
        ensures
            outcome_view(outcome) == line_outcome(line@),
            captured_groups(RECORD_PATTERN@, line@) is None ==> outcome is Err,
            outcome matches Ok(record) ==> has_shape_of(line@, record@),
    {
        proof {
            use_type_invariant(self);
        }
        record_from_groups(line, capture_groups(self.pattern.as_str(), line))
    }
}

} // verus!
