use vstd::prelude::*;

verus! {

/// Why a string of characters does not stand for a number that fits in 64 bits.
#[derive(Clone, Copy, Debug, PartialEq, Eq, Structural)]
pub enum NumberError {
    /// The string holds no character at all.
    Empty,
    /// A character that is not a decimal digit comes before any overflow.
    InvalidDigit,
    /// The digits read so far already exceed the largest 64-bit number.
    TooLarge,
}

impl NumberError {
    /// The sentence that describes the failure.
    pub open spec fn text(self) -> Seq<char> {
        match self {
            NumberError::Empty => "cannot parse integer from empty string"@,
            NumberError::InvalidDigit => "invalid digit found in string"@,
            NumberError::TooLarge => "number too large to fit in target type"@,
        }
    }

    /// The sentence that describes the failure.
    pub fn message(&self) -> (text: &'static str)
        ensures
            text@ == self.text(),
    {
        match self {
            NumberError::Empty => "cannot parse integer from empty string",
            NumberError::InvalidDigit => "invalid digit found in string",
            NumberError::TooLarge => "number too large to fit in target type",
        }
    }
}

/// The message of a line that does not have the shape of a record.
pub open spec fn invalid_record_text() -> Seq<char> {
    "Invalid record"@
}

/// The message of a record whose number could not be read.
pub open spec fn number_error_text(kind: NumberError) -> Seq<char> {
    "parse int error:"@ + kind.text()
}

/// The message of a pattern that the regex engine refused, given the engine's own words.
pub open spec fn pattern_error_text(detail: Seq<char>) -> Seq<char> {
    "regex error: "@ + detail
}

/// A failure, described by its message.
#[derive(Debug)]
pub struct Error {
    message: String,
}

impl View for Error {
    type V = Seq<char>;

    closed spec fn view(&self) -> Seq<char> {
        self.message@
    }
}

impl Error {
    /// An error with the given message.
    pub fn new(message: String) -> (error: Error)
        ensures
            error@ == message@,
    {
        Error { message }
    }

    /// The message this error was made with.
    pub fn message(&self) -> (text: &str)
        ensures
            text@ == self@,
    {
        self.message.as_str()
    }

    /// The error of a line that does not have the shape of a record.
    pub fn invalid_record() -> (error: Error)
        ensures
            error@ == invalid_record_text(),
    {
        Error::new("Invalid record".to_owned())
    }

    /// The error of a record whose number could not be read.
    pub fn from_number_error(kind: NumberError) -> (error: Error)
        ensures
            error@ == number_error_text(kind),
    {
        let mut message = "parse int error:".to_owned();
        message.append(kind.message());
        Error::new(message)
    }

    /// The error of a pattern that the regex engine refused, from the engine's own words.
    pub fn from_pattern_error(detail: &str) -> (error: Error)
        ensures
            error@ == pattern_error_text(detail@),
    {
        let mut message = "regex error: ".to_owned();
        message.append(detail);
        Error::new(message)
    }
}

} // verus!
