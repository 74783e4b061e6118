use vstd::prelude::*;

verus! {

/// Why the parser stopped: a kind of error, given by its description, or a
/// message of its own.
#[derive(Debug)]
pub enum ParserError {
    Kind(&'static str),
    Custom(String),
}

#[derive(Debug, PartialEq, Eq, Clone, Copy, Structural)]
pub enum ErrorKind {
    // Reached a part of the parser that is not implemented
    Unimplemented,
    // Found a string literal where none may stand
    UnexpectedStringLiteral,
    // The tokens ended where another token was expected
    UnexpectedEndOfTokenStream,
}

/// What a `ParserError` holds.
pub enum ParseFailure {
    /// The description of a kind of error.
    Kind(Seq<char>),
    Custom(Seq<char>),
}

impl ParseFailure {
    /// The message of an error.
    pub open spec fn message(self) -> Seq<char> {
        match self {
            ParseFailure::Kind(text) => text,
            ParseFailure::Custom(msg) => msg,
        }
    }
}

impl View for ParserError {
    type V = ParseFailure;

    open spec fn view(&self) -> ParseFailure {
        match self {
            ParserError::Kind(text) => ParseFailure::Kind(text@),
            ParserError::Custom(msg) => ParseFailure::Custom(msg@),
        }
    }
}

impl ErrorKind {
    pub open spec fn text(self) -> Seq<char> {
        match self {
            ErrorKind::Unimplemented => "reached unimplemented code"@,
            ErrorKind::UnexpectedStringLiteral => "unexpected string literal"@,
            ErrorKind::UnexpectedEndOfTokenStream => "unexpected end of token stream"@,
        }
    }

    /// A short description of the error.
    pub fn as_str(&self) -> (s: &'static str)
        ensures
            s@ == self.text(),
    {
        match *self {
            ErrorKind::Unimplemented => "reached unimplemented code",
            ErrorKind::UnexpectedStringLiteral => "unexpected string literal",
            ErrorKind::UnexpectedEndOfTokenStream => "unexpected end of token stream",
        }
    }
}

impl ParserError {
    pub fn kind(kind: ErrorKind) -> (e: ParserError)
        ensures
            e@ == ParseFailure::Kind(kind.text()),
    {
        ParserError::Kind(kind.as_str())
    }

    pub fn custom(msg: &str) -> (e: ParserError)
        ensures
            e@ == ParseFailure::Custom(msg@),
    {
        ParserError::Custom(msg.to_owned())
    }

    /// The message of the error.
    pub fn message(&self) -> (s: String)
        ensures
            s@ == self@.message(),
    {
        match self {
            ParserError::Kind(text) => (*text).to_owned(),
            ParserError::Custom(msg) => msg.clone(),
        }
    }
}

impl From<ErrorKind> for ParserError {
    fn from(kind: ErrorKind) -> (e: ParserError) {
        match kind {
            ErrorKind::Unimplemented => ParserError::Kind("reached unimplemented code"),
            ErrorKind::UnexpectedStringLiteral => ParserError::Kind("unexpected string literal"),
            ErrorKind::UnexpectedEndOfTokenStream => ParserError::Kind("unexpected end of token stream"),
        }
    }
}

impl vstd::std_specs::convert::FromSpecImpl<ErrorKind> for ParserError {
    open spec fn obeys_from_spec() -> bool {
        true
    }

    /// The error of a kind: its description.
    open spec fn from_spec(kind: ErrorKind) -> ParserError {
        match kind {
            ErrorKind::Unimplemented => ParserError::Kind("reached unimplemented code"),
            ErrorKind::UnexpectedStringLiteral => ParserError::Kind("unexpected string literal"),
            ErrorKind::UnexpectedEndOfTokenStream => ParserError::Kind("unexpected end of token stream"),
        }
    }
}

impl From<String> for ParserError {
    fn from(msg: String) -> (e: ParserError) {
        ParserError::Custom(msg)
    }
}

impl vstd::std_specs::convert::FromSpecImpl<String> for ParserError {
    open spec fn obeys_from_spec() -> bool {
        true
    }

    /// An error with a message of its own.
    open spec fn from_spec(msg: String) -> ParserError {
        ParserError::Custom(msg)
    }
}

impl<'a> From<&'a str> for ParserError {
    /// An error with a copy of the message as its own.
    fn from(msg: &'a str) -> (e: ParserError)
        ensures
            e@ == ParseFailure::Custom(msg@),
    {
        ParserError::Custom(msg.to_owned())
    }
}

impl<'a> vstd::std_specs::convert::FromSpecImpl<&'a str> for ParserError {
    /// The message is copied into a new string, which is equal to any other
    /// string with the same characters only in its view: no value is claimed.
    open spec fn obeys_from_spec() -> bool {
        false
    }

    open spec fn from_spec(msg: &'a str) -> ParserError {
        ParserError::Custom(choose|copy: String| copy@ == msg@)
    }
}

} // verus!
