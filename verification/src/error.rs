//! What can go wrong in the query engine.
use vstd::prelude::*;

verus! {

/// An error of the query engine, with the text it is about.
#[derive(Debug, Clone, PartialEq, Eq)]
pub enum EngineError {
    Parse(String),
    Query(String),
    InvalidExpression(String),
    InvalidToken(String),
    UnexpectedToken { expected: String, found: String },
    InvalidValue(String),
    Row(String),
}

/// What an [`EngineError`] holds.
pub enum ErrorView {
    Parse(Seq<char>),
    Query(Seq<char>),
    InvalidExpression(Seq<char>),
    InvalidToken(Seq<char>),
    UnexpectedToken { expected: Seq<char>, found: Seq<char> },
    InvalidValue(Seq<char>),
    Row(Seq<char>),
}

impl View for EngineError {
    type V = ErrorView;

    open spec fn view(&self) -> ErrorView {
        match self {
            EngineError::Parse(s) => ErrorView::Parse(s@),
            EngineError::Query(s) => ErrorView::Query(s@),
            EngineError::InvalidExpression(s) => ErrorView::InvalidExpression(s@),
            EngineError::InvalidToken(s) => ErrorView::InvalidToken(s@),
            EngineError::UnexpectedToken { expected, found } => ErrorView::UnexpectedToken {
                expected: expected@,
                found: found@,
            },
            EngineError::InvalidValue(s) => ErrorView::InvalidValue(s@),
            EngineError::Row(s) => ErrorView::Row(s@),
        }
    }
}

/// The sentence that tells of an error.
pub open spec fn message_of(error: ErrorView) -> Seq<char> {
    match error {
        ErrorView::Parse(s) => "Parse error: "@ + s,
        ErrorView::Query(s) => "Query error: "@ + s,
        ErrorView::InvalidExpression(s) => "Invalid expression: "@ + s,
        ErrorView::InvalidToken(s) => "Invalid token: "@ + s,
        ErrorView::UnexpectedToken { expected, found } => "Unexpected token: expected "@ + expected
            + ", found "@ + found,
        ErrorView::InvalidValue(s) => "Invalid value: "@ + s,
        ErrorView::Row(s) => "Row error: "@ + s,
    }
}

/// `head` followed by `tail`.
fn joined(head: &str, tail: &str) -> (r: String)
    ensures
        r@ == head@ + tail@,
{
    let mut out = head.to_owned();
    out.append(tail);
    out
}

impl EngineError {
    /// The sentence that tells of this error.
    pub fn message(&self) -> (r: String)
        ensures
            r@ == message_of(self@),
    {
        match self {
            EngineError::Parse(s) => joined("Parse error: ", s.as_str()),
            EngineError::Query(s) => joined("Query error: ", s.as_str()),
            EngineError::InvalidExpression(s) => joined("Invalid expression: ", s.as_str()),
            EngineError::InvalidToken(s) => joined("Invalid token: ", s.as_str()),
            EngineError::UnexpectedToken { expected, found } => {
                let mut out = joined("Unexpected token: expected ", expected.as_str());
                out.append(", found ");
                out.append(found.as_str());
                out
            },
            EngineError::InvalidValue(s) => joined("Invalid value: ", s.as_str()),
            EngineError::Row(s) => joined("Row error: ", s.as_str()),
        }
    }
}

} // verus!
