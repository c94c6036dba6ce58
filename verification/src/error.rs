//! Errors reported by the frontend.

use vstd::prelude::*;

verus! {

/// What went wrong while a query was read or planned.
#[derive(Clone, Copy, Debug, PartialEq, Eq, Hash)]
pub enum ErrorKind {
    /// The query text does not follow the grammar.
    Syntax,
    /// A relationship pattern carries an arrow head at both ends.
    DirectedBothWays,
    /// A relationship to create has no direction.
    UndirectedCreate,
    /// A relationship to create has no type.
    UntypedCreate,
    /// A function that the backend does not describe was called.
    UnknownFunction,
    /// A procedure that the backend does not describe was called.
    UnknownProcedure,
    /// An integer literal does not fit in 64 bits.
    IntegerOutOfRange,
    /// A parse tree holds a rule where the planner cannot handle it.
    UnexpectedRule,
}

/// An error of the frontend.
#[derive(Clone, Copy, Debug, PartialEq, Eq, Hash)]
pub struct Error {
    pub kind: ErrorKind,
}

impl Error {
    /// An error of the given kind.
    pub fn new(kind: ErrorKind) -> (e: Error)
        ensures
            e.kind == kind,
    {
        Error { kind }
    }

    /// A sentence that describes the error.
    pub fn message(&self) -> (msg: String)
        ensures
            msg@ == describe(self.kind),
    {
        match self.kind {
            ErrorKind::Syntax => String::from_str("syntax error in query"),
            ErrorKind::DirectedBothWays => String::from_str(
                "relationship can't be directed in both directions. If you want to find relationships in either direction, leave the arrows out",
            ),
            ErrorKind::UndirectedCreate => String::from_str(
                "relationships to create must have a direction",
            ),
            ErrorKind::UntypedCreate => String::from_str(
                "relationships to create must have a type",
            ),
            ErrorKind::UnknownFunction => String::from_str("unknown function"),
            ErrorKind::UnknownProcedure => String::from_str("unknown procedure"),
            ErrorKind::IntegerOutOfRange => String::from_str("integer literal out of range"),
            ErrorKind::UnexpectedRule => String::from_str("malformed parse tree"),
        }
    }
}

/// The sentence for each kind of error.
pub open spec fn describe(kind: ErrorKind) -> Seq<char> {
    match kind {
        ErrorKind::Syntax => "syntax error in query"@,
        ErrorKind::DirectedBothWays =>
            "relationship can't be directed in both directions. If you want to find relationships in either direction, leave the arrows out"@,
        ErrorKind::UndirectedCreate => "relationships to create must have a direction"@,
        ErrorKind::UntypedCreate => "relationships to create must have a type"@,
        ErrorKind::UnknownFunction => "unknown function"@,
        ErrorKind::UnknownProcedure => "unknown procedure"@,
        ErrorKind::IntegerOutOfRange => "integer literal out of range"@,
        ErrorKind::UnexpectedRule => "malformed parse tree"@,
    }
}

} // verus!
