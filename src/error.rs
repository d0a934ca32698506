//! The library's error type.
use vstd::prelude::*;
use vstd::string::to_string_from_display_ensures;

verus! {

/// A part of a listing document that a record is built from.
#[derive(Clone, Copy, Debug, PartialEq, Eq, Structural)]
pub enum Part {
    Id,
    Price,
    Address,
    Breadcrumbs,
    Characteristics,
    Description,
    ListingKind,
    PropertyKind,
}

/// What went wrong.
#[derive(Clone, Copy, Debug, PartialEq, Eq, Structural)]
pub enum ErrorKind {
    /// A part of a listing that the record needs is absent, unreadable or
    /// unrecognised: the listing cannot be turned into a record.
    Structure(Part),
    /// A name that stands for no value of the type asked for.
    UnknownName,
    /// A stored row that does not decode into a record.
    BadRow,
    /// The built-in table of search addresses holds one that does not parse.
    Configuration,
    /// Anything else; the message says what.
    Other,
}

/// An error, with a message for people.
#[derive(Clone, Debug, PartialEq)]
pub struct Error {
    pub kind: ErrorKind,
    pub msg: String,
}

impl Error {
    /// An error of kind `Other` whose message is the displayed form of `from`.
    pub fn from<T: std::fmt::Display>(from: T) -> (e: Error)
        ensures
            e.kind == ErrorKind::Other,
            to_string_from_display_ensures::<T>(&from, e.msg),
    {
        Error { kind: ErrorKind::Other, msg: from.to_string() }
    }

    /// An error of the given kind with the given message.
    pub fn new(kind: ErrorKind, msg: &str) -> (e: Error)
        ensures
            e.kind == kind,
            e.msg@ == msg@,
    {
        Error { kind, msg: String::from_str(msg) }
    }

    /// The message, prefixed the way errors are shown.
    pub fn message(&self) -> (r: String)
        ensures
            r@ == "Error:"@ + self.msg@,
    {
        let prefix = String::from_str("Error:");
        prefix.concat(self.msg.as_str())
    }
}

} // verus!
