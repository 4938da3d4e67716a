//! The failures of the library.

use crate::text;
use vstd::prelude::*;

verus! {

/// Error type returned by the secure database crate.
#[derive(Debug)]
pub enum DatabaseError {
    Connection(String),
    Query(String),
    Migration(String),
    Encryption(String),
    Configuration(String),
    Io(String),
    Integrity(String),
    Attestation(String),
    ZeroKnowledge(String),
    Unsupported(String),
}

/// Type alias used throughout the crate.
pub type DbResult<T> = Result<T, DatabaseError>;

/// What an error is about.
#[derive(Clone, Copy, Debug, PartialEq, Eq, Structural)]
pub enum ErrorKind {
    Connection,
    Query,
    Migration,
    Encryption,
    Configuration,
    Io,
    Integrity,
    Attestation,
    ZeroKnowledge,
    Unsupported,
}

/// The kind of an error and the text that it carries.
pub struct ErrorView {
    pub kind: ErrorKind,
    pub text: Seq<char>,
}

impl View for DatabaseError {
    type V = ErrorView;

    open spec fn view(&self) -> ErrorView {
        match self {
            DatabaseError::Connection(t) => ErrorView { kind: ErrorKind::Connection, text: t@ },
            DatabaseError::Query(t) => ErrorView { kind: ErrorKind::Query, text: t@ },
            DatabaseError::Migration(t) => ErrorView { kind: ErrorKind::Migration, text: t@ },
            DatabaseError::Encryption(t) => ErrorView { kind: ErrorKind::Encryption, text: t@ },
            DatabaseError::Configuration(t) => ErrorView {
                kind: ErrorKind::Configuration,
                text: t@,
            },
            DatabaseError::Io(t) => ErrorView { kind: ErrorKind::Io, text: t@ },
            DatabaseError::Integrity(t) => ErrorView { kind: ErrorKind::Integrity, text: t@ },
            DatabaseError::Attestation(t) => ErrorView { kind: ErrorKind::Attestation, text: t@ },
            DatabaseError::ZeroKnowledge(t) => ErrorView {
                kind: ErrorKind::ZeroKnowledge,
                text: t@,
            },
            DatabaseError::Unsupported(t) => ErrorView { kind: ErrorKind::Unsupported, text: t@ },
        }
    }
}

impl ErrorKind {
    /// What the message of an error of this kind begins with.
    pub open spec fn heading(self) -> Seq<char> {
        match self {
            ErrorKind::Connection => "database connection error: "@,
            ErrorKind::Query => "database query error: "@,
            ErrorKind::Migration => "migration error: "@,
            ErrorKind::Encryption => "encryption error: "@,
            ErrorKind::Configuration => "configuration error: "@,
            ErrorKind::Io => "io error: "@,
            ErrorKind::Integrity => "integrity violation: "@,
            ErrorKind::Attestation => "tee attestation error: "@,
            ErrorKind::ZeroKnowledge => "zero-knowledge error: "@,
            ErrorKind::Unsupported => "unsupported feature: "@,
        }
    }
}

impl ErrorView {
    /// The message for people: the heading of the kind, then the text.
    pub open spec fn message(self) -> Seq<char> {
        self.kind.heading() + self.text
    }
}

impl DatabaseError {
    /// The message for people: the heading of the kind, then the text.
    pub fn message(&self) -> (res: String)
        ensures
            res@ == self@.message(),
    {
        match self {
            DatabaseError::Connection(t) => text::concat2("database connection error: ", t),
            DatabaseError::Query(t) => text::concat2("database query error: ", t),
            DatabaseError::Migration(t) => text::concat2("migration error: ", t),
            DatabaseError::Encryption(t) => text::concat2("encryption error: ", t),
            DatabaseError::Configuration(t) => text::concat2("configuration error: ", t),
            DatabaseError::Io(t) => text::concat2("io error: ", t),
            DatabaseError::Integrity(t) => text::concat2("integrity violation: ", t),
            DatabaseError::Attestation(t) => text::concat2("tee attestation error: ", t),
            DatabaseError::ZeroKnowledge(t) => text::concat2("zero-knowledge error: ", t),
            DatabaseError::Unsupported(t) => text::concat2("unsupported feature: ", t),
        }
    }
}

/// What a result holds: the view of the value, or the view of the error.
pub open spec fn outcome<T: View>(res: DbResult<T>) -> Result<T::V, ErrorView> {
    match res {
        Ok(value) => Ok(value@),
        Err(error) => Err(error@),
    }
}

/// An encryption failure with this text.
pub open spec fn encryption(text: Seq<char>) -> ErrorView {
    ErrorView { kind: ErrorKind::Encryption, text }
}

/// An integrity violation with this text.
pub open spec fn integrity(text: Seq<char>) -> ErrorView {
    ErrorView { kind: ErrorKind::Integrity, text }
}

/// A configuration failure with this text.
pub open spec fn configuration(text: Seq<char>) -> ErrorView {
    ErrorView { kind: ErrorKind::Configuration, text }
}

/// A zero-knowledge failure with this text.
pub open spec fn zero_knowledge(text: Seq<char>) -> ErrorView {
    ErrorView { kind: ErrorKind::ZeroKnowledge, text }
}

pub(crate) fn encryption_error(message: &str) -> (res: DatabaseError)
    ensures
        res@ == encryption(message@),
{
    DatabaseError::Encryption(message.to_owned())
}

pub(crate) fn integrity_error(message: &str) -> (res: DatabaseError)
    ensures
        res@ == integrity(message@),
{
    DatabaseError::Integrity(message.to_owned())
}

pub(crate) fn configuration_error(message: &str) -> (res: DatabaseError)
    ensures
        res@ == configuration(message@),
{
    DatabaseError::Configuration(message.to_owned())
}

pub(crate) fn zero_knowledge_error(message: &str) -> (res: DatabaseError)
    ensures
        res@ == zero_knowledge(message@),
{
    DatabaseError::ZeroKnowledge(message.to_owned())
}

/// A refusal with the reason in words, where the caller only reports it.
#[derive(Debug)]
pub struct Rejection {
    pub reason: String,
}

impl View for Rejection {
    type V = Seq<char>;

    open spec fn view(&self) -> Seq<char> {
        self.reason@
    }
}

pub(crate) fn rejected(reason: &str) -> (res: Rejection)
    ensures
        res@ == reason@,
{
    Rejection { reason: reason.to_owned() }
}

/// The message of an error says what kind it is of, in these words, and then
/// carries its text unchanged.
pub proof fn messages_say_the_kind(error: DatabaseError)
    ensures
        match error {
            DatabaseError::Connection(t) => error@.message() == "database connection error: "@ + t@,
            DatabaseError::Query(t) => error@.message() == "database query error: "@ + t@,
            DatabaseError::Migration(t) => error@.message() == "migration error: "@ + t@,
            DatabaseError::Encryption(t) => error@.message() == "encryption error: "@ + t@,
            DatabaseError::Configuration(t) => error@.message() == "configuration error: "@ + t@,
            DatabaseError::Io(t) => error@.message() == "io error: "@ + t@,
            DatabaseError::Integrity(t) => error@.message() == "integrity violation: "@ + t@,
            DatabaseError::Attestation(t) => error@.message() == "tee attestation error: "@ + t@,
            DatabaseError::ZeroKnowledge(t) => error@.message() == "zero-knowledge error: "@ + t@,
            DatabaseError::Unsupported(t) => error@.message() == "unsupported feature: "@ + t@,
        },
{
}

/// The errors that the library makes are of the kind that they are named for,
/// and carry the text that they are made with.
pub proof fn errors_are_of_their_kind(error: DatabaseError, text: String)
    ensures
        error@ == encryption(text@) ==> (error matches DatabaseError::Encryption(t) && t@ == text@),
        error@ == integrity(text@) ==> (error matches DatabaseError::Integrity(t) && t@ == text@),
        error@ == configuration(text@) ==> (error matches DatabaseError::Configuration(t) && t@
            == text@),
        error@ == zero_knowledge(text@) ==> (error matches DatabaseError::ZeroKnowledge(t) && t@
            == text@),
{
}

} // verus!
