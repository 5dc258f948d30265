//! The error type of the library.

use vstd::prelude::*;
use vstd::string::*;
use crate::text::{decimal, decimal_string};

verus! {

/// The kind of error.
#[derive(Clone, Copy, Debug, PartialEq, Eq, Structural)]
pub enum ErrorKind {
    /// The time has run out.
    Timeout,
    /// The error is from Telegram.
    Telegram,
    /// An endpoint asked for a type that the injector does not hold.
    MissingDependency,
    /// The error is unknown.
    Unknown,
}

/// The error type for this library.
#[derive(Debug, PartialEq)]
pub struct Error {
    /// The kind of error.
    pub kind: ErrorKind,
    /// The error message.
    pub message: String,
}

/// The message of a timeout after `time` seconds.
pub open spec fn timeout_message(time: u64) -> Seq<char> {
    "Reached after waiting for "@ + decimal(time as nat) + " seconds"@
}

/// The name of an error kind, as it is shown.
pub open spec fn kind_name(kind: ErrorKind) -> Seq<char> {
    match kind {
        ErrorKind::Timeout => "Timeout"@,
        ErrorKind::Telegram => "Telegram"@,
        ErrorKind::MissingDependency => "MissingDependency"@,
        ErrorKind::Unknown => "Unknown"@,
    }
}

impl Error {
    /// Creates a new timeout error.
    pub fn timeout(time: u64) -> (e: Error)
        ensures
            e.kind == ErrorKind::Timeout,
            e.message@ == timeout_message(time),
    {
        let mut message = String::from_str("Reached after waiting for ");
        let number = decimal_string(time);
        message.append(number.as_str());
        message.append(" seconds");
        Error { kind: ErrorKind::Timeout, message }
    }

    /// Creates a new telegram error that carries `message`.
    pub fn telegram(message: &str) -> (e: Error)
        ensures
            e.kind == ErrorKind::Telegram,
            e.message@ == message@,
    {
        Error { kind: ErrorKind::Telegram, message: String::from_str(message) }
    }

    /// Creates a new unknown error.
    pub fn unknown() -> (e: Error)
        ensures
            e.kind == ErrorKind::Unknown,
            e.message@ == "Undefined error"@,
    {
        Error { kind: ErrorKind::Unknown, message: String::from_str("Undefined error") }
    }

    /// Creates the error of an endpoint that asked for the type named
    /// `name` while the injector held no value of it.
    pub fn missing_dependency(name: &str) -> (e: Error)
        ensures
            e.kind == ErrorKind::MissingDependency,
            e.message@ == "Missing dependency: "@ + name@,
    {
        let mut message = String::from_str("Missing dependency: ");
        message.append(name);
        Error { kind: ErrorKind::MissingDependency, message }
    }

    /// What the error reads as: its kind, a colon and a space, its message.
    pub open spec fn shown(&self) -> Seq<char> {
        kind_name(self.kind) + ": "@ + self.message@
    }

    /// Renders the error as `kind: message`.
    pub fn to_string(&self) -> (s: String)
        ensures
            s@ == self.shown(),
    {
        let mut s = self.kind.to_string();
        s.append(": ");
        s.append(self.message.as_str());
        s
    }

    /// A copy of the error.
    pub fn duplicate(&self) -> (e: Error)
        ensures
            e == *self,
    {
        Error { kind: self.kind, message: self.message.clone() }
    }
}

impl ErrorKind {
    /// Renders the kind by its name.
    pub fn to_string(&self) -> (s: String)
        ensures
            s@ == kind_name(*self),
    {
        match self {
            ErrorKind::Timeout => String::from_str("Timeout"),
            ErrorKind::Telegram => String::from_str("Telegram"),
            ErrorKind::MissingDependency => String::from_str("MissingDependency"),
            ErrorKind::Unknown => String::from_str("Unknown"),
        }
    }
}

impl Default for ErrorKind {
    fn default() -> (k: ErrorKind)
        ensures
            k == ErrorKind::Unknown,
    {
        ErrorKind::Unknown
    }
}

} // verus!
