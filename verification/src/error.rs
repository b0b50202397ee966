//! What can be wrong with a name or a version.

use vstd::prelude::*;
use vstd::string::*;

verus! {

/// A host name, version or ANS name that could not be parsed.
#[derive(Debug)]
#[non_exhaustive]
pub enum ParseError {
    /// Not a fully qualified domain name.
    InvalidFqdn(String),
    /// Not a version.
    InvalidVersion(String),
    /// Not an ANS name.
    InvalidAnsName(String),
}

/// What a [`ParseError`] says: its kind and its explanation.
pub enum ParseFault {
    Fqdn(Seq<char>),
    Version(Seq<char>),
    AnsName(Seq<char>),
}

impl View for ParseError {
    type V = ParseFault;

    open spec fn view(&self) -> ParseFault {
        match self {
            ParseError::InvalidFqdn(reason) => ParseFault::Fqdn(reason@),
            ParseError::InvalidVersion(reason) => ParseFault::Version(reason@),
            ParseError::InvalidAnsName(reason) => ParseFault::AnsName(reason@),
        }
    }
}

/// The text that is shown for a fault.
pub open spec fn fault_message(fault: ParseFault) -> Seq<char> {
    match fault {
        ParseFault::Fqdn(reason) => "Invalid FQDN: "@ + reason,
        ParseFault::Version(reason) => "Invalid version format: "@ + reason,
        ParseFault::AnsName(reason) => "Invalid ANS name format: "@ + reason,
    }
}

impl ParseError {
    /// The error as text for people.
    pub fn message(&self) -> (r: String)
        ensures
            r@ == fault_message(self@),
    {
        match self {
            ParseError::InvalidFqdn(reason) => "Invalid FQDN: ".to_string().concat(reason.as_str()),
            ParseError::InvalidVersion(reason) => "Invalid version format: ".to_string().concat(
                reason.as_str(),
            ),
            ParseError::InvalidAnsName(reason) => "Invalid ANS name format: ".to_string().concat(
                reason.as_str(),
            ),
        }
    }
}

} // verus!
