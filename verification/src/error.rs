//! The library's error type.

use vstd::prelude::*;

use crate::text::{new_string, push_str};

verus! {

/// `std::io::Error`, carried through opaque in `AppError::Io`.
#[verifier::external_type_specification]
#[verifier::external_body]
pub struct ExIoError(std::io::Error);

/// Errors of every operation of the tool.
#[derive(Debug)]
pub enum AppError {
    Ssh(String),
    Xray(String),
    Config(String),
    Io(std::io::Error),
}

/// Text of an I/O error (std `<io::Error as Display>::fmt`); what it holds
/// depends on the operating system and is not stated.
#[verifier::external_body]
fn io_error_text(e: &std::io::Error) -> String {
    e.to_string()
}

/// The prefix the message of each kind of error starts with.
pub open spec fn error_prefix(e: AppError) -> Seq<char> {
    match e {
        AppError::Ssh(_) => "SSH error: "@,
        AppError::Xray(_) => "Xray error: "@,
        AppError::Config(_) => "Config error: "@,
        AppError::Io(_) => "IO error: "@,
    }
}

/// The detail that follows the prefix in the message, where the library
/// knows it: the text carried by the error. The text of an I/O error comes
/// from the operating system and is not modelled.
pub open spec fn error_detail(e: AppError) -> Option<Seq<char>> {
    match e {
        AppError::Ssh(m) => Some(m@),
        AppError::Xray(m) => Some(m@),
        AppError::Config(m) => Some(m@),
        AppError::Io(_) => None,
    }
}

impl AppError {
    /// The human-readable message of the error (what `Display` prints in
    /// the tool): a prefix naming the kind of error, then its detail.
    pub fn message(&self) -> (s: String)
        ensures
            s@.len() >= error_prefix(*self).len(),
            s@.subrange(0, error_prefix(*self).len() as int) == error_prefix(*self),
            error_detail(*self) matches Some(d) ==> s@ == error_prefix(*self) + d,
    {
        proof {
            reveal_strlit("SSH error: ");
            reveal_strlit("Xray error: ");
            reveal_strlit("Config error: ");
            reveal_strlit("IO error: ");
        }
        let mut s = new_string();
        match self {
            AppError::Ssh(m) => {
                push_str(&mut s, "SSH error: ");
                push_str(&mut s, m.as_str());
            },
            AppError::Xray(m) => {
                push_str(&mut s, "Xray error: ");
                push_str(&mut s, m.as_str());
            },
            AppError::Config(m) => {
                push_str(&mut s, "Config error: ");
                push_str(&mut s, m.as_str());
            },
            AppError::Io(e) => {
                push_str(&mut s, "IO error: ");
                let t = io_error_text(e);
                push_str(&mut s, t.as_str());
            },
        }
        assert(s@.subrange(0, error_prefix(*self).len() as int) =~= error_prefix(*self));
        s
    }

    /// Whether the error wraps an underlying error (std `Error::source`):
    /// only I/O errors do.
    pub fn has_source(&self) -> (b: bool)
        ensures
            b == (*self is Io),
    {
        match self {
            AppError::Io(_) => true,
            _ => false,
        }
    }

}

impl From<std::io::Error> for AppError {
    fn from(err: std::io::Error) -> (r: AppError) {
        AppError::Io(err)
    }
}

impl vstd::std_specs::convert::FromSpecImpl<std::io::Error> for AppError {
    open spec fn obeys_from_spec() -> bool {
        true
    }

    open spec fn from_spec(err: std::io::Error) -> AppError {
        AppError::Io(err)
    }
}

} // verus!
