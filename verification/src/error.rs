//! Preview errors and their messages.
use vstd::prelude::*;
use crate::textfmt::{decimal, push_decimal};

verus! {

/// An I/O error, carried from the caller that read the file.
#[verifier::external_type_specification]
#[verifier::external_body]
pub struct ExIoError(std::io::Error);

/// Why a preview could not be made.
#[derive(Debug)]
pub enum PreviewError {
    Io(std::io::Error),
    Unsupported(String),
    TooLarge(u64, u64),
    Decode(String),
    Cancelled,
    Timeout,
    /// A parser stopped on malformed input instead of returning.
    Panicked,
}

/// The text of an I/O error (its `Display`); it describes the operating
/// system's error, so nothing is stated of it.
#[verifier::external_body]
fn io_error_text(e: &std::io::Error) -> String {
    e.to_string()
}

/// The message of an error, for every variant but `Io` (whose text comes
/// from the operating system).
pub open spec fn error_message(e: PreviewError) -> Seq<char> {
    match e {
        PreviewError::Io(_) => "io: "@,
        PreviewError::Unsupported(s) => "unsupported: "@ + s@,
        PreviewError::TooLarge(a, b) => "too large: "@ + decimal(a as nat) + " > "@ + decimal(b as nat),
        PreviewError::Decode(s) => "decode: "@ + s@,
        PreviewError::Cancelled => "cancelled"@,
        PreviewError::Timeout => "timeout"@,
        PreviewError::Panicked => "handler panicked (malformed file)"@,
    }
}

impl PreviewError {
    /// The error's message: "io: …", "unsupported: …", "too large: N > L",
    /// "decode: …", "cancelled", "timeout" or "handler panicked (malformed
    /// file)".
    pub fn message(&self) -> (res: String)
        ensures
            !(self is Io) ==> res@ == error_message(*self),
            self is Io ==> exists|t: Seq<char>| res@ == error_message(*self) + t,
    {
        match self {
            PreviewError::Io(e) => {
                let mut s = String::from_str("io: ");
                let t = io_error_text(e);
                s.append(t.as_str());
                assert(s@ == error_message(*self) + t@);
                s
            }
            PreviewError::Unsupported(m) => {
                let mut s = String::from_str("unsupported: ");
                s.append(m.as_str());
                s
            }
            PreviewError::TooLarge(a, b) => {
                let mut s = String::from_str("too large: ");
                push_decimal(&mut s, *a);
                s.append(" > ");
                push_decimal(&mut s, *b);
                s
            }
            PreviewError::Decode(m) => {
                let mut s = String::from_str("decode: ");
                s.append(m.as_str());
                s
            }
            PreviewError::Cancelled => String::from_str("cancelled"),
            PreviewError::Timeout => String::from_str("timeout"),
            PreviewError::Panicked => String::from_str("handler panicked (malformed file)"),
        }
    }
}

} // verus!
