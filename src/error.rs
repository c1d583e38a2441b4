//! Errors of the library.
use crate::text::{push_chars, push_str, push_u64, to_chars, to_string};
use vstd::prelude::*;

verus! {

/// An error that can happen when working with the SysFS.
#[derive(Debug)]
pub struct Error {
    /// What was being done when the error happened, if known
    pub context: Option<String>,
    /// The error kind
    pub kind: ErrorKind,
}

/// Possible types of errors
#[derive(Debug)]
pub enum ErrorKind {
    /// It is not allowed to perform the given action
    NotAllowed(String),
    /// Something is potentially unsupported by this library
    Unsupported(String),
    /// The given path is not a valid SysFS
    InvalidSysFS,
    /// An error that happens during parsing
    ParseError {
        /// What went wrong during parsing
        msg: String,
        /// The line where the error occured
        line: usize,
    },
    /// A failed read or write, with whether the file was missing.
    IoError { not_found: bool, msg: String },
}

/// Whether `e` is a parse error reported at `line`.
pub open spec fn parse_error_at(e: Error, line: int) -> bool {
    e.kind matches ErrorKind::ParseError { line: l, .. } && l == line
}

pub open spec fn is_not_allowed(e: Error) -> bool {
    e.kind is NotAllowed
}

/// The message text of an error that carries one.
pub open spec fn message_of(e: Error) -> Seq<char> {
    match e.kind {
        ErrorKind::NotAllowed(m) => m@,
        ErrorKind::Unsupported(m) => m@,
        ErrorKind::ParseError { msg, .. } => msg@,
        ErrorKind::IoError { msg, .. } => msg@,
        ErrorKind::InvalidSysFS => Seq::empty(),
    }
}

impl Error {
    pub fn from_kind(kind: ErrorKind) -> (r: Self)
        ensures
            r.kind == kind,
    {
        Error { context: None, kind }
    }

    /// A parse error for a line that ended before `expected_item`.
    pub fn unexpected_eol(expected_item: &str, line: usize) -> (r: Self)
        ensures
            parse_error_at(r, line as int),
            message_of(r) == "Unexpected EOL, expected "@ + expected_item@,
    {
        let mut msg: Vec<char> = Vec::new();
        push_str(&mut msg, "Unexpected EOL, expected ");
        push_str(&mut msg, expected_item);
        Error { context: None, kind: ErrorKind::ParseError { msg: to_string(msg.as_slice()), line } }
    }

    /// A parse error without a more precise place, reported at line 1.
    pub fn basic_parse_error(msg: String) -> (r: Self)
        ensures
            parse_error_at(r, 1),
            message_of(r) == msg@,
    {
        Error { context: None, kind: ErrorKind::ParseError { msg, line: 1 } }
    }

    /// A parse error at `line`.
    pub fn parse_error(msg: &str, line: usize) -> (r: Self)
        ensures
            parse_error_at(r, line as int),
            message_of(r) == msg@,
    {
        let m = to_string(to_chars(msg).as_slice());
        Error { context: None, kind: ErrorKind::ParseError { msg: m, line } }
    }

    pub fn not_allowed(msg: String) -> (r: Self)
        ensures
            is_not_allowed(r),
            message_of(r) == msg@,
    {
        Error { context: None, kind: ErrorKind::NotAllowed(msg) }
    }

    pub fn unsupported(msg: &str) -> (r: Self)
        ensures
            r.kind is Unsupported,
            message_of(r) == msg@,
    {
        let m = to_string(to_chars(msg).as_slice());
        Error { context: None, kind: ErrorKind::Unsupported(m) }
    }

    /// If the error means that the file doesn't exist
    pub fn is_not_found(&self) -> (r: bool)
        ensures
            r == (self.kind matches ErrorKind::IoError { not_found, .. } && not_found),
    {
        match &self.kind {
            ErrorKind::IoError { not_found, .. } => *not_found,
            _ => false,
        }
    }

    /// Attaches a description of what was being done when the error happened.
    pub fn with_context(self, context: String) -> (r: Self)
        ensures
            r.kind == self.kind,
    {
        Error { context: Some(context), kind: self.kind }
    }

    /// The error as one line of text (two when a context is attached).
    pub fn to_text(&self) -> (r: String) {
        let mut out: Vec<char> = Vec::new();
        match &self.kind {
            ErrorKind::NotAllowed(info) => {
                push_str(&mut out, "not allowed: ");
                push_chars(&mut out, to_chars(info.as_str()).as_slice());
            },
            ErrorKind::InvalidSysFS => {
                push_str(&mut out, "invalid SysFS");
            },
            ErrorKind::ParseError { msg, line } => {
                push_str(&mut out, "parse error: ");
                push_chars(&mut out, to_chars(msg.as_str()).as_slice());
                push_str(&mut out, " at line ");
                push_u64(&mut out, *line as u64);
            },
            ErrorKind::IoError { msg, .. } => {
                push_str(&mut out, "io error: ");
                push_chars(&mut out, to_chars(msg.as_str()).as_slice());
            },
            ErrorKind::Unsupported(err) => {
                push_str(&mut out, "unsupported: ");
                push_chars(&mut out, to_chars(err.as_str()).as_slice());
            },
        }
        if let Some(ctx) = &self.context {
            push_str(&mut out, "\n");
            push_chars(&mut out, to_chars(ctx.as_str()).as_slice());
        }
        to_string(out.as_slice())
    }
}

} // verus!
