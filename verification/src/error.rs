//! Library errors and the structured error envelope for CLI / MCP output.

use vstd::prelude::*;
use crate::text::{chars_of, decimal_chars, dec_digits, push_all, push_str, string_from_chars};

verus! {

/// Errors of the vault operations.
#[derive(Debug, Clone, PartialEq, Eq)]
pub enum CoreError {
    /// An I/O failure; `already_exists` is set when the target already existed.
    Io { already_exists: bool, message: String },
    /// A TOML document could not be parsed (the parser's message).
    Toml(String),
    /// A value could not be written as TOML.
    TomlSer(String),
    /// A path escapes the vault.
    PathTraversal(String),
    /// A file or directory does not exist.
    NotFound(String),
    /// `preset` and `fg`/`bg` are set together.
    AppearanceConflict(String),
    /// A pattern or argument is invalid.
    InvalidPattern(String),
    /// An appearance value is invalid.
    AppearanceValidation(String),
    /// A JSON document could not be read or written.
    Json(String),
    /// A file is not valid UTF-8; the first invalid byte is at `byte_offset`.
    InvalidUtf8 { byte_offset: usize },
}

/// The display text of an error.
pub open spec fn error_text(e: CoreError) -> Seq<char> {
    match e {
        CoreError::Io { already_exists, message } => "IO error: "@ + message@,
        CoreError::Toml(m) => "TOML parse error: "@ + m@,
        CoreError::TomlSer(m) => "TOML serialize error: "@ + m@,
        CoreError::PathTraversal(m) => "Path traversal detected: "@ + m@,
        CoreError::NotFound(m) => "Not found: "@ + m@,
        CoreError::AppearanceConflict(m) => "Appearance config conflict: "@ + m@,
        CoreError::InvalidPattern(m) => "Invalid pattern: "@ + m@,
        CoreError::AppearanceValidation(m) => "Appearance validation error: "@ + m@,
        CoreError::Json(m) => "JSON error: "@ + m@,
        CoreError::InvalidUtf8 { byte_offset } => "Invalid UTF-8 at byte offset "@ + dec_digits(byte_offset as nat),
    }
}

fn prefixed(prefix: &str, m: &String) -> (r: String)
    ensures
        r@ == prefix@ + m@,
{
    let mut out = chars_of(prefix);
    push_str(&mut out, m.as_str());
    string_from_chars(&out)
}

impl CoreError {
    /// The display text of the error (`"Not found: x.md"`, ...).
    pub fn message(&self) -> (r: String)
        ensures
            r@ == error_text(*self),
    {
        match self {
            CoreError::Io { already_exists: _, message } => prefixed("IO error: ", message),
            CoreError::Toml(m) => prefixed("TOML parse error: ", m),
            CoreError::TomlSer(m) => prefixed("TOML serialize error: ", m),
            CoreError::PathTraversal(m) => prefixed("Path traversal detected: ", m),
            CoreError::NotFound(m) => prefixed("Not found: ", m),
            CoreError::AppearanceConflict(m) => prefixed("Appearance config conflict: ", m),
            CoreError::InvalidPattern(m) => prefixed("Invalid pattern: ", m),
            CoreError::AppearanceValidation(m) => prefixed("Appearance validation error: ", m),
            CoreError::Json(m) => prefixed("JSON error: ", m),
            CoreError::InvalidUtf8 { byte_offset } => {
                let mut out = chars_of("Invalid UTF-8 at byte offset ");
                let d = decimal_chars(*byte_offset as u64);
                push_all(&mut out, &d);
                string_from_chars(&out)
            },
        }
    }
}

/// A candidate item for disambiguation (e.g. multiple wikilink matches).
#[derive(Debug, Clone)]
pub struct Candidate {
    pub value: String,
    pub label: String,
}

/// Structured error envelope for CLI/MCP output, with hints for the next step.
#[derive(Debug, Clone)]
pub struct ActionableError {
    pub schema_version: String,
    pub kind: String,
    pub category: String,
    pub exit_code: u8,
    pub message: String,
    pub candidates: Vec<Candidate>,
    pub required_args: Vec<String>,
    pub next_step: Option<String>,
}

impl ActionableError {
    /// A `v1` error envelope with no candidates, arguments or next step.
    pub fn new(category: &str, exit_code: u8, message: &str) -> (r: Self)
        ensures
            r.schema_version@ == "v1"@,
            r.kind@ == "error"@,
            r.category@ == category@,
            r.exit_code == exit_code,
            r.message@ == message@,
            r.candidates@.len() == 0,
            r.required_args@.len() == 0,
            r.next_step is None,
    {
        ActionableError {
            schema_version: crate::text::owned("v1"),
            kind: crate::text::owned("error"),
            category: crate::text::owned(category),
            exit_code,
            message: crate::text::owned(message),
            candidates: Vec::new(),
            required_args: Vec::new(),
            next_step: None,
        }
    }

    /// Set the next step hint; nothing else changes.
    pub fn with_next_step(self, next_step: &str) -> (r: Self)
        ensures
            r.next_step matches Some(s) && s@ == next_step@,
            r.schema_version == self.schema_version,
            r.kind == self.kind,
            r.category == self.category,
            r.exit_code == self.exit_code,
            r.message == self.message,
            r.candidates == self.candidates,
            r.required_args == self.required_args,
    {
        let mut s = self;
        s.next_step = Some(crate::text::owned(next_step));
        s
    }

    /// Set the disambiguation candidates; nothing else changes.
    pub fn with_candidates(self, candidates: Vec<Candidate>) -> (r: Self)
        ensures
            r.candidates == candidates,
            r.schema_version == self.schema_version,
            r.kind == self.kind,
            r.category == self.category,
            r.exit_code == self.exit_code,
            r.message == self.message,
            r.required_args == self.required_args,
            r.next_step == self.next_step,
    {
        let mut s = self;
        s.candidates = candidates;
        s
    }

    /// Set the required arguments; nothing else changes.
    pub fn with_required_args(self, args: Vec<String>) -> (r: Self)
        ensures
            r.required_args == args,
            r.schema_version == self.schema_version,
            r.kind == self.kind,
            r.category == self.category,
            r.exit_code == self.exit_code,
            r.message == self.message,
            r.candidates == self.candidates,
            r.next_step == self.next_step,
    {
        let mut s = self;
        s.required_args = args;
        s
    }
}

} // verus!
