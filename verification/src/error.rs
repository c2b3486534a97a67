//! The error type of the DAV handlers, with the HTTP status that each error
//! is answered with.
use vstd::prelude::*;

use crate::request::opt_view;
use crate::text::{append_chars, append_str, decimal, decimal_chars, string_from_chars};

verus! {

/// A WebDAV condition error: the status to answer, the condition's name,
/// and optional details and context.
#[derive(Debug, Clone)]
pub struct DavErrorCondition {
    pub code: u16,
    pub condition: String,
    pub details: Option<String>,
    pub context: Option<String>,
}

impl DavErrorCondition {
    /// A condition error with no details and no context.
    pub fn new(code: u16, condition: &str) -> (r: DavErrorCondition)
        ensures
            r.code == code,
            r.condition@ == condition@,
            r.details is None,
            r.context is None,
    {
        DavErrorCondition {
            code,
            condition: String::from_str(condition),
            details: None,
            context: None,
        }
    }

    /// A condition error answered with 409 Conflict.
    pub fn from_condition(condition: &str) -> (r: DavErrorCondition)
        ensures
            r.code == 409,
            r.condition@ == condition@,
            r.details is None,
            r.context is None,
    {
        DavErrorCondition::new(409, condition)
    }

    /// The same error with `details` attached.
    pub fn with_details(self, details: &str) -> (r: DavErrorCondition)
        ensures
            r.code == self.code,
            r.condition == self.condition,
            opt_view(r.details) == Some(details@),
            r.context == self.context,
    {
        DavErrorCondition { details: Some(String::from_str(details)), ..self }
    }

    /// The same error with `context` attached.
    pub fn with_context(self, context: &str) -> (r: DavErrorCondition)
        ensures
            r.code == self.code,
            r.condition == self.condition,
            r.details == self.details,
            opt_view(r.context) == Some(context@),
    {
        DavErrorCondition { context: Some(String::from_str(context)), ..self }
    }
}

/// What the `Display` form of `hyper::StatusCode` gives for a status in
/// its range: the number and the canonical reason phrase.
pub uninterp spec fn status_display(code: u16) -> Seq<char>;

/// Trusted: calls `hyper::StatusCode::from_u16` and, when the number is a
/// valid status, its `Display` form; claims that the text is the named
/// display of the number, and that only numbers from 100 to 999 are
/// statuses, as `from_u16` documents.
#[verifier::external_body]
fn status_text(code: u16) -> (r: Option<String>)
    ensures
        (100 <= code <= 999) <==> r is Some,
        r matches Some(t) ==> t@ == status_display(code),
{
    hyper::StatusCode::from_u16(code).ok().map(|s| s.to_string())
}

/// How a status is written in messages: its display when it is a valid
/// status, the bare number otherwise.
pub open spec fn status_words(code: u16) -> Seq<char> {
    if 100 <= code <= 999 {
        status_display(code)
    } else {
        decimal(code as nat)
    }
}

/// Appends the words for a status.
fn push_status(t: &mut Vec<char>, code: u16)
    ensures
        final(t)@ == old(t)@ + status_words(code),
{
    match status_text(code) {
        Some(s) => append_str(t, s.as_str()),
        None => {
            let d = decimal_chars(code as u64);
            append_chars(t, d.as_slice());
        },
    }
}

/// ` (label: text)` when there is a text, nothing otherwise.
pub open spec fn note(label: Seq<char>, text: Option<Seq<char>>) -> Seq<char> {
    match text {
        Some(x) => " ("@ + label + x + ")"@,
        None => Seq::empty(),
    }
}

/// Errors of the DAV handlers.
#[derive(Debug, Clone)]
pub enum DavError {
    /// A request body that could not be parsed, with the parser's message.
    Parse(String),
    /// An internal failure, with its description.
    Internal(String),
    /// A WebDAV condition error.
    Condition(DavErrorCondition),
    /// A bare HTTP status.
    Code(u16),
    /// Authentication or authorization refused.
    Auth { message: String, status: u16 },
    /// A resource that does not exist.
    NotFound { resource: String, path: String },
    /// A conflict, optionally naming a WebDAV condition.
    Conflict { message: String, condition: Option<String> },
    /// Invalid request data, optionally naming the field.
    Validation { message: String, field: Option<String> },
    /// A storage failure during an operation.
    Storage { message: String, operation: String },
    /// A network or I/O failure.
    Network { message: String, source: Option<String> },
}

impl DavError {
    /// The HTTP status the error is answered with.
    pub open spec fn spec_status(self) -> u16 {
        match self {
            DavError::Parse(_) => 400,
            DavError::Internal(_) => 500,
            DavError::Condition(c) => c.code,
            DavError::Code(c) => c,
            DavError::Auth { status, .. } => status,
            DavError::NotFound { .. } => 404,
            DavError::Conflict { .. } => 409,
            DavError::Validation { .. } => 400,
            DavError::Storage { .. } => 500,
            DavError::Network { .. } => 502,
        }
    }

    /// The error's message, as its `Display` form writes it; a condition is
    /// written by its name.
    pub open spec fn message(self) -> Seq<char> {
        match self {
            DavError::Parse(e) => "Parse error: "@ + e@,
            DavError::Internal(e) => "Internal error: "@ + e@,
            DavError::Condition(c) => "WebDAV condition error: "@ + c.condition@ + match opt_view(c.details) {
                Some(d) => " ("@ + d + ")"@,
                None => Seq::empty(),
            } + match opt_view(c.context) {
                Some(x) => " ["@ + x + "]"@,
                None => Seq::empty(),
            },
            DavError::Code(code) => "HTTP error: "@ + status_words(code),
            DavError::Auth { message, status } => "Auth error ("@ + status_words(status) + "): "@ + message@,
            DavError::NotFound { resource, path } => "Resource '"@ + resource@ + "' not found at path '"@
                + path@ + "'"@,
            DavError::Conflict { message, condition } => "Conflict: "@ + message@ + note(
                "condition: "@,
                opt_view(condition),
            ),
            DavError::Validation { message, field } => "Validation error: "@ + message@ + note(
                "field: "@,
                opt_view(field),
            ),
            DavError::Storage { message, operation } => "Storage error during "@ + operation@ + ": "@
                + message@,
            DavError::Network { message, source } => "Network error: "@ + message@ + note(
                "source: "@,
                opt_view(source),
            ),
        }
    }

    /// The error's message.
    pub fn to_string(&self) -> (r: String)
        ensures
            r@ == self.message(),
    {
        let mut t: Vec<char> = Vec::new();
        match self {
            DavError::Parse(e) => {
                append_str(&mut t, "Parse error: ");
                append_str(&mut t, e.as_str());
            },
            DavError::Internal(e) => {
                append_str(&mut t, "Internal error: ");
                append_str(&mut t, e.as_str());
            },
            DavError::Condition(c) => {
                append_str(&mut t, "WebDAV condition error: ");
                append_str(&mut t, c.condition.as_str());
                match &c.details {
                    Some(d) => {
                        append_str(&mut t, " (");
                        append_str(&mut t, d.as_str());
                        append_str(&mut t, ")");
                    },
                    None => {},
                }
                match &c.context {
                    Some(x) => {
                        append_str(&mut t, " [");
                        append_str(&mut t, x.as_str());
                        append_str(&mut t, "]");
                    },
                    None => {},
                }
            },
            DavError::Code(code) => {
                append_str(&mut t, "HTTP error: ");
                push_status(&mut t, *code);
            },
            DavError::Auth { message, status } => {
                append_str(&mut t, "Auth error (");
                push_status(&mut t, *status);
                append_str(&mut t, "): ");
                append_str(&mut t, message.as_str());
            },
            DavError::NotFound { resource, path } => {
                append_str(&mut t, "Resource '");
                append_str(&mut t, resource.as_str());
                append_str(&mut t, "' not found at path '");
                append_str(&mut t, path.as_str());
                append_str(&mut t, "'");
            },
            DavError::Conflict { message, condition } => {
                append_str(&mut t, "Conflict: ");
                append_str(&mut t, message.as_str());
                push_note(&mut t, "condition: ", condition);
            },
            DavError::Validation { message, field } => {
                append_str(&mut t, "Validation error: ");
                append_str(&mut t, message.as_str());
                push_note(&mut t, "field: ", field);
            },
            DavError::Storage { message, operation } => {
                append_str(&mut t, "Storage error during ");
                append_str(&mut t, operation.as_str());
                append_str(&mut t, ": ");
                append_str(&mut t, message.as_str());
            },
            DavError::Network { message, source } => {
                append_str(&mut t, "Network error: ");
                append_str(&mut t, message.as_str());
                push_note(&mut t, "source: ", source);
            },
        }
        string_from_chars(t.as_slice())
    }

    /// The error is an authentication error with this message and status.
    pub open spec fn is_auth(self, message: Seq<char>, status: u16) -> bool {
        self matches DavError::Auth { message: m, status: s } && m@ == message && s == status
    }

    /// The error is a validation error with this message, naming no field.
    pub open spec fn is_plain_validation(self, message: Seq<char>) -> bool {
        self matches DavError::Validation { message: m, field: f } && m@ == message && f is None
    }

    /// The error is a validation error with this message, naming this field.
    pub open spec fn is_validation(self, message: Seq<char>, field: Seq<char>) -> bool {
        self matches DavError::Validation { message: m, field: f } && m@ == message && opt_view(f)
            == Some(field)
    }

    /// An authentication error.
    pub fn auth(message: &str, status: u16) -> (r: DavError)
        ensures
            r matches DavError::Auth { message: m, status: s } && m@ == message@ && s == status,
    {
        DavError::Auth { message: String::from_str(message), status }
    }

    /// A not-found error.
    pub fn not_found(resource: &str, path: &str) -> (r: DavError)
        ensures
            r matches DavError::NotFound { resource: a, path: b } && a@ == resource@ && b@ == path@,
    {
        DavError::NotFound { resource: String::from_str(resource), path: String::from_str(path) }
    }

    /// A conflict error with no condition.
    pub fn conflict(message: &str) -> (r: DavError)
        ensures
            r matches DavError::Conflict { message: m, condition: c } && m@ == message@ && c is None,
    {
        DavError::Conflict { message: String::from_str(message), condition: None }
    }

    /// A conflict error naming a WebDAV condition.
    pub fn conflict_with_condition(message: &str, condition: &str) -> (r: DavError)
        ensures
            r matches DavError::Conflict { message: m, condition: c } && m@ == message@
                && opt_view(c) == Some(condition@),
    {
        DavError::Conflict {
            message: String::from_str(message),
            condition: Some(String::from_str(condition)),
        }
    }

    /// A validation error with no field.
    pub fn validation(message: &str) -> (r: DavError)
        ensures
            r matches DavError::Validation { message: m, field: f } && m@ == message@ && f is None,
    {
        DavError::Validation { message: String::from_str(message), field: None }
    }

    /// A validation error naming the offending field.
    pub fn validation_with_field(message: &str, field: &str) -> (r: DavError)
        ensures
            r matches DavError::Validation { message: m, field: f } && m@ == message@
                && opt_view(f) == Some(field@),
    {
        DavError::Validation {
            message: String::from_str(message),
            field: Some(String::from_str(field)),
        }
    }

    /// A storage error during `operation`.
    pub fn storage(message: &str, operation: &str) -> (r: DavError)
        ensures
            r matches DavError::Storage { message: m, operation: o } && m@ == message@ && o@
                == operation@,
    {
        DavError::Storage { message: String::from_str(message), operation: String::from_str(operation) }
    }

    /// A network error with no source.
    pub fn network(message: &str) -> (r: DavError)
        ensures
            r matches DavError::Network { message: m, source: s } && m@ == message@ && s is None,
    {
        DavError::Network { message: String::from_str(message), source: None }
    }

    /// The HTTP status the error is answered with.
    pub fn status_code(&self) -> (r: u16)
        ensures
            r == self.spec_status(),
    {
        match self {
            DavError::Parse(_) => 400,
            DavError::Internal(_) => 500,
            DavError::Condition(c) => c.code,
            DavError::Code(c) => *c,
            DavError::Auth { status, .. } => *status,
            DavError::NotFound { .. } => 404,
            DavError::Conflict { .. } => 409,
            DavError::Validation { .. } => 400,
            DavError::Storage { .. } => 500,
            DavError::Network { .. } => 502,
        }
    }

    /// Whether retrying the operation may succeed: internal, storage and
    /// network failures.
    pub fn is_retryable(&self) -> (r: bool)
        ensures
            r == (self is Internal || self is Storage || self is Network),
    {
        match self {
            DavError::Internal(_) => true,
            DavError::Storage { .. } => true,
            DavError::Network { .. } => true,
            _ => false,
        }
    }

    /// The error's category, for logs and metrics.
    pub fn category(&self) -> (r: &'static str)
        ensures
            r@ == (match *self {
                DavError::Parse(_) => "parse"@,
                DavError::Internal(_) => "internal"@,
                DavError::Condition(_) => "condition"@,
                DavError::Code(_) => "http"@,
                DavError::Auth { .. } => "auth"@,
                DavError::NotFound { .. } => "not_found"@,
                DavError::Conflict { .. } => "conflict"@,
                DavError::Validation { .. } => "validation"@,
                DavError::Storage { .. } => "storage"@,
                DavError::Network { .. } => "network"@,
            }),
    {
        match self {
            DavError::Parse(_) => "parse",
            DavError::Internal(_) => "internal",
            DavError::Condition(_) => "condition",
            DavError::Code(_) => "http",
            DavError::Auth { .. } => "auth",
            DavError::NotFound { .. } => "not_found",
            DavError::Conflict { .. } => "conflict",
            DavError::Validation { .. } => "validation",
            DavError::Storage { .. } => "storage",
            DavError::Network { .. } => "network",
        }
    }
}

/// Appends ` (label text)` when there is a text.
fn push_note(t: &mut Vec<char>, label: &str, text: &Option<String>)
    ensures
        final(t)@ == old(t)@ + note(label@, opt_view(*text)),
{
    match text {
        Some(x) => {
            append_str(t, " (");
            append_str(t, label);
            append_str(t, x.as_str());
            append_str(t, ")");
        },
        None => {},
    }
    assert(t@ =~= old(t)@ + note(label@, opt_view(*text)));
}

} // verus!
