//! The library's error type. Failures coming from outside collaborators
//! (I/O, HTTP, the database, serialization) are carried as their rendered
//! messages.

use vstd::prelude::*;
use vstd::string::*;

verus! {

#[derive(Debug, Clone, PartialEq, Eq)]
pub enum AppError {
    Io(String),
    FileSystem(String),
    PermissionDenied(String),
    PathNotFound(String),
    AiService(String),
    Ollama(String),
    Http(String),
    Database(String),
    Serialization(String),
    JohnnyDecimalValidation(String),
    Organization(String),
    Configuration(String),
    InvalidInput(String),
    Cancelled,
    Unknown(String),
}

/// The rendered message of an error: a fixed prefix naming the failure
/// class, followed by the detail text.
pub open spec fn error_message_spec(e: AppError) -> Seq<char> {
    match e {
        AppError::Io(s) => "IO error: "@ + s@,
        AppError::FileSystem(s) => "File system error: "@ + s@,
        AppError::PermissionDenied(s) => "Permission denied: "@ + s@,
        AppError::PathNotFound(s) => "Path not found: "@ + s@,
        AppError::AiService(s) => "AI service error: "@ + s@,
        AppError::Ollama(s) => "Ollama error: "@ + s@,
        AppError::Http(s) => "HTTP request error: "@ + s@,
        AppError::Database(s) => "Database error: "@ + s@,
        AppError::Serialization(s) => "Serialization error: "@ + s@,
        AppError::JohnnyDecimalValidation(s) => "Johnny Decimal validation error: "@ + s@,
        AppError::Organization(s) => "Organization error: "@ + s@,
        AppError::Configuration(s) => "Configuration error: "@ + s@,
        AppError::InvalidInput(s) => "Invalid input: "@ + s@,
        AppError::Cancelled => "Operation cancelled"@,
        AppError::Unknown(s) => "Unknown error: "@ + s@,
    }
}

impl AppError {
    /// The rendered message of this error.
    pub fn to_message(&self) -> (r: String)
        ensures
            r@ == error_message_spec(*self),
    {
        match self {
            AppError::Io(s) => prefixed("IO error: ", s),
            AppError::FileSystem(s) => prefixed("File system error: ", s),
            AppError::PermissionDenied(s) => prefixed("Permission denied: ", s),
            AppError::PathNotFound(s) => prefixed("Path not found: ", s),
            AppError::AiService(s) => prefixed("AI service error: ", s),
            AppError::Ollama(s) => prefixed("Ollama error: ", s),
            AppError::Http(s) => prefixed("HTTP request error: ", s),
            AppError::Database(s) => prefixed("Database error: ", s),
            AppError::Serialization(s) => prefixed("Serialization error: ", s),
            AppError::JohnnyDecimalValidation(s) => prefixed(
                "Johnny Decimal validation error: ",
                s,
            ),
            AppError::Organization(s) => prefixed("Organization error: ", s),
            AppError::Configuration(s) => prefixed("Configuration error: ", s),
            AppError::InvalidInput(s) => prefixed("Invalid input: ", s),
            AppError::Cancelled => String::from_str("Operation cancelled"),
            AppError::Unknown(s) => prefixed("Unknown error: ", s),
        }
    }

    pub fn file_not_found(path: &str) -> (r: Self)
        ensures
            r is PathNotFound,
            r->PathNotFound_0@ == "File not found: "@ + path@,
    {
        AppError::PathNotFound(prefixed("File not found: ", path))
    }

    pub fn directory_not_found(path: &str) -> (r: Self)
        ensures
            r is PathNotFound,
            r->PathNotFound_0@ == "Directory not found: "@ + path@,
    {
        AppError::PathNotFound(prefixed("Directory not found: ", path))
    }

    pub fn permission_error(operation: &str, path: &str) -> (r: Self)
        ensures
            r is PermissionDenied,
            r->PermissionDenied_0@ == "Permission denied for "@ + operation@ + " on "@ + path@,
    {
        let mut s = String::from_str("Permission denied for ");
        s.append(operation);
        s.append(" on ");
        s.append(path);
        AppError::PermissionDenied(s)
    }

    pub fn ai_unavailable() -> (r: Self)
        ensures
            r is AiService,
            r->AiService_0@ == "AI service is not available"@,
    {
        AppError::AiService(String::from_str("AI service is not available"))
    }

    pub fn invalid_johnny_decimal(reason: &str) -> (r: Self)
        ensures
            r is JohnnyDecimalValidation,
            r->JohnnyDecimalValidation_0@ == "Invalid Johnny Decimal structure: "@ + reason@,
    {
        AppError::JohnnyDecimalValidation(prefixed("Invalid Johnny Decimal structure: ", reason))
    }
}

/// A fixed prefix followed by a detail text.
fn prefixed(prefix: &str, detail: &str) -> (r: String)
    ensures
        r@ == prefix@ + detail@,
{
    let mut s = String::from_str(prefix);
    s.append(detail);
    s
}

/// Passes a result through unchanged; the caller names the operation for
/// its own records.
#[allow(unused_variables)]
pub fn handle_result<T>(result: Result<T, AppError>, context: &str) -> (r: Result<T, AppError>)
    ensures
        r == result,
{
    result
}

} // verus!
