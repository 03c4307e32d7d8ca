//! Types the persistence layer stores: file metadata, organization
//! sessions, and application settings. The store itself (a relational
//! database) is an outside collaborator; these types and the rules on
//! them are what the library owns.

use vstd::prelude::*;
use vstd::string::*;
use crate::error::AppError;

verus! {

/// Remembers where the database lives. Opening and initializing the store
/// is its caller's I/O.
#[derive(Debug, Clone, PartialEq, Eq)]
pub struct DatabaseManager {
    pub db_path: String,
}

impl DatabaseManager {
    pub fn new(db_path: &str) -> (r: Result<DatabaseManager, AppError>)
        ensures
            r matches Ok(m) && m.db_path@ == db_path@,
    {
        Ok(DatabaseManager { db_path: String::from_str(db_path) })
    }
}

/// One file's stored record.
#[derive(Debug, Clone, PartialEq, Eq)]
pub struct FileMetadata {
    pub id: String,
    pub path: String,
    pub filename: String,
    pub extension: String,
    pub size: u64,
    /// Milliseconds since the Unix epoch.
    pub modified_at: i64,
    /// Milliseconds since the Unix epoch.
    pub created_at: i64,
    pub mime_type: Option<String>,
    pub hash: Option<String>,
    /// A serialized assignment, when one was made.
    pub jd_assignment: Option<String>,
    pub tags: Vec<String>,
    pub notes: Option<String>,
}

#[derive(Debug, Clone, Copy, PartialEq, Eq)]
pub enum SessionStatus {
    Created,
    Scanning,
    Analyzing,
    Organizing,
    Completed,
    Error,
}

/// The label the store uses for each status.
pub open spec fn status_label_spec(s: SessionStatus) -> Seq<char> {
    match s {
        SessionStatus::Created => "created"@,
        SessionStatus::Scanning => "scanning"@,
        SessionStatus::Analyzing => "analyzing"@,
        SessionStatus::Organizing => "organizing"@,
        SessionStatus::Completed => "completed"@,
        SessionStatus::Error => "error"@,
    }
}

impl SessionStatus {
    /// The label the store uses for this status.
    pub fn status_label(&self) -> (r: String)
        ensures
            r@ == status_label_spec(*self),
    {
        match self {
            SessionStatus::Created => String::from_str("created"),
            SessionStatus::Scanning => String::from_str("scanning"),
            SessionStatus::Analyzing => String::from_str("analyzing"),
            SessionStatus::Organizing => String::from_str("organizing"),
            SessionStatus::Completed => String::from_str("completed"),
            SessionStatus::Error => String::from_str("error"),
        }
    }

    /// Whether this status ends a session, which is when its completion
    /// time is recorded.
    pub fn is_terminal(&self) -> (r: bool)
        ensures
            r == (self is Completed || self is Error),
    {
        matches!(self, SessionStatus::Completed | SessionStatus::Error)
    }
}

/// One organization run over a directory tree.
#[derive(Debug, Clone, PartialEq, Eq)]
pub struct OrganizationSession {
    pub id: String,
    pub name: String,
    pub root_path: String,
    pub structure_id: String,
    pub status: SessionStatus,
    /// Milliseconds since the Unix epoch.
    pub created_at: i64,
    /// Milliseconds since the Unix epoch, once the session ended.
    pub completed_at: Option<i64>,
    pub files_processed: u32,
    pub files_total: u32,
}

#[derive(Debug, Clone, PartialEq, Eq)]
pub struct AppSettings {
    pub theme: String,
    pub auto_backup: bool,
    pub backup_location: Option<String>,
    pub ai_provider: String,
    pub ai_model: String,
    pub preview_mode: bool,
    pub confirm_moves: bool,
    pub max_file_size_mb: u64,
    pub excluded_extensions: Vec<String>,
    pub excluded_paths: Vec<String>,
}

impl Default for AppSettings {
    /// The settings a fresh installation starts with.
    fn default() -> (r: AppSettings)
        ensures
            r.theme@ == "system"@,
            r.auto_backup,
            r.backup_location is None,
            r.ai_provider@ == "ollama"@,
            r.ai_model@ == "llama3.2:1b"@,
            r.preview_mode,
            r.confirm_moves,
            r.max_file_size_mb == 1000,
            r.excluded_extensions.deep_view() == seq!["tmp"@, "cache"@, "log"@],
            r.excluded_paths.deep_view() == seq![".git"@, "node_modules"@, ".DS_Store"@],
    {
        let mut excluded_extensions: Vec<String> = Vec::new();
        excluded_extensions.push(String::from_str("tmp"));
        excluded_extensions.push(String::from_str("cache"));
        excluded_extensions.push(String::from_str("log"));
        let mut excluded_paths: Vec<String> = Vec::new();
        excluded_paths.push(String::from_str(".git"));
        excluded_paths.push(String::from_str("node_modules"));
        excluded_paths.push(String::from_str(".DS_Store"));
        let r = AppSettings {
            theme: String::from_str("system"),
            auto_backup: true,
            backup_location: None,
            ai_provider: String::from_str("ollama"),
            ai_model: String::from_str("llama3.2:1b"),
            preview_mode: true,
            confirm_moves: true,
            max_file_size_mb: 1000,
            excluded_extensions,
            excluded_paths,
        };
        proof {
            assert(r.excluded_extensions.deep_view() =~= seq!["tmp"@, "cache"@, "log"@]);
            assert(r.excluded_paths.deep_view() =~= seq![".git"@, "node_modules"@, ".DS_Store"@]);
        }
        r
    }
}

} // verus!
