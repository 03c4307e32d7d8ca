use jd_organizer::codec::{decode_structure, encode_structure};
use jd_organizer::database::{AppSettings, DatabaseManager, SessionStatus};
use jd_organizer::error::{handle_result, AppError};
use jd_organizer::file_operations::{
    FileMetadata, FileOperations, FilePermissions, FileScanner, summarize_scan,
};
use jd_organizer::johnny_decimal::JohnnyDecimalEngine;
use jd_organizer::model::{FileDescriptor, JDArea, JDCategory, JDItem, JDStructure};
use jd_organizer::text::{ascii_lower, contains_str, u8_to_string, usize_to_string_pad2};

#[test]
fn test_file_scanner_new() {
    let scanner = FileScanner::new().unwrap();
    assert_eq!(scanner.max_depth, Some(10));
}

#[test]
fn database_manager_keeps_its_path() {
    let manager = DatabaseManager::new("/tmp/test.db").unwrap();
    assert_eq!(manager.db_path, "/tmp/test.db");
}

#[test]
fn default_settings_match_a_fresh_installation() {
    let settings = AppSettings::default();
    assert_eq!(settings.theme, "system");
    assert_eq!(settings.ai_provider, "ollama");
    assert_eq!(settings.ai_model, "llama3.2:1b");
    assert!(settings.auto_backup);
    assert!(settings.preview_mode);
    assert!(settings.confirm_moves);
    assert_eq!(settings.max_file_size_mb, 1000);
    assert_eq!(settings.excluded_extensions, vec!["tmp", "cache", "log"]);
    assert_eq!(settings.excluded_paths, vec![".git", "node_modules", ".DS_Store"]);
}

#[test]
fn session_status_labels_and_terminality() {
    assert_eq!(SessionStatus::Created.status_label(), "created");
    assert_eq!(SessionStatus::Organizing.status_label(), "organizing");
    assert_eq!(SessionStatus::Completed.status_label(), "completed");
    assert_eq!(SessionStatus::Error.status_label(), "error");
    assert!(SessionStatus::Completed.is_terminal());
    assert!(SessionStatus::Error.is_terminal());
    assert!(!SessionStatus::Scanning.is_terminal());
}

#[test]
fn error_messages_carry_their_prefix() {
    assert_eq!(
        AppError::file_not_found("/a/b").to_message(),
        "Path not found: File not found: /a/b"
    );
    assert_eq!(
        AppError::directory_not_found("/a").to_message(),
        "Path not found: Directory not found: /a"
    );
    assert_eq!(
        AppError::permission_error("move", "/a").to_message(),
        "Permission denied: Permission denied for move on /a"
    );
    assert_eq!(AppError::ai_unavailable().to_message(), "AI service error: AI service is not available");
    assert_eq!(
        AppError::invalid_johnny_decimal("bad area").to_message(),
        "Johnny Decimal validation error: Invalid Johnny Decimal structure: bad area"
    );
    assert_eq!(AppError::Cancelled.to_message(), "Operation cancelled");
    assert_eq!(
        AppError::Database("locked".to_string()).to_message(),
        "Database error: locked"
    );
}

#[test]
fn handle_result_passes_values_through() {
    let ok: Result<u32, AppError> = Ok(7);
    assert_eq!(handle_result(ok, "reading"), Ok(7));
    let err: Result<u32, AppError> = Err(AppError::Cancelled);
    assert_eq!(handle_result(err, "reading"), Err(AppError::Cancelled));
}

#[test]
fn scan_summary_counts_and_sums() {
    let ops = FileOperations::new();
    assert!(ops.is_ok());
    let perm = FilePermissions { readable: true, writable: true, executable: false };
    let f = |name: &str, size: u64| FileMetadata {
        name: name.to_string(),
        path: format!("/d/{}", name),
        size,
        created: 0,
        modified: 0,
        file_type: "txt".to_string(),
        mime_type: None,
        checksum: None,
        permissions: perm.clone(),
    };
    let result = summarize_scan(
        vec![f("a.txt", 100), f("b.txt", 28)],
        vec!["/d/sub".to_string()],
        5,
    );
    assert_eq!(result.file_count, 2);
    assert_eq!(result.directory_count, 1);
    assert_eq!(result.total_size, 128);
    assert_eq!(result.scan_duration, 5);
}

#[test]
fn text_helpers_render_and_search() {
    assert_eq!(u8_to_string(0), "0");
    assert_eq!(u8_to_string(42), "42");
    assert_eq!(u8_to_string(255), "255");
    assert_eq!(usize_to_string_pad2(1), "01");
    assert_eq!(usize_to_string_pad2(99), "99");
    assert_eq!(usize_to_string_pad2(100), "100");
    assert_eq!(ascii_lower("MiXeD 42!"), "mixed 42!");
    assert!(contains_str("the Documents pile", "Documents"));
    assert!(!contains_str("the documents pile", "Documents"));
    assert!(contains_str("anything", ""));
}

#[test]
fn structure_round_trips_through_the_persistence_format() {
    let engine = JohnnyDecimalEngine::new().unwrap();
    let files = vec![
        FileDescriptor { path: Some("/a/doc.pdf".to_string()), extension: Some("pdf".to_string()) },
        FileDescriptor { path: Some("/a/img.jpg".to_string()), extension: Some("jpg".to_string()) },
        FileDescriptor { path: None, extension: Some("zip".to_string()) },
        FileDescriptor { path: Some("/a/unknown.qqq".to_string()), extension: None },
    ];
    let original = engine.create_structure(files, "/a");
    let bytes = encode_structure(&original);
    let decoded = decode_structure(&bytes).unwrap();
    assert_eq!(decoded, original);
}

#[test]
fn handwritten_structure_round_trips_field_for_field() {
    let original = JDStructure {
        id: "id-1".to_string(),
        name: "Näme with ünïcode".to_string(),
        root_path: "/root".to_string(),
        areas: vec![JDArea {
            number: 20,
            name: "Documents".to_string(),
            description: Some("text".to_string()),
            categories: vec![JDCategory {
                number: 21,
                name: "Text".to_string(),
                description: None,
                items: vec![JDItem {
                    number: "21.01".to_string(),
                    name: "Text Files".to_string(),
                    description: Some("collection".to_string()),
                    files: vec!["/root/a.txt".to_string(), "/root/b.txt".to_string()],
                }],
            }],
        }],
        created_at: -62135596800000,
        modified_at: 1700000000000,
    };
    let bytes = encode_structure(&original);
    let decoded = decode_structure(&bytes).unwrap();
    assert_eq!(decoded, original);
}

#[test]
fn truncated_record_fails_to_decode() {
    let engine = JohnnyDecimalEngine::new().unwrap();
    let structure = engine.create_structure(vec![], "/a");
    let mut bytes = encode_structure(&structure);
    bytes.pop();
    assert!(decode_structure(&bytes).is_none());
}
