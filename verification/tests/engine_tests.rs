use jd_organizer::johnny_decimal::JohnnyDecimalEngine;
use jd_organizer::model::{
    CategoryAssignment, FileDescriptor, JDArea, JDCategory, JDItem, JDStructure,
};
use jd_organizer::rules::{lookup_extension, lookup_extension_or_default};

fn descriptor(path: &str, extension: &str) -> FileDescriptor {
    FileDescriptor { path: Some(path.to_string()), extension: Some(extension.to_string()) }
}

fn bare_structure(areas: Vec<JDArea>) -> JDStructure {
    JDStructure {
        id: "test".to_string(),
        name: "Test Structure".to_string(),
        root_path: "/test".to_string(),
        areas,
        created_at: 0,
        modified_at: 0,
    }
}

fn area(number: u8, name: &str, categories: Vec<JDCategory>) -> JDArea {
    JDArea { number, name: name.to_string(), description: None, categories }
}

fn category(number: u8, name: &str, items: Vec<JDItem>) -> JDCategory {
    JDCategory { number, name: name.to_string(), description: None, items }
}

#[test]
fn test_johnny_decimal_engine_new() {
    let engine = JohnnyDecimalEngine::new();
    assert!(engine.is_ok());
    assert_eq!(
        lookup_extension("pdf"),
        Some((20, "Reports and Documents".to_string()))
    );
}

#[test]
fn test_create_structure() {
    let engine = JohnnyDecimalEngine::new().unwrap();

    let files = vec![
        descriptor("/test/document.pdf", "pdf"),
        descriptor("/test/image.jpg", "jpg"),
    ];

    let structure = engine.create_structure(files, "/test");

    assert!(!structure.areas.is_empty());
    assert!(structure.areas.iter().any(|a| a.number == 20));
    assert!(structure.areas.iter().any(|a| a.number == 30));
}

#[test]
fn test_validate_structure() {
    let engine = JohnnyDecimalEngine::new().unwrap();

    let structure = bare_structure(vec![area(
        20,
        "Documents",
        vec![category(21, "PDFs", vec![])],
    )]);

    let result = engine.validate_structure(&structure);
    assert!(result.is_valid);
    assert!(result.errors.is_empty());
}

#[test]
fn two_mapped_files_build_two_singleton_areas() {
    let engine = JohnnyDecimalEngine::new().unwrap();
    let files = vec![descriptor("/a/doc.pdf", "pdf"), descriptor("/a/img.jpg", "jpg")];
    let structure = engine.create_structure(files, "/a");

    assert_eq!(structure.areas.len(), 2);
    assert_eq!(structure.areas[0].number, 20);
    assert_eq!(structure.areas[1].number, 30);
    for a in &structure.areas {
        assert_eq!(a.categories.len(), 1);
        assert_eq!(a.categories[0].items.len(), 1);
        assert_eq!(a.categories[0].items[0].files.len(), 1);
    }
    assert_eq!(structure.areas[0].categories[0].items[0].files[0], "/a/doc.pdf");
    assert_eq!(structure.areas[1].categories[0].items[0].files[0], "/a/img.jpg");
}

#[test]
fn builder_output_passes_validation() {
    let engine = JohnnyDecimalEngine::new().unwrap();
    let files = vec![
        descriptor("/a/doc.pdf", "pdf"),
        descriptor("/a/notes.txt", "txt"),
        descriptor("/a/img.jpg", "jpg"),
        descriptor("/a/song.mp3", "mp3"),
        descriptor("/a/main.rs", "rs"),
        descriptor("/a/archive.zip", "zip"),
        descriptor("/a/unknown.xyz", "xyz"),
        descriptor("/a/more.pdf", "pdf"),
    ];
    let structure = engine.create_structure(files, "/a");
    let report = engine.validate_structure(&structure);
    assert!(report.is_valid);
    assert!(report.errors.is_empty());
    assert!(report.warnings.is_empty());
}

#[test]
fn builder_renumbers_categories_and_items() {
    let engine = JohnnyDecimalEngine::new().unwrap();
    let files = vec![
        descriptor("/a/doc.pdf", "pdf"),
        descriptor("/a/notes.txt", "txt"),
        descriptor("/a/sheet.xlsx", "xlsx"),
    ];
    let structure = engine.create_structure(files, "/a");
    assert_eq!(structure.areas.len(), 1);
    let a = &structure.areas[0];
    assert_eq!(a.number, 20);
    assert_eq!(a.categories.len(), 3);
    assert_eq!(a.categories[0].number, 21);
    assert_eq!(a.categories[1].number, 22);
    assert_eq!(a.categories[2].number, 23);
    assert_eq!(a.categories[0].items[0].number, "21.01");
    assert_eq!(a.categories[1].items[0].number, "22.01");
    assert_eq!(a.categories[2].items[0].number, "23.01");
}

#[test]
fn builder_groups_same_label_into_first_item() {
    let engine = JohnnyDecimalEngine::new().unwrap();
    let files = vec![
        descriptor("/a/one.txt", "txt"),
        descriptor("/a/two.doc", "doc"),
        descriptor("/a/three.docx", "docx"),
    ];
    let structure = engine.create_structure(files, "/a");
    assert_eq!(structure.areas.len(), 1);
    let a = &structure.areas[0];
    // txt, doc and docx all carry the "Text Documents" label.
    assert_eq!(a.categories.len(), 1);
    assert_eq!(a.categories[0].items.len(), 1);
    assert_eq!(
        a.categories[0].items[0].files,
        vec!["/a/one.txt".to_string(), "/a/two.doc".to_string(), "/a/three.docx".to_string()]
    );
}

#[test]
fn invalid_area_number_gives_exactly_one_error() {
    let engine = JohnnyDecimalEngine::new().unwrap();
    let structure = bare_structure(vec![area(25, "Oddly Numbered", vec![])]);
    let report = engine.validate_structure(&structure);
    assert!(!report.is_valid);
    assert_eq!(report.errors.len(), 1);
    assert_eq!(report.errors[0].error_type, "invalid_area_number");
    assert_eq!(
        report.errors[0].message,
        "Area number 25 is invalid. Must be 10, 20, 30, ..., 90"
    );
    assert_eq!(report.errors[0].area_number, Some(25));
}

#[test]
fn duplicate_category_number_reported_on_second_occurrence() {
    let engine = JohnnyDecimalEngine::new().unwrap();
    let structure = bare_structure(vec![
        area(20, "Documents", vec![category(21, "Text", vec![])]),
        area(30, "Media", vec![category(21, "Images", vec![])]),
    ]);
    let report = engine.validate_structure(&structure);
    assert!(!report.is_valid);
    let dups: Vec<_> = report
        .errors
        .iter()
        .filter(|e| e.error_type == "duplicate_category_number")
        .collect();
    assert_eq!(dups.len(), 1);
    assert_eq!(dups[0].area_number, Some(30));
    assert_eq!(dups[0].category_number, Some(21));
}

#[test]
fn category_outside_its_decade_is_an_error() {
    let engine = JohnnyDecimalEngine::new().unwrap();
    let structure =
        bare_structure(vec![area(20, "Documents", vec![category(95, "Strays", vec![])])]);
    let report = engine.validate_structure(&structure);
    assert!(!report.is_valid);
    assert_eq!(report.errors.len(), 1);
    assert_eq!(report.errors[0].error_type, "invalid_category_number");
    assert_eq!(
        report.errors[0].message,
        "Category number 95 is outside valid range for area 20 (20-29)"
    );
    assert_eq!(report.errors[0].area_number, Some(20));
    assert_eq!(report.errors[0].category_number, Some(95));
}

#[test]
fn a_category_with_a_hundred_items_draws_a_warning() {
    let engine = JohnnyDecimalEngine::new().unwrap();
    let mut items = Vec::new();
    let mut k = 1;
    while k <= 100 {
        items.push(JDItem {
            number: format!("21.{:02}", k),
            name: format!("Item {}", k),
            description: None,
            files: vec![],
        });
        k += 1;
    }
    let structure = bare_structure(vec![area(20, "Documents", vec![category(21, "Text", items)])]);
    let report = engine.validate_structure(&structure);
    assert!(report.is_valid);
    assert!(report.warnings.iter().any(|w| w.warning_type == "too_many_items"
        && w.message
            == "Category 21 has 100 items. Consider splitting into multiple categories."));
}

#[test]
fn duplicate_area_number_is_an_error() {
    let engine = JohnnyDecimalEngine::new().unwrap();
    let structure = bare_structure(vec![
        area(20, "Documents", vec![category(21, "Text", vec![])]),
        area(20, "Documents Again", vec![category(22, "More", vec![])]),
    ]);
    let report = engine.validate_structure(&structure);
    assert!(!report.is_valid);
    assert!(report
        .errors
        .iter()
        .any(|e| e.error_type == "duplicate_area_number" && e.area_number == Some(20)));
}

#[test]
fn item_numbering_mismatch_is_a_warning_not_an_error() {
    let engine = JohnnyDecimalEngine::new().unwrap();
    let item = JDItem {
        number: "21.07".to_string(),
        name: "Stray".to_string(),
        description: None,
        files: vec![],
    };
    let structure =
        bare_structure(vec![area(20, "Documents", vec![category(21, "Text", vec![item])])]);
    let report = engine.validate_structure(&structure);
    assert!(report.is_valid);
    assert_eq!(report.warnings.len(), 1);
    assert_eq!(report.warnings[0].warning_type, "item_numbering");
    assert_eq!(
        report.warnings[0].message,
        "Item number 21.07 should be 21.01 for sequential numbering"
    );
    assert_eq!(report.warnings[0].suggestion, Some("Renumber to 21.01".to_string()));
}

#[test]
fn empty_area_is_a_warning() {
    let engine = JohnnyDecimalEngine::new().unwrap();
    let structure = bare_structure(vec![area(40, "Development", vec![])]);
    let report = engine.validate_structure(&structure);
    assert!(report.is_valid);
    assert!(report
        .warnings
        .iter()
        .any(|w| w.warning_type == "empty_area" && w.message == "Area 40 has no categories"));
}

#[test]
fn validator_is_idempotent_at_runtime() {
    let engine = JohnnyDecimalEngine::new().unwrap();
    let structure = bare_structure(vec![
        area(25, "Bad", vec![category(91, "Odd", vec![])]),
        area(30, "Media", vec![]),
    ]);
    let first = engine.validate_structure(&structure);
    let second = engine.validate_structure(&structure);
    assert_eq!(first, second);
}

#[test]
fn unmapped_extension_gets_miscellaneous_assignment() {
    let engine = JohnnyDecimalEngine::new().unwrap();
    let structure = bare_structure(vec![area(
        90,
        "Miscellaneous",
        vec![category(91, "Other", vec![])],
    )]);
    let file = descriptor("/a/odd.xyz", "xyz");
    let assignment: CategoryAssignment = engine.categorize_file(&file, &structure);
    assert_eq!(assignment.area_number, 90);
    assert_eq!(assignment.category_number, 91);
    assert_eq!(assignment.item_number, "91.01");
    assert_eq!(assignment.confidence, 50);
    assert_eq!(
        assignment.reasoning,
        "No specific category found for extension 'xyz', assigned to miscellaneous"
    );
}

#[test]
fn mapped_extension_matches_category_in_structure() {
    let engine = JohnnyDecimalEngine::new().unwrap();
    let item = JDItem {
        number: "21.01".to_string(),
        name: "Reports".to_string(),
        description: None,
        files: vec![],
    };
    let structure = bare_structure(vec![area(
        20,
        "Documents",
        vec![category(21, "All reports and documents", vec![item])],
    )]);
    let file = descriptor("/a/paper.pdf", "pdf");
    let assignment = engine.categorize_file(&file, &structure);
    assert_eq!(assignment.area_number, 20);
    assert_eq!(assignment.category_number, 21);
    assert_eq!(assignment.item_number, "21.01");
    assert_eq!(assignment.confidence, 85);
    assert_eq!(
        assignment.reasoning,
        "File extension 'pdf' matches category 'Reports and Documents' in area 20"
    );
}

#[test]
fn extension_lookup_is_case_insensitive_through_the_engine() {
    let engine = JohnnyDecimalEngine::new().unwrap();
    let files = vec![descriptor("/a/DOC.PDF", "PDF")];
    let structure = engine.create_structure(files, "/a");
    assert_eq!(structure.areas.len(), 1);
    assert_eq!(structure.areas[0].number, 20);
}

#[test]
fn default_lookup_falls_back_to_miscellaneous() {
    assert_eq!(lookup_extension("nope"), None);
    assert_eq!(
        lookup_extension_or_default("nope"),
        (90, "Miscellaneous".to_string())
    );
}

#[test]
fn area_names_cover_all_decades() {
    let engine = JohnnyDecimalEngine::new().unwrap();
    assert_eq!(engine.get_area_name(20), "20-29 Documents");
    assert_eq!(engine.get_area_name(90), "90-99 Miscellaneous");
    assert_eq!(engine.get_area_name(15), "15-24 Custom Area");
    assert_eq!(
        engine.get_area_description(30),
        "Images, videos, audio files, and multimedia content"
    );
    assert_eq!(engine.get_area_description(15), "Custom area for specialized content");
}

#[test]
fn descriptor_without_path_still_builds() {
    let engine = JohnnyDecimalEngine::new().unwrap();
    let files = vec![
        FileDescriptor { path: None, extension: Some("pdf".to_string()) },
        FileDescriptor { path: Some("/a/x.pdf".to_string()), extension: None },
    ];
    let structure = engine.create_structure(files, "/a");
    // The pathless file creates its category but contributes no path; the
    // extensionless file lands in the miscellaneous area.
    assert_eq!(structure.areas.len(), 2);
    assert_eq!(structure.areas[0].number, 20);
    assert_eq!(structure.areas[0].categories[0].items[0].files.len(), 0);
    assert_eq!(structure.areas[1].number, 90);
    assert_eq!(structure.areas[1].categories[0].items[0].files.len(), 1);
}
