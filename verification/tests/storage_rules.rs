use bettermacro::model::{Action, MacroDocument, SCHEMA_VERSION};
use bettermacro::storage::{
    assemble_library, check_imported, document_path, ensure_supported_schema, is_macro_file_name,
    remove_documents_with_id, upsert_document, LibraryEntry,
};

fn document(id: &str, modified_at: &str, version: u32) -> MacroDocument {
    MacroDocument {
        schema_version: version,
        id: id.into(),
        name: format!("Macro {id}"),
        created_at: "2026-01-01T00:00:00Z".into(),
        modified_at: modified_at.into(),
        favorite: false,
        hotkey: None,
        actions: vec![Action::Wait {
            enabled: true,
            duration_ms: 500,
        }],
    }
}

#[test]
fn macro_ids_cannot_escape_or_hide_in_the_library() {
    assert!(document_path("").is_err());
    assert!(document_path("../outside").is_err());
    assert!(document_path(&"a".repeat(129)).is_err());
}

#[test]
fn valid_ids_name_a_macro_json_file() {
    assert_eq!(document_path("export-test").unwrap(), "export-test.macro.json");
    assert_eq!(document_path(&"a".repeat(128)).unwrap().len(), 128 + 11);
    assert_eq!(document_path(".hidden").unwrap_err(), "Invalid macro id");
    assert!(document_path("caf\u{e9}").is_err());
    assert!(document_path("a b").is_err());
    assert!(document_path("A_b-9").is_ok());
}

#[test]
fn only_macro_json_files_belong_to_the_library() {
    assert!(is_macro_file_name("a.macro.json"));
    assert!(is_macro_file_name(".macro.json"));
    assert!(!is_macro_file_name("a.json"));
    assert!(!is_macro_file_name("a.macro.json.tmp-1-2"));
    assert!(!is_macro_file_name("json"));
}

#[test]
fn other_schema_versions_are_not_written() {
    assert!(ensure_supported_schema(&document("a", "x", SCHEMA_VERSION)).is_ok());
    assert_eq!(
        ensure_supported_schema(&document("a", "x", 2)).unwrap_err(),
        "Unsupported macro schema"
    );
}

#[test]
fn imports_report_the_unsupported_version() {
    let imported = check_imported(document("export-test", "x", SCHEMA_VERSION)).unwrap();
    assert_eq!(imported.name, "Macro export-test");
    assert_eq!(imported.actions.len(), 1);
    assert_eq!(
        check_imported(document("a", "x", 27)).unwrap_err(),
        "This macro uses schema version 27; BetterMacro currently supports version 1."
    );
}

#[test]
fn the_library_lists_newest_first_and_warns_about_unusable_files() {
    let entries = vec![
        LibraryEntry::Parsed {
            file_name: "old.macro.json".into(),
            document: document("old", "2026-01-01T00:00:00Z", SCHEMA_VERSION),
        },
        LibraryEntry::Unreadable {
            error: "permission denied".into(),
        },
        LibraryEntry::Parsed {
            file_name: "new.macro.json".into(),
            document: document("new", "2026-03-01T00:00:00Z", SCHEMA_VERSION),
        },
        LibraryEntry::ReadFailed {
            file_name: "locked.macro.json".into(),
            error: "busy".into(),
        },
        LibraryEntry::Parsed {
            file_name: "future.macro.json".into(),
            document: document("future", "2027-01-01T00:00:00Z", 3),
        },
        LibraryEntry::Invalid {
            file_name: "broken.macro.json".into(),
            error: "EOF".into(),
        },
        LibraryEntry::Parsed {
            file_name: "same.macro.json".into(),
            document: document("same", "2026-01-01T00:00:00Z", SCHEMA_VERSION),
        },
    ];
    let (documents, warnings) = assemble_library(entries);
    let ids: Vec<&str> = documents.iter().map(|d| d.id.as_str()).collect();
    assert_eq!(ids, vec!["new", "old", "same"]);
    assert_eq!(
        warnings,
        vec![
            "A macro library entry could not be read: permission denied.".to_string(),
            "locked.macro.json could not be read: busy.".to_string(),
            "future.macro.json uses unsupported schema version 3.".to_string(),
            "broken.macro.json is not a valid macro: EOF.".to_string(),
        ]
    );
}

#[test]
fn saving_replaces_the_document_with_the_same_id() {
    let mut open = vec![document("a", "1", 1), document("b", "1", 1)];
    upsert_document(&mut open, document("b", "2", 1));
    assert_eq!(open.len(), 2);
    assert_eq!(open[1].modified_at, "2");
    upsert_document(&mut open, document("c", "3", 1));
    assert_eq!(open.len(), 3);
    assert_eq!(open[2].id, "c");
}

#[test]
fn deleting_drops_every_document_with_the_id() {
    let mut open = vec![document("a", "1", 1), document("b", "1", 1), document("a", "2", 1)];
    remove_documents_with_id(&mut open, "a");
    assert_eq!(open.len(), 1);
    assert_eq!(open[0].id, "b");
    remove_documents_with_id(&mut open, "missing");
    assert_eq!(open.len(), 1);
}
