use blinker_core::catalog::{fold_one, folded, precedes};
use blinker_core::chars::chars_of;
use blinker_core::database::{CatalogRow, LibraryDatabase, LibraryStore};
use blinker_core::error::BlinkerError;
use blinker_core::hashing::file_hash;
use blinker_core::library::{AddOutcome, FileProbe, LibraryItem, LibraryQuery, ScannedFile};
use blinker_core::types::Metadata;

fn file(path: &str, content: &[u8]) -> ScannedFile {
    ScannedFile::at(
        path.to_string(),
        FileProbe::Regular { size: content.len() as u64, hash: file_hash(content) },
    )
}

fn item(id: &str, path: &str, title: &str, author: Option<&str>, file_type: &str) -> CatalogRow {
    CatalogRow {
        item: LibraryItem {
            id: id.to_string(),
            file_path: path.to_string(),
            file_hash: id.to_string(),
            file_type: file_type.to_string(),
            file_size: 1,
            metadata: Metadata::titled(title.to_string(), author.map(|a| a.to_string())),
            tags: vec![],
        },
        indexed_at: 0,
    }
}

fn shelf() -> LibraryDatabase {
    LibraryDatabase::from_rows(vec![
        item("1", "/b/zebra.pdf", "Zebra Tales", Some("Ann Author"), "pdf"),
        item("2", "/b/apple.epub", "apple pie", None, "epub"),
        item("3", "/b/Moby.txt", "Moby Dick", Some("Herman Melville"), "txt"),
        item("4", "/b/banana.pdf", "Banana", Some("ZELDA"), "pdf"),
        item("5", "/b/apple2.pdf", "Apple Pie", Some("Second"), "pdf"),
    ])
    .unwrap()
}

fn titles(items: &[LibraryItem]) -> Vec<&str> {
    items.iter().map(|i| i.metadata.title.as_str()).collect()
}

fn id_of(o: AddOutcome) -> (char, String) {
    match o {
        AddOutcome::Created { id } => ('c', id),
        AddOutcome::Updated { id } => ('u', id),
        AddOutcome::Unchanged { id } => ('n', id),
    }
}

#[test]
fn a_new_path_is_created_under_its_hash() {
    let mut db = LibraryDatabase::new();
    assert_eq!(db.len(), 0);
    let out = db.add_or_update_path(file("/books/Moby Dick.PDF", b"call me ishmael"), 100).unwrap();
    assert_eq!(id_of(out), ('c', file_hash(b"call me ishmael")));
    assert_eq!(db.len(), 1);
    let row = db.row(0).unwrap();
    assert_eq!(row.indexed_at, 100);
    assert_eq!(row.item.id, file_hash(b"call me ishmael"));
    assert_eq!(row.item.file_path, "/books/Moby Dick.PDF");
    assert_eq!(row.item.file_hash, file_hash(b"call me ishmael"));
    assert_eq!(row.item.file_type, "pdf");
    assert_eq!(row.item.file_size, 15);
    assert_eq!(row.item.metadata.title, "Moby Dick");
    assert!(row.item.metadata.author.is_none());
    assert_eq!(row.item.metadata.created_at, Some(100));
    assert_eq!(row.item.metadata.modified_at, Some(100));
    assert!(row.item.tags.is_empty());
    assert!(db.row(1).is_none());
}

#[test]
fn an_unchanged_file_is_only_touched() {
    let mut db = LibraryDatabase::new();
    let first = id_of(db.add_or_update_path(file("/b/a.txt", b"one"), 100).unwrap());
    let second = id_of(db.add_or_update_path(file("/b/a.txt", b"one"), 200).unwrap());
    assert_eq!(first, ('c', file_hash(b"one")));
    assert_eq!(second, ('n', file_hash(b"one")));
    assert_eq!(db.len(), 1);
    let row = db.row(0).unwrap();
    assert_eq!(row.indexed_at, 200);
    assert_eq!(row.item.metadata.created_at, Some(100));
    assert_eq!(row.item.metadata.modified_at, Some(100));
}

#[test]
fn changed_content_updates_and_keeps_the_identifier() {
    let mut db = LibraryDatabase::new();
    db.add_or_update_path(file("/b/a.txt", b"one"), 100).unwrap();
    let out = id_of(db.add_or_update_path(file("/b/a.txt", b"three"), 200).unwrap());
    assert_eq!(out, ('u', file_hash(b"one")));
    assert_eq!(db.len(), 1);
    let row = db.row(0).unwrap();
    assert_eq!(row.item.id, file_hash(b"one"));
    assert_eq!(row.item.file_hash, file_hash(b"three"));
    assert_eq!(row.item.file_size, 5);
    assert_eq!(row.item.metadata.created_at, Some(100));
    assert_eq!(row.item.metadata.modified_at, Some(200));
    assert_eq!(row.indexed_at, 200);
    // And unchanged again after that.
    let out = id_of(db.add_or_update_path(file("/b/a.txt", b"three"), 300).unwrap());
    assert_eq!(out, ('n', file_hash(b"one")));
}

#[test]
fn an_update_overwrites_title_and_author() {
    let mut db = LibraryDatabase::from_rows(vec![item("1", "/b/a.txt", "Old", Some("Someone"), "text")]).unwrap();
    let out = id_of(db.add_or_update_path(file("/b/a.txt", b"new"), 5).unwrap());
    assert_eq!(out, ('u', "1".to_string()));
    let row = db.row(0).unwrap();
    assert_eq!(row.item.metadata.title, "a");
    assert!(row.item.metadata.author.is_none());
    assert_eq!(row.item.file_type, "txt");
}

#[test]
fn a_path_that_is_no_file_is_reported() {
    let mut db = LibraryDatabase::new();
    let f = ScannedFile::at("/b/dir.pdf".to_string(), FileProbe::NotAFile);
    match db.add_or_update_path(f, 1) {
        Err(BlinkerError::Parsing(msg)) => assert_eq!(msg, "not a file: /b/dir.pdf"),
        other => panic!("unexpected: {:?}", other),
    }
    assert_eq!(db.len(), 0);
}

#[test]
fn an_unreadable_file_is_reported() {
    let mut db = LibraryDatabase::new();
    let e = std::io::Error::new(std::io::ErrorKind::PermissionDenied, "denied");
    let f = ScannedFile::at("/b/x.pdf".to_string(), FileProbe::Unreadable(e));
    match db.add_or_update_path(f, 1) {
        Err(BlinkerError::Io(e)) => assert_eq!(e.to_string(), "denied"),
        other => panic!("unexpected: {:?}", other),
    }
    assert_eq!(db.len(), 0);
}

#[test]
fn the_same_content_at_a_second_path_collides() {
    let mut db = LibraryDatabase::new();
    db.add_or_update_path(file("/b/a.txt", b"same"), 1).unwrap();
    match db.add_or_update_path(file("/b/copy.txt", b"same"), 2) {
        Err(BlinkerError::Database(msg)) => {
            assert_eq!(msg, "insert item: UNIQUE constraint failed: library_item.id")
        }
        other => panic!("unexpected: {:?}", other),
    }
    assert_eq!(db.len(), 1);
    assert_eq!(db.row(0).unwrap().indexed_at, 1);
}

#[test]
fn a_file_without_extension_has_an_unknown_type() {
    let mut db = LibraryDatabase::new();
    db.add_or_update_path(file("/b/README", b"x"), 1).unwrap();
    let row = db.row(0).unwrap();
    assert_eq!(row.item.file_type, "unknown");
    assert_eq!(row.item.metadata.title, "README");
}

#[test]
fn items_are_found_by_identifier() {
    let db = shelf();
    let it = db.get_item("3").unwrap().unwrap();
    assert_eq!(it.metadata.title, "Moby Dick");
    assert_eq!(it.file_path, "/b/Moby.txt");
    assert!(db.get_item("9").unwrap().is_none());
    assert!(db.get_item("").unwrap().is_none());
    assert!(LibraryDatabase::new().get_item("1").unwrap().is_none());
}

#[test]
fn rows_must_be_distinct() {
    assert!(LibraryDatabase::from_rows(vec![]).is_some());
    assert!(LibraryDatabase::from_rows(vec![
        item("1", "/a", "A", None, "pdf"),
        item("2", "/a", "B", None, "pdf"),
    ])
    .is_none());
    assert!(LibraryDatabase::from_rows(vec![
        item("1", "/a", "A", None, "pdf"),
        item("2", "/b", "A", None, "pdf"),
        item("1", "/c", "A", None, "pdf"),
    ])
    .is_none());
}

#[test]
fn an_empty_query_returns_everything_by_title() {
    let got = shelf().query(&LibraryQuery::default()).unwrap();
    assert_eq!(titles(&got), vec!["apple pie", "Apple Pie", "Banana", "Moby Dick", "Zebra Tales"]);
}

#[test]
fn text_is_sought_in_title_and_author() {
    let db = shelf();
    let q = LibraryQuery { text: Some("APPLE".to_string()), ..LibraryQuery::default() };
    assert_eq!(titles(&db.query(&q).unwrap()), vec!["apple pie", "Apple Pie"]);
    let q = LibraryQuery { text: Some("melville".to_string()), ..LibraryQuery::default() };
    assert_eq!(titles(&db.query(&q).unwrap()), vec!["Moby Dick"]);
    let q = LibraryQuery { text: Some("ze".to_string()), ..LibraryQuery::default() };
    assert_eq!(titles(&db.query(&q).unwrap()), vec!["Banana", "Zebra Tales"]);
    let q = LibraryQuery { text: Some("nothing".to_string()), ..LibraryQuery::default() };
    assert!(db.query(&q).unwrap().is_empty());
    let q = LibraryQuery { text: Some("".to_string()), ..LibraryQuery::default() };
    assert_eq!(db.query(&q).unwrap().len(), 5);
}

#[test]
fn types_are_matched_exactly() {
    let db = shelf();
    let q = LibraryQuery { file_types: Some(vec!["pdf".to_string()]), ..LibraryQuery::default() };
    assert_eq!(titles(&db.query(&q).unwrap()), vec!["Apple Pie", "Banana", "Zebra Tales"]);
    let q = LibraryQuery {
        file_types: Some(vec!["txt".to_string(), "epub".to_string()]),
        ..LibraryQuery::default()
    };
    assert_eq!(titles(&db.query(&q).unwrap()), vec!["apple pie", "Moby Dick"]);
    let q = LibraryQuery { file_types: Some(vec!["PDF".to_string()]), ..LibraryQuery::default() };
    assert!(db.query(&q).unwrap().is_empty());
}

#[test]
fn an_empty_list_of_types_selects_nothing() {
    let db = shelf();
    let q = LibraryQuery { file_types: Some(vec![]), ..LibraryQuery::default() };
    assert!(db.query(&q).unwrap().is_empty());
    let q = LibraryQuery {
        text: Some("apple".to_string()),
        file_types: Some(vec![]),
        ..LibraryQuery::default()
    };
    assert!(db.query(&q).unwrap().is_empty());
    let q = LibraryQuery { file_types: None, ..LibraryQuery::default() };
    assert_eq!(db.query(&q).unwrap().len(), 5);
}

#[test]
fn text_and_types_combine() {
    let q = LibraryQuery {
        text: Some("apple".to_string()),
        file_types: Some(vec!["pdf".to_string()]),
        ..LibraryQuery::default()
    };
    assert_eq!(titles(&shelf().query(&q).unwrap()), vec!["Apple Pie"]);
}

#[test]
fn an_explicit_limit_is_honoured() {
    let db = shelf();
    let q = LibraryQuery { limit: Some(2), ..LibraryQuery::default() };
    assert_eq!(titles(&db.query(&q).unwrap()), vec!["apple pie", "Apple Pie"]);
    let q = LibraryQuery { limit: Some(0), ..LibraryQuery::default() };
    assert!(db.query(&q).unwrap().is_empty());
    let q = LibraryQuery { limit: Some(1000), ..LibraryQuery::default() };
    assert_eq!(db.query(&q).unwrap().len(), 5);
}

#[test]
fn the_default_limit_is_100() {
    let rows: Vec<CatalogRow> = (0..150)
        .map(|i| item(&format!("{}", i), &format!("/b/{}.pdf", i), &format!("T{:03}", i), None, "pdf"))
        .collect();
    let db = LibraryDatabase::from_rows(rows).unwrap();
    let got = db.query(&LibraryQuery::default()).unwrap();
    assert_eq!(got.len(), 100);
    assert_eq!(got[0].metadata.title, "T000");
    assert_eq!(got[99].metadata.title, "T099");
    let q = LibraryQuery { limit: Some(120), ..LibraryQuery::default() };
    assert_eq!(db.query(&q).unwrap().len(), 120);
}

#[test]
fn only_ascii_letters_are_folded() {
    assert_eq!(fold_one('A'), 'a');
    assert_eq!(fold_one('Z'), 'z');
    assert_eq!(fold_one('a'), 'a');
    assert_eq!(fold_one('['), '[');
    assert_eq!(fold_one('@'), '@');
    assert_eq!(fold_one('É'), 'É');
    assert_eq!(folded("Hello WÖRLD"), chars_of("hello wÖrld"));
}

#[test]
fn titles_compare_character_by_character() {
    let p = |a: &str, b: &str| precedes(&chars_of(a), &chars_of(b));
    assert!(p("a", "b"));
    assert!(!p("b", "a"));
    assert!(!p("a", "a"));
    assert!(p("a", "ab"));
    assert!(!p("ab", "a"));
    assert!(p("", "a"));
    assert!(!p("", ""));
    assert!(p("B", "a"));
    assert!(p("z", "é"));
}
