use blinker_core::database::{LibraryDatabase, LibraryStore};
use blinker_core::error::BlinkerError;
use blinker_core::hashing::file_hash;
use blinker_core::library::{AddOutcome, FileProbe, ScannedFile};
use blinker_core::scanner::{Found, LibraryScanner, ScanReport, Walk};

fn file(path: &str, content: &[u8]) -> ScannedFile {
    ScannedFile::at(
        path.to_string(),
        FileProbe::Regular { size: content.len() as u64, hash: file_hash(content) },
    )
}

fn unreadable(path: &str) -> ScannedFile {
    let e = std::io::Error::new(std::io::ErrorKind::PermissionDenied, "permission denied");
    ScannedFile::at(path.to_string(), FileProbe::Unreadable(e))
}

fn library() -> Vec<ScannedFile> {
    vec![
        file("/lib/a.pdf", b"alpha"),
        file("/lib/sub/b.epub", b"beta"),
        file("/lib/c.txt", b"gamma"),
        file("/lib/d.md", b"delta"),
        file("/lib/e.cbz", b"epsilon"),
    ]
}

fn ids(db: &LibraryDatabase) -> Vec<(String, String)> {
    (0..db.len()).map(|i| db.row(i).unwrap()).map(|r| (r.item.file_path, r.item.id)).collect()
}

#[test]
fn a_first_scan_creates_every_document() {
    let mut db = LibraryDatabase::new();
    let report = LibraryScanner::new().scan_paths(&mut db, library(), 10).unwrap();
    assert_eq!((report.total, report.new, report.updated), (5, 5, 0));
    assert!(report.errors.is_empty());
    assert_eq!(db.len(), 5);
}

#[test]
fn a_second_scan_finds_nothing_new() {
    let mut db = LibraryDatabase::new();
    LibraryScanner::new().scan_paths(&mut db, library(), 10).unwrap();
    let before = ids(&db);
    let report = LibraryScanner::new().scan_paths(&mut db, library(), 20).unwrap();
    assert_eq!((report.total, report.new, report.updated), (5, 0, 0));
    assert!(report.errors.is_empty());
    assert_eq!(ids(&db), before);
    assert!((0..5).all(|i| db.row(i).unwrap().indexed_at == 20));
}

#[test]
fn changed_bytes_are_detected() {
    let mut db = LibraryDatabase::new();
    LibraryScanner::new().scan_paths(&mut db, library(), 10).unwrap();
    let before = ids(&db);
    let mut files = library();
    files[2] = file("/lib/c.txt", b"gamma, revised");
    let report = LibraryScanner::new().scan_paths(&mut db, files, 20).unwrap();
    assert_eq!((report.total, report.new, report.updated), (5, 0, 1));
    assert_eq!(ids(&db), before);
    let row = db.row(2).unwrap();
    assert_eq!(row.item.id, file_hash(b"gamma"));
    assert_eq!(row.item.file_hash, file_hash(b"gamma, revised"));
    assert_eq!(row.item.file_size, 14);
}

#[test]
fn other_extensions_are_invisible() {
    let mut files = library();
    files.insert(1, file("/lib/setup.exe", b"binary"));
    files.insert(3, file("/lib/Makefile", b"all:"));
    files.push(unreadable("/lib/broken.docx"));
    files.push(ScannedFile::at("/lib/dir.d".to_string(), FileProbe::NotAFile));
    let mut db = LibraryDatabase::new();
    let report = LibraryScanner::new().scan_paths(&mut db, files, 10).unwrap();
    assert_eq!((report.total, report.new, report.updated), (5, 5, 0));
    assert!(report.errors.is_empty());
    assert_eq!(db.len(), 5);
}

#[test]
fn one_failure_does_not_stop_the_scan() {
    let mut files = library();
    files.insert(2, unreadable("/lib/locked.pdf"));
    let mut db = LibraryDatabase::new();
    let report = LibraryScanner::new().scan_paths(&mut db, files, 10).unwrap();
    assert_eq!((report.total, report.new, report.updated), (6, 5, 0));
    assert_eq!(report.errors, vec!["/lib/locked.pdf: IO error: permission denied".to_string()]);
    assert_eq!(db.len(), 5);
}

#[test]
fn failures_are_reported_in_order() {
    let files = vec![
        ScannedFile::at("/lib/dir.pdf".to_string(), FileProbe::NotAFile),
        file("/lib/a.pdf", b"same"),
        file("/lib/copy.pdf", b"same"),
        unreadable("/lib/z.txt"),
    ];
    let mut db = LibraryDatabase::new();
    let report = LibraryScanner::new().scan_paths(&mut db, files, 10).unwrap();
    assert_eq!((report.total, report.new, report.updated), (4, 1, 0));
    assert_eq!(
        report.errors,
        vec![
            "/lib/dir.pdf: Parsing error: not a file: /lib/dir.pdf".to_string(),
            "/lib/copy.pdf: Database error: insert item: UNIQUE constraint failed: library_item.id"
                .to_string(),
            "/lib/z.txt: IO error: permission denied".to_string(),
        ]
    );
}

#[test]
fn an_empty_scan_reports_nothing() {
    let mut db = LibraryDatabase::new();
    let report = LibraryScanner::new().scan_paths(&mut db, vec![], 10).unwrap();
    assert_eq!((report.total, report.new, report.updated), (0, 0, 0));
    assert!(report.errors.is_empty());
}

#[test]
fn extensions_count_in_any_case() {
    let files = vec![file("/lib/A.PDF", b"1"), file("/lib/B.Epub", b"2")];
    let mut db = LibraryDatabase::new();
    let report = LibraryScanner::new().scan_paths(&mut db, files, 10).unwrap();
    assert_eq!((report.total, report.new), (2, 2));
    assert_eq!(db.row(0).unwrap().item.file_type, "pdf");
}

#[test]
fn reports_count_outcomes() {
    let mut r = ScanReport::new();
    r.record("/a", &Ok(AddOutcome::Created { id: "1".to_string() }));
    r.record("/b", &Ok(AddOutcome::Updated { id: "2".to_string() }));
    r.record("/c", &Ok(AddOutcome::Unchanged { id: "3".to_string() }));
    r.record("/d", &Err(BlinkerError::Database("down".to_string())));
    r.record("/e", &Ok(AddOutcome::Created { id: "5".to_string() }));
    assert_eq!((r.total, r.new, r.updated), (5, 2, 1));
    assert_eq!(r.errors, vec!["/d: Database error: down".to_string()]);
}

#[test]
fn the_walk_visits_the_newest_path_first() {
    let mut walk = Walk::new(vec!["/a".to_string(), "/b".to_string()]);
    assert_eq!(walk.next().as_deref(), Some("/b"));
    assert!(!walk.resolve("/b", Found::Directory(vec!["/b/x.pdf".to_string(), "/b/sub".to_string()])));
    assert_eq!(walk.pending, vec!["/a", "/b/x.pdf", "/b/sub"]);
    assert_eq!(walk.next().as_deref(), Some("/b/sub"));
    assert!(!walk.resolve("/b/sub", Found::Directory(vec![])));
    assert_eq!(walk.next().as_deref(), Some("/b/x.pdf"));
    assert!(walk.resolve("/b/x.pdf", Found::File));
    assert_eq!(walk.next().as_deref(), Some("/a"));
    assert!(!walk.resolve("/a", Found::Other));
    assert_eq!(walk.next(), None);
    assert_eq!(walk.next(), None);
}

#[test]
fn the_walk_reads_documents_only() {
    let mut walk = Walk::new(vec![]);
    for path in ["/x/a.pdf", "/x/a.EPUB", "/x/a.cbz", "/x/a.cbr", "/x/a.txt", "/x/a.md", "a.markdown"] {
        assert!(walk.resolve(path, Found::File), "{}", path);
        assert!(!walk.resolve(path, Found::Other), "{}", path);
    }
    for path in ["/x/a.exe", "/x/Makefile", "/x/.pdf", "/x/a.pdf.bak", ""] {
        assert!(!walk.resolve(path, Found::File), "{}", path);
    }
    assert!(walk.pending.is_empty());
}

#[test]
fn documents_are_told_by_their_extension() {
    for ext in ["pdf", "PDF", "epub", "cbz", "cbr", "txt", "md", "Markdown"] {
        assert!(Walk::wants(&Some(ext.to_string())), "{}", ext);
    }
    for ext in ["exe", "", "pdf ", "bak", "doc"] {
        assert!(!Walk::wants(&Some(ext.to_string())), "{}", ext);
    }
    assert!(!Walk::wants(&None));
}

#[test]
fn every_changed_file_is_counted() {
    let mut db = LibraryDatabase::new();
    let first = LibraryScanner::new().scan_paths(&mut db, library(), 10).unwrap();
    assert!(first.errors.is_empty());
    let before = ids(&db);
    let mut files = library();
    files[0] = file("/lib/a.pdf", b"alpha 2");
    files[3] = file("/lib/d.md", b"delta 2");
    files[4] = file("/lib/e.cbz", b"epsilon 2");
    files.insert(2, file("/lib/ignored.exe", b"x"));
    let report = LibraryScanner::new().scan_paths(&mut db, files, 20).unwrap();
    assert_eq!((report.total, report.new, report.updated), (first.total, 0, 3));
    assert!(report.errors.is_empty());
    assert_eq!(ids(&db), before);
    assert_eq!(db.row(0).unwrap().item.file_hash, file_hash(b"alpha 2"));
    assert_eq!(db.row(1).unwrap().item.file_hash, file_hash(b"beta"));
}

#[test]
fn a_scan_without_documents_leaves_the_catalog_alone() {
    let mut db = LibraryDatabase::new();
    LibraryScanner::new().scan_paths(&mut db, library(), 10).unwrap();
    let files = vec![file("/lib/a.exe", b"1"), unreadable("/lib/b.bin"), file("/lib/README", b"2")];
    let report = LibraryScanner::new().scan_paths(&mut db, files, 99).unwrap();
    assert_eq!((report.total, report.new, report.updated), (0, 0, 0));
    assert!(report.errors.is_empty());
    assert_eq!(db.len(), 5);
    assert!((0..5).all(|i| db.row(i).unwrap().indexed_at == 10));
}
