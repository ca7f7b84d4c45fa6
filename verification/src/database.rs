//! The content store: a catalog of items keyed by path, held in memory.
//! Persisting the rows is left to the program around the library.

use crate::catalog::{
    created_row, distinct_rows, fold, index_of_id, index_of_path, insert_by_title,
    insertion_point, lemma_index_of_path, lemma_upserted_distinct, lookup, ordered_selection,
    query_result, reconcile, selects, upserted, QueryView, Refusal, RowView,
};
use crate::catalog::{folded, precedes};
use crate::chars::{contains_chars, same_text, to_lowercase};
use crate::error::BlinkerError;
use crate::library::{
    copy_string, item_views, optional_text, texts, AddOutcome, FileProbe, FileView, LibraryItem,
    LibraryQuery, OutcomeView, ScannedFile,
};
use crate::types::Metadata;
use vstd::prelude::*;
use vstd::string::StringExecFns;

verus! {

/// One row of the catalog: the item and when it was last seen.
#[derive(Debug, Clone)]
pub struct CatalogRow {
    pub item: LibraryItem,
    /// When a scan last found the file, in seconds since the epoch.
    pub indexed_at: i64,
}

impl View for CatalogRow {
    type V = RowView;

    open spec fn view(&self) -> RowView {
        RowView { item: self.item@, indexed_at: self.indexed_at }
    }
}

/// The views of a list of rows.
pub open spec fn row_views(rows: Seq<CatalogRow>) -> Seq<RowView> {
    rows.map_values(|r: CatalogRow| r@)
}

impl View for LibraryQuery {
    type V = QueryView;

    open spec fn view(&self) -> QueryView {
        QueryView {
            text: optional_text(self.text),
            file_types: match self.file_types {
                Some(types) => Some(texts(types@)),
                None => None,
            },
            limit: self.limit,
        }
    }
}

/// The message of the error that refuses a path which is no regular file.
pub open spec fn not_a_file_message(path: Seq<char>) -> Seq<char> {
    "not a file: "@ + path
}

/// The message of the error that refuses a second path for one identifier.
pub open spec fn collision_message() -> Seq<char> {
    "insert item: UNIQUE constraint failed: library_item.id"@
}

/// Whether `err` is the error that the catalog gives for the refusal `why`
/// of the path `path`.
pub open spec fn reports(err: BlinkerError, why: Refusal, path: Seq<char>) -> bool {
    match why {
        Refusal::Unreadable => err is Io,
        Refusal::NotAFile => err is Parsing && err->Parsing_0@ == not_a_file_message(path),
        Refusal::Collision => err is Database && err->Database_0@ == collision_message(),
    }
}

/// Whether `out` hands back the error that made the file unreadable.
pub open spec fn returns_cause(probe: FileProbe, out: Result<AddOutcome, BlinkerError>) -> bool {
    probe matches FileProbe::Unreadable(cause) ==> out matches Err(BlinkerError::Io(e)) && e
        == cause
}

/// Whether a store that held `before` may answer `out` to `file`, found as
/// `probe`, and hold `after`: an accepted file has the outcome and the rows
/// that the catalog's rules give, a failure leaves the rows alone, and a
/// reliable store fails exactly where the rules refuse, with the error for
/// the refusal: for an unreadable file, the very error that was met when
/// the file was read.
pub open spec fn upsert_answer(
    before: Seq<RowView>,
    reliable: bool,
    file: FileView,
    probe: FileProbe,
    now: i64,
    after: Seq<RowView>,
    out: Result<AddOutcome, BlinkerError>,
) -> bool {
    &&& out matches Ok(o) ==> reconcile(before, file) == Ok::<OutcomeView, Refusal>(o@) && after
        == upserted(before, file, now)
    &&& out is Err ==> after == before
    &&& reliable ==> (out is Ok <==> reconcile(before, file) is Ok)
    &&& reliable ==> (out matches Err(e) ==> reports(e, reconcile(before, file)->Err_0, file.path))
    &&& reliable ==> returns_cause(probe, out)
}

/// What a store offers to the layers above it.
pub trait LibraryStore {
    /// The rows the store holds.
    spec fn rows(&self) -> Seq<RowView>;

    /// Whether the store fails only where the catalog's rules refuse a file.
    spec fn reliable(&self) -> bool;

    /// Reconciles one scanned file against the catalog at the time `now`.
    fn add_or_update_path(&mut self, file: ScannedFile, now: i64) -> (out: Result<
        AddOutcome,
        BlinkerError,
    >)
        ensures
            final(self).reliable() == old(self).reliable(),
            upsert_answer(
                old(self).rows(),
                old(self).reliable(),
                file@,
                file.probe,
                now,
                final(self).rows(),
                out,
            ),
    ;

    /// The item stored under `id`; `None` where there is none.
    fn get_item(&self, id: &str) -> (out: Result<Option<LibraryItem>, BlinkerError>)
        ensures
            out matches Ok(found) ==> match found {
                Some(item) => lookup(self.rows(), id@) == Some(item@),
                None => lookup(self.rows(), id@) is None,
            },
            self.reliable() ==> out is Ok,
    ;

    /// The items that `query` selects, in title order, cut off at its limit.
    fn query(&self, query: &LibraryQuery) -> (out: Result<Vec<LibraryItem>, BlinkerError>)
        ensures
            out matches Ok(items) ==> item_views(items@) == query_result(self.rows(), query@),
            self.reliable() ==> out is Ok,
    ;
}

/// The catalog in memory. No two of its rows share a path or an identifier.
#[derive(Debug)]
pub struct LibraryDatabase {
    rows: Vec<CatalogRow>,
}

impl LibraryDatabase {
    #[verifier::type_invariant]
    spec fn well_formed(self) -> bool {
        distinct_rows(row_views(self.rows@))
    }

    /// An empty catalog.
    pub fn new() -> (out: Self)
        ensures
            out.rows() == Seq::<RowView>::empty(),
            out.reliable(),
    {
        let out = LibraryDatabase { rows: Vec::new() };
        assert(row_views(out.rows@) =~= Seq::<RowView>::empty());
        out
    }

    /// The catalog with the rows `rows`, as they were stored earlier;
    /// `None` where two of them share a path or an identifier.
    pub fn from_rows(rows: Vec<CatalogRow>) -> (out: Option<Self>)
        ensures
            out is Some <==> distinct_rows(row_views(rows@)),
            out matches Some(db) ==> db.rows() == row_views(rows@) && db.reliable(),
    {
        let ghost views = row_views(rows@);
        let mut j: usize = 0;
        while j < rows.len()
            invariant
                j <= rows@.len(),
                views == row_views(rows@),
                forall|a: int, b: int|
                    0 <= a < b < j ==> views[a].item.file_path != views[b].item.file_path
                        && views[a].item.id != views[b].item.id,
            decreases rows@.len() - j,
        {
            let mut i: usize = 0;
            while i < j
                invariant
                    i <= j < rows@.len(),
                    views == row_views(rows@),
                    forall|a: int|
                        0 <= a < i ==> views[a].item.file_path != views[j as int].item.file_path
                            && views[a].item.id != views[j as int].item.id,
                decreases j - i,
            {
                if same_text(rows[i].item.file_path.as_str(), rows[j].item.file_path.as_str())
                    || same_text(rows[i].item.id.as_str(), rows[j].item.id.as_str()) {
                    assert(views[i as int].item.file_path == views[j as int].item.file_path
                        || views[i as int].item.id == views[j as int].item.id);
                    return None;
                }
                i += 1;
            }
            j += 1;
        }
        Some(LibraryDatabase { rows })
    }

    /// The index of the first row with the path `path`, or the number of rows.
    fn find_path(&self, path: &str) -> (at: usize)
        ensures
            at == index_of_path(self.rows(), path@, 0),
            at <= self.rows@.len(),
    {
        let mut i: usize = 0;
        while i < self.rows.len()
            invariant
                i <= self.rows@.len(),
                index_of_path(self.rows(), path@, 0) == index_of_path(self.rows(), path@, i as int),
            decreases self.rows@.len() - i,
        {
            if same_text(self.rows[i].item.file_path.as_str(), path) {
                return i;
            }
            i += 1;
        }
        i
    }

    /// The index of the first row with the identifier `id`, or the number of rows.
    fn find_id(&self, id: &str) -> (at: usize)
        ensures
            at == index_of_id(self.rows(), id@, 0),
            at <= self.rows@.len(),
    {
        let mut i: usize = 0;
        while i < self.rows.len()
            invariant
                i <= self.rows@.len(),
                index_of_id(self.rows(), id@, 0) == index_of_id(self.rows(), id@, i as int),
            decreases self.rows@.len() - i,
        {
            if same_text(self.rows[i].item.id.as_str(), id) {
                return i;
            }
            i += 1;
        }
        i
    }

    /// Puts `row` in the place of the row at `at`.
    fn replace_row(&mut self, at: usize, row: CatalogRow, Ghost(after): Ghost<Seq<RowView>>)
        requires
            at < old(self).rows().len(),
            after == old(self).rows().update(at as int, row@),
            distinct_rows(after),
        ensures
            final(self).rows() == after,
    {
        let mut rows: Vec<CatalogRow> = Vec::new();
        assert(row_views(rows@) =~= Seq::<RowView>::empty());
        core::mem::swap(&mut self.rows, &mut rows);
        rows.set(at, row);
        assert(row_views(rows@) =~= after);
        self.rows = rows;
    }

    /// The number of rows.
    pub fn len(&self) -> (n: usize)
        ensures
            n == self.rows().len(),
            distinct_rows(self.rows()),
    {
        proof {
            use_type_invariant(self);
        }
        self.rows.len()
    }

    /// A copy of the row at `index`.
    pub fn row(&self, index: usize) -> (out: Option<CatalogRow>)
        ensures
            match out {
                Some(r) => index < self.rows().len() && r@ == self.rows()[index as int],
                None => index >= self.rows().len(),
            },
    {
        if index < self.rows.len() {
            Some(CatalogRow { item: self.rows[index].item.copy(), indexed_at: self.rows[index].indexed_at })
        } else {
            None
        }
    }
}

/// Whether `item` satisfies the query `q`, whose wanted text comes folded in
/// `wanted`.
#[verifier::loop_isolation(false)]
fn is_selected(q: &LibraryQuery, wanted: &Option<Vec<char>>, item: &LibraryItem) -> (out: bool)
    requires
        match wanted {
            Some(w) => q@.text is Some && w@ == fold(q@.text->0),
            None => q@.text is None,
        },
    ensures
        out == selects(q@, item@),
{
    let text_ok = match wanted {
        Some(w) => {
            let title = folded(item.metadata.title.as_str());
            if contains_chars(&title, w) {
                true
            } else {
                let author = match &item.metadata.author {
                    Some(a) => folded(a.as_str()),
                    None => Vec::new(),
                };
                assert(author@ =~= fold(crate::catalog::author_text(item@)));
                contains_chars(&author, w)
            }
        },
        None => true,
    };
    if !text_ok {
        return false;
    }
    match &q.file_types {
        Some(types) => {
            let ghost wanted_types = texts(types@);
            let mut j: usize = 0;
            while j < types.len()
                invariant
                    j <= types@.len(),
                    wanted_types == texts(types@),
                    forall|k: int| 0 <= k < j ==> wanted_types[k] != item@.file_type,
                decreases types@.len() - j,
            {
                if same_text(types[j].as_str(), item.file_type.as_str()) {
                    assert(wanted_types[j as int] == types@[j as int]@);
                    assert(wanted_types.contains(item@.file_type));
                    return true;
                }
                j += 1;
            }
            false
        },
        None => true,
    }
}

impl LibraryStore for LibraryDatabase {
    closed spec fn rows(&self) -> Seq<RowView> {
        row_views(self.rows@)
    }

    open spec fn reliable(&self) -> bool {
        true
    }

    fn add_or_update_path(&mut self, file: ScannedFile, now: i64) -> (out: Result<
        AddOutcome,
        BlinkerError,
    >) {
        proof {
            use_type_invariant(&*self);
            lemma_upserted_distinct(self.rows(), file@, now);
            lemma_index_of_path(self.rows(), file@.path, 0);
        }
        let ghost before = self.rows();
        let ghost fv = file@;
        let ScannedFile { path, extension, stem, probe } = file;
        let (size, hash) = match probe {
            FileProbe::Unreadable(e) => {
                return Err(BlinkerError::Io(e));
            },
            FileProbe::NotAFile => {
                let msg = String::from_str("not a file: ").concat(path.as_str());
                return Err(BlinkerError::Parsing(msg));
            },
            FileProbe::Regular { size, hash } => (size, hash),
        };
        let file_type = match &extension {
            Some(e) => to_lowercase(e.as_str()),
            None => String::from_str("unknown"),
        };
        let title = match &stem {
            Some(t) => copy_string(t),
            None => String::from_str("Untitled"),
        };
        let at = self.find_path(path.as_str());
        if at < self.rows.len() {
            let id = copy_string(&self.rows[at].item.id);
            if same_text(self.rows[at].item.file_hash.as_str(), hash.as_str()) {
                let row = CatalogRow { item: self.rows[at].item.copy(), indexed_at: now };
                self.replace_row(at, row, Ghost(upserted(before, fv, now)));
                Ok(AddOutcome::Unchanged { id })
            } else {
                let old_item = self.rows[at].item.copy();
                let row = CatalogRow {
                    item: LibraryItem {
                        id: old_item.id,
                        file_path: old_item.file_path,
                        file_hash: hash,
                        file_type,
                        file_size: size,
                        metadata: Metadata {
                            title,
                            author: None,
                            publisher: old_item.metadata.publisher,
                            subject: old_item.metadata.subject,
                            language: old_item.metadata.language,
                            created_at: old_item.metadata.created_at,
                            modified_at: Some(now),
                            page_count: old_item.metadata.page_count,
                        },
                        tags: old_item.tags,
                    },
                    indexed_at: now,
                };
                self.replace_row(at, row, Ghost(upserted(before, fv, now)));
                Ok(AddOutcome::Updated { id })
            }
        } else {
            let taken = self.find_id(hash.as_str());
            if taken < self.rows.len() {
                let msg = String::from_str("insert item: UNIQUE constraint failed: library_item.id");
                return Err(BlinkerError::Database(msg));
            }
            let id = copy_string(&hash);
            let row = CatalogRow {
                item: LibraryItem {
                    id: copy_string(&hash),
                    file_path: path,
                    file_hash: hash,
                    file_type,
                    file_size: size,
                    metadata: Metadata {
                        title,
                        author: None,
                        publisher: None,
                        subject: None,
                        language: None,
                        created_at: Some(now),
                        modified_at: Some(now),
                        page_count: None,
                    },
                    tags: Vec::new(),
                },
                indexed_at: now,
            };
            assert(row@ == created_row(fv, size, row@.item.file_hash, now)) by {
                assert(row@.item.tags =~= Seq::<Seq<char>>::empty());
            }
            let mut rows: Vec<CatalogRow> = Vec::new();
            assert(row_views(rows@) =~= Seq::<RowView>::empty());
            core::mem::swap(&mut self.rows, &mut rows);
            rows.push(row);
            assert(row_views(rows@) =~= upserted(before, fv, now));
            self.rows = rows;
            Ok(AddOutcome::Created { id })
        }
    }

    fn get_item(&self, id: &str) -> (out: Result<Option<LibraryItem>, BlinkerError>) {
        let at = self.find_id(id);
        if at < self.rows.len() {
            Ok(Some(self.rows[at].item.copy()))
        } else {
            Ok(None)
        }
    }

    fn query(&self, query: &LibraryQuery) -> (out: Result<Vec<LibraryItem>, BlinkerError>) {
        let wanted: Option<Vec<char>> = match &query.text {
            Some(t) => Some(folded(t.as_str())),
            None => None,
        };
        let ghost q = query@;
        let ghost rows = self.rows();
        let mut out: Vec<LibraryItem> = Vec::new();
        let mut keys: Vec<Vec<char>> = Vec::new();
        let mut i: usize = 0;
        assert(item_views(out@) =~= ordered_selection(rows, q, 0));
        while i < self.rows.len()
            invariant
                q == query@,
                rows == self.rows(),
                i <= self.rows@.len(),
                match wanted {
                    Some(w) => q.text is Some && w@ == fold(q.text->0),
                    None => q.text is None,
                },
                keys@.len() == out@.len(),
                forall|k: int| 0 <= k < out@.len() ==> (#[trigger] keys@[k])@ == fold(out@[k]@.title),
                item_views(out@) == ordered_selection(rows, q, i as int),
            decreases self.rows@.len() - i,
        {
            let item = &self.rows[i].item;
            if is_selected(query, &wanted, item) {
                let key = folded(item.metadata.title.as_str());
                let ghost sorted = item_views(out@);
                let mut k: usize = out.len();
                while k > 0 && precedes(&key, &keys[k - 1])
                    invariant
                        k <= out@.len(),
                        keys@.len() == out@.len(),
                        sorted == item_views(out@),
                        key@ == fold(item@.title),
                        forall|j: int|
                            0 <= j < out@.len() ==> (#[trigger] keys@[j])@ == fold(out@[j]@.title),
                        insertion_point(sorted, item@.title, sorted.len() as int)
                            == insertion_point(sorted, item@.title, k as int),
                    decreases k,
                {
                    k -= 1;
                }
                let copy = item.copy();
                out.insert(k, copy);
                keys.insert(k, key);
                assert(item_views(out@) =~= insert_by_title(sorted, item@));
            }
            i += 1;
        }
        let limit = match query.limit {
            Some(n) => n,
            None => 100,
        };
        out.truncate(limit);
        assert(item_views(out@) =~= query_result(rows, q));
        Ok(out)
    }
}

} // verus!
