//! The catalog as mathematics: what reconciling a file against the rows
//! decides, how the rows change, and which rows a query selects.

use crate::chars::{contains_seq, lowercase};
use crate::library::{FileView, ItemView, OutcomeView, ProbeView};
use vstd::prelude::*;

verus! {

/// One row of the catalog: the item and when it was last seen.
pub struct RowView {
    pub item: ItemView,
    pub indexed_at: i64,
}

/// Why the catalog refuses a file.
pub enum Refusal {
    /// The file could not be read.
    Unreadable,
    /// The path is not a regular file.
    NotAFile,
    /// Another path already holds the identifier that the content gives.
    Collision,
}

/// The first index at or after `from` of a row with the path `path`, or the
/// number of rows where there is none.
pub open spec fn index_of_path(rows: Seq<RowView>, path: Seq<char>, from: int) -> int
    decreases rows.len() - from,
{
    if from < 0 || from >= rows.len() {
        rows.len() as int
    } else if rows[from].item.file_path == path {
        from
    } else {
        index_of_path(rows, path, from + 1)
    }
}

/// The first index at or after `from` of a row with the identifier `id`, or
/// the number of rows where there is none.
pub open spec fn index_of_id(rows: Seq<RowView>, id: Seq<char>, from: int) -> int
    decreases rows.len() - from,
{
    if from < 0 || from >= rows.len() {
        rows.len() as int
    } else if rows[from].item.id == id {
        from
    } else {
        index_of_id(rows, id, from + 1)
    }
}

/// Whether some row has the path `path`.
pub open spec fn knows_path(rows: Seq<RowView>, path: Seq<char>) -> bool {
    index_of_path(rows, path, 0) < rows.len()
}

/// Whether some row has the identifier `id`.
pub open spec fn knows_id(rows: Seq<RowView>, id: Seq<char>) -> bool {
    index_of_id(rows, id, 0) < rows.len()
}

/// No two rows share a path, and no two rows share an identifier.
pub open spec fn distinct_rows(rows: Seq<RowView>) -> bool {
    forall|i: int, j: int|
        0 <= i < j < rows.len() ==> rows[i].item.file_path != rows[j].item.file_path
            && rows[i].item.id != rows[j].item.id
}

/// The title a file gets from its name.
pub open spec fn title_of(file: FileView) -> Seq<char> {
    match file.stem {
        Some(stem) => stem,
        None => "Untitled"@,
    }
}

/// The type a file gets from its name: its extension in lower case.
pub open spec fn type_of(file: FileView) -> Seq<char> {
    match file.extension {
        Some(ext) => lowercase(ext),
        None => "unknown"@,
    }
}

/// What the catalog decides for a file: an unreadable path and a path that
/// is no regular file are refused; a known path with the same hash is
/// unchanged, with another hash updated, both under the identifier it has;
/// an unknown path is created under its hash, unless that identifier is
/// taken.
pub open spec fn reconcile(rows: Seq<RowView>, file: FileView) -> Result<OutcomeView, Refusal> {
    match file.probe {
        ProbeView::Unreadable => Err(Refusal::Unreadable),
        ProbeView::NotAFile => Err(Refusal::NotAFile),
        ProbeView::Regular { size, hash } => {
            let at = index_of_path(rows, file.path, 0);
            if at < rows.len() {
                if rows[at].item.file_hash == hash {
                    Ok(OutcomeView::Unchanged(rows[at].item.id))
                } else {
                    Ok(OutcomeView::Updated(rows[at].item.id))
                }
            } else if knows_id(rows, hash) {
                Err(Refusal::Collision)
            } else {
                Ok(OutcomeView::Created(hash))
            }
        },
    }
}

/// The row that a new file gets at the time `now`.
pub open spec fn created_row(file: FileView, size: u64, hash: Seq<char>, now: i64) -> RowView {
    RowView {
        item: ItemView {
            id: hash,
            file_path: file.path,
            file_hash: hash,
            file_type: type_of(file),
            file_size: size,
            title: title_of(file),
            author: None,
            publisher: None,
            subject: None,
            language: None,
            created_at: Some(now),
            modified_at: Some(now),
            page_count: None,
            tags: Seq::empty(),
        },
        indexed_at: now,
    }
}

/// The row `row` after its file was found with other content at the time
/// `now`: hash, type, size, title and author are overwritten, the
/// identifier and the path stay.
pub open spec fn updated_row(row: RowView, file: FileView, size: u64, hash: Seq<char>, now: i64) -> RowView {
    RowView {
        item: ItemView {
            file_hash: hash,
            file_type: type_of(file),
            file_size: size,
            title: title_of(file),
            author: None,
            modified_at: Some(now),
            ..row.item
        },
        indexed_at: now,
    }
}

/// The row `row` after its file was found unchanged at the time `now`.
pub open spec fn touched_row(row: RowView, now: i64) -> RowView {
    RowView { indexed_at: now, ..row }
}

/// The rows after `file` was reconciled at the time `now`. A refused file
/// leaves them as they are.
pub open spec fn upserted(rows: Seq<RowView>, file: FileView, now: i64) -> Seq<RowView> {
    match file.probe {
        ProbeView::Regular { size, hash } => {
            let at = index_of_path(rows, file.path, 0);
            match reconcile(rows, file) {
                Ok(OutcomeView::Created(_)) => rows.push(created_row(file, size, hash, now)),
                Ok(OutcomeView::Updated(_)) => rows.update(
                    at,
                    updated_row(rows[at], file, size, hash, now),
                ),
                Ok(OutcomeView::Unchanged(_)) => rows.update(at, touched_row(rows[at], now)),
                Err(_) => rows,
            }
        },
        _ => rows,
    }
}

/// The item stored under the identifier `id`, if there is one.
pub open spec fn lookup(rows: Seq<RowView>, id: Seq<char>) -> Option<ItemView> {
    let at = index_of_id(rows, id, 0);
    if at < rows.len() {
        Some(rows[at].item)
    } else {
        None
    }
}

/// `index_of_path` returns the first row with the path, if any.
pub proof fn lemma_index_of_path(rows: Seq<RowView>, path: Seq<char>, from: int)
    requires
        0 <= from,
    ensures
        from <= index_of_path(rows, path, from) || index_of_path(rows, path, from) == rows.len(),
        index_of_path(rows, path, from) <= rows.len(),
        index_of_path(rows, path, from) < rows.len() ==> rows[index_of_path(
            rows,
            path,
            from,
        )].item.file_path == path,
        forall|k: int|
            from <= k < index_of_path(rows, path, from) ==> rows[k].item.file_path != path,
    decreases rows.len() - from,
{
    if from < rows.len() && rows[from].item.file_path != path {
        lemma_index_of_path(rows, path, from + 1);
    }
}

/// `index_of_id` returns the first row with the identifier, if any.
pub proof fn lemma_index_of_id(rows: Seq<RowView>, id: Seq<char>, from: int)
    requires
        0 <= from,
    ensures
        from <= index_of_id(rows, id, from) || index_of_id(rows, id, from) == rows.len(),
        index_of_id(rows, id, from) <= rows.len(),
        index_of_id(rows, id, from) < rows.len() ==> rows[index_of_id(rows, id, from)].item.id
            == id,
        forall|k: int| from <= k < index_of_id(rows, id, from) ==> rows[k].item.id != id,
    decreases rows.len() - from,
{
    if from < rows.len() && rows[from].item.id != id {
        lemma_index_of_id(rows, id, from + 1);
    }
}

/// Reconciling a file keeps the rows distinct.
pub proof fn lemma_upserted_distinct(rows: Seq<RowView>, file: FileView, now: i64)
    requires
        distinct_rows(rows),
    ensures
        distinct_rows(upserted(rows, file, now)),
{
    lemma_index_of_path(rows, file.path, 0);
    match file.probe {
        ProbeView::Regular { size, hash } => {
            lemma_index_of_id(rows, hash, 0);
        },
        _ => {},
    }
}

/// A character with the letters `A` to `Z` turned into lower case, which
/// is how the catalog ignores letter case.
pub open spec fn fold_char(c: char) -> char {
    if 'A' <= c && c <= 'Z' {
        ((c as u8) + 32) as char
    } else {
        c
    }
}

/// A text with every character folded.
pub open spec fn fold(s: Seq<char>) -> Seq<char> {
    s.map_values(|c: char| fold_char(c))
}

/// Folds one character.
pub fn fold_one(c: char) -> (out: char)
    ensures
        out == fold_char(c),
{
    if 'A' <= c && c <= 'Z' {
        ((c as u8) + 32) as char
    } else {
        c
    }
}

/// The folded characters of `s`.
pub fn folded(s: &str) -> (out: Vec<char>)
    ensures
        out@ == fold(s@),
{
    let chars = crate::chars::chars_of(s);
    let mut out: Vec<char> = Vec::new();
    let mut i: usize = 0;
    while i < chars.len()
        invariant
            chars@ == s@,
            i <= chars@.len(),
            out@.len() == i,
            forall|k: int| 0 <= k < i ==> out@[k] == fold_char(chars@[k]),
        decreases chars@.len() - i,
    {
        out.push(fold_one(chars[i]));
        i += 1;
    }
    assert(out@ =~= fold(s@));
    out
}

/// Whether the text `a` comes strictly before the text `b`, comparing the
/// characters from position `k` on: at the first position where the two
/// differ the smaller character decides, and a text comes before every
/// longer text that it begins.
pub open spec fn precedes_from(a: Seq<char>, b: Seq<char>, k: int) -> bool
    decreases a.len() - k,
{
    if k < 0 || k >= b.len() {
        false
    } else if k >= a.len() {
        true
    } else if (a[k] as u32) < (b[k] as u32) {
        true
    } else if (a[k] as u32) > (b[k] as u32) {
        false
    } else {
        precedes_from(a, b, k + 1)
    }
}

/// Whether the title `a` sorts strictly before the title `b`, letter case
/// ignored.
pub open spec fn sorts_before(a: Seq<char>, b: Seq<char>) -> bool {
    precedes_from(fold(a), fold(b), 0)
}

/// Where an item with the title `title` goes among the first `n` items of
/// `sorted`: behind every item that does not sort after it.
pub open spec fn insertion_point(sorted: Seq<ItemView>, title: Seq<char>, n: int) -> int
    decreases n,
{
    if n <= 0 || n > sorted.len() {
        0
    } else if sorts_before(title, sorted[n - 1].title) {
        insertion_point(sorted, title, n - 1)
    } else {
        n
    }
}

/// `sorted` with `item` put in by title.
pub open spec fn insert_by_title(sorted: Seq<ItemView>, item: ItemView) -> Seq<ItemView> {
    sorted.insert(insertion_point(sorted, item.title, sorted.len() as int), item)
}

/// A query as plain values.
pub struct QueryView {
    pub text: Option<Seq<char>>,
    pub file_types: Option<Seq<Seq<char>>>,
    pub limit: Option<usize>,
}

/// The author of an item, or the empty text.
pub open spec fn author_text(item: ItemView) -> Seq<char> {
    match item.author {
        Some(a) => a,
        None => Seq::empty(),
    }
}

/// Whether the query selects the item: the wanted text stands in the title
/// or in the author, letter case ignored, and the file type is one of the
/// wanted types. An absent text selects every item, and so does an absent
/// list of types; a list of types that is present and empty selects none.
pub open spec fn selects(q: QueryView, item: ItemView) -> bool {
    &&& q.text matches Some(t) ==> contains_seq(fold(item.title), fold(t)) || contains_seq(
        fold(author_text(item)),
        fold(t),
    )
    &&& q.file_types matches Some(types) ==> types.contains(item.file_type)
}

/// The selected items among the first `n` rows, ordered by title; items
/// with equal titles stay in the order of their rows.
pub open spec fn ordered_selection(rows: Seq<RowView>, q: QueryView, n: int) -> Seq<ItemView>
    decreases n,
{
    if n <= 0 || n > rows.len() {
        Seq::empty()
    } else if selects(q, rows[n - 1].item) {
        insert_by_title(ordered_selection(rows, q, n - 1), rows[n - 1].item)
    } else {
        ordered_selection(rows, q, n - 1)
    }
}

/// The number of items a query returns at most: its limit, or 100.
pub open spec fn limit_of(q: QueryView) -> int {
    match q.limit {
        Some(n) => n as int,
        None => 100,
    }
}

/// What a query returns: the selected items in title order, cut off at the
/// limit.
pub open spec fn query_result(rows: Seq<RowView>, q: QueryView) -> Seq<ItemView> {
    let all = ordered_selection(rows, q, rows.len() as int);
    if all.len() <= limit_of(q) {
        all
    } else {
        all.subrange(0, limit_of(q))
    }
}

/// The order of texts is strict: no two texts come before each other.
pub proof fn lemma_precedes_asymmetric(a: Seq<char>, b: Seq<char>, k: int)
    requires
        0 <= k,
    ensures
        !(precedes_from(a, b, k) && precedes_from(b, a, k)),
    decreases a.len() - k,
{
    if k < a.len() && k < b.len() && (a[k] as u32) == (b[k] as u32) {
        lemma_precedes_asymmetric(a, b, k + 1);
    }
}

/// The order of texts leaves no gaps: a text that comes before another
/// comes before any third text, or the third comes before the other.
pub proof fn lemma_precedes_between(c: Seq<char>, b: Seq<char>, a: Seq<char>, k: int)
    requires
        0 <= k,
        precedes_from(c, a, k),
    ensures
        precedes_from(c, b, k) || precedes_from(b, a, k),
    decreases a.len() - k,
{
    if k < a.len() && k < b.len() && k < c.len() && (a[k] as u32) == (b[k] as u32) && (b[k] as u32)
        == (c[k] as u32) {
        lemma_precedes_between(c, b, a, k + 1);
    }
}

/// No item sorts before an item that stands in front of it.
pub open spec fn title_ordered(items: Seq<ItemView>) -> bool {
    forall|i: int, j: int|
        0 <= i < j < items.len() ==> !sorts_before(#[trigger] items[j].title, #[trigger] items[i].title)
}

/// The insertion point splits the items: those in front of it do not sort
/// after the title, those behind it do.
pub proof fn lemma_insertion_point(sorted: Seq<ItemView>, title: Seq<char>, n: int)
    requires
        0 <= n <= sorted.len(),
    ensures
        0 <= insertion_point(sorted, title, n) <= n,
        forall|j: int|
            insertion_point(sorted, title, n) <= j < n ==> sorts_before(title, sorted[j].title),
        insertion_point(sorted, title, n) > 0 ==> !sorts_before(
            title,
            sorted[insertion_point(sorted, title, n) - 1].title,
        ),
    decreases n,
{
    if n > 0 && sorts_before(title, sorted[n - 1].title) {
        lemma_insertion_point(sorted, title, n - 1);
    }
}

/// Putting an item in by title keeps the items in title order.
pub proof fn lemma_insert_keeps_order(sorted: Seq<ItemView>, item: ItemView)
    requires
        title_ordered(sorted),
    ensures
        title_ordered(insert_by_title(sorted, item)),
{
    let k = insertion_point(sorted, item.title, sorted.len() as int);
    lemma_insertion_point(sorted, item.title, sorted.len() as int);
    let after = insert_by_title(sorted, item);
    assert forall|i: int, j: int| 0 <= i < j < after.len() implies !sorts_before(
        #[trigger] after[j].title,
        #[trigger] after[i].title,
    ) by {
        if j < k {
            assert(after[i] == sorted[i] && after[j] == sorted[j]);
        } else if j == k {
            // The new item against an item in front of it.
            assert(after[i] == sorted[i]);
            if sorts_before(item.title, sorted[i].title) {
                lemma_precedes_between(
                    fold(item.title),
                    fold(sorted[k - 1].title),
                    fold(sorted[i].title),
                    0,
                );
                assert(!sorts_before(sorted[k - 1].title, sorted[i].title));
            }
        } else if i == k {
            // An item behind the new item against the new item.
            assert(after[j] == sorted[j - 1]);
            lemma_precedes_asymmetric(fold(item.title), fold(sorted[j - 1].title), 0);
        } else if i < k {
            assert(after[i] == sorted[i] && after[j] == sorted[j - 1]);
        } else {
            assert(after[i] == sorted[i - 1] && after[j] == sorted[j - 1]);
        }
    }
}

/// The rows that the query selects among the first `n`, in the order of
/// the rows.
pub open spec fn selection(rows: Seq<RowView>, q: QueryView, n: int) -> Seq<ItemView>
    decreases n,
{
    if n <= 0 || n > rows.len() {
        Seq::empty()
    } else if selects(q, rows[n - 1].item) {
        selection(rows, q, n - 1).push(rows[n - 1].item)
    } else {
        selection(rows, q, n - 1)
    }
}

/// What a query finds before its limit cuts it off is in title order, and
/// it holds every selected item as often as the rows hold it.
pub proof fn law_selection_is_ordered(rows: Seq<RowView>, q: QueryView, n: int)
    ensures
        title_ordered(ordered_selection(rows, q, n)),
        ordered_selection(rows, q, n).to_multiset() == selection(rows, q, n).to_multiset(),
    decreases n,
{
    if n <= 0 || n > rows.len() {
    } else {
        law_selection_is_ordered(rows, q, n - 1);
        if selects(q, rows[n - 1].item) {
            let sorted = ordered_selection(rows, q, n - 1);
            let item = rows[n - 1].item;
            lemma_insert_keeps_order(sorted, item);
            lemma_insertion_point(sorted, item.title, sorted.len() as int);
            vstd::seq_lib::to_multiset_insert(
                sorted,
                insertion_point(sorted, item.title, sorted.len() as int),
                item,
            );
            vstd::seq_lib::to_multiset_build(selection(rows, q, n - 1), item);
        }
    }
}

/// What a query returns is in title order and no longer than its limit.
pub proof fn law_query_is_ordered_and_bounded(rows: Seq<RowView>, q: QueryView)
    ensures
        title_ordered(query_result(rows, q)),
        query_result(rows, q).len() <= limit_of(q),
{
    law_selection_is_ordered(rows, q, rows.len() as int);
}

/// Whether the text `a` comes strictly before the text `b`.
pub fn precedes(a: &Vec<char>, b: &Vec<char>) -> (out: bool)
    ensures
        out == precedes_from(a@, b@, 0),
{
    let mut k: usize = 0;
    loop
        invariant
            k <= a@.len(),
            k <= b@.len(),
            precedes_from(a@, b@, 0) == precedes_from(a@, b@, k as int),
        decreases a@.len() - k,
    {
        if k >= b.len() {
            return false;
        }
        if k >= a.len() {
            return true;
        }
        let ca = a[k] as u32;
        let cb = b[k] as u32;
        if ca < cb {
            return true;
        }
        if ca > cb {
            return false;
        }
        k += 1;
    }
}

} // verus!
