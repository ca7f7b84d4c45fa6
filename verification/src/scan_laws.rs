//! What holds of every scan: a second scan of unchanged files finds nothing
//! new, changed content is detected, files of other formats are invisible,
//! and one failing file does not disturb the rest.

use crate::catalog::{
    index_of_id, index_of_path, knows_id, lemma_index_of_id, lemma_index_of_path, reconcile,
    upserted, Refusal, RowView,
};
use crate::library::{FileView, OutcomeView, ProbeView};
use crate::scanner::{is_candidate, scan, tally_file, tally_from, Tally};
use vstd::prelude::*;

verus! {

/// `at` is the index that `index_of_path` finds from `from` on.
proof fn lemma_path_index_is(rows: Seq<RowView>, path: Seq<char>, from: int, at: int)
    requires
        0 <= from <= at <= rows.len(),
        forall|k: int| from <= k < at ==> rows[k].item.file_path != path,
        at < rows.len() ==> rows[at].item.file_path == path,
    ensures
        index_of_path(rows, path, from) == at,
    decreases at - from,
{
    if from < at {
        lemma_path_index_is(rows, path, from + 1, at);
    }
}

/// `at` is the index that `index_of_id` finds from `from` on.
proof fn lemma_id_index_is(rows: Seq<RowView>, id: Seq<char>, from: int, at: int)
    requires
        0 <= from <= at <= rows.len(),
        forall|k: int| from <= k < at ==> rows[k].item.id != id,
        at < rows.len() ==> rows[at].item.id == id,
    ensures
        index_of_id(rows, id, from) == at,
    decreases at - from,
{
    if from < at {
        lemma_id_index_is(rows, id, from + 1, at);
    }
}

/// Two catalogs hold the same items, row by row. They may differ in when
/// each item was last seen.
pub open spec fn same_items(a: Seq<RowView>, b: Seq<RowView>) -> bool {
    &&& a.len() == b.len()
    &&& forall|i: int| 0 <= i < a.len() ==> a[i].item == b[i].item
}

/// Catalogs with the same paths and identifiers, row by row, find the same
/// rows.
proof fn lemma_same_keys(a: Seq<RowView>, b: Seq<RowView>, key: Seq<char>)
    requires
        a.len() == b.len(),
        forall|i: int|
            0 <= i < a.len() ==> a[i].item.file_path == b[i].item.file_path && a[i].item.id
                == b[i].item.id,
    ensures
        index_of_path(a, key, 0) == index_of_path(b, key, 0),
        index_of_id(a, key, 0) == index_of_id(b, key, 0),
{
    lemma_index_of_path(a, key, 0);
    lemma_path_index_is(b, key, 0, index_of_path(a, key, 0));
    lemma_index_of_id(a, key, 0);
    lemma_id_index_is(b, key, 0, index_of_id(a, key, 0));
}

/// What a new last row does to the search for a path and for an identifier.
proof fn lemma_pushed_keys(rows: Seq<RowView>, row: RowView, key: Seq<char>)
    ensures
        index_of_path(rows, key, 0) < rows.len() ==> index_of_path(rows.push(row), key, 0)
            == index_of_path(rows, key, 0),
        index_of_path(rows, key, 0) >= rows.len() && row.item.file_path == key ==> index_of_path(
            rows.push(row),
            key,
            0,
        ) == rows.len(),
        index_of_path(rows, key, 0) >= rows.len() && row.item.file_path != key ==> index_of_path(
            rows.push(row),
            key,
            0,
        ) == rows.len() + 1,
        index_of_id(rows, key, 0) < rows.len() ==> index_of_id(rows.push(row), key, 0)
            == index_of_id(rows, key, 0),
        row.item.id == key ==> index_of_id(rows.push(row), key, 0) <= rows.len(),
{
    let next = rows.push(row);
    lemma_index_of_path(rows, key, 0);
    let p = index_of_path(rows, key, 0);
    if p < rows.len() {
        lemma_path_index_is(next, key, 0, p);
    } else if row.item.file_path == key {
        lemma_path_index_is(next, key, 0, rows.len() as int);
    } else {
        lemma_path_index_is(next, key, 0, rows.len() as int + 1);
    }
    lemma_index_of_id(rows, key, 0);
    let q = index_of_id(rows, key, 0);
    if q < rows.len() {
        lemma_id_index_is(next, key, 0, q);
    } else if row.item.id == key {
        lemma_id_index_is(next, key, 0, rows.len() as int);
    }
}

/// The rows after the scanner has dealt with `file`.
pub open spec fn rows_after(rows: Seq<RowView>, file: FileView, now: i64) -> Seq<RowView> {
    if is_candidate(file) {
        upserted(rows, file, now)
    } else {
        rows
    }
}

/// The catalog has nothing to learn from `file`: it is no candidate, or it
/// cannot be read, or its path is known with this very content, or its path
/// is unknown and its identifier is taken.
pub open spec fn settled(rows: Seq<RowView>, file: FileView) -> bool {
    is_candidate(file) ==> match file.probe {
        ProbeView::Regular { size, hash } => {
            let at = index_of_path(rows, file.path, 0);
            if at < rows.len() {
                rows[at].item.file_hash == hash
            } else {
                knows_id(rows, hash)
            }
        },
        _ => true,
    }
}

/// Two files do not contradict each other: where both are regular files at
/// one path, they have one content.
pub open spec fn compatible(f: FileView, g: FileView) -> bool {
    f.path == g.path ==> match (f.probe, g.probe) {
        (ProbeView::Regular { hash: h1, .. }, ProbeView::Regular { hash: h2, .. }) => h1 == h2,
        _ => true,
    }
}

/// The files are one snapshot of a collection: no path occurs with two
/// different contents.
pub open spec fn one_snapshot(files: Seq<FileView>) -> bool {
    forall|i: int, j: int|
        0 <= i < files.len() && 0 <= j < files.len() ==> compatible(files[i], files[j])
}

/// Once the scanner has dealt with a file, the file is settled.
proof fn lemma_settles(rows: Seq<RowView>, g: FileView, now: i64)
    ensures
        settled(rows_after(rows, g, now), g),
{
    if is_candidate(g) {
        match g.probe {
            ProbeView::Regular { size, hash } => {
                let at = index_of_path(rows, g.path, 0);
                lemma_index_of_path(rows, g.path, 0);
                let next = upserted(rows, g, now);
                if at < rows.len() {
                    lemma_same_keys(rows, next, g.path);
                } else if knows_id(rows, hash) {
                } else {
                    lemma_pushed_keys(rows, next.last(), g.path);
                    assert(next =~= rows.push(next.last()));
                }
            },
            _ => {},
        }
    }
}

/// A settled file stays settled when the scanner deals with another file of
/// the same snapshot.
proof fn lemma_stays_settled(rows: Seq<RowView>, g: FileView, f: FileView, now: i64)
    requires
        settled(rows, f),
        compatible(f, g),
    ensures
        settled(rows_after(rows, g, now), f),
{
    if is_candidate(g) && is_candidate(f) {
        match (g.probe, f.probe) {
            (ProbeView::Regular { size, hash }, ProbeView::Regular { size: fsize, hash: fhash }) => {
                let at = index_of_path(rows, g.path, 0);
                lemma_index_of_path(rows, g.path, 0);
                lemma_index_of_path(rows, f.path, 0);
                lemma_index_of_id(rows, fhash, 0);
                let next = upserted(rows, g, now);
                if at < rows.len() {
                    lemma_same_keys(rows, next, f.path);
                    lemma_same_keys(rows, next, fhash);
                } else if knows_id(rows, hash) {
                } else {
                    assert(next =~= rows.push(next.last()));
                    lemma_pushed_keys(rows, next.last(), f.path);
                    lemma_pushed_keys(rows, next.last(), fhash);
                }
            },
            _ => {},
        }
    }
}

/// After a scan of one snapshot, every file of it is settled.
proof fn lemma_scan_settles(t: Tally, done: Seq<FileView>, files: Seq<FileView>, now: i64)
    requires
        one_snapshot(done + files),
        forall|k: int| 0 <= k < done.len() ==> settled(t.rows, done[k]),
    ensures
        forall|k: int|
            0 <= k < (done + files).len() ==> settled(
                tally_from(t, files, now).rows,
                #[trigger] (done + files)[k],
            ),
    decreases files.len(),
{
    if files.len() == 0 {
        assert(done + files =~= done);
    } else {
        let g = files[0];
        let next = tally_file(t, g, now);
        let all = done + files;
        assert(next.rows == rows_after(t.rows, g, now));
        assert(all[done.len() as int] == g);
        let done2 = done.push(g);
        assert(done2 + files.drop_first() =~= all);
        assert forall|k: int| 0 <= k < done2.len() implies settled(next.rows, done2[k]) by {
            if k < done.len() {
                assert(all[k] == done[k]);
                assert(compatible(all[k], all[done.len() as int]));
                lemma_stays_settled(t.rows, g, done[k], now);
            } else {
                lemma_settles(t.rows, g, now);
            }
        }
        lemma_scan_settles(next, done2, files.drop_first(), now);
    }
}

/// A scan of settled files creates nothing, updates nothing and keeps every
/// item as it is.
proof fn lemma_settled_scan(t: Tally, files: Seq<FileView>, now: i64)
    requires
        forall|k: int| 0 <= k < files.len() ==> settled(t.rows, files[k]),
    ensures
        tally_from(t, files, now).new == t.new,
        tally_from(t, files, now).updated == t.updated,
        same_items(tally_from(t, files, now).rows, t.rows),
    decreases files.len(),
{
    if files.len() > 0 {
        let g = files[0];
        let next = tally_file(t, g, now);
        lemma_index_of_path(t.rows, g.path, 0);
        assert(settled(t.rows, g));
        assert(same_items(next.rows, t.rows));
        assert(next.new == t.new && next.updated == t.updated);
        let rest = files.drop_first();
        assert forall|k: int| 0 <= k < rest.len() implies settled(next.rows, rest[k]) by {
            let f = rest[k];
            assert(f == files[k + 1]);
            assert(settled(t.rows, f));
            lemma_same_keys(t.rows, next.rows, f.path);
            match f.probe {
                ProbeView::Regular { size, hash } => {
                    lemma_same_keys(t.rows, next.rows, hash);
                    lemma_index_of_path(t.rows, f.path, 0);
                },
                _ => {},
            }
        }
        lemma_settled_scan(next, rest, now);
    }
}

/// Scanning the same unchanged files twice: the second scan finds nothing
/// new and nothing updated, and leaves every item, its identifier with it,
/// as the first scan left it.
pub proof fn law_second_scan_is_quiet(rows: Seq<RowView>, files: Seq<FileView>, first: i64, second: i64)
    requires
        one_snapshot(files),
    ensures
        scan(scan(rows, files, first).rows, files, second).new == 0,
        scan(scan(rows, files, first).rows, files, second).updated == 0,
        same_items(
            scan(scan(rows, files, first).rows, files, second).rows,
            scan(rows, files, first).rows,
        ),
{
    let start = Tally { total: 0, new: 0, updated: 0, refused: Seq::empty(), rows };
    let none = Seq::<FileView>::empty();
    assert(none + files =~= files);
    lemma_scan_settles(start, none, files, first);
    let after = scan(rows, files, first);
    let again = Tally { total: 0, new: 0, updated: 0, refused: Seq::empty(), rows: after.rows };
    assert forall|k: int| 0 <= k < files.len() implies settled(again.rows, files[k]) by {
        assert((none + files)[k] == files[k]);
    }
    lemma_settled_scan(again, files, second);
}

/// A file whose bytes changed between two scans: where the first scan took
/// the file in, the second reports it as updated and as nothing else, keeps
/// its identifier, and stores the new hash and the new size.
pub proof fn law_change_is_detected(
    rows: Seq<RowView>,
    old_file: FileView,
    new_file: FileView,
    first: i64,
    second: i64,
)
    requires
        is_candidate(old_file),
        is_candidate(new_file),
        old_file.path == new_file.path,
        old_file.probe is Regular,
        new_file.probe is Regular,
        old_file.probe->Regular_hash != new_file.probe->Regular_hash,
        reconcile(rows, old_file) is Ok,
    ensures
        ({
            let before = scan(rows, seq![old_file], first).rows;
            let t = scan(before, seq![new_file], second);
            let at = index_of_path(before, new_file.path, 0);
            &&& at < before.len()
            &&& reconcile(before, new_file) == Ok::<OutcomeView, Refusal>(
                OutcomeView::Updated(before[at].item.id),
            )
            &&& t.total == 1 && t.new == 0 && t.updated == 1 && t.refused.len() == 0
            &&& t.rows.len() == before.len()
            &&& t.rows[at].item.id == before[at].item.id
            &&& t.rows[at].item.file_path == new_file.path
            &&& t.rows[at].item.file_hash == new_file.probe->Regular_hash
            &&& t.rows[at].item.file_size == new_file.probe->Regular_size
        }),
{
    let start = Tally { total: 0, new: 0, updated: 0, refused: Seq::empty(), rows };
    assert(seq![old_file].drop_first() =~= Seq::<FileView>::empty());
    assert(seq![new_file].drop_first() =~= Seq::<FileView>::empty());
    let one = tally_file(start, old_file, first);
    assert(tally_from(one, seq![old_file].drop_first(), first) == one);
    assert(scan(rows, seq![old_file], first) == one);
    let before = one.rows;
    assert(before == rows_after(rows, old_file, first));
    lemma_settles(rows, old_file, first);
    lemma_index_of_path(rows, old_file.path, 0);
    lemma_index_of_path(before, new_file.path, 0);
    let at0 = index_of_path(rows, old_file.path, 0);
    if at0 < rows.len() {
        lemma_same_keys(rows, before, old_file.path);
    } else {
        assert(before =~= rows.push(before.last()));
        lemma_pushed_keys(rows, before.last(), old_file.path);
    }
    let again = Tally { total: 0, new: 0, updated: 0, refused: Seq::empty(), rows: before };
    let two = tally_file(again, new_file, second);
    assert(tally_from(two, seq![new_file].drop_first(), second) == two);
}

/// The rows hold the path `path` with the content `hash`.
pub open spec fn holds(rows: Seq<RowView>, path: Seq<char>, hash: Seq<char>) -> bool {
    let at = index_of_path(rows, path, 0);
    at < rows.len() && rows[at].item.file_hash == hash
}

/// No two of the files lie at one path.
pub open spec fn distinct_paths(files: Seq<FileView>) -> bool {
    forall|i: int, j: int| 0 <= i < j < files.len() ==> files[i].path != files[j].path
}

/// `after` lists the files of `before` again, each at its path and under
/// its name; their contents may differ.
pub open spec fn same_files(before: Seq<FileView>, after: Seq<FileView>) -> bool {
    &&& before.len() == after.len()
    &&& forall|i: int|
        0 <= i < before.len() ==> (#[trigger] after[i]).path == before[i].path
            && after[i].extension == before[i].extension
}

/// The content hash of a file, where it was read.
pub open spec fn hash_of(file: FileView) -> Option<Seq<char>> {
    match file.probe {
        ProbeView::Regular { size, hash } => Some(hash),
        _ => None,
    }
}

/// How many candidates have another content in `after` than in `before`.
pub open spec fn changed(before: Seq<FileView>, after: Seq<FileView>) -> nat
    decreases after.len(),
{
    if after.len() == 0 || before.len() != after.len() {
        0
    } else {
        changed(before.drop_first(), after.drop_first()) + if is_candidate(after[0]) && hash_of(
            after[0],
        ) != hash_of(before[0]) {
            1nat
        } else {
            0nat
        }
    }
}

/// A scan never takes a refusal back.
proof fn lemma_refusals_grow(t: Tally, files: Seq<FileView>, now: i64)
    ensures
        tally_from(t, files, now).refused.len() >= t.refused.len(),
    decreases files.len(),
{
    if files.len() > 0 {
        lemma_refusals_grow(tally_file(t, files[0], now), files.drop_first(), now);
    }
}

/// A scan counts its candidates in `total`.
proof fn lemma_total_counts(t: Tally, files: Seq<FileView>, now: i64)
    ensures
        tally_from(t, files, now).total == t.total + crate::scanner::candidates(files),
    decreases files.len(),
{
    if files.len() > 0 {
        lemma_total_counts(tally_file(t, files[0], now), files.drop_first(), now);
    }
}

/// The same files have the same candidates.
proof fn lemma_same_candidates(before: Seq<FileView>, after: Seq<FileView>)
    requires
        same_files(before, after),
    ensures
        crate::scanner::candidates(before) == crate::scanner::candidates(after),
    decreases after.len(),
{
    if after.len() > 0 {
        assert(after[0].extension == before[0].extension);
        let b = before.drop_first();
        let a = after.drop_first();
        assert forall|i: int| 0 <= i < b.len() implies (#[trigger] a[i]).path == b[i].path
            && a[i].extension == b[i].extension by {
            assert(a[i] == after[i + 1]);
        }
        lemma_same_candidates(b, a);
    }
}

/// A candidate that the catalog accepts is held with its content afterwards.
proof fn lemma_accepted_is_held(rows: Seq<RowView>, g: FileView, now: i64)
    requires
        is_candidate(g),
        reconcile(rows, g) is Ok,
    ensures
        g.probe is Regular,
        holds(rows_after(rows, g, now), g.path, g.probe->Regular_hash),
{
    lemma_settles(rows, g, now);
    lemma_index_of_path(rows, g.path, 0);
    let next = upserted(rows, g, now);
    if index_of_path(rows, g.path, 0) < rows.len() {
        lemma_same_keys(rows, next, g.path);
    } else {
        assert(next =~= rows.push(next.last()));
        lemma_pushed_keys(rows, next.last(), g.path);
    }
}

/// What the rows hold at one path is untouched by a file at another path.
proof fn lemma_other_path_is_kept(
    rows: Seq<RowView>,
    g: FileView,
    path: Seq<char>,
    hash: Seq<char>,
    now: i64,
)
    requires
        holds(rows, path, hash),
        g.path != path,
    ensures
        holds(rows_after(rows, g, now), path, hash),
{
    if is_candidate(g) {
        match g.probe {
            ProbeView::Regular { size, hash: ghash } => {
                lemma_index_of_path(rows, g.path, 0);
                lemma_index_of_path(rows, path, 0);
                let next = upserted(rows, g, now);
                if index_of_path(rows, g.path, 0) < rows.len() {
                    lemma_same_keys(rows, next, path);
                } else if knows_id(rows, ghash) {
                } else {
                    assert(next =~= rows.push(next.last()));
                    lemma_pushed_keys(rows, next.last(), path);
                }
            },
            _ => {},
        }
    }
}

/// What the rows hold at a path is untouched by a scan of files at other
/// paths.
proof fn lemma_scan_keeps_other_paths(
    t: Tally,
    files: Seq<FileView>,
    path: Seq<char>,
    hash: Seq<char>,
    now: i64,
)
    requires
        holds(t.rows, path, hash),
        forall|j: int| 0 <= j < files.len() ==> (#[trigger] files[j]).path != path,
    ensures
        holds(tally_from(t, files, now).rows, path, hash),
    decreases files.len(),
{
    if files.len() > 0 {
        let next = tally_file(t, files[0], now);
        assert(next.rows == rows_after(t.rows, files[0], now));
        lemma_other_path_is_kept(t.rows, files[0], path, hash, now);
        let rest = files.drop_first();
        assert forall|j: int| 0 <= j < rest.len() implies (#[trigger] rest[j]).path != path by {
            assert(rest[j] == files[j + 1]);
        }
        lemma_scan_keeps_other_paths(next, rest, path, hash, now);
    }
}

/// After a scan without a refusal, every candidate was read and is held
/// with its content.
proof fn lemma_unrefused_scan_holds(t: Tally, files: Seq<FileView>, now: i64)
    requires
        distinct_paths(files),
        tally_from(t, files, now).refused.len() == t.refused.len(),
    ensures
        forall|k: int|
            0 <= k < files.len() && is_candidate(#[trigger] files[k]) ==> files[k].probe
                is Regular && holds(
                tally_from(t, files, now).rows,
                files[k].path,
                files[k].probe->Regular_hash,
            ),
    decreases files.len(),
{
    if files.len() > 0 {
        let f = files[0];
        let next = tally_file(t, f, now);
        let rest = files.drop_first();
        lemma_refusals_grow(next, rest, now);
        assert(next.rows == rows_after(t.rows, f, now));
        assert forall|j: int| 0 <= j < rest.len() implies (#[trigger] rest[j]).path != f.path by {
            assert(rest[j] == files[j + 1]);
        }
        assert(distinct_paths(rest)) by {
            assert forall|i: int, j: int| 0 <= i < j < rest.len() implies rest[i].path
                != rest[j].path by {
                assert(rest[i] == files[i + 1] && rest[j] == files[j + 1]);
            }
        }
        lemma_unrefused_scan_holds(next, rest, now);
        let end = tally_from(t, files, now);
        assert forall|k: int|
            0 <= k < files.len() && is_candidate(#[trigger] files[k]) implies files[k].probe
            is Regular && holds(end.rows, files[k].path, files[k].probe->Regular_hash) by {
            if k == 0 {
                lemma_accepted_is_held(t.rows, f, now);
                lemma_scan_keeps_other_paths(next, rest, f.path, f.probe->Regular_hash, now);
            } else {
                assert(files[k] == rest[k - 1]);
            }
        }
    }
}

/// A scan of files that the catalog holds: each candidate whose content
/// differs from what is held counts as updated, no other does, nothing is
/// new and nothing is refused.
proof fn lemma_changes_counted(t: Tally, before: Seq<FileView>, after: Seq<FileView>, now: i64)
    requires
        same_files(before, after),
        distinct_paths(after),
        forall|k: int|
            0 <= k < after.len() && is_candidate(#[trigger] after[k]) ==> after[k].probe
                is Regular && before[k].probe is Regular && holds(
                t.rows,
                after[k].path,
                before[k].probe->Regular_hash,
            ),
    ensures
        tally_from(t, after, now).updated == t.updated + changed(before, after),
        tally_from(t, after, now).new == t.new,
        tally_from(t, after, now).refused == t.refused,
    decreases after.len(),
{
    if after.len() > 0 {
        let a = after[0];
        let next = tally_file(t, a, now);
        let b = before.drop_first();
        let rest = after.drop_first();
        assert(is_candidate(a) ==> holds(t.rows, a.path, before[0].probe->Regular_hash));
        lemma_index_of_path(t.rows, a.path, 0);
        assert(next.rows == rows_after(t.rows, a, now));
        assert forall|i: int| 0 <= i < b.len() implies (#[trigger] rest[i]).path == b[i].path
            && rest[i].extension == b[i].extension by {
            assert(rest[i] == after[i + 1]);
        }
        assert(distinct_paths(rest)) by {
            assert forall|i: int, j: int| 0 <= i < j < rest.len() implies rest[i].path
                != rest[j].path by {
                assert(rest[i] == after[i + 1] && rest[j] == after[j + 1]);
            }
        }
        assert forall|k: int|
            0 <= k < rest.len() && is_candidate(#[trigger] rest[k]) implies rest[k].probe
            is Regular && b[k].probe is Regular && holds(
            next.rows,
            rest[k].path,
            b[k].probe->Regular_hash,
        ) by {
            assert(rest[k] == after[k + 1]);
            assert(b[k] == before[k + 1]);
            lemma_other_path_is_kept(
                t.rows,
                a,
                rest[k].path,
                b[k].probe->Regular_hash,
                now,
            );
        }
        lemma_changes_counted(next, b, rest, now);
    }
}

/// Any number of files whose bytes changed between two scans: where the
/// first scan took every file in, the second counts exactly the changed
/// files as updated, finds nothing new, counts the same files in all, and
/// has no error.
pub proof fn law_changes_are_counted(
    rows: Seq<RowView>,
    before: Seq<FileView>,
    after: Seq<FileView>,
    first: i64,
    second: i64,
)
    requires
        distinct_paths(before),
        same_files(before, after),
        forall|k: int|
            0 <= k < after.len() && is_candidate(#[trigger] after[k]) ==> after[k].probe
                is Regular,
        scan(rows, before, first).refused.len() == 0,
    ensures
        scan(scan(rows, before, first).rows, after, second).updated == changed(before, after),
        scan(scan(rows, before, first).rows, after, second).new == 0,
        scan(scan(rows, before, first).rows, after, second).total == scan(
            rows,
            before,
            first,
        ).total,
        scan(scan(rows, before, first).rows, after, second).refused.len() == 0,
{
    let start = Tally { total: 0, new: 0, updated: 0, refused: Seq::empty(), rows };
    lemma_unrefused_scan_holds(start, before, first);
    let t1 = scan(rows, before, first);
    let again = Tally { total: 0, new: 0, updated: 0, refused: Seq::empty(), rows: t1.rows };
    assert(distinct_paths(after)) by {
        assert forall|i: int, j: int| 0 <= i < j < after.len() implies after[i].path
            != after[j].path by {
            assert(after[i].path == before[i].path && after[j].path == before[j].path);
        }
    }
    assert forall|k: int|
        0 <= k < after.len() && is_candidate(#[trigger] after[k]) implies after[k].probe
        is Regular && before[k].probe is Regular && holds(
        again.rows,
        after[k].path,
        before[k].probe->Regular_hash,
    ) by {
        assert(after[k].extension == before[k].extension);
        assert(is_candidate(before[k]));
    }
    lemma_changes_counted(again, before, after, second);
    lemma_total_counts(start, before, first);
    lemma_total_counts(again, after, second);
    lemma_same_candidates(before, after);
}

/// Scanning `a` and then `b` is scanning `a + b`.
pub proof fn lemma_tally_concat(t: Tally, a: Seq<FileView>, b: Seq<FileView>, now: i64)
    ensures
        tally_from(t, a + b, now) == tally_from(tally_from(t, a, now), b, now),
    decreases a.len(),
{
    if a.len() == 0 {
        assert(a + b =~= b);
    } else {
        assert((a + b)[0] == a[0]);
        assert((a + b).drop_first() =~= a.drop_first() + b);
        lemma_tally_concat(tally_file(t, a[0], now), a.drop_first(), b, now);
    }
}

/// A file without the extension of a supported format is invisible to the
/// scan: wherever it stands among the files, counters, errors and rows are
/// what they are without it.
pub proof fn law_other_formats_are_invisible(
    rows: Seq<RowView>,
    before: Seq<FileView>,
    file: FileView,
    after: Seq<FileView>,
    now: i64,
)
    requires
        !is_candidate(file),
    ensures
        scan(rows, before + seq![file] + after, now) == scan(rows, before + after, now),
{
    let start = Tally { total: 0, new: 0, updated: 0, refused: Seq::empty(), rows };
    lemma_tally_concat(start, before + seq![file], after, now);
    lemma_tally_concat(start, before, seq![file], now);
    lemma_tally_concat(start, before, after, now);
    let mid = tally_from(start, before, now);
    assert(seq![file].drop_first() =~= Seq::<FileView>::empty());
    assert(tally_from(mid, seq![file], now) == tally_from(
        tally_file(mid, file, now),
        seq![file].drop_first(),
        now,
    ));
}

/// Two tallies that differ by one refused file, `entry`, at position `k` of
/// the refusals.
pub open spec fn one_more_refusal(with: Tally, without: Tally, k: int, entry: (Seq<char>, Refusal)) -> bool {
    &&& with.total == without.total + 1
    &&& with.new == without.new
    &&& with.updated == without.updated
    &&& with.rows == without.rows
    &&& 0 <= k <= without.refused.len()
    &&& with.refused == without.refused.insert(k, entry)
}

/// A refusal that lies behind stays the only difference as the scan goes on.
proof fn lemma_refusal_carries(
    with: Tally,
    without: Tally,
    k: int,
    entry: (Seq<char>, Refusal),
    files: Seq<FileView>,
    now: i64,
)
    requires
        one_more_refusal(with, without, k, entry),
    ensures
        one_more_refusal(tally_from(with, files, now), tally_from(without, files, now), k, entry),
    decreases files.len(),
{
    if files.len() > 0 {
        let a = tally_file(with, files[0], now);
        let b = tally_file(without, files[0], now);
        assert(a.refused =~= b.refused.insert(k, entry));
        lemma_refusal_carries(a, b, k, entry, files.drop_first(), now);
    }
}

/// One file that cannot be read, among any others: it is counted in
/// `total`, adds exactly one entry to the errors, and the other files are
/// reconciled and counted as they are without it.
pub proof fn law_failure_is_isolated(
    rows: Seq<RowView>,
    before: Seq<FileView>,
    file: FileView,
    after: Seq<FileView>,
    now: i64,
)
    requires
        is_candidate(file),
        file.probe is Unreadable,
    ensures
        one_more_refusal(
            scan(rows, before + seq![file] + after, now),
            scan(rows, before + after, now),
            scan(rows, before, now).refused.len() as int,
            (file.path, Refusal::Unreadable),
        ),
{
    let start = Tally { total: 0, new: 0, updated: 0, refused: Seq::empty(), rows };
    lemma_tally_concat(start, before + seq![file], after, now);
    lemma_tally_concat(start, before, seq![file], now);
    lemma_tally_concat(start, before, after, now);
    let mid = tally_from(start, before, now);
    let hit = tally_file(mid, file, now);
    assert(seq![file].drop_first() =~= Seq::<FileView>::empty());
    assert(tally_from(mid, seq![file], now) == tally_from(hit, seq![file].drop_first(), now));
    let k = mid.refused.len() as int;
    let entry = (file.path, Refusal::Unreadable);
    assert(hit.refused =~= mid.refused.insert(k, entry));
    lemma_refusal_carries(hit, mid, k, entry, after, now);
}

} // verus!
