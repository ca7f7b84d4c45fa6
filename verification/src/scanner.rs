//! The library scanner: walks the roots of a scan, reconciles every
//! candidate file against a store and tallies what came of it. Looking at
//! the file system is left to the program around the library, which tells
//! the walk what it found at each path and hands over the files it read.

use crate::catalog::{reconcile, upserted, Refusal, RowView};
use crate::chars::{lowercase, starts_with_seq};
use crate::database::{collision_message, not_a_file_message, reports, LibraryStore};
use crate::error::BlinkerError;
use crate::library::{
    copy_string, file_views, AddOutcome, FileView, OutcomeView, ScannedFile,
};
use crate::paths::path_extension;
use crate::types::{format_of, DocumentFormat};
use vstd::prelude::*;
use vstd::string::StringExecFns;

verus! {

/// What a scan did, in numbers, and what went wrong, file by file.
#[derive(Debug)]
pub struct ScanReport {
    /// Files whose extension is that of a supported format.
    pub total: usize,
    /// Files that were new to the catalog.
    pub new: usize,
    /// Files whose content had changed.
    pub updated: usize,
    /// One line for each file that failed, in the order of the scan.
    pub errors: Vec<String>,
}

/// A scan as mathematics: the counters, the files that were refused with the
/// reason of each, and the rows of the catalog.
pub struct Tally {
    pub total: nat,
    pub new: nat,
    pub updated: nat,
    pub refused: Seq<(Seq<char>, Refusal)>,
    pub rows: Seq<RowView>,
}

/// Whether the scanner takes the file up: it has an extension, and the
/// extension is that of a supported format. Every other file is passed over.
pub open spec fn is_candidate(file: FileView) -> bool {
    file.extension matches Some(ext) && format_of(lowercase(ext)) is Some
}

/// The tally after one more file.
pub open spec fn tally_file(t: Tally, file: FileView, now: i64) -> Tally {
    if !is_candidate(file) {
        t
    } else {
        match reconcile(t.rows, file) {
            Ok(outcome) => Tally {
                total: t.total + 1,
                new: t.new + if outcome is Created { 1nat } else { 0nat },
                updated: t.updated + if outcome is Updated { 1nat } else { 0nat },
                refused: t.refused,
                rows: upserted(t.rows, file, now),
            },
            Err(why) => Tally {
                total: t.total + 1,
                refused: t.refused.push((file.path, why)),
                ..t
            },
        }
    }
}

/// The tally after the files `files`, taken in order.
pub open spec fn tally_from(t: Tally, files: Seq<FileView>, now: i64) -> Tally
    decreases files.len(),
{
    if files.len() == 0 {
        t
    } else {
        tally_from(tally_file(t, files[0], now), files.drop_first(), now)
    }
}

/// The tally of a scan that starts on a catalog with the rows `rows`.
pub open spec fn scan(rows: Seq<RowView>, files: Seq<FileView>, now: i64) -> Tally {
    tally_from(
        Tally { total: 0, new: 0, updated: 0, refused: Seq::empty(), rows },
        files,
        now,
    )
}

/// The number of candidates among `files`.
pub open spec fn candidates(files: Seq<FileView>) -> nat
    decreases files.len(),
{
    if files.len() == 0 {
        0
    } else {
        candidates(files.drop_first()) + if is_candidate(files[0]) { 1nat } else { 0nat }
    }
}

/// How far a scan has come, on any store: the rows the store holds, and
/// how many candidates were met, created, updated and failed.
pub struct Progress {
    pub rows: Seq<RowView>,
    pub total: nat,
    pub new: nat,
    pub updated: nat,
    pub failed: nat,
}

/// The progress after the store has taken in the candidate `file`.
pub open spec fn after_success(p: Progress, file: FileView, now: i64) -> Progress {
    Progress {
        rows: upserted(p.rows, file, now),
        total: p.total + 1,
        new: p.new + if reconcile(p.rows, file) matches Ok(OutcomeView::Created(_)) {
            1nat
        } else {
            0nat
        },
        updated: p.updated + if reconcile(p.rows, file) matches Ok(OutcomeView::Updated(_)) {
            1nat
        } else {
            0nat
        },
        failed: p.failed,
    }
}

/// The progress after the store has failed on a candidate.
pub open spec fn after_failure(p: Progress) -> Progress {
    Progress { total: p.total + 1, failed: p.failed + 1, ..p }
}

/// Whether a scan of `files` that stands at `p` may end at `end`, whatever
/// store it runs on. A file that is no candidate changes nothing. Each
/// candidate is handed to the store once, in order: either the store takes
/// it in, which it may only where the catalog's rules accept the file, or
/// the store fails and keeps its rows.
pub open spec fn may_reach(p: Progress, files: Seq<FileView>, now: i64, end: Progress) -> bool
    decreases files.len(),
{
    if files.len() == 0 {
        end == p
    } else if !is_candidate(files[0]) {
        may_reach(p, files.drop_first(), now, end)
    } else {
        ||| reconcile(p.rows, files[0]) is Ok && may_reach(
            after_success(p, files[0], now),
            files.drop_first(),
            now,
            end,
        )
        ||| may_reach(after_failure(p), files.drop_first(), now, end)
    }
}

/// The progress that a report and the rows of a store stand for.
pub open spec fn progress_of(report: ScanReport, rows: Seq<RowView>) -> Progress {
    Progress {
        rows,
        total: report.total as nat,
        new: report.new as nat,
        updated: report.updated as nat,
        failed: report.errors@.len(),
    }
}

/// Where a scan starts on a store with the rows `rows`.
pub open spec fn at_start(rows: Seq<RowView>) -> Progress {
    Progress { rows, total: 0, new: 0, updated: 0, failed: 0 }
}

/// A scan without a candidate changes nothing, on any store.
pub proof fn law_no_candidate_no_change(p: Progress, files: Seq<FileView>, now: i64, end: Progress)
    requires
        candidates(files) == 0,
        may_reach(p, files, now, end),
    ensures
        end == p,
    decreases files.len(),
{
    if files.len() > 0 {
        law_no_candidate_no_change(p, files.drop_first(), now, end);
    }
}

/// On any store a scan counts every candidate once: in `total`, and there
/// as created, updated, unchanged or failed.
pub proof fn law_every_candidate_counts(p: Progress, files: Seq<FileView>, now: i64, end: Progress)
    requires
        may_reach(p, files, now, end),
    ensures
        end.total == p.total + candidates(files),
        end.new >= p.new,
        end.updated >= p.updated,
        end.failed >= p.failed,
        (end.new - p.new) + (end.updated - p.updated) + (end.failed - p.failed) <= candidates(
            files,
        ),
    decreases files.len(),
{
    if files.len() > 0 {
        let rest = files.drop_first();
        if !is_candidate(files[0]) {
            law_every_candidate_counts(p, rest, now, end);
        } else if reconcile(p.rows, files[0]) is Ok && may_reach(
            after_success(p, files[0], now),
            rest,
            now,
            end,
        ) {
            law_every_candidate_counts(after_success(p, files[0], now), rest, now, end);
        } else {
            law_every_candidate_counts(after_failure(p), rest, now, end);
        }
    }
}

/// Whether `line` is the report's line for a file at `path` that was
/// refused for the reason `why`: the path, a colon, and the error's text.
pub open spec fn is_error_line(line: Seq<char>, path: Seq<char>, why: Refusal) -> bool {
    match why {
        Refusal::Unreadable => starts_with_seq(line, path + ": IO error: "@),
        Refusal::NotAFile => line == path + ": Parsing error: "@ + not_a_file_message(path),
        Refusal::Collision => line == path + ": Database error: "@ + collision_message(),
    }
}

impl ScanReport {
    /// No file is counted twice: new items, updated items and failures are
    /// among the candidates.
    pub open spec fn consistent(&self) -> bool {
        self.new + self.updated + self.errors@.len() <= self.total
    }

    /// A report of a scan that has seen no file yet.
    pub fn new() -> (out: Self)
        ensures
            out.total == 0,
            out.new == 0,
            out.updated == 0,
            out.errors@.len() == 0,
    {
        ScanReport { total: 0, new: 0, updated: 0, errors: Vec::new() }
    }

    /// Counts one candidate at `path` whose reconciliation came to `result`:
    /// a created item as new, an overwritten one as updated, a failure as a
    /// line of `errors`.
    pub fn record(&mut self, path: &str, result: &Result<AddOutcome, BlinkerError>)
        requires
            old(self).total < usize::MAX,
            old(self).consistent(),
        ensures
            final(self).consistent(),
            final(self).total == old(self).total + 1,
            final(self).new == old(self).new + if result matches Ok(AddOutcome::Created { .. }) {
                1int
            } else {
                0int
            },
            final(self).updated == old(self).updated + if result matches Ok(
                AddOutcome::Updated { .. },
            ) {
                1int
            } else {
                0int
            },
            match result {
                Ok(_) => final(self).errors@ == old(self).errors@,
                Err(e) => final(self).errors@.len() == old(self).errors@.len() + 1
                    && final(self).errors@.subrange(0, old(self).errors@.len() as int) == old(
                    self,
                ).errors@
                    && starts_with_seq(final(self).errors@.last()@, path@ + ": "@ + e.prefix())
                    && (e.detail() matches Some(m) ==> final(self).errors@.last()@ == path@ + ": "@
                    + e.prefix() + m),
            },
    {
        self.total = self.total + 1;
        match result {
            Ok(AddOutcome::Created { .. }) => {
                self.new = self.new + 1;
            },
            Ok(AddOutcome::Updated { .. }) => {
                self.updated = self.updated + 1;
            },
            Ok(AddOutcome::Unchanged { .. }) => {},
            Err(e) => {
                let text = e.to_string();
                let line = String::from_str(path).concat(": ").concat(text.as_str());
                proof {
                    let head = path@ + ": "@;
                    assert(line@ == head + text@);
                    assert(text@.subrange(0, e.prefix().len() as int) == e.prefix());
                    assert(line@.subrange(0, (head + e.prefix()).len() as int) =~= head
                        + e.prefix());
                    if e.detail() is Some {
                        assert(line@ =~= head + e.prefix() + e.detail()->0);
                    }
                }
                let ghost before = self.errors@;
                self.errors.push(line);
                assert(self.errors@.subrange(0, before.len() as int) =~= before);
            },
        }
    }
}

/// Whether the report `report` and the rows `rows` are what the tally `t`
/// says: the same counters, the same rows, and one error line for each
/// refused file, in order.
pub open spec fn agrees(report: ScanReport, rows: Seq<RowView>, t: Tally) -> bool {
    &&& report.total == t.total
    &&& report.new == t.new
    &&& report.updated == t.updated
    &&& rows == t.rows
    &&& report.errors@.len() == t.refused.len()
    &&& forall|i: int|
        0 <= i < t.refused.len() ==> is_error_line(
            #[trigger] report.errors@[i]@,
            t.refused[i].0,
            t.refused[i].1,
        )
}

/// Walks over the files of a scan.
pub struct LibraryScanner;

impl LibraryScanner {
    pub fn new() -> (out: Self) {
        LibraryScanner
    }

    /// Reconciles the files of a scan against `store` at the time `now`,
    /// in order. A file without the extension of a supported format is
    /// passed over. A file that the store fails on is recorded in the
    /// report's errors, and the scan goes on with the next.
    ///
    /// On a reliable store the report and the store's rows are those of
    /// `scan`. On any store the scan ends where `may_reach` allows: every
    /// candidate, and no other file, is handed to the store once and
    /// counted by what came of it; without a candidate the store is left
    /// as it was.
    pub fn scan_paths<S: LibraryStore>(&self, store: &mut S, files: Vec<ScannedFile>, now: i64) -> (out:
        Result<ScanReport, BlinkerError>)
        ensures
            out is Ok,
            out->Ok_0.total == candidates(file_views(files@)),
            out->Ok_0.consistent(),
            final(store).reliable() == old(store).reliable(),
            old(store).reliable() ==> agrees(
                out->Ok_0,
                final(store).rows(),
                scan(old(store).rows(), file_views(files@), now),
            ),
            may_reach(
                at_start(old(store).rows()),
                file_views(files@),
                now,
                progress_of(out->Ok_0, final(store).rows()),
            ),
            candidates(file_views(files@)) == 0 ==> final(store).rows() == old(store).rows(),
    {
        let mut report = ScanReport::new();
        let ghost origin = at_start(store.rows());
        let ghost all = file_views(files@);
        let ghost start = Tally {
            total: 0,
            new: 0,
            updated: 0,
            refused: Seq::empty(),
            rows: store.rows(),
        };
        let ghost t = start;
        let ghost was_reliable = store.reliable();
        let count: usize = files.len();
        assert(all.subrange(0, all.len() as int) =~= all);
        for file in it: files
            invariant
                all == file_views(files@),
                it.seq() == files@,
                count == files@.len(),
                store.reliable() == was_reliable,
                report.consistent(),
                report.total <= it.index(),
                report.total + candidates(all.subrange(it.index() as int, all.len() as int))
                    == candidates(all),
                forall|end: Progress| #[trigger]
                    may_reach(
                        progress_of(report, store.rows()),
                        all.subrange(it.index() as int, all.len() as int),
                        now,
                        end,
                    ) ==> may_reach(origin, all, now, end),
                was_reliable ==> agrees(report, store.rows(), t),
                was_reliable ==> tally_from(
                    t,
                    all.subrange(it.index() as int, all.len() as int),
                    now,
                ) == tally_from(start, all, now),
        {
            let ghost rest = all.subrange(it.index() as int, all.len() as int);
            let ghost fv = file@;
            let ghost here = progress_of(report, store.rows());
            assert(rest[0] == fv);
            assert(rest.drop_first() =~= all.subrange(it.index() + 1, all.len() as int));
            if Walk::wants(&file.extension) {
                let path = copy_string(&file.path);
                let ghost before = store.rows();
                let ghost lines = report.errors@;
                let result = store.add_or_update_path(file, now);
                report.record(path.as_str(), &result);
                proof {
                    let next = tally_file(t, fv, now);
                    if was_reliable {
                        match result {
                            Ok(o) => {},
                            Err(e) => {
                                let why = reconcile(before, fv)->Err_0;
                                assert(reports(e, why, fv.path));
                                assert(next.refused == t.refused.push((fv.path, why)));
                                assert(is_error_line(report.errors@.last()@, fv.path, why)) by {
                                    lemma_line_prefix(fv.path);
                                }
                                assert forall|i: int| 0 <= i < next.refused.len() implies is_error_line(
                                    #[trigger] report.errors@[i]@,
                                    next.refused[i].0,
                                    next.refused[i].1,
                                ) by {
                                    if i < lines.len() {
                                        assert(report.errors@[i] == report.errors@.subrange(
                                            0,
                                            lines.len() as int,
                                        )[i]);
                                    }
                                }
                            },
                        }
                    }
                    t = next;
                }
            }
            proof {
                let there = progress_of(report, store.rows());
                assert forall|end: Progress| #[trigger]
                    may_reach(there, rest.drop_first(), now, end) implies may_reach(
                    origin,
                    all,
                    now,
                    end,
                ) by {
                    assert(may_reach(here, rest, now, end));
                }
            }
        }
        proof {
            let end = progress_of(report, store.rows());
            assert(may_reach(end, all.subrange(all.len() as int, all.len() as int), now, end));
            if candidates(all) == 0 {
                law_no_candidate_no_change(origin, all, now, end);
            }
        }
        Ok(report)
    }
}

/// What lies at a path of the walk.
#[derive(Debug)]
pub enum Found {
    /// A directory, with the paths of its entries that could be listed.
    Directory(Vec<String>),
    /// A regular file.
    File,
    /// Anything else, or nothing that can be examined.
    Other,
}

/// The walk over the roots of a scan: the paths that are still to be
/// looked at. The path that was added last is looked at first.
#[derive(Debug)]
pub struct Walk {
    pub pending: Vec<String>,
}

impl Walk {
    /// A walk that starts at `roots`.
    pub fn new(roots: Vec<String>) -> (out: Self)
        ensures
            out.pending == roots,
    {
        Walk { pending: roots }
    }

    /// The next path to look at; `None` when the walk is done.
    pub fn next(&mut self) -> (out: Option<String>)
        ensures
            match out {
                Some(path) => old(self).pending@.len() > 0 && path == old(self).pending@.last()
                    && final(self).pending@ == old(self).pending@.drop_last(),
                None => old(self).pending@.len() == 0 && final(self).pending@.len() == 0,
            },
    {
        self.pending.pop()
    }

    /// Whether a regular file is to be read: its name has an extension, and
    /// the extension is that of a supported format, in any letter case.
    pub fn wants(extension: &Option<String>) -> (read: bool)
        ensures
            read == (extension matches Some(e) && format_of(lowercase(e@)) is Some),
    {
        match extension {
            Some(ext) => DocumentFormat::from_extension(ext.as_str()).is_some(),
            None => false,
        }
    }

    /// Takes in what was found at `path`, and says whether the file there
    /// is to be read: the entries of a directory are added to the walk,
    /// whatever their depth; a regular file is to be read where its name has
    /// the extension of a supported format; everything else is passed over.
    pub fn resolve(&mut self, path: &str, found: Found) -> (read: bool)
        ensures
            match found {
                Found::Directory(entries) => !read && final(self).pending@ == old(self).pending@
                    + entries@,
                Found::File => final(self).pending@ == old(self).pending@,
                Found::Other => !read && final(self).pending@ == old(self).pending@,
            },
    {
        match found {
            Found::Directory(mut entries) => {
                self.pending.append(&mut entries);
                false
            },
            Found::File => {
                let extension = path_extension(path);
                Self::wants(&extension)
            },
            Found::Other => false,
        }
    }
}

/// Concatenation of the pieces of an error line associates.
proof fn lemma_line_prefix(path: Seq<char>)
    ensures
        path + ": "@ + "IO error: "@ =~= path + ": IO error: "@,
        forall|m: Seq<char>|
            path + ": "@ + "Parsing error: "@ + m =~= path + ": Parsing error: "@ + m,
        forall|m: Seq<char>|
            path + ": "@ + "Database error: "@ + m =~= path + ": Database error: "@ + m,
{
    reveal_strlit(": ");
    reveal_strlit("IO error: ");
    reveal_strlit(": IO error: ");
    reveal_strlit("Parsing error: ");
    reveal_strlit(": Parsing error: ");
    reveal_strlit("Database error: ");
    reveal_strlit(": Database error: ");
    assert(": "@ + "IO error: "@ =~= ": IO error: "@);
    assert(": "@ + "Parsing error: "@ =~= ": Parsing error: "@);
    assert(": "@ + "Database error: "@ =~= ": Database error: "@);
    assert(path + ": "@ + "IO error: "@ =~= path + (": "@ + "IO error: "@));
    assert forall|m: Seq<char>|
        path + ": "@ + "Parsing error: "@ + m =~= path + ": Parsing error: "@ + m by {
        assert(path + ": "@ + "Parsing error: "@ =~= path + (": "@ + "Parsing error: "@));
    }
    assert forall|m: Seq<char>|
        path + ": "@ + "Database error: "@ + m =~= path + ": Database error: "@ + m by {
        assert(path + ": "@ + "Database error: "@ =~= path + (": "@ + "Database error: "@));
    }
}

} // verus!
