//! Natural ordering of names: runs of digits count as numbers, so that
//! `page2` comes before `page10`.

use std::cmp::Ordering;
use vstd::prelude::*;

verus! {

/// What `natord::compare` returns for two names: -1 where the first comes
/// before the second, 0 where neither comes first, 1 where the second comes
/// before the first.
pub uninterp spec fn natural_order(a: Seq<char>, b: Seq<char>) -> int;

/// Compares two names with `natord::compare`. The outcome depends on the
/// two names alone, and exchanging them reverses it: the comparison treats
/// its two sides alike.
#[verifier::external_body]
pub(crate) fn natural_order_of(a: &str, b: &str) -> (out: i8)
    ensures
        out == natural_order(a@, b@),
        -1 <= out <= 1,
        natural_order(b@, a@) == -out,
{
    match natord::compare(a, b) {
        Ordering::Less => -1,
        Ordering::Equal => 0,
        Ordering::Greater => 1,
    }
}

/// A named entry as plain values: its name and its bytes.
pub type EntryView = (Seq<char>, Seq<u8>);

/// The views of a list of named entries.
pub open spec fn entry_views(list: Seq<(String, Vec<u8>)>) -> Seq<EntryView> {
    list.map_values(|e: (String, Vec<u8>)| (e.0@, e.1@))
}

/// Where an entry with the name `name` goes among the first `n` entries of
/// `sorted`: behind every entry that does not come after it.
pub open spec fn natural_point(sorted: Seq<EntryView>, name: Seq<char>, n: int) -> int
    decreases n,
{
    if n <= 0 || n > sorted.len() {
        0
    } else if natural_order(sorted[n - 1].0, name) > 0 {
        natural_point(sorted, name, n - 1)
    } else {
        n
    }
}

/// The entries in natural order of their names; entries that compare equal
/// stay in the order they came in.
pub open spec fn natural_sort(entries: Seq<EntryView>) -> Seq<EntryView>
    decreases entries.len(),
{
    if entries.len() == 0 {
        Seq::empty()
    } else {
        let sorted = natural_sort(entries.drop_last());
        sorted.insert(
            natural_point(sorted, entries.last().0, sorted.len() as int),
            entries.last(),
        )
    }
}

/// Each entry is followed by one that does not come before it.
pub open spec fn naturally_ordered(entries: Seq<EntryView>) -> bool {
    forall|i: int|
        0 <= i < entries.len() - 1 ==> natural_order(
            #[trigger] entries[i].0,
            entries[i + 1].0,
        ) <= 0
}

/// Sorting keeps the entries, each as often as it came.
pub proof fn lemma_natural_sort_permutes(entries: Seq<EntryView>)
    ensures
        natural_sort(entries).len() == entries.len(),
        natural_sort(entries).to_multiset() == entries.to_multiset(),
    decreases entries.len(),
{
    if entries.len() == 0 {
        assert(natural_sort(entries) =~= entries);
    } else {
        let head = entries.drop_last();
        lemma_natural_sort_permutes(head);
        let sorted = natural_sort(head);
        let at = natural_point(sorted, entries.last().0, sorted.len() as int);
        lemma_natural_point_range(sorted, entries.last().0, sorted.len() as int);
        vstd::seq_lib::to_multiset_insert(sorted, at, entries.last());
        assert(head.push(entries.last()) =~= entries);
        vstd::seq_lib::to_multiset_build(head, entries.last());
    }
}

/// The insertion point lies among the entries it was sought in.
pub proof fn lemma_natural_point_range(sorted: Seq<EntryView>, name: Seq<char>, n: int)
    requires
        0 <= n <= sorted.len(),
    ensures
        0 <= natural_point(sorted, name, n) <= n,
    decreases n,
{
    if n > 0 && natural_order(sorted[n - 1].0, name) > 0 {
        lemma_natural_point_range(sorted, name, n - 1);
    }
}

/// Sorts named entries by the natural order of their names.
pub fn sort_filenames(entries: Vec<(String, Vec<u8>)>) -> (out: Vec<(String, Vec<u8>)>)
    ensures
        entry_views(out@) == natural_sort(entry_views(entries@)),
        naturally_ordered(entry_views(out@)),
        out@.len() == entries@.len(),
{
    let ghost all = entry_views(entries@);
    let mut out: Vec<(String, Vec<u8>)> = Vec::new();
    assert(all.subrange(0, 0) =~= Seq::<EntryView>::empty());
    assert(entry_views(out@) =~= natural_sort(all.subrange(0, 0)));
    for entry in it: entries
        invariant
            all == entry_views(entries@),
            it.seq() == entries@,
            out@.len() == it.index(),
            entry_views(out@) == natural_sort(all.subrange(0, it.index() as int)),
            naturally_ordered(entry_views(out@)),
    {
        let ghost sorted = entry_views(out@);
        let ghost name = entry.0@;
        let mut k: usize = out.len();
        while k > 0 && natural_order_of(out[k - 1].0.as_str(), entry.0.as_str()) > 0
            invariant
                k <= out@.len(),
                sorted == entry_views(out@),
                name == entry.0@,
                natural_point(sorted, name, sorted.len() as int) == natural_point(
                    sorted,
                    name,
                    k as int,
                ),
                k < out@.len() ==> natural_order(name, sorted[k as int].0) < 0,
            decreases k,
        {
            k -= 1;
        }
        let ghost item = (entry.0@, entry.1@);
        out.insert(k, entry);
        proof {
            let upto = all.subrange(0, it.index() + 1);
            assert(upto.drop_last() =~= all.subrange(0, it.index() as int));
            assert(upto.last() == item);
            assert(entry_views(out@) =~= sorted.insert(k as int, item));
            let after = entry_views(out@);
            assert forall|i: int| 0 <= i < after.len() - 1 implies natural_order(
                #[trigger] after[i].0,
                after[i + 1].0,
            ) <= 0 by {
                if i < k - 1 {
                    assert(after[i] == sorted[i] && after[i + 1] == sorted[i + 1]);
                } else if i == k - 1 {
                    assert(after[i] == sorted[i]);
                } else if i == k {
                    assert(after[i + 1] == sorted[i]);
                } else {
                    assert(after[i] == sorted[i - 1] && after[i + 1] == sorted[i]);
                    assert(natural_order(sorted[i - 1].0, sorted[i - 1 + 1].0) <= 0);
                }
            }
        }
    }
    assert(all.subrange(0, all.len() as int) =~= all);
    out
}

} // verus!
