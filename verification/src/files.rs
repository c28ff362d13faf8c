//! The tools that look for files.
use vstd::prelude::*;

use crate::execution::{refused, FoundFile, ToolData, ToolExecution};
use crate::intent::IntentParams;
use crate::scope::path_view;
use crate::search::{query_text, search_criteria, sought, text_view, FileMetadata};
use crate::text::{decimal, glue3, lossy, lossy_text, lowers_ascii, shows_utf8, to_decimal};
use crate::walk::{
    accepts, collect_files, collected, FilePredicate, FileWalk, PredicateView, Tree, MAX_RESULTS,
};

verus! {

/// The bytes in a megabyte.
pub const MEGABYTE: u64 = 1_048_576;

/// The path that the filters of a search give.
pub open spec fn filter_path(params: IntentParams) -> Option<Seq<char>> {
    match params.filters {
        Some(f) => text_view(f.path),
        None => None,
    }
}

/// The path that the filters of a search give.
pub fn search_path(params: &IntentParams) -> (r: Option<&str>)
    ensures
        path_view(r) == filter_path(*params),
{
    match &params.filters {
        Some(f) => match &f.path {
            Some(path) => Some(path.as_str()),
            None => None,
        },
        None => None,
    }
}

/// Starts the search that the parameters of an intent ask for, in the folder
/// `root`.
pub fn start_search(params: &IntentParams, root: Vec<u8>) -> (r: FileWalk)
    ensures
        r.wf(),
        r.wants() == Some(root@),
        forall|tree: Tree| #[trigger]
            r.outcome(tree) == collected(
                tree,
                PredicateView::Search(sought(*params)),
                root@,
                0,
                Seq::empty(),
            ),
        r.seeks() == PredicateView::Search(sought(*params)),
        lowers_ascii(query_text(*params)),
{
    collect_files(root, FilePredicate::Search(search_criteria(params)))
}

/// The report on a search in the folder `root`.
pub fn search_files(root: &[u8], files: Vec<FoundFile>) -> (r: ToolExecution)
    ensures
        r.tool@ == "search_files"@,
        r.summary@ == "Found "@ + decimal(files@.len()) + (" matching file(s) in "@ + lossy_text(
            root@,
        ) + "."@),
        r.data matches ToolData::Files { files: listed, truncated } && listed == files && truncated
            == (files@.len() == MAX_RESULTS),
        shows_utf8(root@),
{
    let count = files.len();
    let digits = to_decimal(count as u64);
    let shown = lossy(root);
    let place = glue3(" matching file(s) in ", shown.as_str(), ".");
    ToolExecution {
        tool: "search_files".to_owned(),
        summary: glue3("Found ", digits.as_str(), place.as_str()),
        data: ToolData::Files { files, truncated: count == MAX_RESULTS },
    }
}

/// The size, in bytes, from which on a file counts as large: so many megabytes, or
/// the largest size there is where they are more.
pub open spec fn threshold_bytes(threshold_mb: u64) -> u64 {
    if threshold_mb * MEGABYTE > u64::MAX {
        u64::MAX
    } else {
        (threshold_mb * MEGABYTE) as u64
    }
}

fn large_from(threshold_mb: u64) -> (r: u64)
    ensures
        r == threshold_bytes(threshold_mb),
{
    let wide: u128 = threshold_mb as u128 * 1_048_576;
    if wide > u64::MAX as u128 {
        u64::MAX
    } else {
        wide as u64
    }
}

/// Starts the listing of large files that the parameters of an intent ask for, in
/// the folder `root`. The size comes with it.
pub fn start_large_files(params: &IntentParams, root: Vec<u8>) -> (r: Result<
    (u64, FileWalk),
    String,
>)
    ensures
        match params.threshold_mb {
            None => refused(r, "A threshold_mb value is required."@),
            Some(mb) => r matches Ok(x) && x.0 == mb && x.1.wf() && x.1.wants() == Some(root@)
                && x.1.seeks() == PredicateView::AtLeast(threshold_bytes(mb)) && (forall|
                path: Seq<u8>,
                file: FileMetadata,
            | #[trigger]
                accepts(x.1.seeks(), path, file) <==> (file.len >= mb * 1_048_576 || (mb * 1_048_576
                    > u64::MAX && file.len == u64::MAX))) && forall|tree: Tree|
                #[trigger]
                x.1.outcome(tree) == collected(
                    tree,
                    PredicateView::AtLeast(threshold_bytes(mb)),
                    root@,
                    0,
                    Seq::empty(),
                ),
        },
{
    match params.threshold_mb {
        None => Err("A threshold_mb value is required.".to_owned()),
        Some(mb) => Ok((mb, collect_files(root, FilePredicate::AtLeast(large_from(mb))))),
    }
}

/// The largest come first.
pub open spec fn largest_first(files: Seq<FoundFile>) -> bool {
    forall|i: int, j: int|
        0 <= i < j < files.len() ==> (#[trigger] files[i]).size_bytes >= (
        #[trigger] files[j]).size_bytes
}

/// The files with `bytes` bytes, in their order.
pub open spec fn of_size(files: Seq<FoundFile>, bytes: u64) -> Seq<FoundFile> {
    files.filter(|f: FoundFile| f.size_bytes == bytes)
}

/// `sorted` holds the files of `files`, the largest first, and those of one size in
/// the order in which they were.
pub open spec fn is_stable_sort(sorted: Seq<FoundFile>, files: Seq<FoundFile>) -> bool {
    largest_first(sorted) && forall|bytes: u64| #[trigger]
        of_size(sorted, bytes) == of_size(files, bytes)
}

/// There is no more than one such order.
pub proof fn stable_sort_is_unique(a: Seq<FoundFile>, b: Seq<FoundFile>, files: Seq<FoundFile>)
    requires
        is_stable_sort(a, files),
        is_stable_sort(b, files),
    ensures
        a == b,
{
    assert forall|bytes: u64| #[trigger] of_size(a, bytes) == of_size(b, bytes) by {
        assert(of_size(a, bytes) == of_size(files, bytes));
    }
    same_order(a, b);
}

proof fn same_order(a: Seq<FoundFile>, b: Seq<FoundFile>)
    requires
        largest_first(a),
        largest_first(b),
        forall|bytes: u64| #[trigger] of_size(a, bytes) == of_size(b, bytes),
    ensures
        a == b,
    decreases a.len(),
{
    reveal(Seq::filter);
    if a.len() == 0 {
        if b.len() > 0 {
            let n = b.last().size_bytes;
            assert(of_size(b, n).last() == b.last());
            assert(of_size(a, n).len() == 0);
        }
        assert(a =~= b);
    } else {
        let n = a.last().size_bytes;
        assert(of_size(a, n).last() == a.last());
        assert(of_size(b, n).len() > 0);
        has_of_size(b, n);
        let m = b.last().size_bytes;
        assert(of_size(b, m).last() == b.last());
        assert(of_size(a, m).len() > 0);
        has_of_size(a, m);
        assert(m == n);
        assert(a.last() == b.last());
        let x = a.drop_last();
        let y = b.drop_last();
        assert forall|bytes: u64| #[trigger] of_size(x, bytes) == of_size(y, bytes) by {
            assert(of_size(a, bytes) == of_size(b, bytes));
            if bytes == n {
                assert(of_size(x, bytes) =~= of_size(a, bytes).drop_last());
                assert(of_size(y, bytes) =~= of_size(b, bytes).drop_last());
            }
        }
        same_order(x, y);
        assert(a =~= x.push(a.last()));
        assert(b =~= y.push(b.last()));
    }
}

/// Where there are files of a size, the last of all files is no larger.
proof fn has_of_size(files: Seq<FoundFile>, bytes: u64)
    requires
        largest_first(files),
        of_size(files, bytes).len() > 0,
    ensures
        files.len() > 0,
        files.last().size_bytes <= bytes,
    decreases files.len(),
{
    reveal(Seq::filter);
    if files.last().size_bytes != bytes {
        has_of_size(files.drop_last(), bytes);
        assert(files[files.len() - 2].size_bytes >= files.last().size_bytes);
    }
}

/// A file put behind all that are as large, and before all that are smaller, comes
/// last among those of its size.
proof fn insertion_is_stable(list: Seq<FoundFile>, p: int, file: FoundFile, bytes: u64)
    requires
        0 <= p <= list.len(),
        forall|i: int| p <= i < list.len() ==> (#[trigger] list[i]).size_bytes < file.size_bytes,
    ensures
        of_size(list.insert(p, file), bytes) == of_size(list.push(file), bytes),
{
    let f = |x: FoundFile| x.size_bytes == bytes;
    let a = list.take(p);
    let b = list.skip(p);
    assert(list.insert(p, file) =~= a.push(file) + b);
    assert(list =~= a + b);
    Seq::filter_distributes_over_add(a.push(file), b, f);
    Seq::filter_distributes_over_add(a, b, f);
    a.lemma_filter_push(file, f);
    list.lemma_filter_push(file, f);
    if bytes == file.size_bytes {
        assert forall|x: FoundFile| b.contains(x) implies !f(x) by {
            let k = choose|k: int| 0 <= k < b.len() && b[k] == x;
            assert(list[p + k] == x);
        }
        b.lemma_all_neg_filter_empty(f);
        assert(b.filter(f) =~= Seq::empty());
        assert(a.filter(f).push(file) + b.filter(f) =~= (a.filter(f) + b.filter(f)).push(file));
    }
}

fn insert_by_size(list: &mut Vec<FoundFile>, file: FoundFile)
    requires
        largest_first(old(list)@),
    ensures
        largest_first(final(list)@),
        final(list)@.len() == old(list)@.len() + 1,
        forall|bytes: u64| #[trigger]
            of_size(final(list)@, bytes) == of_size(old(list)@.push(file), bytes),
{
    let ghost before = list@;
    let mut p: usize = 0;
    while p < list.len() && list[p].size_bytes >= file.size_bytes
        invariant
            list@ == before,
            p <= list@.len(),
            forall|i: int|
                0 <= i < p ==> (#[trigger] before[i]).size_bytes >= file.size_bytes,
        decreases list@.len() - p,
    {
        p += 1;
    }
    proof {
        assert forall|i: int| p <= i < before.len() implies (#[trigger] before[i]).size_bytes
            < file.size_bytes by {
            if i > p {
                assert(before[p as int].size_bytes >= before[i].size_bytes);
            }
        }
        assert forall|bytes: u64| #[trigger]
            of_size(before.insert(p as int, file), bytes) == of_size(
                before.push(file),
                bytes,
            ) by {
            insertion_is_stable(before, p as int, file, bytes);
        }
    }
    list.insert(p, file);
}

/// The files, the largest first, and those of one size in the order in which they
/// were.
pub fn sort_by_size(files: Vec<FoundFile>) -> (r: Vec<FoundFile>)
    ensures
        is_stable_sort(r@, files@),
        r@.len() == files@.len(),
{
    let ghost all = files@;
    let mut left = files;
    let mut sorted: Vec<FoundFile> = Vec::new();
    let ghost mut done: int = 0;
    assert(all.skip(0) =~= all);
    assert(all.take(0) =~= sorted@);
    while left.len() > 0
        invariant
            0 <= done <= all.len(),
            left@ == all.skip(done),
            largest_first(sorted@),
            sorted@.len() == done,
            forall|bytes: u64| #[trigger]
                of_size(sorted@, bytes) == of_size(all.take(done), bytes),
        decreases left@.len(),
    {
        let ghost before = sorted@;
        let file = left.remove(0);
        assert(file == all[done]);
        insert_by_size(&mut sorted, file);
        proof {
            let a = all.take(done);
            assert(all.take(done + 1) =~= a.push(file));
            assert forall|bytes: u64| #[trigger]
                of_size(sorted@, bytes) == of_size(all.take(done + 1), bytes) by {
                let f = |x: FoundFile| x.size_bytes == bytes;
                a.lemma_filter_push(file, f);
                before.lemma_filter_push(file, f);
                assert(of_size(before, bytes) == of_size(a, bytes));
            }
            assert(left@ =~= all.skip(done + 1));
            done = done + 1;
        }
    }
    assert(all.take(done) =~= all);
    sorted
}

/// The report on the large files in the folder `root`.
pub fn list_large_files(root: &[u8], threshold_mb: u64, files: Vec<FoundFile>) -> (r: ToolExecution)
    ensures
        r.tool@ == "list_large_files"@,
        r.summary@ == "Found "@ + decimal(files@.len()) + (" file(s) at least "@ + decimal(
            threshold_mb as nat,
        ) + (" MB in "@ + lossy_text(root@) + "."@)),
        r.data matches ToolData::LargeFiles { files: listed, threshold_mb: mb, truncated }
            && is_stable_sort(listed@, files@) && mb == threshold_mb && truncated == (files@.len()
            == MAX_RESULTS),
        shows_utf8(root@),
{
    let count = files.len();
    let digits = to_decimal(count as u64);
    let size = to_decimal(threshold_mb);
    let shown = lossy(root);
    let place = glue3(" MB in ", shown.as_str(), ".");
    let bound = glue3(" file(s) at least ", size.as_str(), place.as_str());
    ToolExecution {
        tool: "list_large_files".to_owned(),
        summary: glue3("Found ", digits.as_str(), bound.as_str()),
        data: ToolData::LargeFiles {
            files: sort_by_size(files),
            threshold_mb,
            truncated: count == MAX_RESULTS,
        },
    }
}

} // verus!
