//! Laws of the files that the tools find.
use vstd::prelude::*;
use vstd::utf8::{decode_utf8, valid_utf8};

use crate::execution::FoundFile;
use crate::files::{is_stable_sort, of_size};
use crate::intent::IntentParams;
use crate::laws::places::{
    extensions_stand_behind_the_last_dot, folders_hold_what_is_joined_to_them,
};
use crate::laws::texts::texts_stand_in_what_they_make_up;
use crate::paths::joined;
use crate::search::{
    has_type, is_match, name_text, sought, time_in_range, CriteriaView, FileKind,
    FileMetadata, Timestamp,
};
use crate::text::{ascii_lowered, lossy_text, lowercase, without_leading_dots};
use crate::walk::{
    a_walk_finds_what_it_is_after, a_walk_keeps_the_order_of_the_listings, accepts, collected,
    is_wanted, is_way_down, reported, wanted_among, wanted_in, EntryView, PredicateView,
    Tree,
};

verus! {

/// A file that a search accepts is at least as large as the minimum wherever there is one,
/// and at most as large as the maximum wherever there is one; and has a known time.
pub proof fn each_bound_on_the_size_counts_alone(
    criteria: CriteriaView,
    path: Seq<u8>,
    file: FileMetadata,
)
    requires
        is_match(criteria, path, file),
    ensures
        criteria.size_min is Some ==> file.len >= criteria.size_min->0,
        criteria.size_max is Some ==> file.len <= criteria.size_max->0,
        file.modified is Some,
{
}

/// A search for a size alone accepts exactly the files with a known time whose size lies
/// between the bounds that are there.
pub proof fn sizes_alone_decide_where_nothing_else_is_asked(
    criteria: CriteriaView,
    path: Seq<u8>,
    file: FileMetadata,
)
    requires
        criteria.query.len() == 0,
        criteria.file_type is None,
        criteria.date_range is None,
    ensures
        is_match(criteria, path, file) <==> {
            &&& file.modified is Some
            &&& criteria.size_min is Some ==> file.len >= criteria.size_min->0
            &&& criteria.size_max is Some ==> file.len <= criteria.size_max->0
        },
{
}

/// A search accepts a file exactly where it would accept it for each of its criteria
/// alone.
pub proof fn every_criterion_counts_alone(
    criteria: CriteriaView,
    path: Seq<u8>,
    file: FileMetadata,
)
    ensures
        ({
            let none = CriteriaView {
                query: Seq::empty(),
                file_type: None,
                date_range: None,
                size_min: None,
                size_max: None,
            };
            is_match(criteria, path, file) <==> {
                &&& is_match(CriteriaView { query: criteria.query, ..none }, path, file)
                &&& is_match(CriteriaView { file_type: criteria.file_type, ..none }, path, file)
                &&& is_match(CriteriaView { date_range: criteria.date_range, ..none }, path, file)
                &&& is_match(CriteriaView { size_min: criteria.size_min, ..none }, path, file)
                &&& is_match(CriteriaView { size_max: criteria.size_max, ..none }, path, file)
            }
        }),
{
}

/// A search for a name alone accepts exactly the files with a known time whose name, in
/// small letters, holds the query.
pub proof fn names_are_searched_for_the_query(
    query: Seq<char>,
    path: Seq<u8>,
    file: FileMetadata,
)
    ensures
        ({
            let criteria = CriteriaView {
                query,
                file_type: None,
                date_range: None,
                size_min: None,
                size_max: None,
            };
            is_match(criteria, path, file) <==> file.modified is Some && exists|
                a: Seq<char>,
                b: Seq<char>,
            | lowercase(name_text(path)) == #[trigger] (a + query + b)
        }),
{
    let name = lowercase(name_text(path));
    texts_stand_in_what_they_make_up(name, query);
    if query.len() == 0 {
        assert(name =~= Seq::<char>::empty() + query + name);
    }
}

/// The name that is searched is the last part of the path, where it is text.
pub proof fn names_are_the_last_parts_of_paths(base: Seq<u8>, name: Seq<u8>)
    requires
        name.len() > 0,
        forall|i: int| 0 <= i < name.len() ==> name[i] != 0x2f,
        name != seq![0x2eu8] && name != seq![0x2eu8, 0x2eu8],
    ensures
        valid_utf8(name) ==> name_text(joined(base, name)) == decode_utf8(name),
        !valid_utf8(name) ==> name_text(joined(base, name)).len() == 0,
{
    folders_hold_what_is_joined_to_them(base, name, name);
}

/// A search for a type alone accepts exactly the files with a known time whose extension
/// is the type, without its leading dots, but for the case of ASCII letters.
pub proof fn types_are_extensions(
    file_type: Seq<char>,
    base: Seq<u8>,
    stem: Seq<u8>,
    ext: Seq<u8>,
    file: FileMetadata,
)
    requires
        stem.len() > 0,
        forall|i: int| 0 <= i < stem.len() ==> stem[i] != 0x2f,
        forall|i: int| 0 <= i < ext.len() ==> ext[i] != 0x2f && ext[i] != 0x2e,
        stem + seq![0x2eu8] + ext != seq![0x2eu8, 0x2eu8],
    ensures
        ({
            let criteria = CriteriaView {
                query: Seq::empty(),
                file_type: Some(file_type),
                date_range: None,
                size_min: None,
                size_max: None,
            };
            is_match(criteria, joined(base, stem + seq![0x2eu8] + ext), file)
                <==> file.modified is Some && valid_utf8(ext) && ascii_lowered(decode_utf8(ext))
                == ascii_lowered(without_leading_dots(file_type))
        }),
{
    extensions_stand_behind_the_last_dot(base, stem, ext);
}

/// A file without an extension, or with only a leading dot in its name, has no type.
pub proof fn files_without_an_extension_have_no_type(
    file_type: Seq<char>,
    base: Seq<u8>,
    name: Seq<u8>,
)
    requires
        name.len() > 0,
        forall|i: int| 0 <= i < name.len() ==> name[i] != 0x2f && name[i] != 0x2e,
    ensures
        !has_type(joined(base, name), file_type),
        !has_type(joined(base, seq![0x2eu8] + name), file_type),
{
    extensions_stand_behind_the_last_dot(base, Seq::empty(), name);
}

/// A range of dates reaches back from now by 1, 7 or 31 days of 86,400 seconds, to the
/// nanosecond; any other word only rules out times to come.
pub proof fn ranges_reach_back_by_days(modified: Timestamp, now: Timestamp, word: Seq<char>)
    ensures
        ({
            let age = now.instant() - modified.instant();
            let day = 86_400_000_000_000int;
            &&& time_in_range(modified, now, "today"@) <==> 0 <= age <= day
            &&& time_in_range(modified, now, "week"@) <==> 0 <= age <= 7 * day
            &&& time_in_range(modified, now, "last_week"@) <==> 0 <= age <= 7 * day
            &&& time_in_range(modified, now, "month"@) <==> 0 <= age <= 31 * day
            &&& time_in_range(modified, now, "last_month"@) <==> 0 <= age <= 31 * day
            &&& !seq!["today"@, "week"@, "last_week"@, "month"@, "last_month"@].contains(word)
                ==> (time_in_range(modified, now, word) <==> 0 <= age)
        }),
{
    reveal_strlit("today");
    reveal_strlit("week");
    reveal_strlit("last_week");
    reveal_strlit("month");
    reveal_strlit("last_month");
    assert("today"@[0] == 't' && "month"@[0] == 'm');
    let words = seq!["today"@, "week"@, "last_week"@, "month"@, "last_month"@];
    assert(words[0] == "today"@ && words[1] == "week"@ && words[2] == "last_week"@ && words[3]
        == "month"@ && words[4] == "last_month"@);
}

/// A search for a range alone accepts exactly the files whose time lies in it; the word
/// counts in small letters. Without a range every known time is accepted.
pub proof fn dates_alone_decide_where_nothing_else_is_asked(
    range: Option<Seq<char>>,
    path: Seq<u8>,
    file: FileMetadata,
)
    ensures
        ({
            let criteria = CriteriaView {
                query: Seq::empty(),
                file_type: None,
                date_range: range,
                size_min: None,
                size_max: None,
            };
            &&& range is None ==> (is_match(criteria, path, file) <==> file.modified is Some)
            &&& range is Some ==> (is_match(criteria, path, file) <==> file.modified is Some
                && time_in_range(file.modified->0, file.seen_at, lowercase(range->0)))
        }),
{
}

/// The times of the clock count whole seconds and the nanoseconds on top of them.
pub proof fn times_count_in_nanoseconds(time: Timestamp)
    ensures
        time.instant() == time.secs * 1_000_000_000 + time.nanos,
        time.instant() >= 0 ==> time.epoch_seconds() is Some && time.epoch_seconds()->0
            * 1_000_000_000 <= time.instant() < (time.epoch_seconds()->0 + 1) * 1_000_000_000,
        time.instant() < 0 ==> time.epoch_seconds() is None,
{
    if time.instant() >= 0 {
        let n = time.instant() / 1_000_000_000;
        assert(0 <= n <= i64::MAX + 5);
    }
}

/// A search is after what the parameters ask for, each taken whole.
pub proof fn searches_seek_what_was_asked(params: IntentParams)
    ensures
        ({
            let c = sought(params);
            &&& params.query matches Some(q) ==> c.query == lowercase(q@)
            &&& params.query is None ==> c.query == lowercase(""@)
            &&& params.filters is None ==> c.file_type is None && c.date_range is None
                && c.size_min is None && c.size_max is None
            &&& params.filters matches Some(f) ==> {
                &&& c.size_min == f.size_min && c.size_max == f.size_max
                &&& c.file_type is Some == f.file_type is Some
                &&& f.file_type matches Some(t) ==> c.file_type->0 == t@
                &&& c.date_range is Some == f.date_range is Some
                &&& f.date_range matches Some(t) ==> c.date_range->0 == t@
            }
        }),
{
}

/// Every file that a search finds lies within the bounds on the size that were asked for.
pub proof fn searches_find_files_of_the_size_asked_for(
    tree: Tree,
    params: IntentParams,
    dir: Seq<u8>,
    k: int,
)
    requires
        0 <= k < collected(
            tree,
            PredicateView::Search(sought(params)),
            dir,
            0,
            Seq::empty(),
        ).len(),
    ensures
        ({
            let file = collected(
                tree,
                PredicateView::Search(sought(params)),
                dir,
                0,
                Seq::empty(),
            )[k];
            &&& file.metadata is Some
            &&& params.filters matches Some(f) ==> {
                &&& f.size_min is Some ==> file.metadata->0.len >= f.size_min->0
                &&& f.size_max is Some ==> file.metadata->0.len <= f.size_max->0
            }
        }),
{
    a_walk_finds_what_it_is_after(tree, PredicateView::Search(sought(params)), dir);
}

/// Every file that a walk for large files finds has at least so many bytes, and every such
/// file is one that the walk is after.
pub proof fn large_files_have_the_bytes_asked_for(
    tree: Tree,
    bytes: u64,
    dir: Seq<u8>,
    k: int,
    path: Seq<u8>,
    file: FileMetadata,
)
    ensures
        ({
            let files = collected(tree, PredicateView::AtLeast(bytes), dir, 0, Seq::empty());
            0 <= k < files.len() ==> files[k].metadata is Some && files[k].metadata->0.len >= bytes
        }),
        accepts(PredicateView::AtLeast(bytes), path, file) <==> file.len >= bytes,
{
    a_walk_finds_what_it_is_after(tree, PredicateView::AtLeast(bytes), dir);
}

proof fn wanted_entry_shows(
    tree: Tree,
    predicate: PredicateView,
    entries: Seq<EntryView>,
    depth: nat,
    i: int,
)
    requires
        depth <= 8,
        0 <= i < entries.len(),
        is_wanted(predicate, entries[i]),
    ensures
        wanted_among(tree, predicate, entries, depth).contains(entries[i]),
    decreases entries.len(),
{
    let rest = wanted_among(tree, predicate, entries.drop_first(), depth);
    let all = wanted_among(tree, predicate, entries, depth);
    if i == 0 {
        assert(all[0] == entries[0]);
    } else {
        assert(entries.drop_first()[i - 1] == entries[i]);
        wanted_entry_shows(tree, predicate, entries.drop_first(), depth, i - 1);
        let k = choose|k: int| 0 <= k < rest.len() && rest[k] == entries[i];
        assert(all[all.len() - rest.len() + k] == entries[i]);
    }
}

proof fn lower_files_show(
    tree: Tree,
    predicate: PredicateView,
    entries: Seq<EntryView>,
    depth: nat,
    i: int,
    file: EntryView,
)
    requires
        depth <= 8,
        0 <= i < entries.len(),
        is_way_down(entries[i]),
        wanted_in(tree, predicate, entries[i].path, depth + 1).contains(file),
    ensures
        wanted_among(tree, predicate, entries, depth).contains(file),
    decreases entries.len(),
{
    let rest = wanted_among(tree, predicate, entries.drop_first(), depth);
    let all = wanted_among(tree, predicate, entries, depth);
    if i == 0 {
        let here = wanted_in(tree, predicate, entries[0].path, depth + 1);
        let k = choose|k: int| 0 <= k < here.len() && here[k] == file;
        assert(all[k] == file);
    } else {
        assert(entries.drop_first()[i - 1] == entries[i]);
        lower_files_show(tree, predicate, entries.drop_first(), depth, i - 1, file);
        let k = choose|k: int| 0 <= k < rest.len() && rest[k] == file;
        assert(all[all.len() - rest.len() + k] == file);
    }
}

/// A walk with room left finds each file that it is after at every place of a folder's
/// listing, and all that it would find in the folders there that it goes into, down to the
/// eighth; in deeper folders it finds nothing.
pub proof fn walks_find_all_that_is_listed(
    tree: Tree,
    predicate: PredicateView,
    dir: Seq<u8>,
    depth: nat,
    found: Seq<EntryView>,
    i: int,
)
    requires
        tree(dir) is Some,
        0 <= i < tree(dir)->0.len(),
        collected(tree, predicate, dir, depth, found).len() < 50,
    ensures
        ({
            let entry = tree(dir)->0[i];
            let files = collected(tree, predicate, dir, depth, found);
            &&& depth <= 8 && is_wanted(predicate, entry) ==> files.contains(entry)
            &&& depth <= 7 && is_way_down(entry) ==> forall|file: EntryView|
                collected(tree, predicate, entry.path, depth + 1, Seq::empty()).contains(file)
                    ==> files.contains(file)
            &&& depth > 8 ==> files == found
        }),
{
    let entries = tree(dir)->0;
    let entry = entries[i];
    let files = collected(tree, predicate, dir, depth, found);
    a_walk_keeps_the_order_of_the_listings(tree, predicate, dir, depth, found);
    let here = wanted_in(tree, predicate, dir, depth);
    assert forall|file: EntryView| here.contains(file) implies files.contains(file) by {
        let k = choose|k: int| 0 <= k < here.len() && here[k] == file;
        assert(files[found.len() + k] == file);
    }
    if depth <= 8 && is_wanted(predicate, entry) {
        wanted_entry_shows(tree, predicate, entries, depth, i);
    }
    if depth <= 7 && is_way_down(entry) {
        let none = Seq::<EntryView>::empty();
        a_walk_keeps_the_order_of_the_listings(tree, predicate, entry.path, depth + 1, none);
        let lower = wanted_in(tree, predicate, entry.path, depth + 1);
        assert(none + lower =~= lower);
        assert forall|file: EntryView|
            collected(tree, predicate, entry.path, depth + 1, none).contains(
                file,
            ) implies files.contains(file) by {
            let c = collected(tree, predicate, entry.path, depth + 1, none);
            let k = choose|k: int| 0 <= k < c.len() && c[k] == file;
            assert(lower[k] == file);
            lower_files_show(tree, predicate, entries, depth, i, file);
        }
    }
}

/// A folder is gone into exactly where it is a directory without one of the skipped names;
/// a file is reported on only where it is one and is accepted.
pub proof fn only_folders_are_entered_and_only_files_found(
    predicate: PredicateView,
    entry: EntryView,
)
    ensures
        is_way_down(entry) <==> entry.metadata is Some && entry.metadata->0.kind
            == FileKind::Directory && !crate::scope::is_skipped(entry.path),
        is_wanted(predicate, entry) <==> entry.metadata is Some && entry.metadata->0.kind
            == FileKind::File && accepts(predicate, entry.path, entry.metadata->0),
{
}

proof fn wanted_in_is_listed(
    tree: Tree,
    predicate: PredicateView,
    dir: Seq<u8>,
    depth: nat,
    file: EntryView,
)
    requires
        wanted_in(tree, predicate, dir, depth).contains(file),
    ensures
        exists|d: Seq<u8>| #[trigger] tree(d) is Some && tree(d)->0.contains(file),
    decreases 9 - depth, 1int, 0int,
{
    if depth <= 8 {
        if let Some(entries) = tree(dir) {
            wanted_among_is_listed(tree, predicate, dir, entries, depth, file);
        }
    }
}

proof fn wanted_among_is_listed(
    tree: Tree,
    predicate: PredicateView,
    dir: Seq<u8>,
    entries: Seq<EntryView>,
    depth: nat,
    file: EntryView,
)
    requires
        depth <= 8,
        tree(dir) is Some,
        forall|i: int| 0 <= i < entries.len() ==> tree(dir)->0.contains(#[trigger] entries[i]),
        wanted_among(tree, predicate, entries, depth).contains(file),
    ensures
        exists|d: Seq<u8>| #[trigger] tree(d) is Some && tree(d)->0.contains(file),
    decreases 9 - depth, 0int, entries.len(),
{
    if entries.len() > 0 {
        let entry = entries.first();
        let rest = entries.drop_first();
        let here = if is_way_down(entry) {
            wanted_in(tree, predicate, entry.path, depth + 1)
        } else if is_wanted(predicate, entry) {
            seq![entry]
        } else {
            Seq::empty()
        };
        let later = wanted_among(tree, predicate, rest, depth);
        let all = wanted_among(tree, predicate, entries, depth);
        assert(all == here + later);
        let k = choose|k: int| 0 <= k < all.len() && all[k] == file;
        if k < here.len() {
            assert(here[k] == file);
            if is_way_down(entry) {
                wanted_in_is_listed(tree, predicate, entry.path, depth + 1, file);
            } else {
                assert(file == entries[0]);
                assert(tree(dir) is Some && tree(dir)->0.contains(file));
            }
        } else {
            assert(later[k - here.len()] == file);
            assert forall|i: int| 0 <= i < rest.len() implies tree(dir)->0.contains(
                #[trigger] rest[i],
            ) by {
                assert(rest[i] == entries[i + 1]);
            }
            wanted_among_is_listed(tree, predicate, dir, rest, depth, file);
        }
    }
}

/// Every file that a walk finds stands in the listing of some folder, as it is found, and
/// the walk finds at most 50.
pub proof fn walks_find_only_what_is_listed(
    tree: Tree,
    predicate: PredicateView,
    dir: Seq<u8>,
    k: int,
)
    requires
        0 <= k < collected(tree, predicate, dir, 0, Seq::empty()).len(),
    ensures
        k < 50,
        exists|d: Seq<u8>| #[trigger]
            tree(d) is Some && tree(d)->0.contains(
                collected(tree, predicate, dir, 0, Seq::empty())[k],
            ),
{
    let none = Seq::<EntryView>::empty();
    a_walk_keeps_the_order_of_the_listings(tree, predicate, dir, 0, none);
    let files = collected(tree, predicate, dir, 0, none);
    let all = wanted_in(tree, predicate, dir, 0);
    assert(none + all =~= all);
    assert(files[k] == all[k]);
    wanted_in_is_listed(tree, predicate, dir, 0, files[k]);
}

/// A file is reported under the text of its own path, with its own size and the whole
/// seconds of its own time; there are as many reports as files, in the same order.
pub proof fn files_are_reported_as_they_are(files: Seq<EntryView>, k: int)
    requires
        0 <= k < files.len(),
    ensures
        reported(files).len() == files.len(),
        reported(files)[k].path == lossy_text(files[k].path),
        reported(files)[k].size_bytes == files[k].metadata->0.len,
        files[k].metadata->0.modified is None ==> reported(files)[k].modified is None,
        files[k].metadata->0.modified matches Some(time) ==> reported(files)[k].modified
            == time.epoch_seconds(),
{
}

proof fn count_in_filter(files: Seq<FoundFile>, bytes: u64, file: FoundFile)
    requires
        file.size_bytes == bytes,
    ensures
        files.to_multiset().count(file) == of_size(files, bytes).to_multiset().count(file),
    decreases files.len(),
{
    broadcast use vstd::seq_lib::group_to_multiset_ensures;

    let f = |x: FoundFile| x.size_bytes == bytes;
    if files.len() == 0 {
        assert(of_size(files, bytes) =~= files) by {
            reveal(Seq::filter);
        }
    } else {
        let t = files.drop_last();
        let last = files.last();
        count_in_filter(t, bytes, file);
        assert(files =~= t.push(last));
        t.lemma_filter_push(last, f);
    }
}

/// Sorting keeps every file as often as it was there and adds none, puts no file before a
/// larger one, and leaves the files of one size in the order in which they were.
pub proof fn sorting_keeps_the_files(sorted: Seq<FoundFile>, files: Seq<FoundFile>, bytes: u64)
    requires
        is_stable_sort(sorted, files),
    ensures
        sorted.to_multiset() == files.to_multiset(),
        forall|i: int, j: int|
            0 <= i < j < sorted.len() ==> (#[trigger] sorted[i]).size_bytes >= (
            #[trigger] sorted[j]).size_bytes,
        sorted.filter(|f: FoundFile| f.size_bytes == bytes) == files.filter(
            |f: FoundFile| f.size_bytes == bytes,
        ),
{
    assert(of_size(sorted, bytes) == of_size(files, bytes));
    assert forall|file: FoundFile| #[trigger]
        sorted.to_multiset().count(file) == files.to_multiset().count(file) by {
        count_in_filter(sorted, file.size_bytes, file);
        count_in_filter(files, file.size_bytes, file);
        assert(of_size(sorted, file.size_bytes) == of_size(files, file.size_bytes));
    }
    assert(sorted.to_multiset() =~= files.to_multiset());
}

} // verus!
