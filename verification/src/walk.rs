//! The walk through a folder and the folders in it, one listing at a time.
use vstd::prelude::*;

use crate::execution::{found_views, FoundFile, FoundView};
use crate::paths::{copy_bytes, inside_is_transitive, is_inside};
use crate::scope::{is_skipped, should_skip_directory};
use crate::search::{
    is_match, name_text, search_matches, CriteriaView, FileKind, FileMetadata, SearchCriteria,
};
use crate::text::{lossy, lossy_text, lowers_ascii, shows_utf8};

verus! {

/// The number of files at which a walk ends.
pub const MAX_RESULTS: usize = 50;

/// The number of folders that a walk goes down.
pub const MAX_WALK_DEPTH: usize = 8;

/// An entry of a folder, with what the system knows of it, where it does.
#[derive(Debug)]
pub struct DirectoryEntry {
    pub path: Vec<u8>,
    pub metadata: Option<FileMetadata>,
}

/// An entry of a folder, in mathematical terms.
pub struct EntryView {
    pub path: Seq<u8>,
    pub metadata: Option<FileMetadata>,
}

impl View for DirectoryEntry {
    type V = EntryView;

    open spec fn view(&self) -> EntryView {
        EntryView { path: self.path@, metadata: self.metadata }
    }
}

/// The entries in `v`, in mathematical terms.
pub open spec fn entry_views(v: Seq<DirectoryEntry>) -> Seq<EntryView> {
    v.map_values(|e: DirectoryEntry| e@)
}

/// A listing of a folder, in mathematical terms; none where it cannot be read.
pub open spec fn listing_view(listing: Option<Vec<DirectoryEntry>>) -> Option<Seq<EntryView>> {
    match listing {
        Some(entries) => Some(entry_views(entries@)),
        None => None,
    }
}

/// What the listing of each folder is.
pub type Tree = spec_fn(Seq<u8>) -> Option<Seq<EntryView>>;

/// Which files a walk is after.
#[derive(Debug)]
pub enum FilePredicate {
    /// Those of a search.
    Search(SearchCriteria),
    /// Those with at least so many bytes.
    AtLeast(u64),
}

/// Which files a walk is after, in mathematical terms.
pub enum PredicateView {
    Search(CriteriaView),
    AtLeast(u64),
}

impl View for FilePredicate {
    type V = PredicateView;

    open spec fn view(&self) -> PredicateView {
        match self {
            FilePredicate::Search(criteria) => PredicateView::Search(criteria@),
            FilePredicate::AtLeast(bytes) => PredicateView::AtLeast(*bytes),
        }
    }
}

/// A walk is after the file.
pub open spec fn accepts(predicate: PredicateView, path: Seq<u8>, file: FileMetadata) -> bool {
    match predicate {
        PredicateView::Search(criteria) => is_match(criteria, path, file),
        PredicateView::AtLeast(bytes) => file.len >= bytes,
    }
}

/// Where the name of the file, or the range of dates of a search, is all ASCII, the
/// search goes by its ASCII letters made small.
pub open spec fn lowers_names(
    predicate: PredicateView,
    path: Seq<u8>,
    file: FileMetadata,
) -> bool {
    predicate matches PredicateView::Search(criteria) ==> {
        &&& lowers_ascii(name_text(path))
        &&& file.modified is Some ==> (criteria.date_range matches Some(text) ==> lowers_ascii(
            text,
        ))
    }
}

/// Whether a walk is after the file.
pub fn predicate_accepts(predicate: &FilePredicate, path: &[u8], file: &FileMetadata) -> (r: bool)
    ensures
        r == accepts(predicate@, path@, *file),
        lowers_names(predicate@, path@, *file),
{
    match predicate {
        FilePredicate::Search(criteria) => search_matches(criteria, path, file),
        FilePredicate::AtLeast(bytes) => file.len >= *bytes,
    }
}

/// The entry is a folder that a walk goes into.
pub open spec fn is_way_down(entry: EntryView) -> bool {
    entry.metadata matches Some(m) && m.kind == FileKind::Directory && !is_skipped(entry.path)
}

/// The entry is a file that a walk is after.
pub open spec fn is_wanted(predicate: PredicateView, entry: EntryView) -> bool {
    entry.metadata matches Some(m) && m.kind == FileKind::File && accepts(
        predicate,
        entry.path,
        m,
    )
}

/// What is reported of a file.
pub open spec fn found_of(entry: EntryView) -> FoundView {
    FoundView {
        path: lossy_text(entry.path),
        size_bytes: entry.metadata->0.len,
        modified: match entry.metadata->0.modified {
            Some(time) => time.epoch_seconds(),
            None => None,
        },
    }
}

/// What is reported of files, in their order.
pub open spec fn reported(entries: Seq<EntryView>) -> Seq<FoundView> {
    entries.map_values(|entry: EntryView| found_of(entry))
}

/// The entry is no file, or a search goes by its letters made small.
pub open spec fn is_judged(predicate: PredicateView, entry: EntryView) -> bool {
    entry.metadata matches Some(m) ==> (m.kind == FileKind::File ==> lowers_names(
        predicate,
        entry.path,
        m,
    ))
}

/// Which of the entries are files that a walk is after.
fn judge(predicate: &FilePredicate, entries: &Vec<DirectoryEntry>) -> (r: Vec<bool>)
    ensures
        r@.len() == entries@.len(),
        forall|i: int|
            0 <= i < entries@.len() ==> r@[i] == is_wanted(predicate@, (#[trigger] entries@[i])@)
                && is_judged(predicate@, entries@[i]@),
{
    let mut r: Vec<bool> = Vec::new();
    let mut i: usize = 0;
    while i < entries.len()
        invariant
            i <= entries@.len(),
            r@.len() == i,
            forall|j: int|
                0 <= j < i ==> r@[j] == is_wanted(predicate@, (#[trigger] entries@[j])@)
                    && is_judged(predicate@, entries@[j]@),
        decreases entries@.len() - i,
    {
        let wanted = match entries[i].metadata {
            Some(m) => match m.kind {
                FileKind::File => predicate_accepts(predicate, entries[i].path.as_slice(), &m),
                _ => false,
            },
            None => false,
        };
        r.push(wanted);
        i += 1;
    }
    r
}

/// The files found once the folder `dir` has been walked through, after `found`. A
/// folder that lies too deep, or that is reached with enough files found, is left
/// out.
pub open spec fn collected(
    tree: Tree,
    predicate: PredicateView,
    dir: Seq<u8>,
    depth: nat,
    found: Seq<EntryView>,
) -> Seq<EntryView>
    decreases MAX_WALK_DEPTH + 1 - depth, 1int, 0int,
{
    if depth > MAX_WALK_DEPTH || found.len() >= MAX_RESULTS {
        found
    } else {
        match tree(dir) {
            Some(entries) => collected_from(tree, predicate, entries, depth, found),
            None => found,
        }
    }
}

/// The files found once `entries` of a folder at `depth` have been gone through,
/// after `found`.
pub open spec fn collected_from(
    tree: Tree,
    predicate: PredicateView,
    entries: Seq<EntryView>,
    depth: nat,
    found: Seq<EntryView>,
) -> Seq<EntryView>
    decreases MAX_WALK_DEPTH + 1 - depth, 0int, entries.len(),
{
    if depth > MAX_WALK_DEPTH || found.len() >= MAX_RESULTS || entries.len() == 0 {
        found
    } else {
        let entry = entries.first();
        let next = if is_way_down(entry) {
            collected(tree, predicate, entry.path, depth + 1, found)
        } else if is_wanted(predicate, entry) {
            found.push(entry)
        } else {
            found
        };
        collected_from(tree, predicate, entries.drop_first(), depth, next)
    }
}

/// The number of listings that are read while the folder `dir` is walked through,
/// after `found`.
pub open spec fn listings(
    tree: Tree,
    predicate: PredicateView,
    dir: Seq<u8>,
    depth: nat,
    found: Seq<EntryView>,
) -> nat
    decreases MAX_WALK_DEPTH + 1 - depth, 1int, 0int,
{
    if depth > MAX_WALK_DEPTH || found.len() >= MAX_RESULTS {
        0
    } else {
        match tree(dir) {
            Some(entries) => 1 + listings_from(tree, predicate, entries, depth, found),
            None => 1,
        }
    }
}

/// The number of listings that are read while `entries` of a folder at `depth` are
/// gone through, after `found`.
pub open spec fn listings_from(
    tree: Tree,
    predicate: PredicateView,
    entries: Seq<EntryView>,
    depth: nat,
    found: Seq<EntryView>,
) -> nat
    decreases MAX_WALK_DEPTH + 1 - depth, 0int, entries.len(),
{
    if depth > MAX_WALK_DEPTH || found.len() >= MAX_RESULTS || entries.len() == 0 {
        0
    } else {
        let entry = entries.first();
        let rest = entries.drop_first();
        if is_way_down(entry) {
            listings(tree, predicate, entry.path, depth + 1, found) + listings_from(
                tree,
                predicate,
                rest,
                depth,
                collected(tree, predicate, entry.path, depth + 1, found),
            )
        } else if is_wanted(predicate, entry) {
            listings_from(tree, predicate, rest, depth, found.push(entry))
        } else {
            listings_from(tree, predicate, rest, depth, found)
        }
    }
}

/// A folder that a walk has not gone through yet: the entries from `next` on, and which
/// of them are files that the walk is after.
#[derive(Debug)]
struct Frame {
    entries: Vec<DirectoryEntry>,
    wanted: Vec<bool>,
    next: usize,
    depth: usize,
}

/// A folder that a walk has not gone through yet, in mathematical terms.
pub struct FrameView {
    pub rest: Seq<EntryView>,
    pub depth: nat,
}

impl Frame {
    spec fn wf(&self, predicate: PredicateView) -> bool {
        &&& self.next <= self.entries@.len()
        &&& self.depth <= MAX_WALK_DEPTH
        &&& self.wanted@.len() == self.entries@.len()
        &&& forall|i: int|
            0 <= i < self.entries@.len() ==> self.wanted@[i] == is_wanted(
                predicate,
                (#[trigger] self.entries@[i])@,
            ) && is_judged(predicate, self.entries@[i]@)
    }

    spec fn frame(&self) -> FrameView {
        FrameView {
            rest: entry_views(self.entries@).skip(self.next as int),
            depth: self.depth as nat,
        }
    }
}

/// A folder whose listing a walk waits for.
#[derive(Debug)]
struct Awaited {
    dir: Vec<u8>,
    depth: usize,
}

/// A walk on its way.
#[derive(Debug)]
pub struct FileWalk {
    predicate: FilePredicate,
    results: Vec<DirectoryEntry>,
    frames: Vec<Frame>,
    awaited: Option<Awaited>,
}

spec fn frame_views(frames: Seq<Frame>) -> Seq<FrameView> {
    frames.map_values(|f: Frame| f.frame())
}

/// The files found once all of `frames` have been gone through, the last first.
spec fn unwound(
    tree: Tree,
    predicate: PredicateView,
    frames: Seq<FrameView>,
    found: Seq<EntryView>,
) -> Seq<EntryView>
    decreases frames.len(),
{
    if frames.len() == 0 {
        found
    } else {
        unwound(
            tree,
            predicate,
            frames.drop_last(),
            collected_from(tree, predicate, frames.last().rest, frames.last().depth, found),
        )
    }
}

/// The number of listings that are read while all of `frames` are gone through, the
/// last first.
spec fn unwound_listings(
    tree: Tree,
    predicate: PredicateView,
    frames: Seq<FrameView>,
    found: Seq<EntryView>,
) -> nat
    decreases frames.len(),
{
    if frames.len() == 0 {
        0
    } else {
        let last = frames.last();
        listings_from(tree, predicate, last.rest, last.depth, found) + unwound_listings(
            tree,
            predicate,
            frames.drop_last(),
            collected_from(tree, predicate, last.rest, last.depth, found),
        )
    }
}

/// How much is left of `frames`.
spec fn remaining(frames: Seq<FrameView>) -> nat
    decreases frames.len(),
{
    if frames.len() == 0 {
        0
    } else {
        remaining(frames.drop_last()) + frames.last().rest.len() + 1
    }
}

impl FileWalk {
    /// The walk is in order.
    pub closed spec fn wf(&self) -> bool {
        &&& forall|i: int|
            0 <= i < self.frames@.len() ==> (#[trigger] self.frames@[i]).wf(self.predicate@)
        &&& forall|k: int|
            0 <= k < self.results@.len() ==> is_wanted(
                self.predicate@,
                (#[trigger] self.results@[k])@,
            ) && is_judged(self.predicate@, self.results@[k]@)
        &&& match self.awaited {
            Some(a) => a.depth <= MAX_WALK_DEPTH && self.results@.len() < MAX_RESULTS,
            None => self.frames@.len() == 0,
        }
    }

    /// The folder whose listing the walk waits for; none once it is over.
    pub closed spec fn wants(&self) -> Option<Seq<u8>> {
        match self.awaited {
            Some(a) => Some(a.dir@),
            None => None,
        }
    }

    /// Which files the walk is after.
    pub closed spec fn seeks(&self) -> PredicateView {
        self.predicate@
    }

    /// The files found so far.
    pub closed spec fn found(&self) -> Seq<EntryView> {
        entry_views(self.results@)
    }

    /// The files found in the end, where the listings are those of `tree`.
    pub closed spec fn outcome(&self, tree: Tree) -> Seq<EntryView> {
        unwound(
            tree,
            self.predicate@,
            frame_views(self.frames@),
            match self.awaited {
                Some(a) => collected(
                    tree,
                    self.predicate@,
                    a.dir@,
                    a.depth as nat,
                    entry_views(self.results@),
                ),
                None => entry_views(self.results@),
            },
        )
    }

    /// The number of listings that the walk still waits for, where they are those of
    /// `tree`.
    pub closed spec fn listings_left(&self, tree: Tree) -> nat {
        let found = entry_views(self.results@);
        match self.awaited {
            Some(a) => listings(tree, self.predicate@, a.dir@, a.depth as nat, found)
                + unwound_listings(
                tree,
                self.predicate@,
                frame_views(self.frames@),
                collected(tree, self.predicate@, a.dir@, a.depth as nat, found),
            ),
            None => unwound_listings(tree, self.predicate@, frame_views(self.frames@), found),
        }
    }

    /// Goes on until a listing is needed or nothing is left.
    fn advance(&mut self)
        requires
            forall|i: int|
                0 <= i < old(self).frames@.len() ==> (#[trigger] old(self).frames@[i]).wf(
                    old(self).predicate@,
                ),
            forall|k: int|
                0 <= k < old(self).results@.len() ==> is_wanted(
                    old(self).predicate@,
                    (#[trigger] old(self).results@[k])@,
                ) && is_judged(old(self).predicate@, old(self).results@[k]@),
            old(self).awaited is None,
        ensures
            final(self).wf(),
            final(self).seeks() == old(self).seeks(),
            forall|tree: Tree| #[trigger] final(self).outcome(tree) == old(self).outcome(tree),
            forall|tree: Tree| #[trigger]
                final(self).listings_left(tree) == old(self).listings_left(tree),
    {
        while self.awaited.is_none() && self.frames.len() > 0
            invariant
                forall|i: int|
                    0 <= i < self.frames@.len() ==> (#[trigger] self.frames@[i]).wf(
                        self.predicate@,
                    ),
                self.predicate@ == old(self).predicate@,
                forall|k: int|
                    0 <= k < self.results@.len() ==> is_wanted(
                        self.predicate@,
                        (#[trigger] self.results@[k])@,
                    ) && is_judged(self.predicate@, self.results@[k]@),
                forall|tree: Tree| #[trigger] self.outcome(tree) == old(self).outcome(tree),
                forall|tree: Tree| #[trigger]
                    self.listings_left(tree) == old(self).listings_left(tree),
                self.awaited matches Some(a) ==> a.depth <= MAX_WALK_DEPTH && self.results@.len()
                    < MAX_RESULTS,
            decreases
                    (if self.awaited is None {
                        1int
                    } else {
                        0int
                    }),
                    remaining(frame_views(self.frames@)),
        {
            let ghost before = *self;
            let ghost views = frame_views(self.frames@);
            let ghost found = entry_views(self.results@);
            let ghost predicate = self.predicate@;
            let mut top = match self.frames.pop() {
                Some(top) => top,
                None => {
                    return;
                },
            };
            let ghost frame = top.frame();
            proof {
                assert(before.frames@ =~= self.frames@.push(top));
                assert(before.frames@[before.frames@.len() - 1].wf(predicate));
                assert forall|i: int| 0 <= i < self.frames@.len() implies (
                #[trigger] self.frames@[i]).wf(predicate) by {
                    assert(before.frames@[i].wf(predicate));
                }
                assert(views.last() == frame);
                assert(views.drop_last() =~= frame_views(self.frames@));
                assert forall|tree: Tree| #[trigger] before.outcome(tree) == unwound(
                    tree,
                    predicate,
                    frame_views(self.frames@),
                    collected_from(tree, predicate, frame.rest, frame.depth, found),
                ) by {}
                assert forall|tree: Tree| #[trigger] before.listings_left(tree)
                    == listings_from(tree, predicate, frame.rest, frame.depth, found)
                    + unwound_listings(
                    tree,
                    predicate,
                    frame_views(self.frames@),
                    collected_from(tree, predicate, frame.rest, frame.depth, found),
                ) by {}
            }
            if self.results.len() >= MAX_RESULTS || top.next >= top.entries.len() {
                assert forall|tree: Tree| #[trigger] self.outcome(tree) == before.outcome(
                    tree,
                ) by {
                    assert(collected_from(tree, predicate, frame.rest, frame.depth, found)
                        == found);
                }
                assert forall|tree: Tree| #[trigger] self.listings_left(tree)
                    == before.listings_left(tree) by {
                    assert(collected_from(tree, predicate, frame.rest, frame.depth, found)
                        == found);
                    assert(listings_from(tree, predicate, frame.rest, frame.depth, found) == 0);
                }
                continue ;
            }
            let at = top.next;
            let ghost entry = top.entries@[at as int]@;
            top.next = at + 1;
            proof {
                assert(frame.rest.first() == entry);
                assert(frame.rest.drop_first() =~= top.frame().rest);
            }
            let ghost rest = frame_views(self.frames@);
            let ghost left = top.frame();
            let depth = top.depth;
            match top.entries[at].metadata {
                None => {},
                Some(m) => {
                    match m.kind {
                        FileKind::Directory => {
                            if !should_skip_directory(top.entries[at].path.as_slice()) && depth
                                < MAX_WALK_DEPTH {
                                self.awaited = Some(
                                    Awaited {
                                        dir: copy_bytes(top.entries[at].path.as_slice()),
                                        depth: depth + 1,
                                    },
                                );
                            }
                        },
                        FileKind::File => {
                            if top.wanted[at] {
                                let file = DirectoryEntry {
                                    path: copy_bytes(top.entries[at].path.as_slice()),
                                    metadata: Some(m),
                                };
                                assert(file@ == entry);
                                self.results.push(file);
                                assert(entry_views(self.results@) =~= found.push(entry));
                            }
                        },
                        FileKind::Other => {},
                    }
                },
            }
            self.frames.push(top);
            proof {
                let now = frame_views(self.frames@);
                assert(now =~= rest.push(left));
                assert(now.drop_last() =~= rest);
                assert(now.last() == left);
                assert forall|tree: Tree| #[trigger] self.outcome(tree) == before.outcome(
                    tree,
                ) by {
                    let next = if is_way_down(entry) {
                        collected(tree, predicate, entry.path, frame.depth + 1, found)
                    } else if is_wanted(predicate, entry) {
                        found.push(entry)
                    } else {
                        found
                    };
                    assert(collected_from(tree, predicate, frame.rest, frame.depth, found)
                        == collected_from(tree, predicate, left.rest, frame.depth, next));
                }
                assert forall|tree: Tree| #[trigger] self.listings_left(tree)
                    == before.listings_left(tree) by {
                    let next = if is_way_down(entry) {
                        collected(tree, predicate, entry.path, frame.depth + 1, found)
                    } else if is_wanted(predicate, entry) {
                        found.push(entry)
                    } else {
                        found
                    };
                    let below = if is_way_down(entry) {
                        listings(tree, predicate, entry.path, frame.depth + 1, found)
                    } else {
                        0
                    };
                    assert(collected_from(tree, predicate, frame.rest, frame.depth, found)
                        == collected_from(tree, predicate, left.rest, frame.depth, next));
                    assert(listings_from(tree, predicate, frame.rest, frame.depth, found) == below
                        + listings_from(tree, predicate, left.rest, frame.depth, next));
                }
            }
        }
    }

    /// The folder whose listing the walk waits for; none once it is over.
    pub fn pending(&self) -> (r: Option<&Vec<u8>>)
        ensures
            match r {
                Some(dir) => self.wants() == Some(dir@),
                None => self.wants() is None,
            },
    {
        match &self.awaited {
            Some(a) => Some(&a.dir),
            None => None,
        }
    }

    /// Hands the walk the listing that it waits for, or tells it that the folder
    /// cannot be read. The walk then waits for one listing less, and all files of the
    /// listing have been judged. Once it is over this changes nothing.
    pub fn supply(&mut self, listing: Option<Vec<DirectoryEntry>>)
        requires
            old(self).wf(),
        ensures
            final(self).wf(),
            final(self).seeks() == old(self).seeks(),
            forall|tree: Tree|
                (old(self).wants() matches Some(dir) ==> tree(dir) == listing_view(listing))
                    ==> #[trigger] final(self).outcome(tree) == old(self).outcome(tree),
            forall|tree: Tree|
                (old(self).wants() matches Some(dir) && tree(dir) == listing_view(listing)) ==> (
                #[trigger] final(self).listings_left(tree)) + 1 == old(self).listings_left(tree),
            old(self).wants() is None ==> *final(self) == *old(self),
            old(self).wants() is Some ==> (listing matches Some(entries) ==> forall|i: int|
                0 <= i < entries@.len() ==> is_judged(
                    old(self).seeks(),
                    (#[trigger] entries@[i])@,
                )),
    {
        let ghost before = *self;
        match self.awaited.take() {
            None => {},
            Some(a) => {
                let ghost views = frame_views(self.frames@);
                let ghost found = entry_views(self.results@);
                match listing {
                    None => {},
                    Some(entries) => {
                        let ghost listed = entry_views(entries@);
                        let wanted = judge(&self.predicate, &entries);
                        let frame = Frame { entries, wanted, next: 0, depth: a.depth };
                        assert(frame.frame().rest =~= listed);
                        self.frames.push(frame);
                        assert(frame_views(self.frames@) =~= views.push(frame.frame()));
                        assert(views.push(frame.frame()).drop_last() =~= views);
                    },
                }
                let ghost middle = *self;
                assert forall|tree: Tree|
                    tree(a.dir@) == listing_view(listing) implies #[trigger] middle.outcome(tree)
                    == before.outcome(tree) by {}
                self.advance();
                assert forall|tree: Tree|
                    tree(a.dir@) == listing_view(listing) implies #[trigger] self.outcome(tree)
                    == before.outcome(tree) by {
                    assert(self.outcome(tree) == middle.outcome(tree));
                }
                assert forall|tree: Tree| tree(a.dir@) == listing_view(listing) implies (
                #[trigger] self.listings_left(tree)) + 1 == before.listings_left(tree) by {
                    assert(self.listings_left(tree) == middle.listings_left(tree));
                }
            },
        }
    }

    /// The report on the files found, each under the text of its own path. Once the walk
    /// is over, they are the outcome.
    pub fn finish(self) -> (r: Vec<FoundFile>)
        requires
            self.wf(),
        ensures
            found_views(r@) == reported(self.found()),
            forall|k: int|
                0 <= k < self.found().len() ==> {
                    &&& shows_utf8((#[trigger] self.found()[k]).path)
                    &&& is_wanted(self.seeks(), self.found()[k])
                    &&& is_judged(self.seeks(), self.found()[k])
                },
            self.wants() is None ==> forall|tree: Tree|
                #[trigger] self.outcome(tree) == self.found(),
    {
        let ghost found = self.found();
        let mut r: Vec<FoundFile> = Vec::new();
        let mut i: usize = 0;
        assert(found_views(r@) =~= reported(found.take(0)));
        while i < self.results.len()
            invariant
                self.wf(),
                found == entry_views(self.results@),
                found == self.found(),
                i <= self.results@.len(),
                found_views(r@) == reported(found.take(i as int)),
                forall|k: int| 0 <= k < i ==> shows_utf8((#[trigger] found[k]).path),
            decreases self.results@.len() - i,
        {
            let ghost entry = found[i as int];
            assert(entry == self.results@[i as int]@);
            assert(is_wanted(self.predicate@, self.results@[i as int]@));
            let shown = lossy(self.results[i].path.as_slice());
            assert(shows_utf8(entry.path));
            if let Some(m) = self.results[i].metadata {
                let file = FoundFile {
                    path: shown,
                    size_bytes: m.len,
                    modified: match m.modified {
                        Some(time) => time.seconds_since_epoch(),
                        None => None,
                    },
                };
                assert(file@ == found_of(entry));
                assert(found.take(i + 1) =~= found.take(i as int).push(entry));
                assert(reported(found.take(i + 1)) =~= reported(found.take(i as int)).push(
                    found_of(entry),
                ));
                assert(found_views(r@.push(file)) =~= found_views(r@).push(file@));
                r.push(file);
            }
            i += 1;
        }
        assert(found.take(i as int) =~= found);
        assert forall|k: int| 0 <= k < found.len() implies is_wanted(
            self.predicate@,
            #[trigger] found[k],
        ) && is_judged(self.predicate@, found[k]) by {
            assert(found[k] == self.results@[k]@);
        }
        r
    }
}

/// Starts a walk through `directory`, after the files of `predicate`.
pub fn collect_files(directory: Vec<u8>, predicate: FilePredicate) -> (r: FileWalk)
    ensures
        r.wf(),
        r.wants() == Some(directory@),
        r.seeks() == predicate@,
        forall|tree: Tree| #[trigger]
            r.outcome(tree) == collected(tree, predicate@, directory@, 0, Seq::empty()),
        forall|tree: Tree| #[trigger]
            r.listings_left(tree) == listings(tree, predicate@, directory@, 0, Seq::empty()),
{
    let r = FileWalk {
        predicate,
        results: Vec::new(),
        frames: Vec::new(),
        awaited: Some(Awaited { dir: directory, depth: 0 }),
    };
    assert(entry_views(r.results@) =~= Seq::empty());
    r
}

/// A walk is over exactly where it waits for no more listings, so every walk ends.
pub proof fn a_walk_is_over_without_listings_left(walk: FileWalk, tree: Tree)
    requires
        walk.wf(),
    ensures
        walk.wants() is None <==> walk.listings_left(tree) == 0,
{
}

/// The entry lies in the folder `dir`, or in a folder that a walk reaches from it.
pub open spec fn lies_in(tree: Tree, dir: Seq<u8>, depth: nat, entry: EntryView) -> bool
    decreases MAX_WALK_DEPTH + 1 - depth, 1int, 0int,
{
    depth <= MAX_WALK_DEPTH && match tree(dir) {
        Some(entries) => lies_among(tree, entries, depth, entry),
        None => false,
    }
}

/// The entry is one of `entries` of a folder at `depth`, or lies in a folder that
/// a walk reaches from one of them.
pub open spec fn lies_among(
    tree: Tree,
    entries: Seq<EntryView>,
    depth: nat,
    entry: EntryView,
) -> bool
    decreases MAX_WALK_DEPTH + 1 - depth, 0int, entries.len(),
{
    depth <= MAX_WALK_DEPTH && entries.len() > 0 && {
        ||| entries.first() == entry
        ||| is_way_down(entries.first()) && lies_in(tree, entries.first().path, depth + 1, entry)
        ||| lies_among(tree, entries.drop_first(), depth, entry)
    }
}

/// `after` keeps `before`, and goes on with files of `is_source` that a walk is
/// after; with all of them, unless it has come to the end of its room.
pub open spec fn extends(
    predicate: PredicateView,
    before: Seq<EntryView>,
    after: Seq<EntryView>,
    is_source: spec_fn(EntryView) -> bool,
) -> bool {
    &&& before.is_prefix_of(after)
    &&& before.len() <= MAX_RESULTS ==> after.len() <= MAX_RESULTS
    &&& forall|k: int|
        before.len() <= k < after.len() ==> is_wanted(predicate, #[trigger] after[k]) && is_source(
            after[k],
        )
    &&& after.len() < MAX_RESULTS ==> forall|entry: EntryView| #[trigger]
        is_wanted(predicate, entry) && is_source(entry) ==> after.contains(entry)
}

proof fn collected_extends(
    tree: Tree,
    predicate: PredicateView,
    dir: Seq<u8>,
    depth: nat,
    found: Seq<EntryView>,
)
    ensures
        extends(
            predicate,
            found,
            collected(tree, predicate, dir, depth, found),
            |entry: EntryView| lies_in(tree, dir, depth, entry),
        ),
    decreases MAX_WALK_DEPTH + 1 - depth, 1int, 0int,
{
    if depth <= MAX_WALK_DEPTH && found.len() < MAX_RESULTS {
        if let Some(entries) = tree(dir) {
            collected_from_extends(tree, predicate, entries, depth, found);
            let source = |entry: EntryView| lies_in(tree, dir, depth, entry);
            let among = |entry: EntryView| lies_among(tree, entries, depth, entry);
            assert(forall|entry: EntryView| #[trigger] source(entry) == among(entry));
        }
    }
}

proof fn collected_from_extends(
    tree: Tree,
    predicate: PredicateView,
    entries: Seq<EntryView>,
    depth: nat,
    found: Seq<EntryView>,
)
    ensures
        extends(
            predicate,
            found,
            collected_from(tree, predicate, entries, depth, found),
            |entry: EntryView| lies_among(tree, entries, depth, entry),
        ),
    decreases MAX_WALK_DEPTH + 1 - depth, 0int, entries.len(),
{
    let source = |entry: EntryView| lies_among(tree, entries, depth, entry);
    let after = collected_from(tree, predicate, entries, depth, found);
    if depth <= MAX_WALK_DEPTH && found.len() < MAX_RESULTS && entries.len() > 0 {
        let first = entries.first();
        let down = |entry: EntryView| lies_in(tree, first.path, depth + 1, entry);
        let rest = |entry: EntryView| lies_among(tree, entries.drop_first(), depth, entry);
        let next = if is_way_down(first) {
            collected(tree, predicate, first.path, depth + 1, found)
        } else if is_wanted(predicate, first) {
            found.push(first)
        } else {
            found
        };
        if is_way_down(first) {
            collected_extends(tree, predicate, first.path, depth + 1, found);
        }
        collected_from_extends(tree, predicate, entries.drop_first(), depth, next);
        assert(found.is_prefix_of(after));
        assert forall|k: int| found.len() <= k < after.len() implies is_wanted(
            predicate,
            #[trigger] after[k],
        ) && source(after[k]) by {
            if k < next.len() {
                assert(after[k] == next[k]);
                if is_way_down(first) {
                    assert(down(next[k]));
                }
            } else {
                assert(rest(after[k]));
            }
        }
        if after.len() < MAX_RESULTS {
            assert forall|entry: EntryView| #[trigger]
                is_wanted(predicate, entry) && source(entry) implies after.contains(entry) by {
                if rest(entry) {
                } else if is_way_down(first) && down(entry) {
                    assert(next.contains(entry));
                    let k = choose|k: int| 0 <= k < next.len() && next[k] == entry;
                    assert(after[k] == entry);
                } else {
                    assert(entry == first);
                    assert(next[found.len() as int] == first);
                    assert(after[found.len() as int] == first);
                }
            }
        }
    }
}

/// A walk finds no more than its share of files. Each is one that it is after, in
/// a folder that it reaches, and where it has room left it finds all of these.
pub proof fn a_walk_finds_what_it_is_after(tree: Tree, predicate: PredicateView, dir: Seq<u8>)
    ensures
        ({
            let files = collected(tree, predicate, dir, 0, Seq::empty());
            &&& files.len() <= MAX_RESULTS
            &&& forall|k: int|
                0 <= k < files.len() ==> is_wanted(predicate, #[trigger] files[k]) && lies_in(
                    tree,
                    dir,
                    0,
                    files[k],
                )
            &&& files.len() < MAX_RESULTS ==> forall|entry: EntryView| #[trigger]
                is_wanted(predicate, entry) && lies_in(tree, dir, 0, entry) ==> files.contains(entry)
        }),
{
    collected_extends(tree, predicate, dir, 0, Seq::empty());
    let files = collected(tree, predicate, dir, 0, Seq::empty());
    let source = |entry: EntryView| lies_in(tree, dir, 0, entry);
    assert forall|k: int| 0 <= k < files.len() implies lies_in(
        tree,
        dir,
        0,
        #[trigger] files[k],
    ) by {
        assert(source(files[k]));
    }
    if files.len() < MAX_RESULTS {
        assert forall|entry: EntryView| #[trigger]
            is_wanted(predicate, entry) && lies_in(tree, dir, 0, entry) implies files.contains(
            entry,
        ) by {
            assert(source(entry));
        }
    }
}

/// The files of the folder `dir` that a walk is after, with those of the folders that
/// it reaches, in the order of the listings; each as often as it is listed.
pub open spec fn wanted_in(
    tree: Tree,
    predicate: PredicateView,
    dir: Seq<u8>,
    depth: nat,
) -> Seq<EntryView>
    decreases MAX_WALK_DEPTH + 1 - depth, 1int, 0int,
{
    if depth > MAX_WALK_DEPTH {
        Seq::empty()
    } else {
        match tree(dir) {
            Some(entries) => wanted_among(tree, predicate, entries, depth),
            None => Seq::empty(),
        }
    }
}

/// The files that a walk is after among `entries` of a folder at `depth`, with those of
/// the folders that it reaches from them, in the order of the listings.
pub open spec fn wanted_among(
    tree: Tree,
    predicate: PredicateView,
    entries: Seq<EntryView>,
    depth: nat,
) -> Seq<EntryView>
    decreases MAX_WALK_DEPTH + 1 - depth, 0int, entries.len(),
{
    if depth > MAX_WALK_DEPTH || entries.len() == 0 {
        Seq::empty()
    } else {
        let entry = entries.first();
        let here = if is_way_down(entry) {
            wanted_in(tree, predicate, entry.path, depth + 1)
        } else if is_wanted(predicate, entry) {
            seq![entry]
        } else {
            Seq::empty()
        };
        here + wanted_among(tree, predicate, entries.drop_first(), depth)
    }
}

/// The first files of a list, as many as a walk finds.
pub open spec fn within_room(files: Seq<EntryView>) -> Seq<EntryView> {
    if files.len() <= MAX_RESULTS {
        files
    } else {
        files.take(MAX_RESULTS as int)
    }
}

/// A walk lists each file that it is after once for each place in a listing, in the
/// order of the listings, behind the files found before, until its room is used up.
/// Where it has room left, it lists all of them. This holds at any depth.
pub proof fn a_walk_keeps_the_order_of_the_listings(
    tree: Tree,
    predicate: PredicateView,
    dir: Seq<u8>,
    depth: nat,
    found: Seq<EntryView>,
)
    ensures
        ({
            let files = collected(tree, predicate, dir, depth, found);
            let all = found + wanted_in(tree, predicate, dir, depth);
            &&& found.len() <= MAX_RESULTS ==> files == within_room(all)
            &&& files.len() < MAX_RESULTS ==> files == all
        }),
    decreases MAX_WALK_DEPTH + 1 - depth, 1int, 0int,
{
    let all = found + wanted_in(tree, predicate, dir, depth);
    if depth > MAX_WALK_DEPTH {
        assert(all =~= found);
    } else if found.len() >= MAX_RESULTS {
        if found.len() == MAX_RESULTS {
            assert(within_room(all) =~= found);
        }
    } else {
        match tree(dir) {
            Some(entries) => {
                entries_keep_their_order(tree, predicate, entries, depth, found);
            },
            None => {
                assert(all =~= found);
            },
        }
    }
}

proof fn entries_keep_their_order(
    tree: Tree,
    predicate: PredicateView,
    entries: Seq<EntryView>,
    depth: nat,
    found: Seq<EntryView>,
)
    requires
        found.len() <= MAX_RESULTS,
    ensures
        collected_from(tree, predicate, entries, depth, found) == within_room(
            found + wanted_among(tree, predicate, entries, depth),
        ),
    decreases MAX_WALK_DEPTH + 1 - depth, 0int, entries.len(),
{
    let all = found + wanted_among(tree, predicate, entries, depth);
    if depth > MAX_WALK_DEPTH || entries.len() == 0 {
        assert(all =~= found);
    } else if found.len() == MAX_RESULTS {
        assert(within_room(all) =~= found);
    } else {
        let entry = entries.first();
        let rest = wanted_among(tree, predicate, entries.drop_first(), depth);
        let here = if is_way_down(entry) {
            wanted_in(tree, predicate, entry.path, depth + 1)
        } else if is_wanted(predicate, entry) {
            seq![entry]
        } else {
            Seq::empty()
        };
        let next = if is_way_down(entry) {
            collected(tree, predicate, entry.path, depth + 1, found)
        } else if is_wanted(predicate, entry) {
            found.push(entry)
        } else {
            found
        };
        if is_way_down(entry) {
            a_walk_keeps_the_order_of_the_listings(tree, predicate, entry.path, depth + 1, found);
        }
        assert(next =~= within_room(found + here));
        entries_keep_their_order(tree, predicate, entries.drop_first(), depth, next);
        assert(all =~= (found + here) + rest);
        assert(within_room(next + rest) =~= within_room(all));
    }
}

/// Each listing holds only what lies inside the folder that is listed.
pub open spec fn nests(tree: Tree) -> bool {
    forall|dir: Seq<u8>, i: int|
        #![trigger tree(dir)->0[i]]
        tree(dir) is Some && 0 <= i < tree(dir)->0.len() ==> is_inside(tree(dir)->0[i].path, dir)
}

/// Where each listing holds only what lies inside the folder that is listed, a walk
/// reaches nothing outside the folder that it starts in, nor outside any folder
/// that this one lies inside.
pub proof fn walks_stay_inside(
    tree: Tree,
    root: Seq<u8>,
    dir: Seq<u8>,
    depth: nat,
    entry: EntryView,
)
    requires
        nests(tree),
        is_inside(dir, root),
        lies_in(tree, dir, depth, entry),
    ensures
        is_inside(entry.path, root),
    decreases MAX_WALK_DEPTH + 1 - depth, 1int, 0int,
{
    let entries = tree(dir)->0;
    assert forall|i: int| 0 <= i < entries.len() implies is_inside(
        (#[trigger] entries[i]).path,
        root,
    ) by {
        inside_is_transitive(tree(dir)->0[i].path, dir, root);
    }
    entries_stay_inside(tree, root, entries, depth, entry);
}

proof fn entries_stay_inside(
    tree: Tree,
    root: Seq<u8>,
    entries: Seq<EntryView>,
    depth: nat,
    entry: EntryView,
)
    requires
        nests(tree),
        forall|i: int|
            0 <= i < entries.len() ==> is_inside((#[trigger] entries[i]).path, root),
        lies_among(tree, entries, depth, entry),
    ensures
        is_inside(entry.path, root),
    decreases MAX_WALK_DEPTH + 1 - depth, 0int, entries.len(),
{
    let first = entries[0];
    if first == entry {
    } else if is_way_down(first) && lies_in(tree, first.path, depth + 1, entry) {
        walks_stay_inside(tree, root, first.path, depth + 1, entry);
    } else {
        let rest = entries.drop_first();
        assert forall|i: int| 0 <= i < rest.len() implies is_inside(
            (#[trigger] rest[i]).path,
            root,
        ) by {
            assert(rest[i] == entries[i + 1]);
        }
        entries_stay_inside(tree, root, rest, depth, entry);
    }
}

/// A folder that is skipped adds nothing, whatever lies in it.
pub proof fn skipped_folders_do_not_show(
    tree: Tree,
    predicate: PredicateView,
    entry: EntryView,
    rest: Seq<EntryView>,
    depth: nat,
    found: Seq<EntryView>,
)
    requires
        is_skipped(entry.path),
        entry.metadata matches Some(m) && m.kind == FileKind::Directory,
    ensures
        collected_from(tree, predicate, seq![entry] + rest, depth, found) == collected_from(
            tree,
            predicate,
            rest,
            depth,
            found,
        ),
{
    assert((seq![entry] + rest).drop_first() =~= rest);
}

} // verus!
