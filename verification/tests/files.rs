use std::collections::BTreeMap;
use std::path::{Component, Path};

use ai_native_control_layer::execution::{FoundFile, ToolData};
use ai_native_control_layer::files::{
    list_large_files, search_files, search_path, sort_by_size, start_large_files, start_search,
};
use ai_native_control_layer::intent::{FileFilters, IntentParams};
use ai_native_control_layer::paths::{
    path_components, path_extension, path_file_name, path_inside, path_join, same_bytes,
};
use ai_native_control_layer::scope::{
    candidate_directory, scoped_directory, should_skip_directory, user_root, DirectoryLookup,
    HomeLookup,
};
use ai_native_control_layer::search::{
    matches_date_range, meets_criteria, search_criteria, search_matches, within_date_range,
    FileKind, FileMetadata, SearchCriteria, Timestamp,
};
use ai_native_control_layer::walk::{
    collect_files, predicate_accepts, DirectoryEntry, FilePredicate, FileWalk,
};

const NOW: Timestamp = Timestamp { secs: 1_700_000_000, nanos: 5 };

const DAY: i64 = 86_400;

fn criteria() -> SearchCriteria {
    SearchCriteria {
        query: String::new(),
        file_type: None,
        date_range: None,
        size_min: None,
        size_max: None,
    }
}

fn metadata(kind: FileKind, len: u64) -> FileMetadata {
    FileMetadata {
        kind,
        len,
        modified: Some(Timestamp { secs: 1_600_000_000, nanos: 999_999_999 }),
        seen_at: NOW,
    }
}

fn file(path: &str, len: u64) -> DirectoryEntry {
    DirectoryEntry {
        path: path.as_bytes().to_vec(),
        metadata: Some(metadata(FileKind::File, len)),
    }
}

fn entry(path: &str, kind: FileKind) -> DirectoryEntry {
    DirectoryEntry { path: path.as_bytes().to_vec(), metadata: Some(metadata(kind, 0)) }
}

/// Runs a walk to its end, and tells which listings it asked for.
fn run(
    mut walk: FileWalk,
    mut tree: BTreeMap<&str, Vec<DirectoryEntry>>,
) -> (Vec<FoundFile>, Vec<String>) {
    let mut asked = Vec::new();
    while let Some(dir) = walk.pending() {
        let dir = String::from_utf8(dir.clone()).unwrap();
        walk.supply(tree.remove(dir.as_str()));
        asked.push(dir);
    }
    (walk.finish(), asked)
}

fn paths(files: &[FoundFile]) -> Vec<&str> {
    files.iter().map(|f| f.path.as_str()).collect()
}

#[test]
fn collect_files_applies_the_predicate() {
    let directory = "/tmp/ai-native-control-test-1";
    let mut walk = collect_files(
        directory.as_bytes().to_vec(),
        FilePredicate::Search(SearchCriteria {
            file_type: Some("txt".to_string()),
            ..criteria()
        }),
    );
    assert_eq!(walk.pending().map(Vec::as_slice), Some(directory.as_bytes()));
    walk.supply(Some(vec![
        file("/tmp/ai-native-control-test-1/keep.txt", 4),
        file("/tmp/ai-native-control-test-1/skip.bin", 4),
    ]));
    assert!(walk.pending().is_none());
    let results = walk.finish();

    assert_eq!(results.len(), 1);
    assert!(results[0].path.ends_with("keep.txt"));
}

#[test]
fn a_walk_goes_down_before_it_goes_on() {
    let tree = BTreeMap::from([
        (
            "/r",
            vec![file("/r/1", 1), entry("/r/a", FileKind::Directory), file("/r/2", 1)],
        ),
        ("/r/a", vec![entry("/r/a/b", FileKind::Directory), file("/r/a/3", 1)]),
        ("/r/a/b", vec![file("/r/a/b/4", 1)]),
    ]);
    let (files, asked) = run(collect_files(b"/r".to_vec(), FilePredicate::AtLeast(0)), tree);
    assert_eq!(paths(&files), ["/r/1", "/r/a/b/4", "/r/a/3", "/r/2"]);
    assert_eq!(asked, ["/r", "/r/a", "/r/a/b"]);
    assert_eq!(files[0].size_bytes, 1);
    assert_eq!(files[0].modified, Some(1_600_000_000));
}

#[test]
fn a_file_that_is_listed_twice_is_found_twice() {
    let tree = BTreeMap::from([(
        "/r",
        vec![file("/r/1", 1), file("/r/2", 1), file("/r/1", 1), file("/r/0", 0)],
    )]);
    let (files, _) = run(collect_files(b"/r".to_vec(), FilePredicate::AtLeast(1)), tree);
    assert_eq!(paths(&files), ["/r/1", "/r/2", "/r/1"]);
}

#[test]
fn a_walk_passes_over_what_it_cannot_use() {
    let tree = BTreeMap::from([(
        "/r",
        vec![
            entry("/r/link", FileKind::Other),
            DirectoryEntry { path: b"/r/gone".to_vec(), metadata: None },
            entry("/r/.git", FileKind::Directory),
            entry("/r/node_modules", FileKind::Directory),
            entry("/r/target", FileKind::Directory),
            entry("/r/.cache", FileKind::Directory),
            entry("/r/AppData", FileKind::Directory),
            entry("/r/closed", FileKind::Directory),
            file("/r/target", 3),
            file("/r/small", 2),
        ],
    )]);
    let (files, asked) = run(collect_files(b"/r".to_vec(), FilePredicate::AtLeast(3)), tree);
    assert_eq!(paths(&files), ["/r/target"]);
    assert_eq!(asked, ["/r", "/r/closed"]);
}

#[test]
fn an_unreadable_folder_yields_nothing() {
    let mut walk = collect_files(b"/r".to_vec(), FilePredicate::AtLeast(0));
    walk.supply(None);
    assert!(walk.pending().is_none());
    walk.supply(Some(vec![file("/r/late", 1)]));
    assert!(walk.finish().is_empty());
}

#[test]
fn a_walk_goes_eight_folders_down() {
    let mut walk = collect_files(b"/d".to_vec(), FilePredicate::AtLeast(0));
    let mut dir = "/d".to_string();
    let mut listed = 0;
    while walk.pending().is_some() {
        assert_eq!(walk.pending().unwrap().as_slice(), dir.as_bytes());
        let next = format!("{dir}/d");
        walk.supply(Some(vec![file(&format!("{dir}/f"), 1), entry(&next, FileKind::Directory)]));
        dir = next;
        listed += 1;
    }
    assert_eq!(listed, 9);
    let files = walk.finish();
    assert_eq!(files.len(), 9);
    assert_eq!(files[8].path, "/d/d/d/d/d/d/d/d/d/f");
}

#[test]
fn a_walk_ends_at_fifty_files() {
    let many = |count: usize, dir: &str| -> Vec<DirectoryEntry> {
        (0..count).map(|n| file(&format!("{dir}/{n}"), 1)).collect()
    };
    let mut top = vec![entry("/r/a", FileKind::Directory), entry("/r/b", FileKind::Directory)];
    top.extend(many(1, "/r"));
    let tree = BTreeMap::from([
        ("/r", top),
        ("/r/a", many(30, "/r/a")),
        ("/r/b", many(60, "/r/b")),
    ]);
    let (files, asked) = run(collect_files(b"/r".to_vec(), FilePredicate::AtLeast(0)), tree);
    assert_eq!(files.len(), 50);
    assert_eq!(files[49].path, "/r/b/19");
    assert_eq!(asked.len(), 3);

    let mut full = many(50, "/s");
    full.push(entry("/s/more", FileKind::Directory));
    let (files, asked) =
        run(collect_files(b"/s".to_vec(), FilePredicate::AtLeast(0)), BTreeMap::from([("/s", full)]));
    assert_eq!(files.len(), 50);
    assert_eq!(asked, ["/s"]);
}

#[test]
fn files_from_before_the_epoch_have_no_time() {
    let mut walk = collect_files(b"/r".to_vec(), FilePredicate::AtLeast(0));
    let at = |secs: i64, nanos: u32| {
        let mut e = file("/r/f", 1);
        let mut m = e.metadata.unwrap();
        m.modified = Some(Timestamp { secs, nanos });
        e.metadata = Some(m);
        e
    };
    let mut timeless = file("/r/t", 1);
    timeless.metadata = timeless.metadata.map(|m| FileMetadata { modified: None, ..m });
    walk.supply(Some(vec![at(0, 0), at(-1, 999_999_999), at(7, 999_999_999), timeless]));
    let times: Vec<Option<u64>> = walk.finish().iter().map(|f| f.modified).collect();
    assert_eq!(times, [Some(0), None, Some(7), None]);
}

#[test]
fn paths_that_are_no_text_are_shown_with_replacements() {
    let mut walk = collect_files(b"/r".to_vec(), FilePredicate::AtLeast(0));
    let mut odd = file("", 1);
    odd.path = b"/r/a\xffb".to_vec();
    walk.supply(Some(vec![odd]));
    assert_eq!(walk.finish()[0].path, "/r/a\u{fffd}b");
}

const SAMPLE_PATHS: [&str; 28] = [
    "", "/", "//", ".", "./", "..", "a", "a/", "a//b", "/a", "/a/", "/a/b.c", "./a", "a/.", "a/./b",
    "a/..", "../a", "/..", "/.", ".a", "a.", "a.b.c", ".a.b", "..a", "/x/.hidden", "/x/a.TXT/", "é.ü",
    "/home/user/Documents",
];

#[test]
fn paths_have_the_components_that_the_system_sees() {
    for path in SAMPLE_PATHS {
        let expected: Vec<Vec<u8>> = Path::new(path)
            .components()
            .map(|c| match c {
                Component::RootDir => b"/".to_vec(),
                other => other.as_os_str().to_str().unwrap().as_bytes().to_vec(),
            })
            .collect();
        assert_eq!(path_components(path.as_bytes()), expected, "{path}");
    }
}

#[test]
fn names_and_extensions_are_those_of_the_system() {
    for path in SAMPLE_PATHS {
        let name = Path::new(path).file_name().map(|n| n.to_str().unwrap().as_bytes().to_vec());
        let extension = Path::new(path).extension().map(|e| e.to_str().unwrap().as_bytes().to_vec());
        assert_eq!(path_file_name(path.as_bytes()), name, "{path}");
        assert_eq!(path_extension(path.as_bytes()), extension, "{path}");
    }
}

#[test]
fn containment_and_joining_are_those_of_the_system() {
    for a in SAMPLE_PATHS {
        for b in SAMPLE_PATHS {
            assert_eq!(
                path_inside(a.as_bytes(), b.as_bytes()),
                Path::new(a).starts_with(b),
                "{a} {b}"
            );
            if !b.starts_with('/') {
                let joined = Path::new(a).join(b);
                assert_eq!(
                    path_join(a.as_bytes(), b.as_bytes()),
                    joined.to_str().unwrap().as_bytes(),
                    "{a} {b}"
                );
            }
        }
    }
    assert!(!path_inside(b"/home/user2", b"/home/user"));
    assert!(same_bytes(b"ab", b"ab") && !same_bytes(b"ab", b"ac") && !same_bytes(b"a", b"ab"));
}

#[test]
fn the_folder_of_the_user_is_looked_up() {
    assert_eq!(user_root(HomeLookup::Unset), Err("HOME is not configured.".to_string()));
    assert_eq!(
        user_root(HomeLookup::Unresolved),
        Err("Could not resolve the current user folder.".to_string())
    );
    assert_eq!(
        user_root(HomeLookup::Resolved { path: b"/home/u".to_vec() }),
        Ok(b"/home/u".to_vec())
    );
}

#[test]
fn a_path_stands_for_a_folder() {
    let folder = |path: Option<&str>| {
        String::from_utf8(candidate_directory(b"/home/u", path)).unwrap()
    };
    assert_eq!(folder(None), "/home/u/Documents");
    assert_eq!(folder(Some("")), "/home/u/Documents");
    assert_eq!(folder(Some(" \t")), "/home/u/Documents");
    assert_eq!(folder(Some(" Music ")), "/home/u/Music");
    assert_eq!(folder(Some("a/../b")), "/home/u/a/../b");
    assert_eq!(folder(Some(" /etc ")), "/etc");
    assert_eq!(folder(Some("Büro")), "/home/u/Büro");
}

#[test]
fn folders_outside_that_of_the_user_are_refused() {
    let found = |path: &str, is_directory: bool| {
        scoped_directory(
            b"/home/u",
            b"/home/u/x",
            DirectoryLookup::Found { path: path.as_bytes().to_vec(), is_directory },
        )
    };
    assert_eq!(found("/home/u", true), Ok(b"/home/u".to_vec()));
    assert_eq!(found("/home/u/a/b", true), Ok(b"/home/u/a/b".to_vec()));
    let outside = Err("File tools are limited to folders inside your user profile.".to_string());
    assert_eq!(found("/etc", true), outside);
    assert_eq!(found("/home/u2", true), outside);
    assert_eq!(found("/home", false), outside);
    assert_eq!(found("/home/u/f", false), Err("The selected path is not a directory.".to_string()));
    assert_eq!(
        scoped_directory(b"/home/u", b"/home/u/\xffx", DirectoryLookup::Missing),
        Err("Directory does not exist or is not readable: /home/u/\u{fffd}x".to_string())
    );
}

#[test]
fn some_folders_are_never_looked_into() {
    for path in ["/a/.git", "node_modules", "/target/", "/x/.cache", "C/AppData/."] {
        assert!(should_skip_directory(path.as_bytes()), "{path}");
    }
    for path in ["/a/.github", "/.git/a", "/a/Target", "/", "", "/a/.git/..", "appdata"] {
        assert!(!should_skip_directory(path.as_bytes()), "{path}");
    }
}

#[test]
fn ranges_of_dates_reach_back_from_now() {
    let ago = |secs: i64, nanos: i64| {
        let total = i128::from(NOW.secs - secs) * 1_000_000_000 + i128::from(NOW.nanos) - i128::from(nanos);
        Timestamp {
            secs: total.div_euclid(1_000_000_000) as i64,
            nanos: total.rem_euclid(1_000_000_000) as u32,
        }
    };
    let matches = |modified: Timestamp, range: Option<&str>| {
        matches_date_range(modified, NOW, &range.map(str::to_string))
    };
    for (words, days) in
        [(["today", "Today"], 1), (["week", "LAST_WEEK"], 7), (["last_month", "Month"], 31)]
    {
        for word in words {
            assert!(matches(ago(0, 0), Some(word)));
            assert!(matches(ago(days * DAY, 0), Some(word)));
            assert!(!matches(ago(days * DAY, 1), Some(word)));
            assert!(!matches(ago(0, -1), Some(word)));
        }
        assert!(within_date_range(ago(days * DAY, 0), NOW, words[0]));
        assert!(!within_date_range(ago(days * DAY, 1), NOW, words[0]));
    }
    assert!(within_date_range(ago(2 * DAY, 0), NOW, "TODAY"));
    for word in ["", "yesterday", "2024"] {
        assert!(matches(ago(1_000 * DAY, 0), Some(word)));
        assert!(!matches(ago(-1, 0), Some(word)));
    }
    assert!(matches(ago(1_000 * DAY, 0), None));
    assert!(matches(ago(-1_000, 0), None));
}

fn params(query: Option<&str>, filters: Option<FileFilters>) -> IntentParams {
    IntentParams { query: query.map(str::to_string), filters, ..Default::default() }
}

#[test]
fn the_parameters_say_what_is_sought() {
    let plain = search_criteria(&params(None, None));
    assert_eq!(plain.query, "");
    assert!(plain.file_type.is_none() && plain.date_range.is_none());
    assert!(plain.size_min.is_none() && plain.size_max.is_none());
    let full = search_criteria(&params(
        Some("ÉTÉ Report"),
        Some(FileFilters {
            file_type: Some(".PDF".to_string()),
            date_range: Some("Week".to_string()),
            size_min: Some(1),
            size_max: Some(2),
            path: Some("Music".to_string()),
        }),
    ));
    assert_eq!(full.query, "été report");
    assert_eq!(full.file_type.as_deref(), Some(".PDF"));
    assert_eq!(full.date_range.as_deref(), Some("Week"));
    assert_eq!((full.size_min, full.size_max), (Some(1), Some(2)));
}

#[test]
fn a_search_goes_by_name_type_size_and_date() {
    let found = |c: &SearchCriteria, path: &str, len: u64| {
        search_matches(c, path.as_bytes(), &metadata(FileKind::File, len))
    };
    let named = SearchCriteria { query: "report".to_string(), ..criteria() };
    assert!(found(&named, "/report/My REPORT.txt", 1));
    assert!(!found(&named, "/report/notes.txt", 1));
    let accented = SearchCriteria { query: "été".to_string(), ..criteria() };
    assert!(found(&accented, "/x/ÉTÉ.txt", 1));
    let typed = |t: &str| SearchCriteria { file_type: Some(t.to_string()), ..criteria() };
    assert!(found(&typed("txt"), "/x/a.TXT", 1));
    assert!(found(&typed(".Txt"), "/x/a.txt", 1));
    assert!(!found(&typed("txt"), "/x/a.txt.bak", 1));
    assert!(!found(&typed("txt"), "/x/txt", 1));
    assert!(!found(&typed("txt"), "/x/.txt", 1));
    assert!(!found(&typed(""), "/x/a", 1));
    assert!(found(&typed("."), "/x/a.", 1));
    let sized = SearchCriteria { size_min: Some(2), size_max: Some(4), ..criteria() };
    for (len, inside) in [(1u64, false), (2, true), (3, true), (4, true), (5, false)] {
        assert_eq!(found(&sized, "/x/a", len), inside);
    }
    let dated = SearchCriteria { date_range: Some("today".to_string()), ..criteria() };
    assert!(!found(&dated, "/x/a", 1));
    assert!(found(&criteria(), "/x/a", 1));
    let mut timeless = metadata(FileKind::File, 1);
    timeless.modified = None;
    assert!(!search_matches(&criteria(), b"/x/a", &timeless));
}

#[test]
fn names_that_are_no_text_count_as_empty() {
    let m = metadata(FileKind::File, 1);
    let named = SearchCriteria { query: "a".to_string(), ..criteria() };
    assert!(!search_matches(&named, b"/x/a\xff", &m));
    assert!(search_matches(&criteria(), b"/x/a\xff", &m));
    let typed = SearchCriteria { file_type: Some("txt".to_string()), ..criteria() };
    assert!(search_matches(&typed, b"/x/\xff.txt", &m));
    assert!(!search_matches(&typed, b"/x/a.txt\xff", &m));
    assert!(meets_criteria(&named, "bab", true, b"/x/a", 1));
    assert!(!meets_criteria(&named, "bab", false, b"/x/a", 1));
    assert!(predicate_accepts(&FilePredicate::AtLeast(1), b"/x", &m));
    assert!(!predicate_accepts(&FilePredicate::AtLeast(2), b"/x", &m));
}

#[test]
fn a_search_is_started_and_reported() {
    let filters = FileFilters {
        file_type: None,
        date_range: None,
        size_min: None,
        size_max: None,
        path: Some("Music".to_string()),
    };
    let wanted = params(Some("A"), Some(filters));
    assert_eq!(search_path(&wanted), Some("Music"));
    assert_eq!(search_path(&params(None, None)), None);
    let walk = start_search(&wanted, b"/h/Music".to_vec());
    let tree = BTreeMap::from([("/h/Music", vec![file("/h/Music/a", 1), file("/h/Music/b", 1)])]);
    let (files, _) = run(walk, tree);
    let report = search_files(b"/h/Music", files);
    assert_eq!(report.tool, "search_files");
    assert_eq!(report.summary, "Found 1 matching file(s) in /h/Music.");
    match report.data {
        ToolData::Files { files, truncated } => {
            assert_eq!(paths(&files), ["/h/Music/a"]);
            assert!(!truncated);
        }
        _ => panic!("not a report on a search"),
    }
}

fn found(path: &str, size_bytes: u64) -> FoundFile {
    FoundFile { path: path.to_string(), size_bytes, modified: None }
}

#[test]
fn large_files_are_listed_from_the_largest_on() {
    let megabyte = 1_048_576u64;
    let asked = IntentParams { threshold_mb: Some(2), ..Default::default() };
    let (threshold_mb, walk) = start_large_files(&asked, b"/h".to_vec()).unwrap();
    let tree = BTreeMap::from([(
        "/h",
        vec![
            file("/h/less", 2 * megabyte - 1),
            file("/h/just", 2 * megabyte),
            file("/h/most", 9 * megabyte),
            file("/h/same", 2 * megabyte),
        ],
    )]);
    let (files, _) = run(walk, tree);
    let report = list_large_files(b"/h", threshold_mb, files);
    assert_eq!(report.tool, "list_large_files");
    assert_eq!(report.summary, "Found 3 file(s) at least 2 MB in /h.");
    match report.data {
        ToolData::LargeFiles { files, threshold_mb, truncated } => {
            assert_eq!(paths(&files), ["/h/most", "/h/just", "/h/same"]);
            assert_eq!((threshold_mb, truncated), (2, false));
        }
        _ => panic!("not a report on large files"),
    }
}

#[test]
fn a_threshold_is_needed_and_saturates() {
    assert_eq!(
        start_large_files(&IntentParams::default(), b"/h".to_vec()).unwrap_err(),
        "A threshold_mb value is required."
    );
    let huge = IntentParams { threshold_mb: Some(u64::MAX), ..Default::default() };
    let (mb, walk) = start_large_files(&huge, b"/h".to_vec()).unwrap();
    assert_eq!(mb, u64::MAX);
    let tree =
        BTreeMap::from([("/h", vec![file("/h/a", u64::MAX), file("/h/b", u64::MAX - 1)])]);
    let (files, _) = run(walk, tree);
    assert_eq!(paths(&files), ["/h/a"]);
}

#[test]
fn files_of_one_size_keep_their_order() {
    let files = vec![found("a", 1), found("b", 3), found("c", 1), found("d", 2), found("e", 3)];
    assert_eq!(paths(&sort_by_size(files)), ["b", "e", "d", "a", "c"]);
    let mut seed: u32 = 3;
    let mut sizes: Vec<u64> = Vec::new();
    for _ in 0..50 {
        seed = seed.wrapping_mul(1_664_525).wrapping_add(1_013_904_223);
        sizes.push(u64::from(seed >> 29));
    }
    let numbered = |s: &[u64]| -> Vec<FoundFile> {
        s.iter().enumerate().map(|(i, n)| found(&i.to_string(), *n)).collect()
    };
    let mut expected = numbered(&sizes);
    expected.sort_by_key(|f| std::cmp::Reverse(f.size_bytes));
    assert_eq!(paths(&sort_by_size(numbered(&sizes))), paths(&expected));
}

#[test]
fn a_full_report_is_marked_as_cut() {
    for (count, cut) in [(49usize, false), (50, true)] {
        let files = || -> Vec<FoundFile> { (0..count).map(|n| found(&n.to_string(), 1)).collect() };
        assert!(matches!(
            search_files(b"/h", files()).data,
            ToolData::Files { truncated, .. } if truncated == cut
        ));
        assert!(matches!(
            list_large_files(b"/h", 1, files()).data,
            ToolData::LargeFiles { truncated, .. } if truncated == cut
        ));
    }
}
