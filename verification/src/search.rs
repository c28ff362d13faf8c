//! Which files a search is after.
use vstd::prelude::*;
use vstd::utf8::{decode_utf8, valid_utf8};

use crate::intent::IntentParams;
use crate::paths::{extension, file_name, path_extension, path_file_name};
use crate::text::{
    ascii_lowered, contains, has_text, lowercase, lowers_ascii, same_ignoring_ascii_case, same_text,
    strip_leading_dots, utf8_text, without_leading_dots,
};

verus! {

/// A time on the clock of the system: seconds since the epoch, and nanoseconds
/// on top of them.
#[derive(Clone, Copy, Debug, PartialEq, Eq, Structural)]
pub struct Timestamp {
    pub secs: i64,
    pub nanos: u32,
}

/// The nanoseconds in a day.
pub const DAY_NANOS: i128 = 86_400_000_000_000;

impl Timestamp {
    /// Nanoseconds since the epoch.
    pub open spec fn instant(self) -> int {
        self.secs * 1_000_000_000 + self.nanos
    }

    /// Whole seconds since the epoch, for a time at or after it.
    pub open spec fn epoch_seconds(self) -> Option<u64> {
        if self.instant() >= 0 {
            Some((self.instant() / 1_000_000_000) as u64)
        } else {
            None
        }
    }

    fn total(self) -> (r: i128)
        ensures
            r == self.instant(),
            i64::MIN * 1_000_000_000 <= r <= i64::MAX * 1_000_000_000 + u32::MAX,
    {
        self.secs as i128 * 1_000_000_000 + self.nanos as i128
    }

    /// Whole seconds since the epoch, for a time at or after it.
    pub fn seconds_since_epoch(self) -> (r: Option<u64>)
        ensures
            r == self.epoch_seconds(),
    {
        let total = self.total();
        if total >= 0 {
            Some((total / 1_000_000_000) as u64)
        } else {
            None
        }
    }
}

/// What kind of thing a directory entry is. A link is neither of the first two.
#[derive(Clone, Copy, Debug, PartialEq, Eq, Structural)]
pub enum FileKind {
    Directory,
    File,
    Other,
}

/// What the system knows of a directory entry. `seen_at` is when it was asked.
#[derive(Clone, Copy, Debug, PartialEq, Eq, Structural)]
pub struct FileMetadata {
    pub kind: FileKind,
    pub len: u64,
    pub modified: Option<Timestamp>,
    pub seen_at: Timestamp,
}

/// An age, in nanoseconds, lies in the range that a word in small letters stands
/// for. A word that stands for none sets no bound.
pub open spec fn age_in_range(age: int, word: Seq<char>) -> bool {
    if word == "today"@ {
        age <= DAY_NANOS
    } else if word == "last_week"@ || word == "week"@ {
        age <= 7 * DAY_NANOS
    } else if word == "last_month"@ || word == "month"@ {
        age <= 31 * DAY_NANOS
    } else {
        true
    }
}

/// A time lies in the range that a word in small letters stands for. No range
/// holds a time to come.
pub open spec fn time_in_range(modified: Timestamp, now: Timestamp, word: Seq<char>) -> bool {
    modified.instant() <= now.instant() && age_in_range(now.instant() - modified.instant(), word)
}

/// A time lies in an optional range.
pub open spec fn in_date_range(
    modified: Timestamp,
    now: Timestamp,
    date_range: Option<Seq<char>>,
) -> bool {
    match date_range {
        None => true,
        Some(text) => time_in_range(modified, now, lowercase(text)),
    }
}

/// Whether a time lies in the range that a word in small letters stands for.
pub fn within_date_range(modified: Timestamp, now: Timestamp, word: &str) -> (r: bool)
    ensures
        r == time_in_range(modified, now, word@),
{
    let from = modified.total();
    let to = now.total();
    if to < from {
        return false;
    }
    let age: i128 = to - from;
    if same_text(word, "today") {
        age <= DAY_NANOS
    } else if same_text(word, "last_week") || same_text(word, "week") {
        age <= 7 * DAY_NANOS
    } else if same_text(word, "last_month") || same_text(word, "month") {
        age <= 31 * DAY_NANOS
    } else {
        true
    }
}

/// The text of an optional string.
pub open spec fn text_view(text: Option<String>) -> Option<Seq<char>> {
    match text {
        Some(s) => Some(s@),
        None => None,
    }
}

/// Whether a time lies in an optional range, whatever the case of its letters.
pub fn matches_date_range(modified: Timestamp, now: Timestamp, date_range: &Option<String>) -> (r:
    bool)
    ensures
        r == in_date_range(modified, now, text_view(*date_range)),
        date_range matches Some(text) ==> lowers_ascii(text@),
{
    match date_range {
        None => true,
        Some(text) => {
            let word = text.as_str().to_lowercase();
            within_date_range(modified, now, word.as_str())
        },
    }
}

/// What a search is after. The query is in small letters.
#[derive(Debug)]
pub struct SearchCriteria {
    pub query: String,
    pub file_type: Option<String>,
    pub date_range: Option<String>,
    pub size_min: Option<u64>,
    pub size_max: Option<u64>,
}

/// What a search is after, in mathematical terms.
pub struct CriteriaView {
    pub query: Seq<char>,
    pub file_type: Option<Seq<char>>,
    pub date_range: Option<Seq<char>>,
    pub size_min: Option<u64>,
    pub size_max: Option<u64>,
}

impl View for SearchCriteria {
    type V = CriteriaView;

    open spec fn view(&self) -> CriteriaView {
        CriteriaView {
            query: self.query@,
            file_type: text_view(self.file_type),
            date_range: text_view(self.date_range),
            size_min: self.size_min,
            size_max: self.size_max,
        }
    }
}

/// The query of a search, empty where there is none.
pub open spec fn query_text(params: IntentParams) -> Seq<char> {
    match params.query {
        Some(q) => q@,
        None => ""@,
    }
}

/// What the parameters of an intent are after.
pub open spec fn sought(params: IntentParams) -> CriteriaView {
    let query = lowercase(query_text(params));
    match params.filters {
        Some(f) => CriteriaView {
            query,
            file_type: text_view(f.file_type),
            date_range: text_view(f.date_range),
            size_min: f.size_min,
            size_max: f.size_max,
        },
        None => CriteriaView {
            query,
            file_type: None,
            date_range: None,
            size_min: None,
            size_max: None,
        },
    }
}

/// What the parameters of an intent are after.
pub fn search_criteria(params: &IntentParams) -> (r: SearchCriteria)
    ensures
        r@ == sought(*params),
        lowers_ascii(query_text(*params)),
{
    let query = match &params.query {
        Some(q) => q.as_str().to_lowercase(),
        None => "".to_lowercase(),
    };
    match &params.filters {
        Some(f) => SearchCriteria {
            query,
            file_type: f.file_type.clone(),
            date_range: f.date_range.clone(),
            size_min: f.size_min,
            size_max: f.size_max,
        },
        None => SearchCriteria {
            query,
            file_type: None,
            date_range: None,
            size_min: None,
            size_max: None,
        },
    }
}

/// The text of a name, empty where the name is no text.
pub open spec fn name_text(path: Seq<u8>) -> Seq<char> {
    match file_name(path) {
        Some(name) if valid_utf8(name) => decode_utf8(name),
        _ => Seq::empty(),
    }
}

/// The path has the extension that a type asks for, whatever the case of ASCII
/// letters and with or without the dot.
pub open spec fn has_type(path: Seq<u8>, file_type: Seq<char>) -> bool {
    match extension(path) {
        Some(e) if valid_utf8(e) => ascii_lowered(decode_utf8(e)) == ascii_lowered(
            without_leading_dots(file_type),
        ),
        _ => false,
    }
}

/// A file is one that a search is after. `name` is its name in small letters, and
/// `dated` says whether its time lies in the range.
pub open spec fn meets(
    criteria: CriteriaView,
    name: Seq<char>,
    dated: bool,
    path: Seq<u8>,
    size: u64,
) -> bool {
    &&& criteria.query.len() == 0 || has_text(name, criteria.query)
    &&& criteria.file_type matches Some(t) ==> has_type(path, t)
    &&& criteria.size_min matches Some(n) ==> size >= n
    &&& criteria.size_max matches Some(n) ==> size <= n
    &&& dated
}

/// A file is one that a search is after.
pub open spec fn is_match(criteria: CriteriaView, path: Seq<u8>, file: FileMetadata) -> bool {
    meets(
        criteria,
        lowercase(name_text(path)),
        file.modified matches Some(time) && in_date_range(
            time,
            file.seen_at,
            criteria.date_range,
        ),
        path,
        file.len,
    )
}

fn type_matches(path: &[u8], file_type: &str) -> (r: bool)
    ensures
        r == has_type(path@, file_type@),
{
    match path_extension(path) {
        None => false,
        Some(e) => match utf8_text(e.as_slice()) {
            None => false,
            Some(text) => same_ignoring_ascii_case(text, strip_leading_dots(file_type)),
        },
    }
}

/// Whether a file is one that a search is after. `name` is its name in small
/// letters, and `dated` says whether its time lies in the range.
pub fn meets_criteria(
    criteria: &SearchCriteria,
    name: &str,
    dated: bool,
    path: &[u8],
    size: u64,
) -> (r: bool)
    ensures
        r == meets(criteria@, name@, dated, path@, size),
{
    let named = criteria.query.as_str().is_empty() || contains(name, criteria.query.as_str());
    let typed = match &criteria.file_type {
        Some(t) => type_matches(path, t.as_str()),
        None => true,
    };
    let large = match criteria.size_min {
        Some(n) => size >= n,
        None => true,
    };
    let small = match criteria.size_max {
        Some(n) => size <= n,
        None => true,
    };
    named && typed && large && small && dated
}

/// Whether a file is one that a search is after.
pub fn search_matches(criteria: &SearchCriteria, path: &[u8], file: &FileMetadata) -> (r: bool)
    ensures
        r == is_match(criteria@, path@, *file),
        lowers_ascii(name_text(path@)),
        file.modified is Some ==> (criteria.date_range matches Some(text) ==> lowers_ascii(text@)),
{
    let name = match path_file_name(path) {
        Some(bytes) => match utf8_text(bytes.as_slice()) {
            Some(text) => text.to_lowercase(),
            None => "".to_lowercase(),
        },
        None => "".to_lowercase(),
    };
    proof {
        reveal_strlit("");
        assert(""@ =~= Seq::<char>::empty());
    }
    let dated = match file.modified {
        Some(time) => matches_date_range(time, file.seen_at, &criteria.date_range),
        None => false,
    };
    meets_criteria(criteria, name.as_str(), dated, path, file.len)
}

} // verus!
