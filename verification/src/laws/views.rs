//! What the views of the library's types hold: all of a value, and nothing else.
use vstd::prelude::*;

use crate::command::CommandLine;
use crate::execution::{found_views, refused, FoundFile};
use crate::files::filter_path;
use crate::intent::{IntentParams, Param};
use crate::json::{json_bool, json_holds};
use crate::network::{active_state, fields_from, tells, NetworkState};
use crate::scope::path_view;
use crate::search::SearchCriteria;
use crate::settings::{
    is_json_value, json_value_is_unique, listed_toggle, requested_toggle, toggle_answer,
    toggle_fault_text, SettingValue, ToggleFault, ToggleSetting,
};
use crate::text::{lowercase, parsed_unsigned, texts, trimmed};
use crate::walk::{listing_view, DirectoryEntry, FilePredicate, PredicateView};

verus! {

/// A list of texts is seen text by text, each whole.
pub proof fn texts_are_seen_whole(v: Seq<String>, i: int)
    requires
        0 <= i < v.len(),
    ensures
        texts(v).len() == v.len(),
        texts(v)[i] == v[i]@,
{
}

/// A command runs its program with its arguments, each as it stands, and no others.
pub proof fn commands_run_as_they_stand(
    command: CommandLine,
    program: Seq<char>,
    args: Seq<Seq<char>>,
    i: int,
)
    requires
        command.runs(program, args),
    ensures
        command.program@ == program,
        command.args@.len() == args.len(),
        0 <= i < args.len() ==> command.args@[i]@ == args[i],
{
    assert(texts(command.args@).len() == command.args@.len());
}

/// A report on files is seen file by file, each with its path, size and time.
pub proof fn found_files_are_seen_whole(v: Seq<FoundFile>, i: int)
    requires
        0 <= i < v.len(),
    ensures
        found_views(v).len() == v.len(),
        found_views(v)[i].path == v[i].path@,
        found_views(v)[i].size_bytes == v[i].size_bytes,
        found_views(v)[i].modified == v[i].modified,
{
}

/// A listing is seen entry by entry, each with its path and what the system knows of it; a
/// folder that cannot be read is seen as such.
pub proof fn listings_are_seen_whole(entries: Vec<DirectoryEntry>, i: int)
    ensures
        listing_view(None) is None,
        listing_view(Some(entries)) is Some,
        listing_view(Some(entries))->0.len() == entries@.len(),
        0 <= i < entries@.len() ==> listing_view(Some(entries))->0[i].path == entries@[i].path@,
        0 <= i < entries@.len() ==> listing_view(Some(entries))->0[i].metadata
            == entries@[i].metadata,
{
}

/// What a search is after is seen criterion by criterion, each whole.
pub proof fn criteria_are_seen_whole(c: SearchCriteria, bytes: u64)
    ensures
        c@.query == c.query@,
        c@.file_type is Some == c.file_type is Some,
        c.file_type matches Some(t) ==> c@.file_type->0 == t@,
        c@.date_range is Some == c.date_range is Some,
        c.date_range matches Some(t) ==> c@.date_range->0 == t@,
        c@.size_min == c.size_min,
        c@.size_max == c.size_max,
        FilePredicate::Search(c)@ == PredicateView::Search(c@),
        FilePredicate::AtLeast(bytes)@ == PredicateView::AtLeast(bytes),
{
}

/// The path of a search is the one that its filters give, whole.
pub proof fn paths_are_seen_whole(params: IntentParams, text: &str)
    ensures
        params.filters is None ==> filter_path(params) is None,
        params.filters matches Some(f) ==> {
            &&& filter_path(params) is Some == f.path is Some
            &&& f.path matches Some(p) ==> filter_path(params)->0 == p@
        },
        path_view(Some(text)) == Some(text@),
        path_view(None) is None,
{
}

/// A parameter is there exactly where it is given, whatever it holds.
pub proof fn parameters_are_there_where_they_are_given(params: IntentParams)
    ensures
        params.present().contains(Param::Query) <==> params.query is Some,
        params.present().contains(Param::Filters) <==> params.filters is Some,
        params.present().contains(Param::Directory) <==> params.directory is Some,
        params.present().contains(Param::ThresholdMb) <==> params.threshold_mb is Some,
        params.present().contains(Param::SettingName) <==> params.setting_name is Some,
        params.present().contains(Param::Value) <==> params.value is Some,
        params.present().contains(Param::ServiceName) <==> params.service_name is Some,
        params.present().contains(Param::Lines) <==> params.lines is Some,
{
}

/// The value of a JSON text is the truth value or the number that the text holds, and the
/// text itself where it holds neither.
pub proof fn json_values_are_read_as_written(value: SettingValue, text: Seq<char>, n: u64, b: bool)
    requires
        is_json_value(value, text),
    ensures
        json_holds(text, n) ==> value == SettingValue::Unsigned(n),
        json_bool(text) == Some(b) ==> value == SettingValue::Bool(b),
        value matches SettingValue::Other(kept) ==> kept@ == text,
        json_bool(text) is None && (forall|m: u64| !#[trigger] json_holds(text, m))
            ==> value is Other,
{
    if json_holds(text, n) {
        json_value_is_unique(value, SettingValue::Unsigned(n), text);
    }
    if json_bool(text) == Some(b) {
        json_value_is_unique(value, SettingValue::Bool(b), text);
    }
}

/// A refusal gives the whole text as the error.
pub proof fn refusals_are_told_whole<T>(r: Result<T, String>, text: Seq<char>)
    ensures
        refused(r, text) <==> r is Err && r->Err_0@ == text,
{
}

/// The change that is handed out is the one that is expected, and a fault is told.
pub proof fn changes_are_answered_as_expected(
    r: Result<ToggleSetting, String>,
    setting: ToggleSetting,
    fault: ToggleFault,
)
    ensures
        toggle_answer(r, Ok(setting)) <==> r is Ok && r->Ok_0 == setting,
        toggle_answer(r, Err(fault)) <==> r is Err && r->Err_0@ == toggle_fault_text(fault),
{
}

/// The name of a setting counts in small letters and without the white space around it,
/// whatever its length; without a name or a value there is no change.
pub proof fn names_of_settings_count_whole(
    name: String,
    other: String,
    value: SettingValue,
    missing: Option<SettingValue>,
)
    ensures
        requested_toggle(Some(name), Some(value)) == listed_toggle(
            lowercase(trimmed(name@)),
            value,
        ),
        lowercase(trimmed(name@)) == lowercase(trimmed(other@)) ==> requested_toggle(
            Some(name),
            Some(value),
        ) == requested_toggle(Some(other), Some(value)),
        requested_toggle(None, missing) is Err,
        requested_toggle(Some(name), None) is Err,
{
}

/// The three parts of a state are told whole.
pub proof fn states_are_told_whole(
    connected: bool,
    ssid: Option<String>,
    strength: Option<u8>,
    state: NetworkState,
)
    requires
        tells(connected, ssid, strength, state),
    ensures
        connected == state.connected,
        ssid is Some == state.ssid is Some,
        ssid matches Some(s) ==> state.ssid->0 == s@,
        strength is Some == state.signal_strength is Some,
        strength matches Some(n) ==> state.signal_strength->0 == n,
{
}

/// An active line tells its second field as the name, unless it is empty, and the number
/// in its third field as the strength, if it is one below 256.
pub proof fn active_lines_tell_name_and_strength(fields: Seq<Seq<char>>)
    ensures
        active_state(fields).connected,
        fields.len() > 1 && fields[1].len() > 0 ==> active_state(fields).ssid == Some(fields[1]),
        fields.len() < 2 || fields[1].len() == 0 ==> active_state(fields).ssid is None,
        fields.len() > 2 ==> active_state(fields).signal_strength == parsed_unsigned(
            fields[2],
            255,
        ),
        fields.len() < 3 ==> active_state(fields).signal_strength is None,
{
}

/// A backslash before a character that has no meaning of its own changes nothing, and one
/// at the end of a line stands for itself.
pub proof fn needless_backslashes_change_nothing(c: char, rest: Seq<char>, field: Seq<char>)
    requires
        c != ':' && c != '\\',
    ensures
        fields_from(seq!['\\', c] + rest, field) == fields_from(seq![c] + rest, field),
        fields_from(seq!['\\'], field) == seq![field.push('\\')],
{
    let a = seq!['\\', c] + rest;
    let b = seq![c] + rest;
    assert(a.skip(2) =~= rest);
    assert(b.drop_first() =~= rest);
    assert(a[1] == c && b.first() == c);
}

} // verus!
