//! Laws of the reports on the network, the journal and the machine.
use vstd::prelude::*;
use vstd::utf8::encode_utf8;

use crate::execution::ToolExecution;
use crate::laws::numbers::{digits_denote_the_number, numbers_are_read_out_of_their_digits};
use crate::laws::texts::{lines_end_at_line_feeds, lines_of_parts, texts_are_cut_at_the_end};
use crate::logs::{is_log_report, is_service_char, is_service_name, log_args, log_lines};
use crate::network::{
    active_state, escaped, fields_are_read_back, is_network_report, nmcli_fields, nmcli_line,
    state_of_lines,
};
use crate::system::{ascending, comes_before, lists, order_is_total, ordered, shown};
use crate::text::{decimal, digits_value, lines_of};

verus! {

/// A text without colons and backslashes is written as it is.
pub proof fn plain_texts_are_not_escaped(s: Seq<char>)
    requires
        forall|i: int| 0 <= i < s.len() ==> s[i] != ':' && s[i] != '\\',
    ensures
        escaped(s) == s,
    decreases s.len(),
{
    if s.len() > 0 {
        let t = s.drop_first();
        assert(forall|i: int| 0 <= i < t.len() ==> t[i] == s[i + 1]);
        plain_texts_are_not_escaped(t);
        assert(s =~= seq![s.first()] + t);
    }
}

/// Each colon and each backslash is written behind a backslash.
pub proof fn colons_and_backslashes_are_escaped(a: Seq<char>, c: char, b: Seq<char>)
    requires
        c == ':' || c == '\\',
    ensures
        escaped(a + seq![c] + b) == escaped(a) + seq!['\\', c] + escaped(b),
    decreases a.len(),
{
    let s = a + seq![c] + b;
    if a.len() == 0 {
        assert(s.drop_first() =~= b);
        assert(escaped(s) =~= escaped(a) + seq!['\\', c] + escaped(b));
    } else {
        colons_and_backslashes_are_escaped(a.drop_first(), c, b);
        assert(s.drop_first() =~= a.drop_first() + seq![c] + b);
        assert(s.first() == a.first());
        assert(escaped(s) =~= escaped(a) + seq!['\\', c] + escaped(b));
    }
}

proof fn escaped_has_no_line_feed(s: Seq<char>)
    requires
        forall|i: int| 0 <= i < s.len() ==> s[i] != '\n',
    ensures
        forall|i: int| 0 <= i < escaped(s).len() ==> escaped(s)[i] != '\n',
    decreases s.len(),
{
    if s.len() > 0 {
        let t = s.drop_first();
        assert(forall|i: int| 0 <= i < t.len() ==> t[i] == s[i + 1]);
        escaped_has_no_line_feed(t);
        let e = escaped(t);
        let n = escaped(s).len() - e.len();
        assert forall|i: int| 0 <= i < escaped(s).len() implies escaped(s)[i] != '\n' by {
            if i >= n {
                assert(escaped(s)[i] == e[i - n]);
            }
        }
    }
}

/// The first active line decides, whatever lines stand before and behind it.
pub proof fn the_first_active_line_decides(
    before: Seq<Seq<char>>,
    line: Seq<char>,
    after: Seq<Seq<char>>,
)
    requires
        forall|i: int|
            0 <= i < before.len() ==> nmcli_fields(#[trigger] before[i])[0] != "yes"@,
        nmcli_fields(line)[0] == "yes"@,
    ensures
        state_of_lines(before.push(line) + after) == active_state(nmcli_fields(line)),
    decreases before.len(),
{
    let all = before.push(line) + after;
    if before.len() == 0 {
        assert(all.first() == line);
    } else {
        let rest = before.drop_first();
        assert(forall|i: int| 0 <= i < rest.len() ==> rest[i] == before[i + 1]);
        the_first_active_line_decides(rest, line, after);
        assert(all.first() == before[0]);
        assert(all.drop_first() =~= rest.push(line) + after);
    }
}

/// There is a connection exactly where a line is active; without one there is neither a
/// name nor a strength.
pub proof fn connections_are_active_lines(report: Seq<Seq<char>>)
    ensures
        state_of_lines(report).connected <==> exists|i: int|
            0 <= i < report.len() && nmcli_fields(#[trigger] report[i])[0] == "yes"@,
        !state_of_lines(report).connected ==> state_of_lines(report).ssid is None
            && state_of_lines(report).signal_strength is None,
    decreases report.len(),
{
    if report.len() > 0 {
        let rest = report.drop_first();
        connections_are_active_lines(rest);
        if nmcli_fields(report[0])[0] != "yes"@ {
            if exists|i: int|
                0 <= i < report.len() && nmcli_fields(#[trigger] report[i])[0] == "yes"@ {
                let i = choose|i: int|
                    0 <= i < report.len() && nmcli_fields(#[trigger] report[i])[0] == "yes"@;
                assert(rest[i - 1] == report[i]);
            }
            if exists|i: int|
                0 <= i < rest.len() && nmcli_fields(#[trigger] rest[i])[0] == "yes"@ {
                let i = choose|i: int|
                    0 <= i < rest.len() && nmcli_fields(#[trigger] rest[i])[0] == "yes"@;
                assert(report[i + 1] == rest[i]);
            }
        }
    }
}

proof fn line_of_connection(name: Seq<char>, strength: u8) -> (line: Seq<char>)
    requires
        forall|i: int| 0 <= i < name.len() ==> name[i] != '\n',
    ensures
        line == "yes:"@ + escaped(name) + seq![':'] + decimal(strength as nat),
        nmcli_fields(line) == seq!["yes"@, name, decimal(strength as nat)],
        forall|i: int| 0 <= i < line.len() ==> line[i] != '\n',
        line.len() > 0,
        line.last() != '\r',
{
    let d = decimal(strength as nat);
    digits_denote_the_number(strength as nat);
    reveal_strlit("yes");
    reveal_strlit("yes:");
    let fields = seq!["yes"@, name, d];
    plain_texts_are_not_escaped("yes"@);
    plain_texts_are_not_escaped(d);
    escaped_has_no_line_feed(name);
    let line = "yes:"@ + escaped(name) + seq![':'] + d;
    let two = fields.drop_first();
    let one = two.drop_first();
    assert(one.first() == d && one.len() == 1);
    assert(nmcli_line(one) == d);
    assert(two.first() == name && two.len() == 2);
    assert(nmcli_line(two) == escaped(name) + (seq![':'] + d));
    assert(nmcli_line(fields) == "yes"@ + (seq![':'] + nmcli_line(two)));
    assert(nmcli_line(fields) =~= line);
    fields_are_read_back(fields);
    assert(line.last() == d.last());
    let e = escaped(name);
    assert forall|i: int| 0 <= i < line.len() implies line[i] != '\n' by {
        if i < 4 {
            assert(line[i] == "yes:"@[i]);
        } else if i < 4 + e.len() {
            assert(line[i] == e[i - 4]);
        } else if i == 4 + e.len() {
            assert(line[i] == ':');
        } else {
            assert(line[i] == d[i - 5 - e.len()]);
        }
    }
    line
}

/// A connection of any name and any strength, written as the first active line of a
/// report, is read back with exactly that name and that strength.
pub proof fn connections_are_read_back(
    before: Seq<char>,
    name: Seq<char>,
    strength: u8,
    after: Seq<char>,
)
    requires
        name.len() > 0,
        forall|i: int| 0 <= i < name.len() ==> name[i] != '\n',
        before.len() > 0 ==> before.last() == '\n',
        forall|i: int|
            0 <= i < lines_of(before).len() ==> nmcli_fields(#[trigger] lines_of(before)[i])[0]
                != "yes"@,
        after.len() == 0 || after[0] == '\n' || (after.len() > 1 && after[0] == '\r' && after[1]
            == '\n'),
    ensures
        ({
            let line = "yes:"@ + escaped(name) + seq![':'] + decimal(strength as nat);
            let state = state_of_lines(lines_of(before + line + after));
            &&& state.connected
            &&& state.ssid == Some(name)
            &&& state.signal_strength == Some(strength as nat)
        }),
{
    let line = line_of_connection(name, strength);
    let d = decimal(strength as nat);
    let rest = if after.len() == 0 {
        assert(line + after =~= line);
        lines_end_at_line_feeds(line, Seq::empty());
        assert(lines_of(line + after) =~= seq![line] + Seq::<Seq<char>>::empty());
        Seq::<Seq<char>>::empty()
    } else if after[0] == '\n' {
        let tail = after.skip(1);
        assert(line + after =~= line + seq!['\n'] + tail);
        lines_end_at_line_feeds(line, tail);
        lines_of(tail)
    } else {
        let tail = after.skip(2);
        let long = line.push('\r');
        assert(line + after =~= long + seq!['\n'] + tail);
        assert(forall|i: int| 0 <= i < long.len() ==> long[i] != '\n');
        lines_end_at_line_feeds(long, tail);
        assert(long.drop_last() =~= line);
        lines_of(tail)
    };
    assert(lines_of(line + after) == seq![line] + rest);
    lines_of_parts(before, line + after);
    assert(before + line + after =~= before + (line + after));
    let lines = lines_of(before);
    assert(lines + (seq![line] + rest) =~= lines.push(line) + rest);
    assert(nmcli_fields(line)[0] == "yes"@);
    the_first_active_line_decides(lines, line, rest);
    let fields = nmcli_fields(line);
    assert(fields.len() == 3 && fields[1] == name && fields[2] == d);
    numbers_are_read_out_of_their_digits(strength as nat, 255);
}

/// A report on the network tells the state that was read, whole.
pub proof fn the_network_is_reported_as_read(x: ToolExecution, output: Seq<char>)
    requires
        is_network_report(x, output),
    ensures
        ({
            let state = state_of_lines(lines_of(output));
            &&& x.data is Network
            &&& x.data->connected == state.connected
            &&& x.data->ssid is Some == state.ssid is Some
            &&& x.data->ssid matches Some(s) ==> s@ == state.ssid->0
            &&& x.data->signal_strength is Some == state.signal_strength is Some
            &&& x.data->signal_strength matches Some(n) ==> n as nat == state.signal_strength->0
        }),
{
}

/// So many entries are read as were asked for, but at least 1 and at most 200; 50 where no
/// number was given.
pub proof fn entries_are_bounded(n: u32)
    ensures
        1 <= n <= 200 ==> log_lines(Some(n)) == n,
        n < 1 ==> log_lines(Some(n)) == 1,
        n > 200 ==> log_lines(Some(n)) == 200,
        log_lines(None) == 50,
{
}

/// The command for the journal names the service as it stands and the number by digits
/// that denote it.
pub proof fn the_journal_is_asked_for_what_was_requested(service: Seq<char>, lines: u32)
    ensures
        ({
            let args = log_args(service, lines);
            &&& args.len() == 6
            &&& args[0] == "-u"@ && args[1] == service
            &&& args[2] == "-n"@ && digits_value(args[3]) == lines
            &&& forall|i: int| 0 <= i < args[3].len() ==> '0' <= #[trigger] args[3][i] <= '9'
            &&& args[4] == "--no-pager"@ && args[5] == "--output=short-iso"@
        }),
{
    digits_denote_the_number(lines as nat);
}

/// A report on the journal holds what `journalctl` wrote, whole up to 30,000 characters
/// and cut behind them, and names the service and the number as they were.
pub proof fn the_journal_is_reported_whole(
    x: ToolExecution,
    service: Seq<char>,
    lines: u32,
    head: Seq<char>,
    tail: Seq<char>,
)
    requires
        is_log_report(x, service, lines, head + tail),
    ensures
        x.data is Logs,
        x.data->service_name@ == service,
        x.data->lines == lines,
        head.len() <= 30_000 && tail.len() == 0 ==> x.data->logs@ == head,
        head.len() == 30_000 ==> x.data->logs@ == head,
        exists|d: Seq<char>, b: Seq<char>|
            {
                &&& digits_value(d) == lines
                &&& b == " recent log entries from "@ + service + "."@
                &&& x.summary@ == #[trigger] ("Read up to "@ + d + b)
            },
{
    texts_are_cut_at_the_end(head, tail, 30_000);
    if tail.len() == 0 {
        assert(head + tail =~= head);
    }
    digits_denote_the_number(lines as nat);
    let d = decimal(lines as nat);
    let b = " recent log entries from "@ + service + "."@;
    assert(x.summary@ == "Read up to "@ + d + b);
}

/// The name of a service is judged by its length and by each of its characters alone.
pub proof fn names_of_services_are_judged_by_their_characters(service: Seq<char>)
    ensures
        is_service_name(service) <==> encode_utf8(service).len() <= 100 && forall|i: int|
            0 <= i < service.len() ==> is_service_char(#[trigger] service[i]),
{
}

/// A text comes before its continuations, and of two texts that part after a common start
/// the one with the smaller character comes first, whatever follows.
pub proof fn texts_are_ordered_where_they_part(
    start: Seq<char>,
    c: char,
    x: Seq<char>,
    d: char,
    y: Seq<char>,
)
    ensures
        comes_before(start, start + seq![c] + x),
        !comes_before(start + seq![c] + x, start),
        c < d ==> comes_before(start + seq![c] + x, start + seq![d] + y),
        c < d ==> !comes_before(start + seq![d] + y, start + seq![c] + x),
        !comes_before(start, start),
    decreases start.len(),
{
    let a = start + seq![c] + x;
    let b = start + seq![d] + y;
    if start.len() > 0 {
        let rest = start.drop_first();
        texts_are_ordered_where_they_part(rest, c, x, d, y);
        assert(a.drop_first() =~= rest + seq![c] + x);
        assert(b.drop_first() =~= rest + seq![d] + y);
        assert(a.first() == start.first() && b.first() == start.first());
    } else {
        assert(a.first() == c && b.first() == d);
    }
}

/// Of the names that are shown each is one of those found, each stands before those that
/// follow it, there are at most 50, and where there are fewer, all that were found show.
pub proof fn applications_show_once_and_in_order(names: Seq<Seq<char>>)
    requires
        lists(ordered(names.to_set()), names.to_set()),
    ensures
        ({
            let r = shown(ordered(names.to_set()));
            &&& r.len() <= 50
            &&& forall|k: int| 0 <= k < r.len() ==> names.contains(#[trigger] r[k])
            &&& forall|j: int, k: int|
                0 <= j < k < r.len() ==> comes_before(#[trigger] r[j], #[trigger] r[k]) && r[j]
                    != r[k]
            &&& r.len() < 50 ==> forall|n: Seq<char>| names.contains(n) ==> r.contains(n)
            &&& r.len() == 50 ==> forall|n: Seq<char>, k: int|
                names.contains(n) && !r.contains(n) && 0 <= k < r.len() ==> #[trigger] comes_before(
                    r[k],
                    n,
                )
        }),
{
    let all = ordered(names.to_set());
    let r = shown(all);
    assert(ascending(all));
    assert forall|k: int| 0 <= k < r.len() implies names.contains(#[trigger] r[k]) by {
        assert(r[k] == all[k]);
        assert(all.to_set().contains(all[k]));
        assert(names.to_set().contains(r[k]));
    }
    assert forall|j: int, k: int| 0 <= j < k < r.len() implies comes_before(
        #[trigger] r[j],
        #[trigger] r[k],
    ) && r[j] != r[k] by {
        assert(r[j] == all[j] && r[k] == all[k]);
        order_is_total(r[j], r[k]);
    }
    assert forall|n: Seq<char>| names.contains(n) implies all.contains(n) by {
        assert(names.to_set().contains(n));
        assert(all.to_set().contains(n));
    }
    if r.len() == 50 {
        assert forall|n: Seq<char>, k: int|
            names.contains(n) && !r.contains(n) && 0 <= k < r.len() implies #[trigger] comes_before(
            r[k],
            n,
        ) by {
            let m = choose|m: int| 0 <= m < all.len() && all[m] == n;
            if m < 50 {
                assert(r[m] == n);
            }
            assert(all[k] == r[k]);
            assert(comes_before(all[k], all[m]));
        }
    }
}

} // verus!
