//! The state of the wireless network, as `nmcli` reports it.
use vstd::prelude::*;

use crate::command::{CommandLine, CommandOutcome};
use crate::execution::{refused, ToolData, ToolExecution};
use crate::text::{
    lines, lines_of, lossy, lossy_text, parse_unsigned, parsed_unsigned, same_text, shows_utf8, texts,
    to_chars,
};

verus! {

/// The fields of a terse `nmcli` line, of which the first begins with `field` and
/// goes on with `line`. A colon ends a field; a backslash stands for the
/// character behind it, or for itself at the end of the line.
pub open spec fn fields_from(line: Seq<char>, field: Seq<char>) -> Seq<Seq<char>>
    decreases line.len(),
{
    if line.len() == 0 {
        seq![field]
    } else if line.first() == '\\' {
        if line.len() == 1 {
            seq![field.push('\\')]
        } else {
            fields_from(line.skip(2), field.push(line[1]))
        }
    } else if line.first() == ':' {
        seq![field] + fields_from(line.drop_first(), Seq::empty())
    } else {
        fields_from(line.drop_first(), field.push(line.first()))
    }
}

/// The fields of a terse `nmcli` line.
pub open spec fn nmcli_fields(line: Seq<char>) -> Seq<Seq<char>> {
    fields_from(line, Seq::empty())
}

/// The fields of a terse `nmcli` line.
pub fn split_nmcli_fields(line: &str) -> (r: Vec<String>)
    ensures
        texts(r@) == nmcli_fields(line@),
        r@.len() > 0,
{
    let chars = to_chars(line);
    let n = chars.len();
    let mut fields: Vec<String> = Vec::new();
    let mut field = String::new();
    let mut i: usize = 0;
    assert(line@.skip(0) == line@);
    assert(texts(fields@) + nmcli_fields(line@) =~= nmcli_fields(line@));
    while i < n
        invariant
            chars@ == line@,
            n == chars@.len(),
            i <= n,
            texts(fields@) + fields_from(line@.skip(i as int), field@) == nmcli_fields(line@),
        decreases n - i,
    {
        let ghost rest = line@.skip(i as int);
        assert(rest.first() == chars@[i as int]);
        assert(rest.drop_first() == line@.skip(i + 1));
        if chars[i] == '\\' {
            if i + 1 < n {
                assert(rest.skip(2) == line@.skip(i + 2));
                assert(rest[1] == chars@[i + 1]);
                field.push(chars[i + 1]);
                i += 2;
            } else {
                assert(rest.len() == 1);
                assert(line@.skip(i + 1).len() == 0);
                field.push('\\');
                i += 1;
            }
        } else if chars[i] == ':' {
            proof {
                assert(texts(fields@.push(field)) =~= texts(fields@).push(field@));
                let tail = fields_from(line@.skip(i + 1), Seq::empty());
                assert(texts(fields@) + (seq![field@] + tail) =~= texts(fields@.push(field))
                    + tail);
            }
            fields.push(field);
            field = String::new();
            i += 1;
        } else {
            field.push(chars[i]);
            i += 1;
        }
    }
    assert(line@.skip(n as int).len() == 0);
    assert(texts(fields@.push(field)) =~= texts(fields@) + seq![field@]);
    fields.push(field);
    fields
}

/// `field` with a backslash before each colon and each backslash.
pub open spec fn escaped(field: Seq<char>) -> Seq<char>
    decreases field.len(),
{
    if field.len() == 0 {
        Seq::empty()
    } else if field.first() == ':' || field.first() == '\\' {
        seq!['\\', field.first()] + escaped(field.drop_first())
    } else {
        seq![field.first()] + escaped(field.drop_first())
    }
}

/// The line that holds `fields`, each escaped, with colons between them.
pub open spec fn nmcli_line(fields: Seq<Seq<char>>) -> Seq<char>
    decreases fields.len(),
{
    if fields.len() == 0 {
        Seq::empty()
    } else if fields.len() == 1 {
        escaped(fields.first())
    } else {
        escaped(fields.first()) + (seq![':'] + nmcli_line(fields.drop_first()))
    }
}

/// An escaped text is read back as it was.
proof fn escaped_is_read_back(part: Seq<char>, rest: Seq<char>, field: Seq<char>)
    ensures
        fields_from(escaped(part) + rest, field) == fields_from(rest, field + part),
    decreases part.len(),
{
    if part.len() == 0 {
        assert(escaped(part) + rest =~= rest);
        assert(field + part =~= field);
    } else {
        let tail = part.drop_first();
        let line = escaped(part) + rest;
        let inner = escaped(tail) + rest;
        let c = part.first();
        if c == ':' || c == '\\' {
            assert(line.skip(2) =~= inner);
        } else {
            assert(line.drop_first() =~= inner);
        }
        escaped_is_read_back(tail, rest, field.push(c));
        assert(field.push(c) + tail =~= field + part);
    }
}

/// Fields of any text, written to a line, are read back as they were.
pub proof fn fields_are_read_back(fields: Seq<Seq<char>>)
    requires
        fields.len() > 0,
    ensures
        nmcli_fields(nmcli_line(fields)) == fields,
    decreases fields.len(),
{
    let first = fields.first();
    let none = Seq::<char>::empty();
    if fields.len() == 1 {
        escaped_is_read_back(first, none, none);
        assert(escaped(first) + none =~= escaped(first));
        assert(none + first =~= first);
        assert(seq![first] =~= fields);
    } else {
        let tail = fields.drop_first();
        let rest = seq![':'] + nmcli_line(tail);
        escaped_is_read_back(first, rest, none);
        assert(none + first =~= first);
        assert(rest.drop_first() =~= nmcli_line(tail));
        fields_are_read_back(tail);
        assert(seq![first] + tail =~= fields);
    }
}

/// The state of the network: whether there is a connection, its name, and the
/// strength of the signal.
pub struct NetworkState {
    pub connected: bool,
    pub ssid: Option<Seq<char>>,
    pub signal_strength: Option<nat>,
}

/// The state that the fields of an active connection tell. An empty name counts
/// as none, and so does a strength that is no number below 256.
pub open spec fn active_state(fields: Seq<Seq<char>>) -> NetworkState {
    NetworkState {
        connected: true,
        ssid: if fields.len() > 1 && fields[1].len() > 0 {
            Some(fields[1])
        } else {
            None
        },
        signal_strength: if fields.len() > 2 {
            parsed_unsigned(fields[2], 255)
        } else {
            None
        },
    }
}

/// The state that a report tells: that of its first line with a leading "yes".
pub open spec fn state_of_lines(report: Seq<Seq<char>>) -> NetworkState
    decreases report.len(),
{
    if report.len() == 0 {
        NetworkState { connected: false, ssid: None, signal_strength: None }
    } else if nmcli_fields(report.first())[0] == "yes"@ {
        active_state(nmcli_fields(report.first()))
    } else {
        state_of_lines(report.drop_first())
    }
}

/// The text of an optional name.
pub open spec fn name_view(name: Option<String>) -> Option<Seq<char>> {
    match name {
        Some(s) => Some(s@),
        None => None,
    }
}

/// The number in an optional strength.
pub open spec fn strength_view(strength: Option<u8>) -> Option<nat> {
    match strength {
        Some(n) => Some(n as nat),
        None => None,
    }
}

/// The three parts are those of `state`.
pub open spec fn tells(
    connected: bool,
    ssid: Option<String>,
    strength: Option<u8>,
    state: NetworkState,
) -> bool {
    &&& connected == state.connected
    &&& name_view(ssid) == state.ssid
    &&& strength_view(strength) == state.signal_strength
}

/// The state that a report of `nmcli` tells.
pub fn parse_network_status(output: &str) -> (r: (bool, Option<String>, Option<u8>))
    ensures
        tells(r.0, r.1, r.2, state_of_lines(lines_of(output@))),
{
    let report = lines(output);
    let ghost all = lines_of(output@);
    let mut i: usize = 0;
    assert(all.skip(0) == all);
    while i < report.len()
        invariant
            texts(report@) == all,
            all == lines_of(output@),
            i <= report@.len(),
            state_of_lines(all) == state_of_lines(all.skip(i as int)),
        decreases report@.len() - i,
    {
        let fields = split_nmcli_fields(report[i].as_str());
        let ghost parts = nmcli_fields(all[i as int]);
        assert(texts(report@)[i as int] == report@[i as int]@);
        assert(texts(fields@) == parts);
        assert(forall|j: int| 0 <= j < fields@.len() ==> parts[j] == fields@[j]@);
        assert(all.skip(i as int).first() == all[i as int]);
        assert(all.skip(i as int).drop_first() == all.skip(i + 1));
        if same_text(fields[0].as_str(), "yes") {
            let ssid = if fields.len() > 1 && !fields[1].as_str().is_empty() {
                Some(fields[1].clone())
            } else {
                None
            };
            let strength = if fields.len() > 2 {
                match parse_unsigned(fields[2].as_str(), 255) {
                    Some(n) => Some(n as u8),
                    None => None,
                }
            } else {
                None
            };
            return (true, ssid, strength);
        }
        i += 1;
    }
    assert(all.skip(i as int).len() == 0);
    (false, None, None)
}

/// The arguments with which `nmcli` reports the networks.
pub open spec fn network_args() -> Seq<Seq<char>> {
    seq!["-t"@, "-f"@, "ACTIVE,SSID,SIGNAL"@, "dev"@, "wifi"@]
}

/// The command that reports the networks.
pub fn network_command() -> (r: CommandLine)
    ensures
        r.runs("nmcli"@, network_args()),
{
    let args = vec![
        "-t".to_owned(),
        "-f".to_owned(),
        "ACTIVE,SSID,SIGNAL".to_owned(),
        "dev".to_owned(),
        "wifi".to_owned(),
    ];
    assert(texts(args@) =~= network_args());
    CommandLine { program: "nmcli".to_owned(), args }
}

/// The report on the network that the text `output` of `nmcli` makes.
pub open spec fn is_network_report(x: ToolExecution, output: Seq<char>) -> bool {
    let state = state_of_lines(lines_of(output));
    &&& x.tool@ == "get_network_status"@
    &&& x.summary@ == (if state.connected {
        "Network connection found."@
    } else {
        "No active Wi-Fi connection found."@
    })
    &&& x.data matches ToolData::Network { connected, ssid, signal_strength } && tells(
        connected,
        ssid,
        signal_strength,
        state,
    )
}

/// The report on the network that the text `output` of `nmcli` makes.
pub fn network_report(output: &str) -> (r: ToolExecution)
    ensures
        is_network_report(r, output@),
{
    let (connected, ssid, signal_strength) = parse_network_status(output);
    ToolExecution {
        tool: "get_network_status".to_owned(),
        summary: if connected {
            "Network connection found.".to_owned()
        } else {
            "No active Wi-Fi connection found.".to_owned()
        },
        data: ToolData::Network { connected, ssid, signal_strength },
    }
}

/// The report on the network, once `network_command` has been run.
pub fn get_network_status(outcome: &CommandOutcome) -> (r: Result<ToolExecution, String>)
    ensures
        match outcome {
            CommandOutcome::NotStarted => refused(
                r,
                "Could not query NetworkManager. Is nmcli installed?"@,
            ),
            CommandOutcome::Failed => refused(
                r,
                "NetworkManager could not report Wi-Fi status."@,
            ),
            CommandOutcome::Succeeded { stdout } => r matches Ok(x) && is_network_report(
                x,
                lossy_text(stdout@),
            ) && shows_utf8(stdout@),
        },
{
    match outcome {
        CommandOutcome::NotStarted => Err(
            "Could not query NetworkManager. Is nmcli installed?".to_owned(),
        ),
        CommandOutcome::Failed => Err("NetworkManager could not report Wi-Fi status.".to_owned()),
        CommandOutcome::Succeeded { stdout } => {
            let text = lossy(stdout.as_slice());
            Ok(network_report(text.as_str()))
        },
    }
}

} // verus!
