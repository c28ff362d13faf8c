//! Recent entries of the system journal.
use vstd::prelude::*;
use vstd::utf8::encode_utf8;

use crate::command::{CommandLine, CommandOutcome};
use crate::execution::{refused, ToolData, ToolExecution};
use crate::intent::IntentParams;
use crate::text::{
    decimal, glue3, lossy, lossy_text, shorten, shortened, shows_utf8, texts, to_chars, to_decimal,
};

verus! {

/// The longest name of a service, in bytes.
pub const MAX_SERVICE_BYTES: usize = 100;

/// The number of entries that are read where none is given.
pub const DEFAULT_LOG_LINES: u32 = 50;

/// The largest number of entries that are read.
pub const MAX_LOG_LINES: u32 = 200;

/// The number of characters of the journal that are kept.
pub const MAX_LOG_CHARS: usize = 30_000;

/// A letter or digit of ASCII, a full stop, an underscore, a hyphen or a space.
pub open spec fn is_service_char(c: char) -> bool {
    ||| '0' <= c <= '9'
    ||| 'A' <= c <= 'Z'
    ||| 'a' <= c <= 'z'
    ||| c == '.'
    ||| c == '_'
    ||| c == '-'
    ||| c == ' '
}

/// A text that may be passed on as the name of a service.
pub open spec fn is_service_name(service: Seq<char>) -> bool {
    &&& encode_utf8(service).len() <= MAX_SERVICE_BYTES
    &&& forall|i: int| 0 <= i < service.len() ==> is_service_char(#[trigger] service[i])
}

fn service_char(c: char) -> (r: bool)
    ensures
        r == is_service_char(c),
{
    let n: u32 = c as u32;
    (48 <= n && n <= 57) || (65 <= n && n <= 90) || (97 <= n && n <= 122) || c == '.' || c == '_'
        || c == '-' || c == ' '
}

/// Whether a text may be passed on as the name of a service.
pub fn is_valid_service_name(service: &str) -> (r: bool)
    ensures
        r == is_service_name(service@),
{
    if service.as_bytes().len() > MAX_SERVICE_BYTES {
        return false;
    }
    let chars = to_chars(service);
    let mut i: usize = 0;
    while i < chars.len()
        invariant
            chars@ == service@,
            i <= chars@.len(),
            forall|j: int| 0 <= j < i ==> is_service_char(#[trigger] service@[j]),
        decreases chars@.len() - i,
    {
        if !service_char(chars[i]) {
            assert(!is_service_char(service@[i as int]));
            return false;
        }
        i += 1;
    }
    true
}

/// What is to be read from the journal: so many entries of a service whose name may be
/// passed on.
#[derive(Debug)]
pub struct LogRequest {
    service: String,
    lines: u32,
}

impl LogRequest {
    #[verifier::type_invariant]
    spec fn is_vetted(&self) -> bool {
        is_service_name(self.service@) && 1 <= self.lines <= MAX_LOG_LINES
    }

    /// The name of the service.
    pub closed spec fn service_text(&self) -> Seq<char> {
        self.service@
    }

    /// The number of entries.
    pub closed spec fn line_count(&self) -> u32 {
        self.lines
    }

    /// The name of the service.
    pub fn service(&self) -> (r: &str)
        ensures
            r@ == self.service_text(),
            is_service_name(r@),
    {
        proof {
            use_type_invariant(self);
        }
        self.service.as_str()
    }

    /// The number of entries.
    pub fn lines(&self) -> (r: u32)
        ensures
            r == self.line_count(),
            1 <= r <= MAX_LOG_LINES,
    {
        proof {
            use_type_invariant(self);
        }
        self.lines
    }
}

/// The number of entries that are read: the one given, brought within bounds.
pub open spec fn log_lines(lines: Option<u32>) -> u32 {
    match lines {
        None => DEFAULT_LOG_LINES,
        Some(n) => if n < 1 {
            1
        } else if n > MAX_LOG_LINES {
            MAX_LOG_LINES
        } else {
            n
        },
    }
}

/// What the parameters of an intent ask of the journal.
pub fn log_request(params: &IntentParams) -> (r: Result<LogRequest, String>)
    ensures
        match params.service_name {
            None => refused(r, "A service_name is required."@),
            Some(service) => if is_service_name(service@) {
                r matches Ok(q) && q.service_text() == service@ && q.line_count() == log_lines(
                    params.lines,
                )
            } else {
                refused(r, "Service name contains unsupported characters."@)
            },
        },
        r matches Ok(q) ==> is_service_name(q.service_text()) && 1 <= q.line_count()
            <= MAX_LOG_LINES,
{
    match &params.service_name {
        None => Err("A service_name is required.".to_owned()),
        Some(service) => {
            if !is_valid_service_name(service.as_str()) {
                return Err("Service name contains unsupported characters.".to_owned());
            }
            let lines: u32 = match params.lines {
                None => DEFAULT_LOG_LINES,
                Some(n) => if n < 1 {
                    1
                } else if n > MAX_LOG_LINES {
                    MAX_LOG_LINES
                } else {
                    n
                },
            };
            Ok(LogRequest { service: service.clone(), lines })
        },
    }
}

/// The arguments with which `journalctl` reads the journal.
pub open spec fn log_args(service: Seq<char>, lines: u32) -> Seq<Seq<char>> {
    seq![
        "-u"@,
        service,
        "-n"@,
        decimal(lines as nat),
        "--no-pager"@,
        "--output=short-iso"@,
    ]
}

/// The command that reads the journal.
pub fn log_command(request: &LogRequest) -> (r: CommandLine)
    ensures
        r.runs("journalctl"@, log_args(request.service_text(), request.line_count())),
        is_service_name(request.service_text()),
        1 <= request.line_count() <= MAX_LOG_LINES,
{
    proof {
        use_type_invariant(request);
    }
    let args = vec![
        "-u".to_owned(),
        request.service.clone(),
        "-n".to_owned(),
        to_decimal(request.lines as u64),
        "--no-pager".to_owned(),
        "--output=short-iso".to_owned(),
    ];
    assert(texts(args@) =~= log_args(request.service@, request.lines));
    CommandLine { program: "journalctl".to_owned(), args }
}

/// The report on the journal that the text `output` of `journalctl` makes.
pub open spec fn is_log_report(
    x: ToolExecution,
    service: Seq<char>,
    lines: u32,
    output: Seq<char>,
) -> bool {
    &&& x.tool@ == "read_recent_logs"@
    &&& x.summary@ == "Read up to "@ + decimal(lines as nat) + (" recent log entries from "@
        + service + "."@)
    &&& x.data matches ToolData::Logs { service_name, lines: count, logs } && service_name@
        == service && count == lines && logs@ == shortened(output, MAX_LOG_CHARS as nat)
}

/// The report on the journal that the text `output` of `journalctl` makes.
pub fn log_report(request: &LogRequest, output: &str) -> (r: ToolExecution)
    ensures
        is_log_report(r, request.service_text(), request.line_count(), output@),
{
    let count = to_decimal(request.lines as u64);
    let source = glue3(" recent log entries from ", request.service.as_str(), ".");
    ToolExecution {
        tool: "read_recent_logs".to_owned(),
        summary: glue3("Read up to ", count.as_str(), source.as_str()),
        data: ToolData::Logs {
            service_name: request.service.clone(),
            lines: request.lines,
            logs: shorten(output, MAX_LOG_CHARS),
        },
    }
}

/// The report on the journal, once `log_command` has been run.
pub fn read_recent_logs(request: &LogRequest, outcome: &CommandOutcome) -> (r: Result<
    ToolExecution,
    String,
>)
    ensures
        match outcome {
            CommandOutcome::NotStarted => refused(
                r,
                "Could not run journalctl. Is systemd available?"@,
            ),
            CommandOutcome::Failed => refused(
                r,
                "journalctl could not read that service. Check the service name and permissions."@,
            ),
            CommandOutcome::Succeeded { stdout } => r matches Ok(x) && is_log_report(
                x,
                request.service_text(),
                request.line_count(),
                lossy_text(stdout@),
            ) && shows_utf8(stdout@),
        },
{
    match outcome {
        CommandOutcome::NotStarted => Err(
            "Could not run journalctl. Is systemd available?".to_owned(),
        ),
        CommandOutcome::Failed => Err(
            "journalctl could not read that service. Check the service name and permissions.".to_owned(),
        ),
        CommandOutcome::Succeeded { stdout } => {
            let text = lossy(stdout.as_slice());
            Ok(log_report(request, text.as_str()))
        },
    }
}

} // verus!
