//! What is said to the language model, and what is read out of its answer.
use vstd::prelude::*;
use vstd::string::StrSliceExecFns;

use crate::text::{
    decimal, find_last, glue3, has_text, is_white_space, last_occurrence, last_occurrence_is_last,
    occurs_at, parse_unsigned, parsed_unsigned, texts, to_chars, to_decimal, trim, trimmed, trimmed_end,
    trimmed_start,
};

verus! {

/// Where the model listens.
pub const OLLAMA_API_URL: &'static str = "http://127.0.0.1:11434/api/chat";

/// The time that the model has to answer, unless it is set, in milliseconds.
pub const DEFAULT_OLLAMA_TIMEOUT_MS: u64 = 30_000;

/// The shortest time that may be set, in seconds.
pub const MIN_OLLAMA_TIMEOUT_SECONDS: u64 = 30;

/// The longest time that may be set, in seconds.
pub const MAX_OLLAMA_TIMEOUT_SECONDS: u64 = 600;

/// Where the model server tells which models are installed.
pub const OLLAMA_TAGS_URL: &'static str = "http://127.0.0.1:11434/api/tags";

/// The model that is asked, unless another is set or installed.
pub const DEFAULT_MODEL: &'static str = "qwen3:4b-instruct";

/// The instructions that the model gets with every request.
pub const SYSTEM_PROMPT: &'static str =
    r#"You are the intent parser for a safety-first Linux desktop assistant. Return ONLY one JSON object, with no Markdown or explanation. It must have action, params, risk_tier, confidence, clarification_needed, and clarification_question keys.

Allowed actions are only: search_files, get_system_info, list_large_files, get_network_status, toggle_setting, read_recent_logs. Any request to open or launch an application (including File Explorer), change an unlisted setting, delete files, install software, or perform an unsupported action MUST set clarification_needed to true. Use action "search_files", params {}, risk_tier "low", confidence below 0.9, and ask the user what supported task they want instead.

Parameter rules: get_system_info and get_network_status require params {}. search_files requires query and/or filters. list_large_files requires directory and threshold_mb. toggle_setting requires setting_name (wifi, brightness, volume, dark_mode, or do_not_disturb) and value. read_recent_logs requires service_name and lines.

Use low risk only for read-only actions; medium only for toggle_setting. Params may use only query, filters, directory, threshold_mb, setting_name, value, service_name, lines. filters may use type, date_range, size_min, size_max, path. confidence MUST be a JSON number from 0 to 1, for example 0.95; never use words such as high, medium, or low. If ambiguous or confidence below 0.9, set clarification_needed true and provide a non-empty clarification_question. Never invent an unlisted action."#;

/// The instructions that the model gets with every request.
pub fn system_prompt() -> (r: &'static str)
    ensures
        r@ == SYSTEM_PROMPT@,
{
    SYSTEM_PROMPT
}

/// What ends the part of an answer in which the model thinks aloud.
pub open spec fn think_end() -> Seq<char> {
    "</think>"@
}

/// The part of an answer behind the last end of thinking, without the white space
/// around it; the whole answer where no thinking ends in it.
pub open spec fn answer_part(content: Seq<char>) -> Seq<char> {
    match last_occurrence(content, think_end(), content.len() as int) {
        Some(i) => trimmed(content.skip(i + think_end().len())),
        None => trimmed(content),
    }
}

/// The part of an answer behind the last end of thinking, without the white space
/// around it; the whole answer where no thinking ends in it.
pub fn final_model_output<'a>(content: &'a str) -> (r: &'a str)
    ensures
        r@ == answer_part(content@),
{
    match find_last(content, "</think>") {
        Some(i) => {
            proof {
                reveal_strlit("</think>");
                last_occurrence_is_last(content@, think_end(), content@.len() as int);
            }
            let n = content.unicode_len();
            let rest = content.substring_char(i + 8, n);
            assert(rest@ == content@.skip(i + think_end().len()));
            trim(rest)
        },
        None => trim(content),
    }
}

/// What is left of a text without white space at its ends is a stretch of it,
/// with no white space at either end.
proof fn trimmed_is_a_stretch(s: Seq<char>) -> (r: (int, int))
    ensures
        0 <= r.0 <= r.1 <= s.len(),
        trimmed(s) == s.subrange(r.0, r.1),
        trimmed(trimmed(s)) == trimmed(s),
{
    let a = start_of_trimmed(s);
    let t = s.skip(a);
    let b = end_of_trimmed(t);
    assert(t.take(b) == s.subrange(a, a + b));
    let u = trimmed(s);
    if u.len() > 0 {
        assert(u.first() == t.first());
        assert(trimmed_start(u) == u);
        assert(trimmed_end(u) == u);
    }
    (a, a + b)
}

proof fn start_of_trimmed(s: Seq<char>) -> (a: int)
    ensures
        0 <= a <= s.len(),
        trimmed_start(s) == s.skip(a),
        s.skip(a).len() > 0 ==> !is_white_space(s.skip(a).first()),
    decreases s.len(),
{
    if s.len() > 0 && is_white_space(s.first()) {
        let a = start_of_trimmed(s.drop_first());
        assert(s.drop_first().skip(a) == s.skip(a + 1));
        a + 1
    } else {
        assert(s.skip(0) == s);
        0
    }
}

proof fn end_of_trimmed(s: Seq<char>) -> (b: int)
    ensures
        0 <= b <= s.len(),
        trimmed_end(s) == s.take(b),
        b > 0 ==> !is_white_space(s[b - 1]),
    decreases s.len(),
{
    if s.len() > 0 && is_white_space(s.last()) {
        let b = end_of_trimmed(s.drop_last());
        assert(s.drop_last().take(b) == s.take(b));
        b
    } else {
        assert(s.take(s.len() as int) == s);
        s.len() as int
    }
}

/// No end of thinking is left in what is read out of an answer, and reading it
/// once more changes nothing.
pub proof fn answer_part_holds_no_thinking(content: Seq<char>)
    ensures
        !has_text(answer_part(content), think_end()),
        answer_part(answer_part(content)) == answer_part(content),
{
    let p = think_end();
    reveal_strlit("</think>");
    let n = content.len() as int;
    last_occurrence_is_last(content, p, n);
    let (rest, from) = match last_occurrence(content, p, n) {
        Some(i) => (content.skip(i + p.len()), i + p.len()),
        None => (content, 0),
    };
    assert(rest == content.skip(from));
    let (a, b) = trimmed_is_a_stretch(rest);
    let answer = answer_part(content);
    assert(answer == rest.subrange(a, b));
    assert forall|j: int| !occurs_at(answer, p, j) by {
        if occurs_at(answer, p, j) {
            assert(answer.subrange(j, j + p.len()) == content.subrange(
                from + a + j,
                from + a + j + p.len(),
            ));
            assert(occurs_at(content, p, from + a + j));
        }
    }
    last_occurrence_is_last(answer, p, answer.len() as int);
}

/// The time that a setting in seconds gives, in milliseconds.
pub open spec fn seconds_setting(text: Option<String>) -> Option<nat> {
    match text {
        Some(t) => match parsed_unsigned(t@, u64::MAX as nat) {
            Some(n) if MIN_OLLAMA_TIMEOUT_SECONDS <= n <= MAX_OLLAMA_TIMEOUT_SECONDS => Some(
                n * 1000,
            ),
            _ => None,
        },
        None => None,
    }
}

/// The time that a setting in milliseconds gives.
pub open spec fn milliseconds_setting(text: Option<String>) -> Option<nat> {
    match text {
        Some(t) => match parsed_unsigned(t@, u64::MAX as nat) {
            Some(n) if MIN_OLLAMA_TIMEOUT_SECONDS * 1000 <= n <= MAX_OLLAMA_TIMEOUT_SECONDS
                * 1000 => Some(n),
            _ => None,
        },
        None => None,
    }
}

/// The time that the model has to answer, in milliseconds. The setting in
/// milliseconds comes before the one in seconds; a setting that is no number or
/// out of bounds counts as not there.
pub open spec fn timeout_ms(milliseconds: Option<String>, seconds: Option<String>) -> nat {
    match milliseconds_setting(milliseconds) {
        Some(n) => n,
        None => match seconds_setting(seconds) {
            Some(n) => n,
            None => DEFAULT_OLLAMA_TIMEOUT_MS as nat,
        },
    }
}

/// The time that the model has to answer, in milliseconds, from the two settings
/// for it.
pub fn ollama_timeout(milliseconds: &Option<String>, seconds: &Option<String>) -> (r: u64)
    ensures
        r == timeout_ms(*milliseconds, *seconds),
        MIN_OLLAMA_TIMEOUT_SECONDS * 1000 <= r <= MAX_OLLAMA_TIMEOUT_SECONDS * 1000,
{
    if let Some(text) = milliseconds {
        if let Some(n) = parse_unsigned(text.as_str(), u64::MAX) {
            if MIN_OLLAMA_TIMEOUT_SECONDS * 1000 <= n && n <= MAX_OLLAMA_TIMEOUT_SECONDS * 1000 {
                return n;
            }
        }
    }
    if let Some(text) = seconds {
        if let Some(n) = parse_unsigned(text.as_str(), u64::MAX) {
            if MIN_OLLAMA_TIMEOUT_SECONDS <= n && n <= MAX_OLLAMA_TIMEOUT_SECONDS {
                return n * 1000;
            }
        }
    }
    DEFAULT_OLLAMA_TIMEOUT_MS
}

/// One message of a conversation.
#[derive(Debug)]
pub struct ChatMessage {
    pub role: String,
    pub content: String,
}

/// A request to the model: one JSON answer, in one piece, without thinking aloud.
#[derive(Debug)]
pub struct ChatRequest {
    pub url: String,
    pub model: String,
    pub stream: bool,
    pub format: String,
    pub think: bool,
    pub temperature: u32,
    pub num_ctx: u32,
    pub num_predict: u32,
    pub messages: Vec<ChatMessage>,
}

impl ChatRequest {
    /// The message at `i` is `content`, said by `role`.
    pub open spec fn says(&self, i: int, role: Seq<char>, content: Seq<char>) -> bool {
        self.messages@[i].role@ == role && self.messages@[i].content@ == content
    }

    /// The request puts the text `request` to the model `model`.
    pub open spec fn asks(&self, model: Seq<char>, request: Seq<char>) -> bool {
        &&& self.url@ == OLLAMA_API_URL@
        &&& self.model@ == model
        &&& !self.stream
        &&& self.format@ == "json"@
        &&& !self.think
        &&& self.temperature == 0
        &&& self.num_ctx == 2048
        &&& self.num_predict == 256
        &&& self.messages@.len() == 2
        &&& self.says(0, "system"@, SYSTEM_PROMPT@)
        &&& self.says(1, "user"@, request)
    }
}

/// The model that is asked: the one that was selected, if any.
pub open spec fn chosen_model(setting: Option<String>) -> Seq<char> {
    match setting {
        Some(name) => name@,
        None => DEFAULT_MODEL@,
    }
}

/// The name of a model of the family that is preferred.
pub open spec fn is_preferred(name: Seq<char>) -> bool {
    "qwen3"@.is_prefix_of(name)
}

/// The position of the first preferred name in `names`, from `from` on.
pub open spec fn first_preferred(names: Seq<Seq<char>>, from: int) -> Option<int>
    decreases names.len() - from,
{
    if from < 0 || from >= names.len() {
        None
    } else if is_preferred(names[from]) {
        Some(from)
    } else {
        first_preferred(names, from + 1)
    }
}

/// The model to ask out of those that are installed: the first of the preferred family,
/// else the first of all.
pub open spec fn preferred(names: Seq<Seq<char>>) -> Option<Seq<char>> {
    match first_preferred(names, 0) {
        Some(i) => Some(names[i]),
        None => if names.len() > 0 {
            Some(names[0])
        } else {
            None
        },
    }
}

/// The first preferred name has no preferred name before it, and there is none only where
/// no name is preferred.
pub proof fn first_preferred_is_first(names: Seq<Seq<char>>, from: int)
    requires
        0 <= from,
    ensures
        match first_preferred(names, from) {
            Some(i) => from <= i < names.len() && is_preferred(names[i]) && forall|j: int|
                from <= j < i ==> !is_preferred(#[trigger] names[j]),
            None => forall|j: int|
                from <= j < names.len() ==> !is_preferred(#[trigger] names[j]),
        },
    decreases names.len() - from,
{
    if from < names.len() && !is_preferred(names[from]) {
        first_preferred_is_first(names, from + 1);
    }
}

fn preferred_name(name: &str) -> (r: bool)
    ensures
        r == is_preferred(name@),
{
    let chars = to_chars(name);
    proof {
        reveal_strlit("qwen3");
    }
    let r = chars.len() >= 5 && chars[0] == 'q' && chars[1] == 'w' && chars[2] == 'e' && chars[3]
        == 'n' && chars[4] == '3';
    proof {
        let p = "qwen3"@;
        if r {
            assert(p =~= name@.subrange(0, 5));
        } else if p.is_prefix_of(name@) {
            assert(forall|i: int| 0 <= i < 5 ==> p[i] == #[trigger] name@.subrange(0, 5)[i]);
            assert(name@.subrange(0, 5)[0] == name@[0] && name@.subrange(0, 5)[1] == name@[1]
                && name@.subrange(0, 5)[2] == name@[2] && name@.subrange(0, 5)[3] == name@[3]
                && name@.subrange(0, 5)[4] == name@[4]);
        }
    }
    r
}

/// The model to ask out of those that are installed: the first of the preferred family,
/// else the first of all.
pub fn preferred_model(installed: &Vec<String>) -> (r: Option<String>)
    ensures
        match r {
            Some(name) => preferred(texts(installed@)) == Some(name@),
            None => preferred(texts(installed@)) is None,
        },
        r is None <==> installed@.len() == 0,
{
    let ghost names = texts(installed@);
    let mut i: usize = 0;
    while i < installed.len()
        invariant
            names == texts(installed@),
            i <= installed@.len(),
            first_preferred(names, 0) == first_preferred(names, i as int),
        decreases installed@.len() - i,
    {
        assert(names[i as int] == installed@[i as int]@);
        if preferred_name(installed[i].as_str()) {
            return Some(installed[i].clone());
        }
        i += 1;
    }
    if installed.len() > 0 {
        assert(names[0] == installed@[0]@);
        Some(installed[0].clone())
    } else {
        None
    }
}

/// The name of the model that is set, else that of the model to ask out of those that
/// are installed.
pub fn selected_model(setting: Option<String>, installed: &Vec<String>) -> (r: Option<String>)
    ensures
        match setting {
            Some(name) => r == Some(name),
            None => match r {
                Some(name) => preferred(texts(installed@)) == Some(name@),
                None => preferred(texts(installed@)) is None,
            },
        },
{
    match setting {
        Some(name) => Some(name),
        None => preferred_model(installed),
    }
}

/// The request that puts `request` to the model.
pub fn chat_request(model: Option<String>, request: &str) -> (r: ChatRequest)
    ensures
        r.asks(chosen_model(model), request@),
{
    let name = match model {
        Some(name) => name,
        None => DEFAULT_MODEL.to_owned(),
    };
    ChatRequest {
        url: OLLAMA_API_URL.to_owned(),
        model: name,
        stream: false,
        format: "json".to_owned(),
        think: false,
        temperature: 0,
        num_ctx: 2048,
        num_predict: 256,
        messages: vec![
            ChatMessage { role: "system".to_owned(), content: system_prompt().to_owned() },
            ChatMessage { role: "user".to_owned(), content: request.to_owned() },
        ],
    }
}

/// Why no intent came of an exchange with the model.
#[derive(Debug)]
pub enum ExchangeFault {
    /// The client could not be set up.
    ClientUnavailable,
    /// No answer came within the time.
    TimedOut { timeout_ms: u64 },
    /// The request could not be sent.
    Unreachable,
    /// The body of the answer could not be read.
    BodyUnreadable,
    /// The answer has a status other than success.
    HttpStatus { status: String },
    /// The body is not an answer of the model.
    EnvelopeUnreadable,
    /// The answer of the model is not an intent.
    IntentUnreadable,
    /// The score is not one.
    ScoreInvalid,
}

/// What the user is told of a fault.
pub open spec fn exchange_fault_text(fault: ExchangeFault) -> Seq<char> {
    match fault {
        ExchangeFault::ClientUnavailable => "Could not initialize the local Ollama client."@,
        ExchangeFault::TimedOut { timeout_ms } => "Ollama took longer than "@ + decimal(
            timeout_ms as nat / 1000,
        )
            + " seconds. CPU-only virtual machines can be slow; try again or set OLLAMA_TIMEOUT_SECONDS up to 600."@,
        ExchangeFault::Unreachable =>
            "Could not reach Ollama. Check `systemctl status ollama` and confirm the selected model is installed."@,
        ExchangeFault::BodyUnreadable => "Could not read the Ollama API response."@,
        ExchangeFault::HttpStatus { status } => "Ollama returned HTTP "@ + status@
            + ". Run `ollama run qwen3:4b` once, then try again."@,
        ExchangeFault::EnvelopeUnreadable => "Ollama returned an unreadable API response."@,
        ExchangeFault::IntentUnreadable =>
            "Ollama returned an invalid intent. No action was taken."@,
        ExchangeFault::ScoreInvalid =>
            "Ollama returned an invalid confidence score. No action was taken."@,
    }
}

/// What the user is told of a fault.
pub fn exchange_fault_message(fault: &ExchangeFault) -> (r: String)
    ensures
        r@ == exchange_fault_text(*fault),
{
    match fault {
        ExchangeFault::ClientUnavailable =>
            "Could not initialize the local Ollama client.".to_owned(),
        ExchangeFault::TimedOut { timeout_ms } => {
            let seconds = to_decimal(*timeout_ms / 1000);
            glue3(
                "Ollama took longer than ",
                seconds.as_str(),
                " seconds. CPU-only virtual machines can be slow; try again or set OLLAMA_TIMEOUT_SECONDS up to 600.",
            )
        },
        ExchangeFault::Unreachable =>
            "Could not reach Ollama. Check `systemctl status ollama` and confirm the selected model is installed.".to_owned(),
        ExchangeFault::BodyUnreadable => "Could not read the Ollama API response.".to_owned(),
        ExchangeFault::HttpStatus { status } => glue3(
            "Ollama returned HTTP ",
            status.as_str(),
            ". Run `ollama run qwen3:4b` once, then try again.",
        ),
        ExchangeFault::EnvelopeUnreadable =>
            "Ollama returned an unreadable API response.".to_owned(),
        ExchangeFault::IntentUnreadable =>
            "Ollama returned an invalid intent. No action was taken.".to_owned(),
        ExchangeFault::ScoreInvalid =>
            "Ollama returned an invalid confidence score. No action was taken.".to_owned(),
    }
}

} // verus!
