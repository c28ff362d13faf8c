//! How a request becomes an intent: the exchange with the language model, one
//! event at a time.
use vstd::prelude::*;
use vstd::utf8::encode_utf8;

use crate::execution::refused;
use crate::intent::Intent;
use crate::model::{
    answer_part, chat_request, chosen_model, exchange_fault_message, exchange_fault_text,
    final_model_output, ollama_timeout, timeout_ms, ChatRequest, ExchangeFault,
};
use crate::planner::{
    fault_text, intent_fault, is_launch_clarification, is_launch_request, unsupported_app_request,
    validate_intent,
};
use crate::text::{lowercase, lowers_ascii, trim, trimmed};

verus! {

/// The longest request, in bytes.
pub const MAX_REQUEST_BYTES: usize = 4_000;

/// What the exchange waits for.
#[derive(Debug)]
pub enum ParseStage {
    /// The request of the user.
    Request,
    /// The answer to `request`.
    Reply { request: String, timeout_ms: u64 },
    /// The message of the model in the answer to `request`.
    Envelope { request: String },
    /// The intent in the message.
    Intent,
    /// Nothing more.
    Done,
}

/// What happened outside.
#[derive(Debug)]
pub enum ParseEvent {
    /// The user submitted a request. `model` is the one that was selected, and the
    /// other settings are those that were found.
    Submitted {
        request: String,
        model: Option<String>,
        timeout_ms: Option<String>,
        timeout_seconds: Option<String>,
    },
    /// The client could not be set up.
    ClientUnavailable,
    /// The request could not be sent, or no answer came within the time.
    SendFailed { timed_out: bool },
    /// The body of the answer could not be read.
    BodyUnreadable,
    /// An answer came. `status_code` is the number of its HTTP status, and `status`
    /// tells it in words.
    Replied { status_code: u16, status: String, body: String },
    /// The body is not an answer of the model.
    EnvelopeUnreadable,
    /// The body is an answer of the model, with the message `content`.
    EnvelopeRead { content: String },
    /// The message is not an intent.
    IntentUnreadable,
    /// The message is an intent.
    IntentRead { intent: Intent },
}

/// What is to be done next.
#[derive(Debug)]
pub enum ParseAction {
    /// Put the request to the model, and wait for at most `timeout_ms`.
    Call { chat: ChatRequest, timeout_ms: u64 },
    /// Read the body as an answer of the model.
    ReadEnvelope { body: String },
    /// Read the text as an intent.
    ReadIntent { text: String },
    /// Hand the result to the user.
    Finish { result: Result<Intent, String> },
    /// Nothing: the event is not one that was waited for.
    Ignore,
}

/// A record for the debug log.
#[derive(Debug)]
pub struct DebugRecord {
    pub input: String,
    pub model_output: String,
}

/// One step of the exchange.
#[derive(Debug)]
pub struct ParseStep {
    pub stage: ParseStage,
    pub action: ParseAction,
    pub log: Option<DebugRecord>,
}

impl ParseStep {
    /// The step ends the exchange with a refusal.
    pub open spec fn refuses(&self, text: Seq<char>) -> bool {
        &&& self.stage is Done
        &&& self.action matches ParseAction::Finish { result } && refused(result, text)
    }

    /// The step writes `output` to the debug log, beside the request.
    pub open spec fn logs(&self, input: Seq<char>, output: Seq<char>) -> bool {
        self.log matches Some(record) && record.input@ == input && record.model_output@ == output
    }
}

/// The HTTP status is one of success.
pub open spec fn is_success(status_code: u16) -> bool {
    200 <= status_code < 300
}

/// A request is neither empty nor too long.
pub open spec fn is_read(request: Seq<char>) -> bool {
    trimmed(request).len() > 0 && encode_utf8(trimmed(request)).len() <= MAX_REQUEST_BYTES
}

/// A request is put to the model: it is neither empty nor too long, and not one to open
/// an application.
pub open spec fn is_for_model(request: Seq<char>) -> bool {
    is_read(request) && !is_launch_request(lowercase(trimmed(request)))
}

/// What is done with a request.
pub open spec fn submitted_step(
    request: Seq<char>,
    model: Option<String>,
    ms: Option<String>,
    seconds: Option<String>,
    step: ParseStep,
) -> bool {
    let text = trimmed(request);
    if text.len() == 0 {
        step.refuses("Enter a request first."@) && step.log is None
    } else if encode_utf8(text).len() > MAX_REQUEST_BYTES {
        step.refuses("Request is too long (maximum 4,000 characters)."@) && step.log is None
    } else if is_launch_request(lowercase(text)) {
        &&& step.stage is Done
        &&& step.action matches ParseAction::Finish { result: Ok(intent) }
            && is_launch_clarification(intent)
        &&& step.logs(text, "Locally rejected unsupported app-launch request."@)
    } else {
        &&& step.stage matches ParseStage::Reply { request: kept, timeout_ms: limit } && kept@
            == text && limit == timeout_ms(ms, seconds)
        &&& step.action matches ParseAction::Call { chat, timeout_ms: limit } && chat.asks(
            chosen_model(model),
            text,
        ) && limit == timeout_ms(ms, seconds)
        &&& step.log is None
    }
}

/// What is done with an intent: it is handed on where its score is one and it
/// meets the rules.
pub open spec fn intent_step(intent: Intent, step: ParseStep) -> bool {
    &&& step.log is None
    &&& if !intent.confidence.in_unit_range() {
        step.refuses(exchange_fault_text(ExchangeFault::ScoreInvalid))
    } else {
        match intent_fault(intent) {
            Some(fault) => step.refuses(fault_text(fault)),
            None => step.stage is Done && step.action == (ParseAction::Finish {
                result: Ok(intent),
            }),
        }
    }
}

/// The step that an event leads to.
pub open spec fn parse_step(stage: ParseStage, event: ParseEvent, step: ParseStep) -> bool {
    match (stage, event) {
        (
            ParseStage::Request,
            ParseEvent::Submitted { request, model, timeout_ms: ms, timeout_seconds: seconds },
        ) => submitted_step(request@, model, ms, seconds, step),
        (ParseStage::Reply { .. }, ParseEvent::ClientUnavailable) => step.refuses(
            exchange_fault_text(ExchangeFault::ClientUnavailable),
        ) && step.log is None,
        (ParseStage::Reply { timeout_ms: limit, .. }, ParseEvent::SendFailed { timed_out }) =>
            step.refuses(
            exchange_fault_text(
                if timed_out {
                    ExchangeFault::TimedOut { timeout_ms: limit }
                } else {
                    ExchangeFault::Unreachable
                },
            ),
        ) && step.log is None,
        (ParseStage::Reply { .. }, ParseEvent::BodyUnreadable) => step.refuses(
            exchange_fault_text(ExchangeFault::BodyUnreadable),
        ) && step.log is None,
        (ParseStage::Reply { request, .. }, ParseEvent::Replied { status_code, status, body }) => {
            if is_success(status_code) {
                &&& step.stage matches ParseStage::Envelope { request: kept } && kept == request
                &&& step.action == (ParseAction::ReadEnvelope { body })
                &&& step.log is None
            } else {
                &&& step.refuses(exchange_fault_text(ExchangeFault::HttpStatus { status }))
                &&& step.logs(request@, body@)
            }
        },
        (ParseStage::Envelope { .. }, ParseEvent::EnvelopeUnreadable) => step.refuses(
            exchange_fault_text(ExchangeFault::EnvelopeUnreadable),
        ) && step.log is None,
        (ParseStage::Envelope { request }, ParseEvent::EnvelopeRead { content }) => {
            &&& step.stage is Intent
            &&& step.action matches ParseAction::ReadIntent { text } && text@ == answer_part(
                content@,
            )
            &&& step.logs(request@, answer_part(content@))
        },
        (ParseStage::Intent, ParseEvent::IntentUnreadable) => step.refuses(
            exchange_fault_text(ExchangeFault::IntentUnreadable),
        ) && step.log is None,
        (ParseStage::Intent, ParseEvent::IntentRead { intent }) => intent_step(intent, step),
        _ => step.stage == stage && step.action is Ignore && step.log is None,
    }
}

/// Whether a request is put to the model.
pub fn goes_to_model(request: &str) -> (r: bool)
    ensures
        r == is_for_model(request@),
        is_read(request@) ==> lowers_ascii(trimmed(request@)),
{
    let text = trim(request);
    if text.is_empty() || text.as_bytes().len() > MAX_REQUEST_BYTES {
        return false;
    }
    unsupported_app_request(text).is_none()
}

fn refusal(message: String) -> (r: ParseStep)
    ensures
        r.refuses(message@),
        r.log is None,
{
    ParseStep {
        stage: ParseStage::Done,
        action: ParseAction::Finish { result: Err(message) },
        log: None,
    }
}

fn ignored(stage: ParseStage) -> (r: ParseStep)
    ensures
        r.stage == stage,
        r.action is Ignore,
        r.log is None,
{
    ParseStep { stage, action: ParseAction::Ignore, log: None }
}

fn on_submitted(
    request: &str,
    model: Option<String>,
    ms: &Option<String>,
    seconds: &Option<String>,
) -> (r: ParseStep)
    ensures
        submitted_step(request@, model, *ms, *seconds, r),
        is_read(request@) ==> lowers_ascii(trimmed(request@)),
{
    let text = trim(request);
    if text.is_empty() {
        return refusal("Enter a request first.".to_owned());
    }
    if text.as_bytes().len() > MAX_REQUEST_BYTES {
        return refusal("Request is too long (maximum 4,000 characters).".to_owned());
    }
    match unsupported_app_request(text) {
        Some(intent) => ParseStep {
            stage: ParseStage::Done,
            action: ParseAction::Finish { result: Ok(intent) },
            log: Some(
                DebugRecord {
                    input: text.to_owned(),
                    model_output: "Locally rejected unsupported app-launch request.".to_owned(),
                },
            ),
        },
        None => {
            let limit = ollama_timeout(ms, seconds);
            ParseStep {
                stage: ParseStage::Reply { request: text.to_owned(), timeout_ms: limit },
                action: ParseAction::Call { chat: chat_request(model, text), timeout_ms: limit },
                log: None,
            }
        },
    }
}

fn on_intent(intent: Intent) -> (r: ParseStep)
    ensures
        intent_step(intent, r),
{
    if !intent.confidence.valid() {
        return refusal(exchange_fault_message(&ExchangeFault::ScoreInvalid));
    }
    match validate_intent(&intent) {
        Err(e) => refusal(e),
        Ok(_) => ParseStep {
            stage: ParseStage::Done,
            action: ParseAction::Finish { result: Ok(intent) },
            log: None,
        },
    }
}

/// The step that an event leads to.
pub fn parse_intent(stage: ParseStage, event: ParseEvent) -> (r: ParseStep)
    ensures
        parse_step(stage, event, r),
        (stage is Request && event is Submitted && is_read(event->Submitted_request@))
            ==> lowers_ascii(trimmed(event->Submitted_request@)),
{
    match stage {
        ParseStage::Request => match event {
            ParseEvent::Submitted { request, model, timeout_ms, timeout_seconds } => on_submitted(
                request.as_str(),
                model,
                &timeout_ms,
                &timeout_seconds,
            ),
            _ => ignored(ParseStage::Request),
        },
        ParseStage::Reply { request, timeout_ms } => match event {
            ParseEvent::ClientUnavailable => refusal(
                exchange_fault_message(&ExchangeFault::ClientUnavailable),
            ),
            ParseEvent::SendFailed { timed_out } => {
                let fault = if timed_out {
                    ExchangeFault::TimedOut { timeout_ms }
                } else {
                    ExchangeFault::Unreachable
                };
                refusal(exchange_fault_message(&fault))
            },
            ParseEvent::BodyUnreadable => refusal(
                exchange_fault_message(&ExchangeFault::BodyUnreadable),
            ),
            ParseEvent::Replied { status_code, status, body } => if 200 <= status_code
                && status_code < 300 {
                ParseStep {
                    stage: ParseStage::Envelope { request },
                    action: ParseAction::ReadEnvelope { body },
                    log: None,
                }
            } else {
                let message = exchange_fault_message(&ExchangeFault::HttpStatus { status });
                ParseStep {
                    stage: ParseStage::Done,
                    action: ParseAction::Finish { result: Err(message) },
                    log: Some(DebugRecord { input: request, model_output: body }),
                }
            },
            _ => ignored(ParseStage::Reply { request, timeout_ms }),
        },
        ParseStage::Envelope { request } => match event {
            ParseEvent::EnvelopeUnreadable => refusal(
                exchange_fault_message(&ExchangeFault::EnvelopeUnreadable),
            ),
            ParseEvent::EnvelopeRead { content } => {
                let text = final_model_output(content.as_str());
                ParseStep {
                    stage: ParseStage::Intent,
                    action: ParseAction::ReadIntent { text: text.to_owned() },
                    log: Some(DebugRecord { input: request, model_output: text.to_owned() }),
                }
            },
            _ => ignored(ParseStage::Envelope { request }),
        },
        ParseStage::Intent => match event {
            ParseEvent::IntentUnreadable => refusal(
                exchange_fault_message(&ExchangeFault::IntentUnreadable),
            ),
            ParseEvent::IntentRead { intent } => on_intent(intent),
            _ => ignored(ParseStage::Intent),
        },
        ParseStage::Done => ignored(ParseStage::Done),
    }
}

/// An intent comes out of the exchange only as the answer to a request to open an
/// application, or where its score is one and it meets the rules.
pub proof fn only_valid_intents_come_out(stage: ParseStage, event: ParseEvent, step: ParseStep)
    requires
        parse_step(stage, event, step),
        step.action matches ParseAction::Finish { result } && result is Ok,
    ensures
        ({
            let intent = step.action->Finish_result->Ok_0;
            ||| is_launch_clarification(intent)
            ||| intent.confidence.in_unit_range() && intent_fault(intent) is None
        }),
{
}

/// The model is asked exactly for the requests that are put to it, whichever model was
/// selected; all others are answered at once.
pub proof fn only_requests_for_the_model_reach_it(
    request: String,
    model: Option<String>,
    ms: Option<String>,
    seconds: Option<String>,
    step: ParseStep,
)
    requires
        parse_step(
            ParseStage::Request,
            ParseEvent::Submitted { request, model, timeout_ms: ms, timeout_seconds: seconds },
            step,
        ),
    ensures
        step.action is Call <==> is_for_model(request@),
        step.action is Finish <==> !is_for_model(request@),
{
}

/// A request to open an application is answered at once, and never put to the
/// model.
pub proof fn launch_requests_stay_local(
    request: String,
    model: Option<String>,
    ms: Option<String>,
    seconds: Option<String>,
    step: ParseStep,
)
    requires
        is_launch_request(lowercase(trimmed(request@))),
        parse_step(
            ParseStage::Request,
            ParseEvent::Submitted { request, model, timeout_ms: ms, timeout_seconds: seconds },
            step,
        ),
    ensures
        step.stage is Done,
        !(step.action is Call),
{
}

/// How far the exchange has come.
pub open spec fn progress(stage: ParseStage) -> nat {
    match stage {
        ParseStage::Request => 0,
        ParseStage::Reply { .. } => 1,
        ParseStage::Envelope { .. } => 2,
        ParseStage::Intent => 3,
        ParseStage::Done => 4,
    }
}

/// Every event that is waited for takes the exchange forward, so that it ends after
/// at most four of them; and it is done exactly when a result is handed out.
pub proof fn the_exchange_goes_forward(stage: ParseStage, event: ParseEvent, step: ParseStep)
    requires
        parse_step(stage, event, step),
        !(step.action is Ignore),
    ensures
        progress(stage) < progress(step.stage) <= 4,
        step.stage is Done <==> step.action is Finish,
{
}

/// Once it is done, the exchange stays so.
pub proof fn done_is_final(event: ParseEvent, step: ParseStep)
    requires
        parse_step(ParseStage::Done, event, step),
    ensures
        step.stage is Done,
        step.action is Ignore,
        step.log is None,
{
}

} // verus!
