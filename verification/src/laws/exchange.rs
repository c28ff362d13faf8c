//! Laws of the exchange with the model.
use vstd::prelude::*;
use vstd::utf8::encode_utf8;

use crate::conversation::{parse_step, ParseEvent, ParseStage, ParseStep};
use crate::intent::Intent;
use crate::laws::numbers::digits_denote_the_number;
use crate::laws::texts::trimming_drops_only_white_space;
use crate::model::{
    answer_part, exchange_fault_text, is_preferred, preferred, timeout_ms,
    ExchangeFault, SYSTEM_PROMPT,
};
use crate::planner::{intent_fault, is_launch_request};
use crate::text::{
    decimal, digits_value, is_white_space, last_occurrence, last_occurrence_is_last, lowercase, occurs_at,
    parsed_unsigned, trimmed,
};

verus! {

/// Of an answer without thinking, nothing but white space at its ends is dropped.
pub proof fn plain_answers_are_read_whole(content: Seq<char>)
    requires
        forall|i: int|
            0 <= i && i + 8 <= content.len() ==> #[trigger] content.subrange(i, i + 8)
                != "</think>"@,
    ensures
        exists|u: Seq<char>, v: Seq<char>|
            {
                &&& content == #[trigger] (u + answer_part(content) + v)
                &&& forall|i: int| 0 <= i < u.len() ==> is_white_space(#[trigger] u[i])
                &&& forall|i: int| 0 <= i < v.len() ==> is_white_space(#[trigger] v[i])
            },
        answer_part(content).len() > 0 ==> !is_white_space(answer_part(content).first())
            && !is_white_space(answer_part(content).last()),
{
    reveal_strlit("</think>");
    last_occurrence_is_last(content, "</think>"@, content.len() as int);
    if let Some(i) = last_occurrence(content, "</think>"@, content.len() as int) {
        assert(content.subrange(i, i + 8) == "</think>"@);
    }
    assert(answer_part(content) == trimmed(content));
    trimming_drops_only_white_space(content);
}

/// Of what stands behind the last end of thinking, nothing but white space at its ends
/// is dropped.
pub proof fn answers_behind_thinking_are_read_whole(before: Seq<char>, rest: Seq<char>)
    requires
        ({
            let content = before + "</think>"@ + rest;
            forall|i: int|
                before.len() < i && i + 8 <= content.len() ==> #[trigger] content.subrange(i, i + 8)
                    != "</think>"@
        }),
    ensures
        ({
            let answer = answer_part(before + "</think>"@ + rest);
            &&& exists|u: Seq<char>, v: Seq<char>|
                {
                    &&& rest == #[trigger] (u + answer + v)
                    &&& forall|i: int| 0 <= i < u.len() ==> is_white_space(#[trigger] u[i])
                    &&& forall|i: int| 0 <= i < v.len() ==> is_white_space(#[trigger] v[i])
                }
            &&& answer.len() > 0 ==> !is_white_space(answer.first()) && !is_white_space(
                answer.last(),
            )
        }),
{
    let mark = "</think>"@;
    let content = before + mark + rest;
    let n = before.len() as int;
    reveal_strlit("</think>");
    assert(content.subrange(n, n + 8) =~= mark);
    assert(occurs_at(content, mark, n));
    last_occurrence_is_last(content, mark, content.len() as int);
    let i = last_occurrence(content, "</think>"@, content.len() as int)->0;
    if i > n {
        assert(content.subrange(i, i + 8) == mark);
    }
    assert(i == n);
    assert(content.skip(n + 8) =~= rest);
    assert(answer_part(content) == trimmed(rest));
    trimming_drops_only_white_space(rest);
}

/// What is asked of the model is the request itself, without the white space around it,
/// behind the instructions; of the model that was selected, if any was.
pub proof fn requests_reach_the_model_whole(
    request: String,
    model: Option<String>,
    ms: Option<String>,
    seconds: Option<String>,
    step: ParseStep,
)
    requires
        parse_step(
            ParseStage::Request,
            ParseEvent::Submitted { request, model, timeout_ms: ms, timeout_seconds: seconds },
            step,
        ),
        step.action is Call,
    ensures
        ({
            let chat = step.action->chat;
            let asked = chat.messages@[1].content@;
            &&& exists|u: Seq<char>, v: Seq<char>|
                {
                    &&& request@ == #[trigger] (u + asked + v)
                    &&& forall|i: int| 0 <= i < u.len() ==> is_white_space(#[trigger] u[i])
                    &&& forall|i: int| 0 <= i < v.len() ==> is_white_space(#[trigger] v[i])
                }
            &&& asked.len() > 0
            &&& !is_white_space(asked.first()) && !is_white_space(asked.last())
            &&& encode_utf8(asked).len() <= 4_000
            &&& chat.messages@.len() == 2
            &&& chat.messages@[0].role@ == "system"@
            &&& chat.messages@[0].content@ == SYSTEM_PROMPT@
            &&& chat.messages@[1].role@ == "user"@
            &&& chat.url@ == "http://127.0.0.1:11434/api/chat"@
            &&& chat.format@ == "json"@ && !chat.stream && !chat.think
            &&& chat.temperature == 0 && chat.num_ctx == 2048 && chat.num_predict == 256
            &&& model matches Some(name) ==> chat.model@ == name@
            &&& model is None ==> chat.model@ == "qwen3:4b-instruct"@
            &&& step.action->timeout_ms == timeout_ms(ms, seconds)
            &&& step.stage is Reply && step.stage->Reply_request@ == asked
            &&& step.stage->timeout_ms == timeout_ms(ms, seconds)
        }),
{
    trimming_drops_only_white_space(request@);
}

/// Every request that holds more than white space, within 4,000 bytes, and does not ask
/// to open an application, is put to the model.
pub proof fn ordinary_requests_reach_the_model(
    request: String,
    model: Option<String>,
    ms: Option<String>,
    seconds: Option<String>,
    step: ParseStep,
)
    requires
        parse_step(
            ParseStage::Request,
            ParseEvent::Submitted { request, model, timeout_ms: ms, timeout_seconds: seconds },
            step,
        ),
        exists|i: int| 0 <= i < request@.len() && !is_white_space(#[trigger] request@[i]),
        encode_utf8(trimmed(request@)).len() <= 4_000,
        !is_launch_request(lowercase(trimmed(request@))),
    ensures
        step.action is Call,
{
    trimming_drops_only_white_space(request@);
    let t = trimmed(request@);
    let (u, v) = choose|u: Seq<char>, v: Seq<char>|
        {
            &&& request@ == #[trigger] (u + t + v)
            &&& forall|i: int| 0 <= i < u.len() ==> is_white_space(#[trigger] u[i])
            &&& forall|i: int| 0 <= i < v.len() ==> is_white_space(#[trigger] v[i])
        };
    let i = choose|i: int| 0 <= i < request@.len() && !is_white_space(#[trigger] request@[i]);
    if t.len() == 0 {
        if i < u.len() {
            assert(request@[i] == u[i]);
        } else {
            assert(request@[i] == v[i - u.len()]);
        }
    }
}

/// A setting in milliseconds counts where it is a number from 30,000 to 600,000, and is
/// otherwise as good as none.
pub proof fn milliseconds_count_within_bounds(text: String, n: nat, seconds: Option<String>)
    requires
        parsed_unsigned(text@, u64::MAX as nat) == Some(n),
    ensures
        30_000 <= n <= 600_000 ==> timeout_ms(Some(text), seconds) == n,
        !(30_000 <= n <= 600_000) ==> timeout_ms(Some(text), seconds) == timeout_ms(None, seconds),
{
}

/// A setting in seconds counts where it is a number from 30 to 600 and none in
/// milliseconds is there, and is otherwise as good as none; without any the model has 30
/// seconds.
pub proof fn seconds_count_within_bounds(text: String, n: nat)
    requires
        parsed_unsigned(text@, u64::MAX as nat) == Some(n),
    ensures
        30 <= n <= 600 ==> timeout_ms(None, Some(text)) == 1000 * n,
        !(30 <= n <= 600) ==> timeout_ms(None, Some(text)) == 30_000,
        timeout_ms(None, None) == 30_000,
{
}

/// A setting that is no number is as good as none.
pub proof fn settings_that_are_no_numbers_do_not_count(
    text: String,
    ms: Option<String>,
    seconds: Option<String>,
)
    requires
        parsed_unsigned(text@, u64::MAX as nat) is None,
    ensures
        timeout_ms(Some(text), seconds) == timeout_ms(None, seconds),
        timeout_ms(ms, Some(text)) == timeout_ms(ms, None),
{
}

/// The body of an answer with a status of success is read on as it came; with any other
/// status the exchange ends, and the body goes to the log as it came.
pub proof fn bodies_are_passed_on_whole(
    request: String,
    limit: u64,
    status_code: u16,
    status: String,
    body: String,
    step: ParseStep,
)
    requires
        parse_step(
            ParseStage::Reply { request, timeout_ms: limit },
            ParseEvent::Replied { status_code, status, body },
            step,
        ),
    ensures
        200 <= status_code <= 299 ==> step.action is ReadEnvelope && step.action->body@ == body@
            && step.stage is Envelope && step.stage->Envelope_request@ == request@ && step.log
            is None,
        !(200 <= status_code <= 299) ==> step.action is Finish && step.action->result is Err
            && step.action->result->Err_0@ == exchange_fault_text(
            ExchangeFault::HttpStatus { status },
        ) && step.log is Some && step.log->0.input@ == request@ && step.log->0.model_output@
            == body@,
{
}

/// Where no answer comes within the time, the user is told the time that the model had.
pub proof fn the_time_that_was_given_is_told(request: String, limit: u64, step: ParseStep)
    requires
        parse_step(
            ParseStage::Reply { request, timeout_ms: limit },
            ParseEvent::SendFailed { timed_out: true },
            step,
        ),
    ensures
        step.action is Finish && step.action->result is Err,
        step.action->result->Err_0@ == exchange_fault_text(
            ExchangeFault::TimedOut { timeout_ms: limit },
        ),
{
}

/// A step that refuses ends the exchange with the whole text as the error.
pub proof fn refusing_steps_end_the_exchange(step: ParseStep, text: Seq<char>)
    ensures
        step.refuses(text) <==> step.stage is Done && step.action is Finish
            && step.action->result is Err && step.action->result->Err_0@ == text,
{
}

/// What is read as an intent is what the model said behind its thinking; the log holds
/// the same, beside the request.
pub proof fn answers_are_passed_on_whole(request: String, content: String, step: ParseStep)
    requires
        parse_step(
            ParseStage::Envelope { request },
            ParseEvent::EnvelopeRead { content },
            step,
        ),
        forall|i: int|
            0 <= i && i + 8 <= content@.len() ==> #[trigger] content@.subrange(i, i + 8)
                != "</think>"@,
    ensures
        step.action is ReadIntent,
        exists|u: Seq<char>, v: Seq<char>|
            {
                &&& content@ == #[trigger] (u + step.action->text@ + v)
                &&& forall|i: int| 0 <= i < u.len() ==> is_white_space(#[trigger] u[i])
                &&& forall|i: int| 0 <= i < v.len() ==> is_white_space(#[trigger] v[i])
            },
        step.log is Some && step.log->0.input@ == request@ && step.log->0.model_output@
            == step.action->text@,
{
    plain_answers_are_read_whole(content@);
}

/// An intent with a score from 0 to 1 and without a fault comes out as it was read, and
/// no other comes out.
pub proof fn valid_intents_come_out_unchanged(intent: Intent, step: ParseStep)
    requires
        parse_step(ParseStage::Intent, ParseEvent::IntentRead { intent }, step),
    ensures
        step.action is Finish,
        intent.confidence.in_unit_range() && intent_fault(intent) is None ==> step.action->result
            == Ok::<Intent, String>(intent),
        !(intent.confidence.in_unit_range() && intent_fault(intent) is None)
            ==> step.action->result is Err,
{
}

/// The seconds that a timed-out exchange is said to have taken are those that it had.
pub proof fn timeouts_are_told_in_seconds(limit: u64)
    ensures
        exists|a: Seq<char>, d: Seq<char>, b: Seq<char>|
            {
                &&& exchange_fault_text(ExchangeFault::TimedOut { timeout_ms: limit })
                    == #[trigger] (a + d + b)
                &&& a == "Ollama took longer than "@
                &&& digits_value(d) == limit / 1000
                &&& forall|i: int| 0 <= i < d.len() ==> '0' <= #[trigger] d[i] <= '9'
                &&& b.len() > 0 && b[0] == ' '
            },
{
    let d = decimal(limit as nat / 1000);
    digits_denote_the_number(limit as nat / 1000);
    let a = "Ollama took longer than "@;
    let b =
        " seconds. CPU-only virtual machines can be slow; try again or set OLLAMA_TIMEOUT_SECONDS up to 600."@;
    reveal_strlit(
        " seconds. CPU-only virtual machines can be slow; try again or set OLLAMA_TIMEOUT_SECONDS up to 600.",
    );
    assert(exchange_fault_text(ExchangeFault::TimedOut { timeout_ms: limit }) == a + d + b);
}

/// Different statuses are told differently.
pub proof fn statuses_are_told_whole(a: String, b: String)
    requires
        exchange_fault_text(ExchangeFault::HttpStatus { status: a }) == exchange_fault_text(
            ExchangeFault::HttpStatus { status: b },
        ),
    ensures
        a@ == b@,
{
    let x = "Ollama returned HTTP "@;
    let y = ". Run `ollama run qwen3:4b` once, then try again."@;
    let p = x + a@ + y;
    let q = x + b@ + y;
    assert(p == q);
    assert(p.len() == x.len() + a@.len() + y.len());
    assert(q.len() == x.len() + b@.len() + y.len());
    let n = x.len() as int;
    assert(p.subrange(n, n + a@.len()) =~= a@);
    assert(q.subrange(n, n + b@.len()) =~= b@);
}

/// A name is preferred exactly where it goes on from qwen3.
pub proof fn preferred_names_go_on_from_the_family(rest: Seq<char>, name: Seq<char>)
    ensures
        is_preferred("qwen3"@ + rest),
        is_preferred(name) ==> name == "qwen3"@ + name.skip("qwen3"@.len() as int),
{
    let p = "qwen3"@;
    assert((p + rest).subrange(0, p.len() as int) =~= p);
    if is_preferred(name) {
        assert(name =~= name.subrange(0, p.len() as int) + name.skip(p.len() as int));
    }
}

/// The first name of the family is taken, whatever stands around it; else the first name.
pub proof fn the_first_of_the_family_is_taken(
    others: Seq<Seq<char>>,
    name: Seq<char>,
    rest: Seq<Seq<char>>,
)
    requires
        forall|i: int| 0 <= i < others.len() ==> !is_preferred(#[trigger] others[i]),
    ensures
        is_preferred(name) ==> preferred(others.push(name) + rest) == Some(name),
        others.len() > 0 ==> preferred(others) == Some(others[0]),
        preferred(Seq::empty()) is None,
{
    crate::model::first_preferred_is_first(others, 0);
    let all = others.push(name) + rest;
    crate::model::first_preferred_is_first(all, 0);
    let n = others.len() as int;
    assert(all[n] == name);
    assert(forall|i: int| 0 <= i < n ==> all[i] == others[i]);
    crate::model::first_preferred_is_first(Seq::empty(), 0);
}

} // verus!
