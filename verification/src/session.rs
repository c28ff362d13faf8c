//! What is done with an intent, and what the user is told of it.
use vstd::prelude::*;

use crate::execution::{refused, ToolExecution};
use crate::gate::CONFIRMATION_TTL_SECONDS;
use crate::intent::{Action, Intent, RiskTier};
use crate::planner::{
    fault_text, is_launch_clarification, names_setting, plan, plan_intent, tier_of, IntentFault,
};
use crate::settings::{
    name_lowers_ascii, prepare_toggle, preview_text, requested_toggle, toggle_preview, ToggleFault,
    ToggleSetting,
};
use crate::text::glue;

verus! {

/// A tool that changes nothing.
#[derive(Clone, Copy, Debug, PartialEq, Eq, Structural)]
pub enum LowRiskTool {
    SearchFiles,
    GetSystemInfo,
    ListLargeFiles,
    GetNetworkStatus,
    ReadRecentLogs,
}

/// The tool for an action, where the action changes nothing.
pub open spec fn tool_for(action: Action) -> Option<LowRiskTool> {
    match action {
        Action::SearchFiles => Some(LowRiskTool::SearchFiles),
        Action::GetSystemInfo => Some(LowRiskTool::GetSystemInfo),
        Action::ListLargeFiles => Some(LowRiskTool::ListLargeFiles),
        Action::GetNetworkStatus => Some(LowRiskTool::GetNetworkStatus),
        Action::ReadRecentLogs => Some(LowRiskTool::ReadRecentLogs),
        Action::ToggleSetting => None,
    }
}

/// The tool that an intent is carried out with, where it changes nothing.
pub fn execute_low_risk(intent: &Intent) -> (r: Result<LowRiskTool, String>)
    ensures
        match tool_for(intent.action) {
            Some(tool) => r == Ok::<LowRiskTool, String>(tool),
            None => refused(r, "Settings changes must pass through the confirmation gate."@),
        },
{
    match intent.action {
        Action::SearchFiles => Ok(LowRiskTool::SearchFiles),
        Action::GetSystemInfo => Ok(LowRiskTool::GetSystemInfo),
        Action::ListLargeFiles => Ok(LowRiskTool::ListLargeFiles),
        Action::GetNetworkStatus => Ok(LowRiskTool::GetNetworkStatus),
        Action::ReadRecentLogs => Ok(LowRiskTool::ReadRecentLogs),
        Action::ToggleSetting => Err(
            "Settings changes must pass through the confirmation gate.".to_owned(),
        ),
    }
}

/// A change that the user is asked to consent to.
#[derive(Debug)]
pub struct ConfirmationPreview {
    pub summary: String,
    pub expires_in_seconds: u64,
}

/// The answer to a request.
#[derive(Debug)]
pub struct ProcessResponse {
    pub intent: Intent,
    pub execution: Option<ToolExecution>,
    pub message: String,
    pub confirmation: Option<ConfirmationPreview>,
}

/// What an intent leads to.
#[derive(Debug)]
pub enum NextStep {
    /// The user is answered.
    Reply { response: ProcessResponse },
    /// A tool is run, and the user is answered with `low_risk_reply`.
    RunTool { intent: Intent, tool: LowRiskTool },
    /// The change is put to the confirmation gate, and the user is answered.
    AskConsent { setting: ToggleSetting, response: ProcessResponse },
}

/// The answer tells `message` and nothing more.
pub open spec fn tells_only(
    response: ProcessResponse,
    intent: Intent,
    message: Seq<char>,
) -> bool {
    &&& response.intent == intent
    &&& response.execution is None
    &&& response.message@ == message
    &&& response.confirmation is None
}

/// The question that the user is asked back.
pub open spec fn question_text(intent: Intent) -> Seq<char> {
    match intent.clarification_question {
        Some(q) => q@,
        None => "Please clarify your request."@,
    }
}

/// The answer asks for consent to a change.
pub open spec fn asks_consent(
    response: ProcessResponse,
    intent: Intent,
    setting: ToggleSetting,
) -> bool {
    &&& response.intent == intent
    &&& response.execution is None
    &&& response.message@ == "Confirmation required. Nothing has changed yet."@
    &&& response.confirmation matches Some(preview) && preview.summary@ == preview_text(setting)
        && preview.expires_in_seconds == CONFIRMATION_TTL_SECONDS
}

/// What an intent leads to: a question back where clarification is needed, else
/// what its plan allows.
pub open spec fn processed(intent: Intent, r: Result<NextStep, String>) -> bool {
    if intent.clarification_needed {
        r matches Ok(NextStep::Reply { response }) && tells_only(
            response,
            intent,
            question_text(intent),
        )
    } else {
        match plan(intent) {
            Err(fault) => refused(r, fault_text(fault)),
            Ok(RiskTier::Low) => match tool_for(intent.action) {
                Some(tool) => r == Ok::<NextStep, String>(NextStep::RunTool { intent, tool }),
                None => refused(r, "Settings changes must pass through the confirmation gate."@),
            },
            Ok(RiskTier::Medium) => r matches Ok(NextStep::AskConsent { setting, response })
                && requested_toggle(intent.params.setting_name, intent.params.value) == Ok::<
                ToggleSetting,
                ToggleFault,
            >(setting) && setting.wf() && asks_consent(response, intent, setting),
            Ok(RiskTier::High) => r matches Ok(NextStep::Reply { response }) && tells_only(
                response,
                intent,
                "High-risk actions are out of scope for this MVP. Nothing was changed."@,
            ),
        }
    }
}

/// What an intent leads to.
pub fn process_request(intent: Intent) -> (r: Result<NextStep, String>)
    ensures
        processed(intent, r),
        !intent.clarification_needed && names_setting(intent) ==> name_lowers_ascii(intent.params),
{
    if intent.clarification_needed {
        let message = match &intent.clarification_question {
            Some(q) => q.clone(),
            None => "Please clarify your request.".to_owned(),
        };
        return Ok(
            NextStep::Reply {
                response: ProcessResponse { intent, execution: None, message, confirmation: None },
            },
        );
    }
    match plan_intent(&intent) {
        Err(e) => Err(e),
        Ok(RiskTier::Low) => match execute_low_risk(&intent) {
            Ok(tool) => Ok(NextStep::RunTool { intent, tool }),
            Err(e) => Err(e),
        },
        Ok(RiskTier::Medium) => match prepare_toggle(&intent.params) {
            Ok(setting) => {
                let summary = toggle_preview(&setting);
                let response = ProcessResponse {
                    intent,
                    execution: None,
                    message: "Confirmation required. Nothing has changed yet.".to_owned(),
                    confirmation: Some(
                        ConfirmationPreview {
                            summary,
                            expires_in_seconds: CONFIRMATION_TTL_SECONDS,
                        },
                    ),
                };
                Ok(NextStep::AskConsent { setting, response })
            },
            Err(e) => Err(e),
        },
        Ok(RiskTier::High) => Ok(
            NextStep::Reply {
                response: ProcessResponse {
                    intent,
                    execution: None,
                    message:
                        "High-risk actions are out of scope for this MVP. Nothing was changed.".to_owned(),
                    confirmation: None,
                },
            },
        ),
    }
}

/// The answer once a tool that changes nothing has been run.
pub fn low_risk_reply(intent: Intent, execution: ToolExecution) -> (r: ProcessResponse)
    ensures
        r.intent == intent,
        r.execution == Some(execution),
        r.message@ == execution.summary@ + " No system changes were made."@,
        r.confirmation is None,
{
    let message = glue(execution.summary.as_str(), " No system changes were made.");
    ProcessResponse { intent, execution: Some(execution), message, confirmation: None }
}

/// A tool runs without consent only where the intent is vetted and changes
/// nothing.
pub proof fn tools_run_only_for_vetted_intents(intent: Intent, r: Result<NextStep, String>)
    requires
        processed(intent, r),
        r matches Ok(step) && step is RunTool,
    ensures
        plan(intent) == Ok::<RiskTier, IntentFault>(RiskTier::Low),
        intent.action != Action::ToggleSetting,
        !intent.clarification_needed,
        !intent.confidence.is_low(),
        tool_for(intent.action) == Some(r->Ok_0->tool),
{
}

/// A change is put to the confirmation gate only where the intent is vetted. The
/// user is shown that change, and nothing has been done when the answer comes.
pub proof fn changes_wait_for_consent(intent: Intent, r: Result<NextStep, String>)
    requires
        processed(intent, r),
    ensures
        intent.action == Action::ToggleSetting ==> !(r matches Ok(step) && step is RunTool),
        r matches Ok(NextStep::AskConsent { setting, response }) ==> {
            &&& plan(intent) == Ok::<RiskTier, IntentFault>(RiskTier::Medium)
            &&& intent.action == Action::ToggleSetting
            &&& !intent.confidence.is_low()
            &&& setting.wf()
            &&& asks_consent(response, intent, setting)
        },
        r matches Ok(NextStep::Reply { response }) ==> response.execution is None
            && response.confirmation is None,
{
}

/// Where clarification is needed, nothing is done but to ask the user.
pub proof fn unclear_intents_do_nothing(intent: Intent, r: Result<NextStep, String>)
    requires
        processed(intent, r),
        intent.clarification_needed,
    ensures
        r matches Ok(NextStep::Reply { response }) && tells_only(
            response,
            intent,
            question_text(intent),
        ),
{
}

/// A request to open an application leads to a question back, and to nothing else.
pub proof fn launch_requests_are_only_answered(intent: Intent, r: Result<NextStep, String>)
    requires
        is_launch_clarification(intent),
        processed(intent, r),
    ensures
        r matches Ok(NextStep::Reply { response }) && tells_only(
            response,
            intent,
            "Opening applications is not supported in this MVP. Would you like me to search for a file instead?"@,
        ),
{
}

/// Where no clarification is needed, every vetted intent is carried out: its tool
/// runs, or its change is put to the confirmation gate.
pub proof fn vetted_intents_are_carried_out(intent: Intent, r: Result<NextStep, String>)
    requires
        processed(intent, r),
        !intent.clarification_needed,
    ensures
        plan(intent) is Ok <==> r is Ok,
        plan(intent) is Ok && tier_of(intent.action) == RiskTier::Low ==> r->Ok_0 is RunTool,
        plan(intent) is Ok && tier_of(intent.action) == RiskTier::Medium ==> r->Ok_0 is AskConsent,
{
}

} // verus!
