//! The rules that an intent must meet before anything is done with it.
use vstd::prelude::*;

use crate::confidence::{Confidence, ZERO_BITS};
use crate::execution::refused;
use crate::intent::{Action, Intent, IntentParams, Param, RiskTier};
use crate::settings::{
    name_lowers_ascii, prepare_toggle, requested_toggle, toggle_fault_text, ToggleFault,
};
use crate::text::{contains, has_text, lowercase, lowers_ascii};

verus! {

/// The request speaks of opening something.
pub open spec fn asks_to_launch(request: Seq<char>) -> bool {
    ||| has_text(request, "open"@)
    ||| has_text(request, "launch"@)
    ||| has_text(request, "start"@)
    ||| has_text(request, "run"@)
}

/// The request names an application that cannot be opened.
pub open spec fn names_application(request: Seq<char>) -> bool {
    ||| has_text(request, "file manager"@)
    ||| has_text(request, "nautilus"@)
    ||| has_text(request, "dolphin"@)
    ||| has_text(request, "terminal"@)
    ||| has_text(request, "browser"@)
}

/// The request, in small letters, is for an application to be opened.
pub open spec fn is_launch_request(request: Seq<char>) -> bool {
    asks_to_launch(request) && names_application(request)
}

/// The intent asks the user back, instead of opening an application.
pub open spec fn is_launch_clarification(intent: Intent) -> bool {
    &&& intent.action == Action::SearchFiles
    &&& intent.params.present() == Set::<Param>::empty()
    &&& intent.risk_tier == RiskTier::Low
    &&& intent.confidence == (Confidence { bits: ZERO_BITS })
    &&& intent.clarification_needed
    &&& intent.clarification_question matches Some(q) && q@
        == "Opening applications is not supported in this MVP. Would you like me to search for a file instead?"@
}

/// The answer to a request, in small letters, to open an application.
pub fn launch_clarification(request: &str) -> (r: Option<Intent>)
    ensures
        r is Some == is_launch_request(request@),
        r matches Some(intent) ==> is_launch_clarification(intent),
{
    let asks = contains(request, "open") || contains(request, "launch") || contains(
        request,
        "start",
    ) || contains(request, "run");
    let names = contains(request, "file manager") || contains(request, "nautilus") || contains(
        request,
        "dolphin",
    ) || contains(request, "terminal") || contains(request, "browser");
    if asks && names {
        Some(
            Intent {
                action: Action::SearchFiles,
                params: IntentParams::default(),
                risk_tier: RiskTier::Low,
                confidence: Confidence { bits: ZERO_BITS },
                clarification_needed: true,
                clarification_question: Some(
                    "Opening applications is not supported in this MVP. Would you like me to search for a file instead?".to_owned(),
                ),
            },
        )
    } else {
        None
    }
}

/// The answer to a request to open an application, whatever the case of its
/// letters.
pub fn unsupported_app_request(request: &str) -> (r: Option<Intent>)
    ensures
        r is Some == is_launch_request(lowercase(request@)),
        r matches Some(intent) ==> is_launch_clarification(intent),
        lowers_ascii(request@),
{
    let lowered = request.to_lowercase();
    launch_clarification(lowered.as_str())
}

/// Why an intent is refused.
pub enum IntentFault {
    LowConfidence,
    QuestionMissing,
    SearchParameters,
    ReadOnlyParameters,
    LargeFileParameters,
    SettingParameters,
    LogParameters,
    RiskTier,
    Toggle(ToggleFault),
}

/// What the user is told of a fault.
pub open spec fn fault_text(fault: IntentFault) -> Seq<char> {
    match fault {
        IntentFault::LowConfidence =>
            "Ollama returned low confidence without requesting clarification. No action was taken."@,
        IntentFault::QuestionMissing =>
            "Ollama requested clarification without a question. No action was taken."@,
        IntentFault::SearchParameters =>
            "Ollama returned invalid search-file parameters. No action was taken."@,
        IntentFault::ReadOnlyParameters =>
            "Ollama returned incompatible parameters for a read-only action. No action was taken."@,
        IntentFault::LargeFileParameters =>
            "Ollama omitted required large-file parameters. No action was taken."@,
        IntentFault::SettingParameters =>
            "Ollama omitted required setting parameters. No action was taken."@,
        IntentFault::LogParameters =>
            "Ollama omitted required log parameters. No action was taken."@,
        IntentFault::RiskTier =>
            "Ollama assigned an incompatible risk tier. No action was taken."@,
        IntentFault::Toggle(fault) => toggle_fault_text(fault),
    }
}

/// The parameters suit the action: a search has a query, filters or both, each
/// other action exactly its own parameters.
pub open spec fn params_fit(action: Action, present: Set<Param>) -> bool {
    match action {
        Action::SearchFiles => present != Set::<Param>::empty() && present.subset_of(
            set![Param::Query, Param::Filters],
        ),
        Action::GetSystemInfo => present == Set::<Param>::empty(),
        Action::GetNetworkStatus => present == Set::<Param>::empty(),
        Action::ListLargeFiles => present == set![Param::Directory, Param::ThresholdMb],
        Action::ToggleSetting => present == set![Param::SettingName, Param::Value],
        Action::ReadRecentLogs => present == set![Param::ServiceName, Param::Lines],
    }
}

/// The fault of parameters that do not suit the action.
pub open spec fn params_fault(action: Action) -> IntentFault {
    match action {
        Action::SearchFiles => IntentFault::SearchParameters,
        Action::GetSystemInfo => IntentFault::ReadOnlyParameters,
        Action::GetNetworkStatus => IntentFault::ReadOnlyParameters,
        Action::ListLargeFiles => IntentFault::LargeFileParameters,
        Action::ToggleSetting => IntentFault::SettingParameters,
        Action::ReadRecentLogs => IntentFault::LogParameters,
    }
}

/// The first fault of an intent. A low score must come with a request for
/// clarification, and that request with a question.
pub open spec fn intent_fault(intent: Intent) -> Option<IntentFault> {
    if intent.confidence.is_low() && !intent.clarification_needed {
        Some(IntentFault::LowConfidence)
    } else if intent.clarification_needed && !intent.has_question() {
        Some(IntentFault::QuestionMissing)
    } else if !params_fit(intent.action, intent.params.present()) {
        Some(params_fault(intent.action))
    } else {
        None
    }
}

/// Whether the parameters suit the action.
fn params_suit(action: Action, params: &IntentParams) -> (r: bool)
    ensures
        r == params_fit(action, params.present()),
{
    let query = params.query.is_some();
    let filters = params.filters.is_some();
    let directory = params.directory.is_some();
    let threshold = params.threshold_mb.is_some();
    let name = params.setting_name.is_some();
    let value = params.value.is_some();
    let service = params.service_name.is_some();
    let lines = params.lines.is_some();
    let ghost present = params.present();
    assert(present.contains(Param::Query) == query);
    assert(present.contains(Param::Filters) == filters);
    assert(present.contains(Param::Directory) == directory);
    assert(present.contains(Param::ThresholdMb) == threshold);
    assert(present.contains(Param::SettingName) == name);
    assert(present.contains(Param::Value) == value);
    assert(present.contains(Param::ServiceName) == service);
    assert(present.contains(Param::Lines) == lines);
    match action {
        Action::SearchFiles => {
            let r = (query || filters) && !directory && !threshold && !name && !value && !service
                && !lines;
            proof {
                if r {
                    assert(present.subset_of(set![Param::Query, Param::Filters]));
                }
                if !query && !filters && !directory && !threshold && !name && !value && !service
                    && !lines {
                    assert(present =~= Set::<Param>::empty());
                }
            }
            r
        },
        Action::GetSystemInfo | Action::GetNetworkStatus => {
            let r = !query && !filters && !directory && !threshold && !name && !value && !service
                && !lines;
            assert(r ==> present =~= Set::<Param>::empty());
            r
        },
        Action::ListLargeFiles => {
            let r = directory && threshold && !query && !filters && !name && !value && !service
                && !lines;
            assert(r ==> present =~= set![Param::Directory, Param::ThresholdMb]);
            r
        },
        Action::ToggleSetting => {
            let r = name && value && !query && !filters && !directory && !threshold && !service
                && !lines;
            assert(r ==> present =~= set![Param::SettingName, Param::Value]);
            r
        },
        Action::ReadRecentLogs => {
            let r = service && lines && !query && !filters && !directory && !threshold && !name
                && !value;
            assert(r ==> present =~= set![Param::ServiceName, Param::Lines]);
            r
        },
    }
}

/// Whether an intent may be acted on, or what the user is told instead.
pub fn validate_intent(intent: &Intent) -> (r: Result<(), String>)
    ensures
        match intent_fault(*intent) {
            None => r is Ok,
            Some(fault) => refused(r, fault_text(fault)),
        },
{
    if intent.confidence.low() && !intent.clarification_needed {
        return Err(
            "Ollama returned low confidence without requesting clarification. No action was taken.".to_owned(),
        );
    }
    let asked = match &intent.clarification_question {
        Some(q) => !q.as_str().is_empty(),
        None => false,
    };
    if intent.clarification_needed && !asked {
        return Err(
            "Ollama requested clarification without a question. No action was taken.".to_owned(),
        );
    }
    if params_suit(intent.action, &intent.params) {
        return Ok(());
    }
    Err(
        match intent.action {
            Action::SearchFiles =>
                "Ollama returned invalid search-file parameters. No action was taken.".to_owned(),
            Action::GetSystemInfo | Action::GetNetworkStatus =>
                "Ollama returned incompatible parameters for a read-only action. No action was taken.".to_owned(),
            Action::ListLargeFiles =>
                "Ollama omitted required large-file parameters. No action was taken.".to_owned(),
            Action::ToggleSetting =>
                "Ollama omitted required setting parameters. No action was taken.".to_owned(),
            Action::ReadRecentLogs =>
                "Ollama omitted required log parameters. No action was taken.".to_owned(),
        },
    )
}

/// The tier of an action. Only a change of a setting is more than low.
pub open spec fn tier_of(action: Action) -> RiskTier {
    if action == Action::ToggleSetting {
        RiskTier::Medium
    } else {
        RiskTier::Low
    }
}

/// The tier of an action.
pub fn planned_risk(action: Action) -> (r: RiskTier)
    ensures
        r == tier_of(action),
{
    match action {
        Action::ToggleSetting => RiskTier::Medium,
        Action::SearchFiles | Action::GetSystemInfo | Action::ListLargeFiles
        | Action::GetNetworkStatus | Action::ReadRecentLogs => RiskTier::Low,
    }
}

/// The tier at which an intent goes ahead, or its first fault. The tier that the
/// model claims must be that of the action, and a setting must be one that may be
/// changed.
pub open spec fn plan(intent: Intent) -> Result<RiskTier, IntentFault> {
    match intent_fault(intent) {
        Some(fault) => Err(fault),
        None => if intent.risk_tier != tier_of(intent.action) {
            Err(IntentFault::RiskTier)
        } else if intent.action == Action::ToggleSetting {
            match requested_toggle(intent.params.setting_name, intent.params.value) {
                Ok(_) => Ok(RiskTier::Medium),
                Err(fault) => Err(IntentFault::Toggle(fault)),
            }
        } else {
            Ok(RiskTier::Low)
        },
    }
}

/// The name of a setting decides whether the intent goes ahead.
pub open spec fn names_setting(intent: Intent) -> bool {
    intent.action == Action::ToggleSetting && intent.risk_tier == RiskTier::Medium && intent_fault(
        intent,
    ) is None
}

/// The tier at which an intent goes ahead, or what the user is told instead.
pub fn plan_intent(intent: &Intent) -> (r: Result<RiskTier, String>)
    ensures
        match plan(*intent) {
            Ok(tier) => r == Ok::<RiskTier, String>(tier),
            Err(fault) => refused(r, fault_text(fault)),
        },
        names_setting(*intent) ==> name_lowers_ascii(intent.params),
{
    match validate_intent(intent) {
        Err(e) => {
            return Err(e);
        },
        Ok(_) => {},
    }
    let expected = planned_risk(intent.action);
    if intent.risk_tier != expected {
        return Err("Ollama assigned an incompatible risk tier. No action was taken.".to_owned());
    }
    match intent.action {
        Action::ToggleSetting => {
            match prepare_toggle(&intent.params) {
                Err(e) => {
                    return Err(e);
                },
                Ok(_) => {},
            }
        },
        _ => {},
    }
    Ok(expected)
}

/// An intent goes ahead only where its parameters are those of its action, its
/// tier is that of its action, and its score is not low unless the user is asked
/// back. No intent goes ahead at the high tier, and at the medium tier only a
/// change of a setting that may be changed.
pub proof fn only_vetted_intents_go_ahead(intent: Intent)
    requires
        plan(intent) is Ok,
    ensures
        params_fit(intent.action, intent.params.present()),
        plan(intent)->Ok_0 == intent.risk_tier,
        plan(intent)->Ok_0 == tier_of(intent.action),
        plan(intent)->Ok_0 != RiskTier::High,
        intent.confidence.is_low() ==> intent.clarification_needed && intent.has_question(),
        plan(intent)->Ok_0 == RiskTier::Medium <==> intent.action == Action::ToggleSetting,
        plan(intent)->Ok_0 == RiskTier::Medium ==> requested_toggle(
            intent.params.setting_name,
            intent.params.value,
        ) is Ok,
{
}

/// The tier that the model claims never raises or lowers the tier at which an
/// intent goes ahead: intents that differ in it alone go ahead at one tier or not
/// at all.
pub proof fn claimed_tier_is_not_trusted(intent: Intent, claimed: RiskTier)
    ensures
        ({
            let other = Intent { risk_tier: claimed, ..intent };
            plan(intent) is Ok && plan(other) is Ok ==> plan(intent) == plan(other) && claimed
                == intent.risk_tier
        }),
{
}

} // verus!
