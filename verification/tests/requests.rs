use ai_native_control_layer::confidence::Confidence;
use ai_native_control_layer::conversation::{
    goes_to_model, parse_intent, ParseAction, ParseEvent, ParseStage, ParseStep,
};
use ai_native_control_layer::execution::{ToolData, ToolExecution};
use ai_native_control_layer::gate::PendingConfirmation;
use ai_native_control_layer::intent::{Action, Intent, IntentParams, RiskTier};
use ai_native_control_layer::model::{
    chat_request, exchange_fault_message, final_model_output, ollama_timeout, preferred_model,
    selected_model, system_prompt, ExchangeFault, DEFAULT_MODEL, OLLAMA_API_URL, OLLAMA_TAGS_URL,
};
use ai_native_control_layer::planner::unsupported_app_request;
use ai_native_control_layer::session::{
    execute_low_risk, low_risk_reply, process_request, LowRiskTool, NextStep,
};
use ai_native_control_layer::settings::{SettingValue, ToggleSetting};

fn score(value: f32) -> Confidence {
    Confidence { bits: value.to_bits() }
}

fn intent(action: Action, params: IntentParams, risk_tier: RiskTier) -> Intent {
    Intent {
        action,
        params,
        risk_tier,
        confidence: score(0.95),
        clarification_needed: false,
        clarification_question: None,
    }
}

fn query(text: &str) -> IntentParams {
    IntentParams { query: Some(text.to_string()), ..Default::default() }
}

fn wifi_off() -> IntentParams {
    IntentParams {
        setting_name: Some("wifi".to_string()),
        value: Some(SettingValue::Bool(false)),
        ..Default::default()
    }
}

fn submit(request: &str) -> ParseStep {
    parse_intent(
        ParseStage::Request,
        ParseEvent::Submitted {
            request: request.to_string(),
            model: None,
            timeout_ms: None,
            timeout_seconds: None,
        },
    )
}

fn refusal(step: &ParseStep) -> &str {
    assert!(matches!(step.stage, ParseStage::Done));
    match &step.action {
        ParseAction::Finish { result: Err(message) } => message,
        _ => panic!("not refused"),
    }
}

fn waiting() -> ParseStage {
    ParseStage::Reply { request: "find invoices".to_string(), timeout_ms: 45_500 }
}

#[test]
fn empty_and_overlong_requests_are_refused() {
    for request in ["", "   ", "\u{3000}\n"] {
        let step = submit(request);
        assert_eq!(refusal(&step), "Enter a request first.");
        assert!(step.log.is_none());
    }
    let long = "Request is too long (maximum 4,000 characters).";
    assert_eq!(refusal(&submit(&"a".repeat(4_001))), long);
    assert_eq!(refusal(&submit(&"é".repeat(2_001))), long);
    for request in ["a".repeat(4_000), format!("  {}  ", "a".repeat(4_000)), "é".repeat(2_000)] {
        assert!(matches!(submit(&request).action, ParseAction::Call { .. }));
    }
}

#[test]
fn a_request_is_put_to_the_model() {
    let step = submit("  find Invoices \n");
    assert!(step.log.is_none());
    match &step.stage {
        ParseStage::Reply { request, timeout_ms } => {
            assert_eq!((request.as_str(), *timeout_ms), ("find Invoices", 30_000));
        }
        _ => panic!("no answer is waited for"),
    }
    match step.action {
        ParseAction::Call { chat, timeout_ms } => {
            assert_eq!(timeout_ms, 30_000);
            assert_eq!(chat.url, "http://127.0.0.1:11434/api/chat");
            assert_eq!(chat.model, "qwen3:4b-instruct");
            assert!(!chat.stream && !chat.think);
            assert_eq!(chat.format, "json");
            assert_eq!((chat.temperature, chat.num_ctx, chat.num_predict), (0, 2048, 256));
            assert_eq!(chat.messages.len(), 2);
            assert_eq!(chat.messages[0].role, "system");
            assert_eq!(chat.messages[0].content, system_prompt());
            assert_eq!(chat.messages[1].role, "user");
            assert_eq!(chat.messages[1].content, "find Invoices");
        }
        _ => panic!("the model is not asked"),
    }
}

#[test]
fn the_settings_of_the_user_reach_the_model() {
    let step = parse_intent(
        ParseStage::Request,
        ParseEvent::Submitted {
            request: "x".to_string(),
            model: Some("qwen3:1.7b".to_string()),
            timeout_ms: Some("60000".to_string()),
            timeout_seconds: Some("90".to_string()),
        },
    );
    match step.action {
        ParseAction::Call { chat, timeout_ms } => {
            assert_eq!((chat.model.as_str(), timeout_ms), ("qwen3:1.7b", 60_000));
        }
        _ => panic!("the model is not asked"),
    }
    assert_eq!(chat_request(None, "x").model, DEFAULT_MODEL);
    assert_eq!(chat_request(Some(String::new()), "x").model, "");
    assert_eq!(chat_request(None, "x").url, OLLAMA_API_URL);
}

#[test]
fn an_installed_model_is_detected() {
    let pick = |names: &[&str]| {
        preferred_model(&names.iter().map(|n| n.to_string()).collect::<Vec<String>>())
    };
    assert_eq!(pick(&[]), None);
    assert_eq!(pick(&["llama3:8b", "mistral"]).as_deref(), Some("llama3:8b"));
    assert_eq!(pick(&["llama3:8b", "qwen3:4b", "qwen3:1.7b"]).as_deref(), Some("qwen3:4b"));
    assert_eq!(pick(&["qwen3"]).as_deref(), Some("qwen3"));
    for other in ["qwen2.5:3b", "qwen", "Qwen3:4b", "my-qwen3", ""] {
        assert_eq!(pick(&[other, "qwen3:0.6b"]).as_deref(), Some("qwen3:0.6b"));
        assert_eq!(pick(&[other, "other"]).as_deref(), Some(other));
    }
    let installed = vec!["llama3:8b".to_string(), "qwen3:4b".to_string()];
    assert_eq!(selected_model(None, &installed).as_deref(), Some("qwen3:4b"));
    assert_eq!(selected_model(Some("x".to_string()), &installed).as_deref(), Some("x"));
    assert_eq!(selected_model(None, &vec![]), None);
    let selected = selected_model(None, &installed);
    assert_eq!(chat_request(selected, "hello").model, "qwen3:4b");
    assert_eq!(OLLAMA_TAGS_URL, "http://127.0.0.1:11434/api/tags");
}

#[test]
fn the_instructions_name_every_setting() {
    assert!(system_prompt()
        .contains("setting_name (wifi, brightness, volume, dark_mode, or do_not_disturb) and value"));
}

#[test]
fn the_instructions_name_every_action() {
    let prompt = system_prompt();
    assert!(prompt.starts_with("You are the intent parser for a safety-first Linux desktop assistant."));
    assert!(prompt.ends_with("Never invent an unlisted action."));
    assert!(prompt.contains("Allowed actions are only: search_files, get_system_info, list_large_files, get_network_status, toggle_setting, read_recent_logs."));
    assert_eq!(prompt.split("\n\n").count(), 4);
}

#[test]
fn the_time_for_an_answer_is_bounded() {
    let time = |ms: Option<&str>, seconds: Option<&str>| {
        ollama_timeout(&ms.map(str::to_string), &seconds.map(str::to_string))
    };
    assert_eq!(time(None, None), 30_000);
    assert_eq!(time(Some("60000"), None), 60_000);
    assert_eq!(time(Some("30000"), None), 30_000);
    assert_eq!(time(Some("600000"), None), 600_000);
    assert_eq!(time(Some("45500"), Some("90")), 45_500);
    for odd in ["29999", "600001", "", "x", "-1", "60000 ", "99999999999999999999999"] {
        assert_eq!(time(Some(odd), None), 30_000);
        assert_eq!(time(Some(odd), Some("90")), 90_000);
    }
    assert_eq!(time(None, Some("30")), 30_000);
    assert_eq!(time(None, Some("180")), 180_000);
    assert_eq!(time(None, Some("600")), 600_000);
    for odd in ["29", "601", "", "30.5", "18446744073709551615"] {
        assert_eq!(time(None, Some(odd)), 30_000);
    }
}

#[test]
fn it_is_known_beforehand_which_requests_reach_the_model() {
    let long = "a".repeat(4_001);
    let limit = "a".repeat(4_000);
    for request in ["", " ", "find invoices", " OPEN a terminal", "open", &long, &limit] {
        let asked = matches!(submit(request).action, ParseAction::Call { .. });
        assert_eq!(goes_to_model(request), asked);
    }
    assert!(goes_to_model("find invoices") && goes_to_model(&limit));
    assert!(!goes_to_model("open the browser") && !goes_to_model(&long));
}

#[test]
fn launch_requests_never_reach_the_model() {
    let step = submit("  Open the File Manager ");
    assert!(matches!(step.stage, ParseStage::Done));
    match &step.action {
        ParseAction::Finish { result: Ok(intent) } => assert!(intent.clarification_needed),
        _ => panic!("not answered at once"),
    }
    let log = step.log.unwrap();
    assert_eq!(log.input, "Open the File Manager");
    assert_eq!(log.model_output, "Locally rejected unsupported app-launch request.");
}

#[test]
fn faults_of_the_exchange_are_told() {
    let cases = [
        (
            ParseEvent::ClientUnavailable,
            "Could not initialize the local Ollama client.",
        ),
        (
            ParseEvent::SendFailed { timed_out: true },
            "Ollama took longer than 45 seconds. CPU-only virtual machines can be slow; try again or set OLLAMA_TIMEOUT_SECONDS up to 600.",
        ),
        (
            ParseEvent::SendFailed { timed_out: false },
            "Could not reach Ollama. Check `systemctl status ollama` and confirm the selected model is installed.",
        ),
        (ParseEvent::BodyUnreadable, "Could not read the Ollama API response."),
    ];
    for (event, message) in cases {
        let step = parse_intent(waiting(), event);
        assert_eq!(refusal(&step), message);
        assert!(step.log.is_none());
    }
    let envelope = parse_intent(
        ParseStage::Envelope { request: "r".to_string() },
        ParseEvent::EnvelopeUnreadable,
    );
    assert_eq!(refusal(&envelope), "Ollama returned an unreadable API response.");
    let unread = parse_intent(ParseStage::Intent, ParseEvent::IntentUnreadable);
    assert_eq!(refusal(&unread), "Ollama returned an invalid intent. No action was taken.");
    assert_eq!(
        exchange_fault_message(&ExchangeFault::ScoreInvalid),
        "Ollama returned an invalid confidence score. No action was taken."
    );
}

#[test]
fn only_a_status_of_success_is_read_on() {
    for code in [100u16, 199, 300, 404, 500] {
        let step = parse_intent(
            waiting(),
            ParseEvent::Replied {
                status_code: code,
                status: format!("{code} Sample"),
                body: "the body".to_string(),
            },
        );
        assert_eq!(
            refusal(&step),
            format!("Ollama returned HTTP {code} Sample. Run `ollama run qwen3:4b` once, then try again.")
        );
        let log = step.log.unwrap();
        assert_eq!((log.input.as_str(), log.model_output.as_str()), ("find invoices", "the body"));
    }
    for code in [200u16, 204, 299] {
        let step = parse_intent(
            waiting(),
            ParseEvent::Replied {
                status_code: code,
                status: code.to_string(),
                body: "the body".to_string(),
            },
        );
        assert!(step.log.is_none());
        assert!(matches!(&step.stage, ParseStage::Envelope { request } if request == "find invoices"));
        assert!(matches!(&step.action, ParseAction::ReadEnvelope { body } if body == "the body"));
    }
}

#[test]
fn the_answer_is_read_behind_the_thinking() {
    for (content, answer) in [
        ("{}", "{}"),
        ("  {}\n", "{}"),
        ("<think>hm</think> {} ", "{}"),
        ("a</think>b</think>\n{\"x\": 1}", "{\"x\": 1}"),
        ("</think>", ""),
        ("<think>never ends", "<think>never ends"),
        ("é</think>é", "é"),
        ("a</think", "a</think"),
    ] {
        assert_eq!(final_model_output(content), answer);
        assert_eq!(final_model_output(final_model_output(content)), answer);
        assert!(!final_model_output(content).contains("</think>"));
    }
    let step = parse_intent(
        ParseStage::Envelope { request: "r".to_string() },
        ParseEvent::EnvelopeRead { content: "hm</think>\n{} ".to_string() },
    );
    assert!(matches!(step.stage, ParseStage::Intent));
    assert!(matches!(&step.action, ParseAction::ReadIntent { text } if text == "{}"));
    let log = step.log.unwrap();
    assert_eq!((log.input.as_str(), log.model_output.as_str()), ("r", "{}"));
}

#[test]
fn only_valid_intents_are_handed_on() {
    let read = |intent: Intent| parse_intent(ParseStage::Intent, ParseEvent::IntentRead { intent });
    let good = read(intent(Action::SearchFiles, query("a"), RiskTier::High));
    assert!(matches!(good.stage, ParseStage::Done));
    assert!(matches!(
        &good.action,
        ParseAction::Finish { result: Ok(i) } if i.params.query.as_deref() == Some("a")
    ));
    for value in [-0.1f32, 1.1, f32::NAN, f32::INFINITY] {
        let mut odd = intent(Action::SearchFiles, query("a"), RiskTier::Low);
        odd.confidence = score(value);
        assert_eq!(
            refusal(&read(odd)),
            "Ollama returned an invalid confidence score. No action was taken."
        );
    }
    let mut low = intent(Action::SearchFiles, query("a"), RiskTier::Low);
    low.confidence = score(0.5);
    assert_eq!(
        refusal(&read(low)),
        "Ollama returned low confidence without requesting clarification. No action was taken."
    );
    assert_eq!(
        refusal(&read(intent(Action::GetSystemInfo, query("a"), RiskTier::Low))),
        "Ollama returned incompatible parameters for a read-only action. No action was taken."
    );
}

#[test]
fn events_that_are_not_waited_for_change_nothing() {
    let step = parse_intent(waiting(), ParseEvent::IntentUnreadable);
    assert!(matches!(step.action, ParseAction::Ignore) && step.log.is_none());
    assert!(matches!(
        &step.stage,
        ParseStage::Reply { request, timeout_ms: 45_500 } if request == "find invoices"
    ));
    for event in [
        ParseEvent::ClientUnavailable,
        ParseEvent::BodyUnreadable,
        ParseEvent::IntentRead { intent: intent(Action::SearchFiles, query("a"), RiskTier::Low) },
    ] {
        let step = parse_intent(ParseStage::Done, event);
        assert!(matches!(step.stage, ParseStage::Done));
        assert!(matches!(step.action, ParseAction::Ignore) && step.log.is_none());
    }
    let early = parse_intent(ParseStage::Request, ParseEvent::EnvelopeUnreadable);
    assert!(matches!(early.stage, ParseStage::Request));
}

#[test]
fn read_only_intents_run_their_tool() {
    let cases = [
        (Action::SearchFiles, query("a"), LowRiskTool::SearchFiles),
        (Action::GetSystemInfo, IntentParams::default(), LowRiskTool::GetSystemInfo),
        (
            Action::ListLargeFiles,
            IntentParams {
                directory: Some("d".to_string()),
                threshold_mb: Some(1),
                ..Default::default()
            },
            LowRiskTool::ListLargeFiles,
        ),
        (Action::GetNetworkStatus, IntentParams::default(), LowRiskTool::GetNetworkStatus),
        (
            Action::ReadRecentLogs,
            IntentParams {
                service_name: Some("s".to_string()),
                lines: Some(1),
                ..Default::default()
            },
            LowRiskTool::ReadRecentLogs,
        ),
    ];
    for (action, params, expected) in cases {
        let candidate = intent(action, params, RiskTier::Low);
        assert_eq!(execute_low_risk(&candidate), Ok(expected));
        match process_request(candidate) {
            Ok(NextStep::RunTool { intent, tool }) => {
                assert_eq!((intent.action, tool), (action, expected));
            }
            _ => panic!("no tool is run"),
        }
    }
}

#[test]
fn changes_never_run_without_consent() {
    let change = intent(Action::ToggleSetting, wifi_off(), RiskTier::Medium);
    assert_eq!(
        execute_low_risk(&change),
        Err("Settings changes must pass through the confirmation gate.".to_string())
    );
    match process_request(change) {
        Ok(NextStep::AskConsent { setting, response }) => {
            assert_eq!(setting, ToggleSetting::Wifi { enabled: false });
            assert!(response.execution.is_none());
            assert_eq!(response.message, "Confirmation required. Nothing has changed yet.");
            let preview = response.confirmation.unwrap();
            assert_eq!(preview.summary, "Turn Wi-Fi off.");
            assert_eq!(preview.expires_in_seconds, 60);
            assert_eq!(response.intent.action, Action::ToggleSetting);
        }
        _ => panic!("no consent is asked for"),
    }
}

#[test]
fn unclear_intents_are_asked_back() {
    let mut unclear = intent(Action::ToggleSetting, wifi_off(), RiskTier::Medium);
    unclear.clarification_needed = true;
    unclear.clarification_question = Some("Which one?".to_string());
    let mut silent = intent(Action::SearchFiles, query("a"), RiskTier::High);
    silent.clarification_needed = true;
    let launch = unsupported_app_request("run a terminal").unwrap();
    for (candidate, question) in [
        (unclear, "Which one?"),
        (silent, "Please clarify your request."),
        (
            launch,
            "Opening applications is not supported in this MVP. Would you like me to search for a file instead?",
        ),
    ] {
        match process_request(candidate) {
            Ok(NextStep::Reply { response }) => {
                assert_eq!(response.message, question);
                assert!(response.execution.is_none() && response.confirmation.is_none());
            }
            _ => panic!("not asked back"),
        }
    }
}

#[test]
fn refused_intents_lead_to_nothing() {
    let tier = intent(Action::SearchFiles, query("a"), RiskTier::High);
    assert_eq!(
        process_request(tier).unwrap_err(),
        "Ollama assigned an incompatible risk tier. No action was taken."
    );
    let empty = intent(Action::SearchFiles, IntentParams::default(), RiskTier::Low);
    assert_eq!(
        process_request(empty).unwrap_err(),
        "Ollama returned invalid search-file parameters. No action was taken."
    );
}

#[test]
fn a_tool_that_was_run_is_answered_with_its_summary() {
    let execution = ToolExecution {
        tool: "search_files".to_string(),
        summary: "Found 0 matching file(s) in /home/a.".to_string(),
        data: ToolData::Files { files: vec![], truncated: false },
    };
    let reply = low_risk_reply(intent(Action::SearchFiles, query("a"), RiskTier::Low), execution);
    assert_eq!(
        reply.message,
        "Found 0 matching file(s) in /home/a. No system changes were made."
    );
    assert_eq!(reply.execution.unwrap().tool, "search_files");
    assert!(reply.confirmation.is_none());
    assert_eq!(reply.intent.params.query.as_deref(), Some("a"));
}

const SECOND: u128 = 1_000_000_000;

#[test]
fn a_consent_in_time_counts_once() {
    let setting = ToggleSetting::Brightness { percent: 40 };
    for waited in [0u128, 1, 59 * SECOND, 60 * SECOND] {
        let mut gate = PendingConfirmation::default();
        gate.propose(setting, 5 * SECOND);
        assert_eq!(gate.confirm_pending_action(5 * SECOND + waited), Ok(setting));
        assert_eq!(
            gate.confirm_pending_action(5 * SECOND + waited),
            Err("There is no pending action to confirm.".to_string())
        );
    }
}

#[test]
fn a_late_consent_does_not_count() {
    let mut gate = PendingConfirmation::default();
    gate.propose(ToggleSetting::Wifi { enabled: true }, 0);
    assert_eq!(
        gate.confirm_pending_action(60 * SECOND + 1),
        Err("The confirmation expired after 60 seconds. Submit the request again.".to_string())
    );
    assert_eq!(
        gate.confirm_pending_action(0),
        Err("There is no pending action to confirm.".to_string())
    );
}

#[test]
fn a_cancelled_change_does_not_go_through() {
    let mut gate = PendingConfirmation::default();
    assert_eq!(gate.cancel_pending_action(), "There was no pending setting change.");
    gate.propose(ToggleSetting::Wifi { enabled: true }, 0);
    assert_eq!(
        gate.cancel_pending_action(),
        "Pending setting change cancelled. Nothing was changed."
    );
    assert!(gate.confirm_pending_action(0).is_err());
    assert_eq!(gate.cancel_pending_action(), "There was no pending setting change.");
}

#[test]
fn the_last_proposal_is_the_one_that_waits() {
    let mut gate = PendingConfirmation::default();
    gate.propose(ToggleSetting::Wifi { enabled: true }, 0);
    gate.propose(ToggleSetting::DarkMode { enabled: false }, 50 * SECOND);
    assert_eq!(
        gate.confirm_pending_action(110 * SECOND),
        Ok(ToggleSetting::DarkMode { enabled: false })
    );
}
