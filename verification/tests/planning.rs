use ai_native_control_layer::confidence::{confidence_for_word, confidence_from_label, Confidence};
use ai_native_control_layer::intent::{Action, FileFilters, Intent, IntentParams, RiskTier};
use ai_native_control_layer::planner::{
    launch_clarification, plan_intent, planned_risk, unsupported_app_request, validate_intent,
};
use ai_native_control_layer::settings::{prepare_toggle, toggle_preview, SettingValue, ToggleSetting};

fn score(value: f32) -> Confidence {
    Confidence { bits: value.to_bits() }
}

fn intent(action: Action, params: IntentParams, risk_tier: RiskTier) -> Intent {
    Intent {
        action,
        params,
        risk_tier,
        confidence: score(0.95),
        clarification_needed: false,
        clarification_question: None,
    }
}

fn query(text: &str) -> IntentParams {
    IntentParams { query: Some(text.to_string()), ..Default::default() }
}

fn setting(name: &str, value: SettingValue) -> IntentParams {
    IntentParams {
        setting_name: Some(name.to_string()),
        value: Some(value),
        ..Default::default()
    }
}

fn no_filters() -> FileFilters {
    FileFilters { file_type: None, date_range: None, size_min: None, size_max: None, path: None }
}

/// Parameters of every kind.
fn all_params() -> IntentParams {
    IntentParams {
        query: Some("q".to_string()),
        filters: Some(no_filters()),
        directory: Some("d".to_string()),
        threshold_mb: Some(1),
        setting_name: Some("wifi".to_string()),
        value: Some(SettingValue::Bool(true)),
        service_name: Some("s".to_string()),
        lines: Some(1),
    }
}

/// The parameters whose position is in `kept`.
fn only(kept: &[usize]) -> IntentParams {
    let all = all_params();
    IntentParams {
        query: all.query.filter(|_| kept.contains(&0)),
        filters: all.filters.filter(|_| kept.contains(&1)),
        directory: all.directory.filter(|_| kept.contains(&2)),
        threshold_mb: all.threshold_mb.filter(|_| kept.contains(&3)),
        setting_name: all.setting_name.filter(|_| kept.contains(&4)),
        value: all.value.filter(|_| kept.contains(&5)),
        service_name: all.service_name.filter(|_| kept.contains(&6)),
        lines: all.lines.filter(|_| kept.contains(&7)),
    }
}

#[test]
fn planner_accepts_a_scoped_file_search() {
    let result = plan_intent(&intent(
        Action::SearchFiles,
        IntentParams { query: Some("invoice".to_string()), ..Default::default() },
        RiskTier::Low,
    ));
    assert!(matches!(result, Ok(RiskTier::Low)));
}

#[test]
fn planner_rejects_missing_search_criteria() {
    let result = plan_intent(&intent(
        Action::SearchFiles,
        IntentParams::default(),
        RiskTier::Low,
    ));
    assert!(result.is_err());
}

#[test]
fn planner_does_not_trust_a_model_selected_risk_level() {
    let result = plan_intent(&intent(
        Action::ToggleSetting,
        IntentParams {
            setting_name: Some("wifi".to_string()),
            value: Some(SettingValue::Bool(false)),
            ..Default::default()
        },
        RiskTier::Low,
    ));
    assert!(result.is_err());
}

#[test]
fn planner_allows_only_whitelisted_medium_risk_settings() {
    let result = plan_intent(&intent(
        Action::ToggleSetting,
        IntentParams {
            setting_name: Some("dark_mode".to_string()),
            value: Some(SettingValue::Bool(true)),
            ..Default::default()
        },
        RiskTier::Medium,
    ));
    assert!(matches!(result, Ok(RiskTier::Medium)));
}

#[test]
fn brightness_requires_a_bounded_integer() {
    let result = prepare_toggle(&IntentParams {
        setting_name: Some("brightness".to_string()),
        value: Some(SettingValue::Unsigned(101)),
        ..Default::default()
    });
    assert!(result.is_err());
}

#[test]
fn preview_shows_the_exact_setting_change() {
    let setting = prepare_toggle(&IntentParams {
        setting_name: Some("wifi".to_string()),
        value: Some(SettingValue::Bool(false)),
        ..Default::default()
    })
    .expect("Wi-Fi should be a supported setting");
    assert_eq!(toggle_preview(&setting), "Turn Wi-Fi off.");
}

#[test]
fn app_launch_requests_are_rejected_before_the_model() {
    let result = unsupported_app_request("open the file manager");
    assert!(result.is_some_and(|intent| intent.clarification_needed));
}

#[test]
fn launch_requests_are_found_by_verb_and_application() {
    let verbs = ["open", "launch", "start", "run"];
    let apps = ["file manager", "nautilus", "dolphin", "terminal", "browser"];
    for verb in verbs {
        assert!(unsupported_app_request(verb).is_none());
        for app in apps {
            let request = format!("please {verb} a {app} now");
            assert!(unsupported_app_request(&request).is_some(), "{request}");
            assert!(launch_clarification(&request).is_some());
            assert!(unsupported_app_request(&request.to_uppercase()).is_some());
            assert!(launch_clarification(&request.to_uppercase()).is_none());
            assert!(unsupported_app_request(app).is_none());
        }
    }
    assert!(unsupported_app_request("").is_none());
    assert!(unsupported_app_request("open the calendar").is_none());
}

#[test]
fn a_launch_request_is_answered_with_a_question() {
    let answer = unsupported_app_request("Launch the BROWSER").unwrap();
    assert_eq!(answer.action, Action::SearchFiles);
    assert_eq!(answer.risk_tier, RiskTier::Low);
    assert_eq!(answer.confidence.bits, 0.0f32.to_bits());
    assert!(answer.clarification_needed);
    assert_eq!(
        answer.clarification_question.as_deref(),
        Some("Opening applications is not supported in this MVP. Would you like me to search for a file instead?")
    );
    assert!(answer.params.query.is_none() && answer.params.filters.is_none());
    assert!(answer.params.directory.is_none() && answer.params.threshold_mb.is_none());
    assert!(answer.params.setting_name.is_none() && answer.params.value.is_none());
    assert!(answer.params.service_name.is_none() && answer.params.lines.is_none());
}

#[test]
fn each_action_takes_its_own_parameters_alone() {
    let cases: [(Action, RiskTier, &[&[usize]], &str); 6] = [
        (
            Action::SearchFiles,
            RiskTier::Low,
            &[&[0], &[1], &[0, 1]],
            "Ollama returned invalid search-file parameters. No action was taken.",
        ),
        (
            Action::GetSystemInfo,
            RiskTier::Low,
            &[&[]],
            "Ollama returned incompatible parameters for a read-only action. No action was taken.",
        ),
        (
            Action::GetNetworkStatus,
            RiskTier::Low,
            &[&[]],
            "Ollama returned incompatible parameters for a read-only action. No action was taken.",
        ),
        (
            Action::ListLargeFiles,
            RiskTier::Low,
            &[&[2, 3]],
            "Ollama omitted required large-file parameters. No action was taken.",
        ),
        (
            Action::ToggleSetting,
            RiskTier::Medium,
            &[&[4, 5]],
            "Ollama omitted required setting parameters. No action was taken.",
        ),
        (
            Action::ReadRecentLogs,
            RiskTier::Low,
            &[&[6, 7]],
            "Ollama omitted required log parameters. No action was taken.",
        ),
    ];
    for (action, tier, accepted, refusal) in cases {
        for set in 0u32..256 {
            let kept: Vec<usize> = (0usize..8).filter(|i| set & (1 << i) != 0).collect();
            let candidate = intent(action, only(&kept), tier);
            let fits = accepted.iter().any(|good| *good == kept.as_slice());
            if fits {
                assert_eq!(validate_intent(&candidate), Ok(()));
                assert_eq!(plan_intent(&candidate), Ok(tier));
            } else {
                assert_eq!(validate_intent(&candidate), Err(refusal.to_string()));
                assert_eq!(plan_intent(&candidate), Err(refusal.to_string()));
            }
        }
    }
}

#[test]
fn low_scores_need_a_request_for_clarification() {
    let low = "Ollama returned low confidence without requesting clarification. No action was taken.";
    for value in [0.0f32, 0.2, 0.6, 0.89, 0.899_999_9, -1.0, f32::NEG_INFINITY] {
        let mut candidate = intent(Action::SearchFiles, query("a"), RiskTier::Low);
        candidate.confidence = score(value);
        assert_eq!(validate_intent(&candidate), Err(low.to_string()), "{value}");
        candidate.clarification_needed = true;
        candidate.clarification_question = Some("Which?".to_string());
        assert_eq!(validate_intent(&candidate), Ok(()));
    }
    for value in [0.9f32, 0.95, 1.0, 2.0, f32::INFINITY, f32::NAN] {
        let mut candidate = intent(Action::SearchFiles, query("a"), RiskTier::Low);
        candidate.confidence = score(value);
        assert_eq!(validate_intent(&candidate), Ok(()), "{value}");
    }
}

#[test]
fn clarification_needs_a_question() {
    let missing = "Ollama requested clarification without a question. No action was taken.";
    let mut candidate = intent(Action::SearchFiles, query("a"), RiskTier::Low);
    candidate.clarification_needed = true;
    assert_eq!(validate_intent(&candidate), Err(missing.to_string()));
    candidate.clarification_question = Some(String::new());
    assert_eq!(validate_intent(&candidate), Err(missing.to_string()));
    candidate.clarification_question = Some(" ".to_string());
    assert_eq!(validate_intent(&candidate), Ok(()));
}

#[test]
fn the_claimed_tier_must_be_that_of_the_action() {
    let wrong = "Ollama assigned an incompatible risk tier. No action was taken.";
    let actions = [
        Action::SearchFiles,
        Action::GetSystemInfo,
        Action::ListLargeFiles,
        Action::GetNetworkStatus,
        Action::ToggleSetting,
        Action::ReadRecentLogs,
    ];
    for action in actions {
        let kept: &[usize] = match action {
            Action::SearchFiles => &[0],
            Action::GetSystemInfo | Action::GetNetworkStatus => &[],
            Action::ListLargeFiles => &[2, 3],
            Action::ToggleSetting => &[4, 5],
            Action::ReadRecentLogs => &[6, 7],
        };
        let expected = planned_risk(action);
        assert_eq!(expected == RiskTier::Medium, action == Action::ToggleSetting);
        assert_ne!(expected, RiskTier::High);
        for tier in [RiskTier::Low, RiskTier::Medium, RiskTier::High] {
            let result = plan_intent(&intent(action, only(kept), tier));
            if tier == expected {
                assert_eq!(result, Ok(expected));
            } else {
                assert_eq!(result, Err(wrong.to_string()));
            }
        }
    }
}

#[test]
fn the_planner_passes_on_what_is_wrong_with_a_setting() {
    let result = plan_intent(&intent(
        Action::ToggleSetting,
        setting("contrast", SettingValue::Unsigned(60)),
        RiskTier::Medium,
    ));
    assert_eq!(
        result,
        Err("That setting is not in the Linux MVP whitelist. No action was taken.".to_string())
    );
}

#[test]
fn names_of_settings_count_without_case_and_outer_space() {
    let on = || SettingValue::Bool(true);
    for name in ["wifi", "WiFi", "  WIFI\t", "\u{3000}wifi\u{a0}"] {
        assert_eq!(prepare_toggle(&setting(name, on())), Ok(ToggleSetting::Wifi { enabled: true }));
    }
    for name in ["dark_mode", "Dark Mode", " dark mode "] {
        assert_eq!(
            prepare_toggle(&setting(name, on())),
            Ok(ToggleSetting::DarkMode { enabled: true })
        );
    }
    for name in ["do_not_disturb", "DO NOT DISTURB"] {
        assert_eq!(
            prepare_toggle(&setting(name, SettingValue::Bool(false))),
            Ok(ToggleSetting::DoNotDisturb { enabled: false })
        );
    }
    for (name, percent) in [("brightness", 0u8), ("Brightness", 40), (" brightness ", 100)] {
        assert_eq!(
            prepare_toggle(&setting(name, SettingValue::Unsigned(u64::from(percent)))),
            Ok(ToggleSetting::Brightness { percent })
        );
    }
    for (name, percent) in [("volume", 60u8), ("Volume", 0), (" VOLUME ", 100)] {
        assert_eq!(
            prepare_toggle(&setting(name, SettingValue::Unsigned(u64::from(percent)))),
            Ok(ToggleSetting::Volume { percent })
        );
    }
    // The Kelvin sign becomes an ordinary small k.
    assert_eq!(
        prepare_toggle(&setting("dar\u{212a}_mode", on())),
        Ok(ToggleSetting::DarkMode { enabled: true })
    );
}

#[test]
fn the_volume_can_be_set() {
    let params = || setting("volume", SettingValue::Unsigned(60));
    let change = prepare_toggle(&params()).unwrap();
    assert_eq!(change, ToggleSetting::Volume { percent: 60 });
    assert_eq!(toggle_preview(&change), "Set volume to 60%.");
    let result = plan_intent(&intent(Action::ToggleSetting, params(), RiskTier::Medium));
    assert_eq!(result, Ok(RiskTier::Medium));
}

#[test]
fn refused_changes_say_why() {
    let refused = |params: IntentParams| prepare_toggle(&params).unwrap_err();
    assert_eq!(
        refused(IntentParams::default()),
        "A setting name is required. No action was taken."
    );
    assert_eq!(
        refused(IntentParams { setting_name: Some("wifi".to_string()), ..Default::default() }),
        "A setting value is required. No action was taken."
    );
    for value in [SettingValue::Unsigned(1), SettingValue::Other("\"on\"".to_string())] {
        assert_eq!(
            refused(setting("wifi", value)),
            "Wi-Fi must be set to true or false. No action was taken."
        );
    }
    assert_eq!(
        refused(setting("dark_mode", SettingValue::Other("null".to_string()))),
        "Dark mode must be set to true or false. No action was taken."
    );
    assert_eq!(
        refused(setting("do not disturb", SettingValue::Unsigned(0))),
        "Do not disturb must be set to true or false. No action was taken."
    );
    for value in [
        SettingValue::Bool(true),
        SettingValue::Unsigned(101),
        SettingValue::Unsigned(256),
        SettingValue::Unsigned(356),
        SettingValue::Unsigned(u64::MAX),
        SettingValue::Other("50.5".to_string()),
    ] {
        let percent = |name: &str, value: SettingValue| refused(setting(name, value));
        let copy = match &value {
            SettingValue::Bool(b) => SettingValue::Bool(*b),
            SettingValue::Unsigned(n) => SettingValue::Unsigned(*n),
            SettingValue::Other(text) => SettingValue::Other(text.clone()),
        };
        assert_eq!(
            percent("brightness", value),
            "Brightness must be a whole number from 0 to 100. No action was taken."
        );
        assert_eq!(
            percent("volume", copy),
            "Volume must be a whole number from 0 to 100. No action was taken."
        );
    }
    for name in ["contrast", "", "wi-fi", "volumes", "dark  mode", "do_not disturb"] {
        assert_eq!(
            refused(setting(name, SettingValue::Bool(true))),
            "That setting is not in the Linux MVP whitelist. No action was taken."
        );
    }
}

#[test]
fn scores_are_held_as_single_precision_numbers() {
    let samples = [
        0.0f32, -0.0, 1.0e-45, -1.0e-45, 0.2, 0.6, 0.899_999_9, 0.9, 0.900_000_1, 0.95, 1.0,
        1.000_000_1, -0.5, -1.0, 3.4e38, -3.4e38, f32::INFINITY, f32::NEG_INFINITY, f32::NAN,
        -f32::NAN,
    ];
    for value in samples {
        assert_eq!(score(value).low(), value < 0.9, "{value}");
        assert_eq!(score(value).valid(), (0.0..=1.0).contains(&value), "{value}");
    }
    let mut bits: u32 = 1;
    for _ in 0..200_000 {
        bits = bits.wrapping_mul(1_664_525).wrapping_add(1_013_904_223);
        let value = f32::from_bits(bits);
        let held = Confidence { bits };
        assert_eq!(held.low(), value < 0.9);
        assert_eq!(held.valid(), (0.0..=1.0).contains(&value));
    }
}

#[test]
fn labels_stand_for_fixed_scores() {
    for (label, value) in [("high", 0.95f32), ("Medium", 0.6), ("LOW", 0.2)] {
        assert_eq!(confidence_from_label(label), Ok(score(value)));
        assert_eq!(confidence_for_word(&label.to_lowercase()), Some(score(value)));
        assert!(score(value).valid());
        assert_eq!(score(value).low(), label != "high");
    }
    for label in ["", "certain", " high", "0.95"] {
        assert_eq!(
            confidence_from_label(label),
            Err("confidence must be a number from 0 to 1".to_string())
        );
    }
    assert_eq!(confidence_for_word("HIGH"), None);
}
