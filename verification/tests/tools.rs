use ai_native_control_layer::command::{CommandLine, CommandOutcome};
use ai_native_control_layer::execution::{DiskSpace, ToolData, ToolExecution};
use ai_native_control_layer::intent::IntentParams;
use ai_native_control_layer::logs::{
    is_valid_service_name, log_command, log_report, log_request, read_recent_logs,
};
use ai_native_control_layer::network::{
    get_network_status, network_command, network_report, parse_network_status, split_nmcli_fields,
};
use ai_native_control_layer::settings::{
    bool_value, execute_toggle, run_setting_command, setting_value, toggle_command, toggle_for,
    toggle_preview, SettingValue, ToggleSetting,
};
use ai_native_control_layer::system::{get_system_info, running_apps};

fn succeeded(output: &[u8]) -> CommandOutcome {
    CommandOutcome::Succeeded { stdout: output.to_vec() }
}

fn words(command: &CommandLine) -> Vec<&str> {
    let mut all = vec![command.program.as_str()];
    all.extend(command.args.iter().map(String::as_str));
    all
}

fn network_data(execution: &ToolExecution) -> (bool, Option<&str>, Option<u8>) {
    match &execution.data {
        ToolData::Network { connected, ssid, signal_strength } => {
            (*connected, ssid.as_deref(), *signal_strength)
        }
        _ => panic!("not a report on the network"),
    }
}

#[test]
fn network_parser_handles_colons_in_an_ssid() {
    let status = parse_network_status("yes:home\\:lab:78");
    assert_eq!(status, (true, Some("home:lab".to_string()), Some(78)));
}

#[test]
fn terse_lines_are_split_at_plain_colons() {
    let split = |line: &str| split_nmcli_fields(line);
    assert_eq!(split(""), [""]);
    assert_eq!(split(":"), ["", ""]);
    assert_eq!(split("a:b:"), ["a", "b", ""]);
    assert_eq!(split("a\\:b"), ["a:b"]);
    assert_eq!(split("a\\\\:b"), ["a\\", "b"]);
    assert_eq!(split("a\\nb"), ["anb"]);
    assert_eq!(split("a\\"), ["a\\"]);
    assert_eq!(split("a:\\"), ["a", "\\"]);
    assert_eq!(split("é:\u{1f600}"), ["é", "\u{1f600}"]);
}

#[test]
fn written_fields_are_read_back() {
    let samples: [&[&str]; 5] =
        [&[""], &["yes", "home:lab", "78"], &["\\", ":", "\\:"], &["a\\"], &["", "", "é"]];
    for fields in samples {
        let escaped: Vec<String> =
            fields.iter().map(|f| f.replace('\\', "\\\\").replace(':', "\\:")).collect();
        assert_eq!(split_nmcli_fields(&escaped.join(":")), fields);
    }
}

#[test]
fn the_first_active_line_counts() {
    let status = parse_network_status;
    assert_eq!(status(""), (false, None, None));
    assert_eq!(status("no:cafe:40\nno:home:90"), (false, None, None));
    assert_eq!(
        status("no:cafe:40\nyes:home:90\nyes:other:10\n"),
        (true, Some("home".to_string()), Some(90))
    );
    assert_eq!(status("no:a:1\r\nyes:home:90\r\n"), (true, Some("home".to_string()), Some(90)));
    assert_eq!(status("YES:home:90"), (false, None, None));
    assert_eq!(status(" yes:home:90"), (false, None, None));
    assert_eq!(status("yes"), (true, None, None));
    assert_eq!(status("yes\\"), (false, None, None));
}

#[test]
fn odd_names_and_strengths_count_as_none() {
    assert_eq!(parse_network_status("yes::50"), (true, None, Some(50)));
    for (text, strength) in [
        ("0", Some(0u8)),
        ("255", Some(255)),
        ("+7", Some(7)),
        ("007", Some(7)),
        ("256", None),
        ("-1", None),
        ("", None),
        ("+", None),
        ("7 ", None),
        ("7%", None),
        ("99999999999999999999999", None),
        ("٣", None),
    ] {
        assert_eq!(text.parse::<u8>().ok(), strength);
        assert_eq!(
            parse_network_status(&format!("yes:n:{text}")),
            (true, Some("n".to_string()), strength)
        );
    }
}

#[test]
fn the_network_is_reported() {
    assert_eq!(
        words(&network_command()),
        ["nmcli", "-t", "-f", "ACTIVE,SSID,SIGNAL", "dev", "wifi"]
    );
    assert_eq!(
        get_network_status(&CommandOutcome::NotStarted).unwrap_err(),
        "Could not query NetworkManager. Is nmcli installed?"
    );
    assert_eq!(
        get_network_status(&CommandOutcome::Failed).unwrap_err(),
        "NetworkManager could not report Wi-Fi status."
    );
    let found = get_network_status(&succeeded("yes:h\u{f6}me:78\n".as_bytes())).unwrap();
    assert_eq!(found.tool, "get_network_status");
    assert_eq!(found.summary, "Network connection found.");
    assert_eq!(network_data(&found), (true, Some("h\u{f6}me"), Some(78)));
    let none = network_report("no:home:78");
    assert_eq!(none.summary, "No active Wi-Fi connection found.");
    assert_eq!(network_data(&none), (false, None, None));
}

#[test]
fn bytes_that_are_no_text_are_replaced() {
    let found = get_network_status(&succeeded(b"yes:h\xffme:78")).unwrap();
    assert_eq!(network_data(&found), (true, Some("h\u{fffd}me"), Some(78)));
}

#[test]
fn log_service_names_are_restricted_to_safe_characters() {
    assert!(is_valid_service_name("NetworkManager.service"));
    assert!(!is_valid_service_name("NetworkManager.service; reboot"));
}

#[test]
fn service_names_are_short_and_plain() {
    assert!(is_valid_service_name(""));
    assert!(is_valid_service_name(&"a".repeat(100)));
    assert!(!is_valid_service_name(&"a".repeat(101)));
    for n in 0u32..=0x10ffff {
        if let Some(c) = char::from_u32(n) {
            let plain = c.is_ascii_alphanumeric() || matches!(c, '.' | '_' | '-' | ' ');
            assert_eq!(is_valid_service_name(c.to_string().as_str()), plain, "{c:?}");
        }
    }
}

fn log_params(service: Option<&str>, lines: Option<u32>) -> IntentParams {
    IntentParams { service_name: service.map(str::to_string), lines, ..Default::default() }
}

#[test]
fn requests_for_logs_are_brought_within_bounds() {
    assert_eq!(
        log_request(&log_params(None, Some(5))).unwrap_err(),
        "A service_name is required."
    );
    assert_eq!(
        log_request(&log_params(Some("a;b"), Some(5))).unwrap_err(),
        "Service name contains unsupported characters."
    );
    for (asked, read) in [
        (None, 50u32),
        (Some(0), 1),
        (Some(1), 1),
        (Some(7), 7),
        (Some(200), 200),
        (Some(201), 200),
        (Some(u32::MAX), 200),
    ] {
        let request = log_request(&log_params(Some("ssh.service"), asked)).unwrap();
        assert_eq!((request.service(), request.lines()), ("ssh.service", read));
    }
}

#[test]
fn logs_are_reported() {
    let request = log_request(&log_params(Some("ssh.service"), Some(7))).unwrap();
    assert_eq!(
        words(&log_command(&request)),
        ["journalctl", "-u", "ssh.service", "-n", "7", "--no-pager", "--output=short-iso"]
    );
    assert_eq!(
        read_recent_logs(&request, &CommandOutcome::NotStarted).unwrap_err(),
        "Could not run journalctl. Is systemd available?"
    );
    assert_eq!(
        read_recent_logs(&request, &CommandOutcome::Failed).unwrap_err(),
        "journalctl could not read that service. Check the service name and permissions."
    );
    let report = read_recent_logs(&request, &succeeded(b"one\ntwo\xfe\n")).unwrap();
    assert_eq!(report.tool, "read_recent_logs");
    assert_eq!(report.summary, "Read up to 7 recent log entries from ssh.service.");
    match report.data {
        ToolData::Logs { service_name, lines, logs } => {
            assert_eq!(service_name, "ssh.service");
            assert_eq!(lines, 7);
            assert_eq!(logs, "one\ntwo\u{fffd}\n");
        }
        _ => panic!("not a report on logs"),
    }
}

#[test]
fn long_logs_are_cut_after_whole_characters() {
    let request = log_request(&log_params(Some("s"), Some(200))).unwrap();
    for (length, kept) in [(29_999usize, 29_999usize), (30_000, 30_000), (30_001, 30_000)] {
        let report = log_report(&request, &"é".repeat(length));
        match report.data {
            ToolData::Logs { logs, .. } => assert_eq!(logs, "é".repeat(kept)),
            _ => panic!("not a report on logs"),
        }
    }
}

fn changes() -> [(ToggleSetting, &'static str, &'static [&'static str]); 11] {
    [
        (
            ToggleSetting::Wifi { enabled: true },
            "Turn Wi-Fi on.",
            &["nmcli", "radio", "wifi", "on"],
        ),
        (
            ToggleSetting::Wifi { enabled: false },
            "Turn Wi-Fi off.",
            &["nmcli", "radio", "wifi", "off"],
        ),
        (
            ToggleSetting::Brightness { percent: 0 },
            "Set screen brightness to 0%.",
            &["brightnessctl", "set", "0%"],
        ),
        (
            ToggleSetting::Brightness { percent: 42 },
            "Set screen brightness to 42%.",
            &["brightnessctl", "set", "42%"],
        ),
        (
            ToggleSetting::Brightness { percent: 100 },
            "Set screen brightness to 100%.",
            &["brightnessctl", "set", "100%"],
        ),
        (
            ToggleSetting::Volume { percent: 0 },
            "Set volume to 0%.",
            &["pactl", "set-sink-volume", "@DEFAULT_SINK@", "0%"],
        ),
        (
            ToggleSetting::Volume { percent: 60 },
            "Set volume to 60%.",
            &["pactl", "set-sink-volume", "@DEFAULT_SINK@", "60%"],
        ),
        (
            ToggleSetting::DarkMode { enabled: true },
            "Turn dark mode on.",
            &["gsettings", "set", "org.gnome.desktop.interface", "color-scheme", "prefer-dark"],
        ),
        (
            ToggleSetting::DarkMode { enabled: false },
            "Turn dark mode off.",
            &["gsettings", "set", "org.gnome.desktop.interface", "color-scheme", "default"],
        ),
        (
            ToggleSetting::DoNotDisturb { enabled: true },
            "Turn Do Not Disturb on.",
            &["gsettings", "set", "org.gnome.desktop.notifications", "show-banners", "false"],
        ),
        (
            ToggleSetting::DoNotDisturb { enabled: false },
            "Turn Do Not Disturb off.",
            &["gsettings", "set", "org.gnome.desktop.notifications", "show-banners", "true"],
        ),
    ]
}

#[test]
fn each_change_has_its_preview_and_its_command() {
    for (setting, preview, command) in changes() {
        assert_eq!(toggle_preview(&setting), preview);
        assert_eq!(words(&toggle_command(&setting)), command);
    }
}

#[test]
fn no_argument_means_anything_to_a_shell() {
    let plain = |c: char| c.is_ascii_alphanumeric() || ".,_-=%@ ".contains(c);
    let request = log_request(&log_params(Some("my service_1-a.b"), Some(200))).unwrap();
    let mut commands = vec![network_command(), log_command(&request)];
    commands.extend(changes().iter().map(|change| toggle_command(&change.0)));
    commands.extend((0u8..=100).map(|percent| {
        toggle_command(&ToggleSetting::Brightness { percent })
    }));
    commands.extend((0u8..=100).map(|percent| toggle_command(&ToggleSetting::Volume { percent })));
    for command in commands {
        assert!(command.args.iter().all(|arg| arg.chars().all(plain)));
    }
}

#[test]
fn previews_tell_all_changes_apart() {
    let mut all: Vec<ToggleSetting> = Vec::new();
    for enabled in [false, true] {
        all.push(ToggleSetting::Wifi { enabled });
        all.push(ToggleSetting::DarkMode { enabled });
        all.push(ToggleSetting::DoNotDisturb { enabled });
    }
    for percent in 0u8..=255 {
        all.push(ToggleSetting::Brightness { percent });
        all.push(ToggleSetting::Volume { percent });
    }
    let mut previews: Vec<String> = all.iter().map(toggle_preview).collect();
    previews.sort();
    previews.dedup();
    assert_eq!(previews.len(), all.len());
}

#[test]
fn a_change_is_reported_once_it_is_made() {
    for (setting, preview, command) in changes() {
        let done = execute_toggle(&setting, &succeeded(b"")).unwrap();
        assert_eq!(done.tool, "toggle_setting");
        assert_eq!(done.summary, format!("Applied: {preview}"));
        assert!(matches!(done.data, ToolData::Applied { applied: true }));
        assert_eq!(
            execute_toggle(&setting, &CommandOutcome::NotStarted).unwrap_err(),
            format!("Could not run {}. Check that it is installed and available.", command[0])
        );
        assert_eq!(
            execute_toggle(&setting, &CommandOutcome::Failed).unwrap_err(),
            format!("{} did not apply the requested setting.", command[0])
        );
    }
    assert_eq!(run_setting_command("x", &succeeded(b"y")), Ok(()));
}

#[test]
fn json_texts_hold_values() {
    for text in [
        "true", "false", " true ", "\t\r\nfalse\n", "\u{a0}true", "\u{c}true", " 7\t", "+7", "0.0",
        "1 2", "true false", "12\0", "00", "1.", "- 1", "null", "0", "42", "18446744073709551615", "18446744073709551616",
        "-0", "-1", "1.0", "1e2", "007", "\"true\"", "[true]", "{\"a\": 1}", "", "truex", "True",
    ] {
        let json: serde_json::Value =
            serde_json::from_str(text).unwrap_or(serde_json::Value::Null);
        let value = setting_value(text);
        assert_eq!(value.as_bool(), json.as_bool(), "{text}");
        assert_eq!(value.as_u64(), json.as_u64(), "{text}");
        match value {
            SettingValue::Other(kept) => assert_eq!(kept, text),
            _ => assert!(json.is_boolean() || json.is_u64()),
        }
    }
    assert_eq!(setting_value("true").as_bool(), Some(true));
    assert_eq!(setting_value("false").as_bool(), Some(false));
    for number in [0u64, 7, 100, u64::MAX] {
        assert_eq!(setting_value(&number.to_string()).as_u64(), Some(number));
    }
}

#[test]
fn values_are_read_by_kind() {
    assert_eq!(SettingValue::Bool(true).as_bool(), Some(true));
    assert_eq!(SettingValue::Bool(true).as_u64(), None);
    assert_eq!(SettingValue::Unsigned(1).as_bool(), None);
    assert_eq!(SettingValue::Unsigned(7).as_u64(), Some(7));
    assert_eq!(SettingValue::Other("true".to_string()).as_bool(), None);
    assert_eq!(SettingValue::Other("7".to_string()).as_u64(), None);
    assert_eq!(bool_value(&SettingValue::Bool(false), "Sound"), Ok(false));
    assert_eq!(
        bool_value(&SettingValue::Unsigned(0), "Sound"),
        Err("Sound must be set to true or false. No action was taken.".to_string())
    );
    assert_eq!(
        toggle_for("brightness", &SettingValue::Unsigned(100)),
        Ok(ToggleSetting::Brightness { percent: 100 })
    );
    assert!(toggle_for("Brightness", &SettingValue::Unsigned(100)).is_err());
}

#[test]
fn applications_are_listed_once_and_in_order() {
    let names = |list: &[&str]| list.iter().map(|n| n.to_string()).collect::<Vec<String>>();
    assert!(running_apps(&names(&[])).is_empty());
    assert_eq!(
        running_apps(&names(&["zsh", "bash", "Xorg", "bash", "", "ba", "é", "zsh"])),
        ["", "Xorg", "ba", "bash", "zsh", "é"]
    );
    assert_eq!(
        running_apps(&names(&["b", "a", "b"])),
        running_apps(&names(&["a", "b", "a", "a"]))
    );
}

#[test]
fn applications_are_listed_as_sorting_would() {
    let mut seed: u32 = 7;
    let mut next = || {
        seed = seed.wrapping_mul(1_664_525).wrapping_add(1_013_904_223);
        seed >> 16
    };
    for _ in 0..50 {
        let names: Vec<String> = (0..next() % 120)
            .map(|_| (0..next() % 4).map(|_| ['a', 'b', 'Z', 'é', '\u{10000}'][(next() % 5) as usize]).collect())
            .collect();
        let mut expected = names.clone();
        expected.sort();
        expected.dedup();
        expected.truncate(50);
        assert_eq!(running_apps(&names), expected);
    }
}

#[test]
fn the_machine_is_reported() {
    let disk = DiskSpace { name: "sda".to_string(), total_bytes: 100, available_bytes: 40 };
    let names: Vec<String> = (0..60).map(|n| format!("app{n:02}")).collect();
    let report = get_system_info(vec![disk], 16, 9, 12.5f32.to_bits(), &names);
    assert_eq!(report.tool, "get_system_info");
    assert_eq!(
        report.summary,
        "Read system storage, memory, CPU load, and running applications."
    );
    match report.data {
        ToolData::System {
            storage,
            ram_total_bytes,
            ram_used_bytes,
            cpu_load_percent_bits,
            running_apps,
        } => {
            assert_eq!(storage.len(), 1);
            assert_eq!(storage[0].name, "sda");
            assert_eq!((storage[0].total_bytes, storage[0].available_bytes), (100, 40));
            assert_eq!((ram_total_bytes, ram_used_bytes), (16, 9));
            assert_eq!(f32::from_bits(cpu_load_percent_bits), 12.5);
            assert_eq!(running_apps, names[..50]);
        }
        _ => panic!("not a report on the machine"),
    }
}
