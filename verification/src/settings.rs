//! The settings that may be changed, and the commands that change them.
use vstd::prelude::*;

use crate::command::{CommandLine, CommandOutcome};
use crate::execution::{refused, ToolData, ToolExecution};
use crate::intent::IntentParams;
use crate::json::{bool_in_json, json_bool, json_holds, unsigned_in_json};
use crate::text::{
    decimal, decimal_holds_digits, decimal_is_injective, digits_between, glue, glue3, is_digit,
    lowercase, lowers_ascii, same_text, texts, to_decimal, trim, trimmed,
};

verus! {

/// A JSON value proposed for a setting.
#[derive(Debug)]
pub enum SettingValue {
    Bool(bool),
    /// A whole number from zero up.
    Unsigned(u64),
    /// Any other value, as JSON text.
    Other(String),
}

impl SettingValue {
    /// The truth value, where the value is one.
    pub open spec fn bool_part(&self) -> Option<bool> {
        match self {
            SettingValue::Bool(b) => Some(*b),
            _ => None,
        }
    }

    /// The number, where the value is a whole number from zero up.
    pub open spec fn unsigned_part(&self) -> Option<u64> {
        match self {
            SettingValue::Unsigned(n) => Some(*n),
            _ => None,
        }
    }

    /// The truth value, where the value is one.
    pub fn as_bool(&self) -> (r: Option<bool>)
        ensures
            r == self.bool_part(),
    {
        match self {
            SettingValue::Bool(b) => Some(*b),
            _ => None,
        }
    }

    /// The number, where the value is a whole number from zero up.
    pub fn as_u64(&self) -> (r: Option<u64>)
        ensures
            r == self.unsigned_part(),
    {
        match self {
            SettingValue::Unsigned(n) => Some(*n),
            _ => None,
        }
    }
}

/// The value is what the JSON text holds: a truth value, a whole number from zero up,
/// or neither.
pub open spec fn is_json_value(value: SettingValue, text: Seq<char>) -> bool {
    match value {
        SettingValue::Bool(b) => json_bool(text) == Some(b),
        SettingValue::Unsigned(n) => json_holds(text, n),
        SettingValue::Other(kept) => kept@ == text && json_bool(text) is None && forall|n: u64|
            !#[trigger] json_holds(text, n),
    }
}

/// A JSON text holds no more than one value.
pub proof fn json_value_is_unique(a: SettingValue, b: SettingValue, text: Seq<char>)
    requires
        is_json_value(a, text),
        is_json_value(b, text),
    ensures
        a.bool_part() == b.bool_part(),
        a.unsigned_part() == b.unsigned_part(),
{
    reveal_strlit("true");
    reveal_strlit("false");
    if let SettingValue::Unsigned(n) = a {
        decimal_holds_digits(n as nat);
        assert(is_digit(decimal(n as nat)[0]));
        if let SettingValue::Unsigned(m) = b {
            decimal_is_injective(n as nat, m as nat);
        }
    }
    if let SettingValue::Unsigned(m) = b {
        decimal_holds_digits(m as nat);
        assert(is_digit(decimal(m as nat)[0]));
    }
}

/// The value that a JSON text holds.
pub fn setting_value(text: &str) -> (r: SettingValue)
    ensures
        is_json_value(r, text@),
{
    match bool_in_json(text) {
        Some(b) => SettingValue::Bool(b),
        None => match unsigned_in_json(text) {
            Some(n) => SettingValue::Unsigned(n),
            None => SettingValue::Other(text.to_owned()),
        },
    }
}

/// A change of one setting.
#[derive(Clone, Copy, Debug, PartialEq, Eq, Structural)]
pub enum ToggleSetting {
    Wifi { enabled: bool },
    Brightness { percent: u8 },
    Volume { percent: u8 },
    DarkMode { enabled: bool },
    DoNotDisturb { enabled: bool },
}

impl ToggleSetting {
    /// A brightness and a volume are percentages.
    pub open spec fn wf(self) -> bool {
        match self {
            ToggleSetting::Brightness { percent } => percent <= 100,
            ToggleSetting::Volume { percent } => percent <= 100,
            _ => true,
        }
    }
}

/// Why a change of a setting is refused.
pub enum ToggleFault {
    NameMissing,
    ValueMissing,
    WifiNotBool,
    BrightnessNotPercent,
    VolumeNotPercent,
    DarkModeNotBool,
    DoNotDisturbNotBool,
    NotListed,
}

/// The refusal of a value for a setting that is on or off.
pub open spec fn not_bool_text(setting_name: Seq<char>) -> Seq<char> {
    setting_name + " must be set to true or false. No action was taken."@
}

/// What the user is told of a fault.
pub open spec fn toggle_fault_text(fault: ToggleFault) -> Seq<char> {
    match fault {
        ToggleFault::NameMissing => "A setting name is required. No action was taken."@,
        ToggleFault::ValueMissing => "A setting value is required. No action was taken."@,
        ToggleFault::WifiNotBool => not_bool_text("Wi-Fi"@),
        ToggleFault::BrightnessNotPercent =>
            "Brightness must be a whole number from 0 to 100. No action was taken."@,
        ToggleFault::VolumeNotPercent =>
            "Volume must be a whole number from 0 to 100. No action was taken."@,
        ToggleFault::DarkModeNotBool => not_bool_text("Dark mode"@),
        ToggleFault::DoNotDisturbNotBool => not_bool_text("Do not disturb"@),
        ToggleFault::NotListed =>
            "That setting is not in the Linux MVP whitelist. No action was taken."@,
    }
}

/// The change that a setting's name in small letters and a value ask for.
pub open spec fn listed_toggle(name: Seq<char>, value: SettingValue) -> Result<
    ToggleSetting,
    ToggleFault,
> {
    if name == "wifi"@ {
        match value.bool_part() {
            Some(enabled) => Ok(ToggleSetting::Wifi { enabled }),
            None => Err(ToggleFault::WifiNotBool),
        }
    } else if name == "brightness"@ {
        match value.unsigned_part() {
            Some(n) if n <= 100 => Ok(ToggleSetting::Brightness { percent: n as u8 }),
            _ => Err(ToggleFault::BrightnessNotPercent),
        }
    } else if name == "volume"@ {
        match value.unsigned_part() {
            Some(n) if n <= 100 => Ok(ToggleSetting::Volume { percent: n as u8 }),
            _ => Err(ToggleFault::VolumeNotPercent),
        }
    } else if name == "dark_mode"@ || name == "dark mode"@ {
        match value.bool_part() {
            Some(enabled) => Ok(ToggleSetting::DarkMode { enabled }),
            None => Err(ToggleFault::DarkModeNotBool),
        }
    } else if name == "do_not_disturb"@ || name == "do not disturb"@ {
        match value.bool_part() {
            Some(enabled) => Ok(ToggleSetting::DoNotDisturb { enabled }),
            None => Err(ToggleFault::DoNotDisturbNotBool),
        }
    } else {
        Err(ToggleFault::NotListed)
    }
}

/// The change that an optional name and an optional value ask for. The name
/// counts without the white space around it and without regard to case.
pub open spec fn requested_toggle(name: Option<String>, value: Option<SettingValue>) -> Result<
    ToggleSetting,
    ToggleFault,
> {
    match name {
        None => Err(ToggleFault::NameMissing),
        Some(n) => match value {
            None => Err(ToggleFault::ValueMissing),
            Some(v) => listed_toggle(lowercase(trimmed(n@)), v),
        },
    }
}

/// Only the settings of the list can be changed: switches to on or off, and the
/// brightness and the volume to a percentage.
pub proof fn only_listed_settings_change(name: Option<String>, value: Option<SettingValue>)
    requires
        requested_toggle(name, value) is Ok,
    ensures
        name is Some,
        value is Some,
        requested_toggle(name, value)->Ok_0.wf(),
        ({
            let word = lowercase(trimmed(name->0@));
            match requested_toggle(name, value)->Ok_0 {
                ToggleSetting::Wifi { enabled } => word == "wifi"@ && value->0
                    == SettingValue::Bool(enabled),
                ToggleSetting::Brightness { percent } => word == "brightness"@ && value->0
                    == SettingValue::Unsigned(percent as u64),
                ToggleSetting::Volume { percent } => word == "volume"@ && value->0
                    == SettingValue::Unsigned(percent as u64),
                ToggleSetting::DarkMode { enabled } => (word == "dark_mode"@ || word
                    == "dark mode"@) && value->0 == SettingValue::Bool(enabled),
                ToggleSetting::DoNotDisturb { enabled } => (word == "do_not_disturb"@ || word
                    == "do not disturb"@) && value->0 == SettingValue::Bool(enabled),
            }
        }),
{
}

/// `r` is what `expected` says, with a fault told in words.
pub open spec fn toggle_answer(
    r: Result<ToggleSetting, String>,
    expected: Result<ToggleSetting, ToggleFault>,
) -> bool {
    match expected {
        Ok(setting) => r == Ok::<ToggleSetting, String>(setting),
        Err(fault) => refused(r, toggle_fault_text(fault)),
    }
}

/// The truth value of `value`, or a refusal that names the setting.
pub fn bool_value(value: &SettingValue, setting_name: &str) -> (r: Result<bool, String>)
    ensures
        match value.bool_part() {
            Some(b) => r == Ok::<bool, String>(b),
            None => refused(r, not_bool_text(setting_name@)),
        },
{
    match value.as_bool() {
        Some(b) => Ok(b),
        None => Err(
            glue(setting_name, " must be set to true or false. No action was taken."),
        ),
    }
}

/// The percentage that `value` is, where it is one.
fn percent_value(value: &SettingValue) -> (r: Option<u8>)
    ensures
        match value.unsigned_part() {
            Some(n) if n <= 100 => r == Some(n as u8),
            _ => r is None,
        },
{
    match value.as_u64() {
        Some(n) if n <= 100 => Some(n as u8),
        _ => None,
    }
}

/// The change that a setting's name in small letters and a value ask for.
pub fn toggle_for(name: &str, value: &SettingValue) -> (r: Result<ToggleSetting, String>)
    ensures
        toggle_answer(r, listed_toggle(name@, *value)),
        r matches Ok(setting) ==> setting.wf(),
{
    if same_text(name, "wifi") {
        match bool_value(value, "Wi-Fi") {
            Ok(enabled) => Ok(ToggleSetting::Wifi { enabled }),
            Err(e) => Err(e),
        }
    } else if same_text(name, "brightness") {
        match percent_value(value) {
            Some(percent) => Ok(ToggleSetting::Brightness { percent }),
            None => Err(
                "Brightness must be a whole number from 0 to 100. No action was taken.".to_owned(),
            ),
        }
    } else if same_text(name, "volume") {
        match percent_value(value) {
            Some(percent) => Ok(ToggleSetting::Volume { percent }),
            None => Err(
                "Volume must be a whole number from 0 to 100. No action was taken.".to_owned(),
            ),
        }
    } else if same_text(name, "dark_mode") || same_text(name, "dark mode") {
        match bool_value(value, "Dark mode") {
            Ok(enabled) => Ok(ToggleSetting::DarkMode { enabled }),
            Err(e) => Err(e),
        }
    } else if same_text(name, "do_not_disturb") || same_text(name, "do not disturb") {
        match bool_value(value, "Do not disturb") {
            Ok(enabled) => Ok(ToggleSetting::DoNotDisturb { enabled }),
            Err(e) => Err(e),
        }
    } else {
        Err("That setting is not in the Linux MVP whitelist. No action was taken.".to_owned())
    }
}

/// Where the name of a setting is all ASCII, its small letters are those of ASCII.
pub open spec fn name_lowers_ascii(params: IntentParams) -> bool {
    params.setting_name matches Some(n) ==> lowers_ascii(trimmed(n@))
}

/// The change that the parameters of an intent ask for.
pub fn prepare_toggle(params: &IntentParams) -> (r: Result<ToggleSetting, String>)
    ensures
        toggle_answer(r, requested_toggle(params.setting_name, params.value)),
        r matches Ok(setting) ==> setting.wf(),
        name_lowers_ascii(*params),
{
    match &params.setting_name {
        None => Err("A setting name is required. No action was taken.".to_owned()),
        Some(n) => {
            let word = trim(n.as_str()).to_lowercase();
            match &params.value {
                None => Err("A setting value is required. No action was taken.".to_owned()),
                Some(v) => toggle_for(word.as_str(), v),
            }
        },
    }
}

/// The word for a switch position.
pub open spec fn on_off(enabled: bool) -> Seq<char> {
    if enabled {
        "on"@
    } else {
        "off"@
    }
}

fn on_off_word(enabled: bool) -> (r: &'static str)
    ensures
        r@ == on_off(enabled),
{
    if enabled {
        "on"
    } else {
        "off"
    }
}

/// The change in words.
pub open spec fn preview_text(setting: ToggleSetting) -> Seq<char> {
    match setting {
        ToggleSetting::Wifi { enabled } => "Turn Wi-Fi "@ + on_off(enabled) + "."@,
        ToggleSetting::Brightness { percent } => "Set screen brightness to "@ + decimal(
            percent as nat,
        ) + "%."@,
        ToggleSetting::Volume { percent } => "Set volume to "@ + decimal(percent as nat) + "%."@,
        ToggleSetting::DarkMode { enabled } => "Turn dark mode "@ + on_off(enabled) + "."@,
        ToggleSetting::DoNotDisturb { enabled } => "Turn Do Not Disturb "@ + on_off(enabled)
            + "."@,
    }
}

/// Two previews are equal only for the same change.
pub proof fn previews_tell_changes_apart(a: ToggleSetting, b: ToggleSetting)
    requires
        preview_text(a) == preview_text(b),
    ensures
        a == b,
{
    reveal_strlit("Turn Wi-Fi ");
    reveal_strlit("Turn dark mode ");
    reveal_strlit("Turn Do Not Disturb ");
    reveal_strlit("Set screen brightness to ");
    reveal_strlit("Set volume to ");
    reveal_strlit("on");
    reveal_strlit("off");
    reveal_strlit(".");
    reveal_strlit("%.");
    let p = preview_text(a);
    let q = preview_text(b);
    assert(p[0] == q[0] && p[4] == q[4] && p[5] == q[5]);
    match (a, b) {
        (ToggleSetting::Brightness { percent: m }, ToggleSetting::Brightness { percent: n }) => {
            digits_between("Set screen brightness to "@, m as nat, n as nat, "%."@);
        },
        (ToggleSetting::Volume { percent: m }, ToggleSetting::Volume { percent: n }) => {
            digits_between("Set volume to "@, m as nat, n as nat, "%."@);
        },
        _ => {
            assert(p.len() == q.len());
        },
    }
}

/// The change in words.
pub fn toggle_preview(setting: &ToggleSetting) -> (r: String)
    ensures
        r@ == preview_text(*setting),
{
    match setting {
        ToggleSetting::Wifi { enabled } => glue3("Turn Wi-Fi ", on_off_word(*enabled), "."),
        ToggleSetting::Brightness { percent } => {
            let digits = to_decimal(*percent as u64);
            glue3("Set screen brightness to ", digits.as_str(), "%.")
        },
        ToggleSetting::Volume { percent } => {
            let digits = to_decimal(*percent as u64);
            glue3("Set volume to ", digits.as_str(), "%.")
        },
        ToggleSetting::DarkMode { enabled } => glue3(
            "Turn dark mode ",
            on_off_word(*enabled),
            ".",
        ),
        ToggleSetting::DoNotDisturb { enabled } => glue3(
            "Turn Do Not Disturb ",
            on_off_word(*enabled),
            ".",
        ),
    }
}

/// The program that makes a change.
pub open spec fn toggle_program(setting: ToggleSetting) -> Seq<char> {
    match setting {
        ToggleSetting::Wifi { .. } => "nmcli"@,
        ToggleSetting::Brightness { .. } => "brightnessctl"@,
        ToggleSetting::Volume { .. } => "pactl"@,
        ToggleSetting::DarkMode { .. } => "gsettings"@,
        ToggleSetting::DoNotDisturb { .. } => "gsettings"@,
    }
}

/// The arguments with which the program makes a change.
pub open spec fn toggle_args(setting: ToggleSetting) -> Seq<Seq<char>> {
    match setting {
        ToggleSetting::Wifi { enabled } => seq!["radio"@, "wifi"@, on_off(enabled)],
        ToggleSetting::Brightness { percent } => seq!["set"@, decimal(percent as nat) + "%"@],
        ToggleSetting::Volume { percent } => seq![
            "set-sink-volume"@,
            "@DEFAULT_SINK@"@,
            decimal(percent as nat) + "%"@,
        ],
        ToggleSetting::DarkMode { enabled } => seq![
            "set"@,
            "org.gnome.desktop.interface"@,
            "color-scheme"@,
            if enabled {
                "prefer-dark"@
            } else {
                "default"@
            },
        ],
        ToggleSetting::DoNotDisturb { enabled } => seq![
            "set"@,
            "org.gnome.desktop.notifications"@,
            "show-banners"@,
            if enabled {
                "false"@
            } else {
                "true"@
            },
        ],
    }
}

/// The command that makes a change.
pub fn toggle_command(setting: &ToggleSetting) -> (r: CommandLine)
    ensures
        r.runs(toggle_program(*setting), toggle_args(*setting)),
{
    let (program, args) = match setting {
        ToggleSetting::Wifi { enabled } => (
            "nmcli",
            vec!["radio".to_owned(), "wifi".to_owned(), on_off_word(*enabled).to_owned()],
        ),
        ToggleSetting::Brightness { percent } => {
            let digits = to_decimal(*percent as u64);
            ("brightnessctl", vec!["set".to_owned(), glue(digits.as_str(), "%")])
        },
        ToggleSetting::Volume { percent } => {
            let digits = to_decimal(*percent as u64);
            (
                "pactl",
                vec![
                    "set-sink-volume".to_owned(),
                    "@DEFAULT_SINK@".to_owned(),
                    glue(digits.as_str(), "%"),
                ],
            )
        },
        ToggleSetting::DarkMode { enabled } => (
            "gsettings",
            vec![
                "set".to_owned(),
                "org.gnome.desktop.interface".to_owned(),
                "color-scheme".to_owned(),
                if *enabled {
                    "prefer-dark".to_owned()
                } else {
                    "default".to_owned()
                },
            ],
        ),
        ToggleSetting::DoNotDisturb { enabled } => (
            "gsettings",
            vec![
                "set".to_owned(),
                "org.gnome.desktop.notifications".to_owned(),
                "show-banners".to_owned(),
                if *enabled {
                    "false".to_owned()
                } else {
                    "true".to_owned()
                },
            ],
        ),
    };
    assert(texts(args@) =~= toggle_args(*setting));
    CommandLine { program: program.to_owned(), args }
}

/// Whether a settings program did its work, or what the user is told instead.
pub fn run_setting_command(program: &str, outcome: &CommandOutcome) -> (r: Result<(), String>)
    ensures
        match outcome {
            CommandOutcome::NotStarted => refused(
                r,
                "Could not run "@ + program@ + ". Check that it is installed and available."@,
            ),
            CommandOutcome::Failed => refused(
                r,
                program@ + " did not apply the requested setting."@,
            ),
            CommandOutcome::Succeeded { .. } => r is Ok,
        },
{
    match outcome {
        CommandOutcome::NotStarted => Err(
            glue3("Could not run ", program, ". Check that it is installed and available."),
        ),
        CommandOutcome::Failed => Err(glue(program, " did not apply the requested setting.")),
        CommandOutcome::Succeeded { .. } => Ok(()),
    }
}

/// The report on a change, once `toggle_command` has been run.
pub fn execute_toggle(setting: &ToggleSetting, outcome: &CommandOutcome) -> (r: Result<
    ToolExecution,
    String,
>)
    ensures
        match outcome {
            CommandOutcome::NotStarted => refused(
                r,
                "Could not run "@ + toggle_program(*setting)
                    + ". Check that it is installed and available."@,
            ),
            CommandOutcome::Failed => refused(
                r,
                toggle_program(*setting) + " did not apply the requested setting."@,
            ),
            CommandOutcome::Succeeded { .. } => r matches Ok(x) && x.tool@ == "toggle_setting"@
                && x.summary@ == "Applied: "@ + preview_text(*setting) && x.data
                == (ToolData::Applied { applied: true }),
        },
{
    let command = toggle_command(setting);
    match run_setting_command(command.program.as_str(), outcome) {
        Err(e) => Err(e),
        Ok(_) => {
            let preview = toggle_preview(setting);
            Ok(
                ToolExecution {
                    tool: "toggle_setting".to_owned(),
                    summary: glue("Applied: ", preview.as_str()),
                    data: ToolData::Applied { applied: true },
                },
            )
        },
    }
}

} // verus!
