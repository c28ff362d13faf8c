//! What holds of every command that the assistant runs.
use vstd::prelude::*;

use crate::logs::{is_service_char, is_service_name, log_args};
use crate::network::network_args;
use crate::settings::{toggle_args, toggle_program, ToggleSetting};
use crate::text::{decimal, decimal_holds_digits, is_digit};

verus! {

/// A character of a service name, a comma, an equals sign, a percent sign or an at
/// sign. None of them ends, joins or redirects a command in a shell.
pub open spec fn is_plain_char(c: char) -> bool {
    is_service_char(c) || c == ',' || c == '=' || c == '%' || c == '@'
}

/// A text of plain characters.
pub open spec fn is_plain(arg: Seq<char>) -> bool {
    forall|i: int| 0 <= i < arg.len() ==> is_plain_char(#[trigger] arg[i])
}

/// All arguments are plain.
pub open spec fn all_plain(args: Seq<Seq<char>>) -> bool {
    forall|i: int| 0 <= i < args.len() ==> is_plain(#[trigger] args[i])
}

proof fn decimal_is_plain(n: nat)
    ensures
        is_plain(decimal(n)),
{
    decimal_holds_digits(n);
    assert forall|i: int| 0 <= i < decimal(n).len() implies is_plain_char(
        #[trigger] decimal(n)[i],
    ) by {
        assert(is_digit(decimal(n)[i]));
    }
}

/// A change is made by one of four programs, with two to four arguments, all of
/// them plain. Of what the model proposes only the switch position or the
/// percentage is left in them.
pub proof fn setting_commands_are_fixed(setting: ToggleSetting)
    requires
        setting.wf(),
    ensures
        toggle_program(setting) == "nmcli"@ || toggle_program(setting) == "brightnessctl"@
            || toggle_program(setting) == "pactl"@ || toggle_program(setting) == "gsettings"@,
        2 <= toggle_args(setting).len() <= 4,
        all_plain(toggle_args(setting)),
        forall|i: int|
            0 <= i < toggle_args(setting).len() - 1 ==> #[trigger] toggle_args(setting)[i]
                == toggle_args(at_rest(setting))[i],
        toggle_program(setting) == toggle_program(at_rest(setting)),
{
    let args = toggle_args(setting);
    match setting {
        ToggleSetting::Wifi { .. } => {
            reveal_strlit("radio");
            reveal_strlit("wifi");
            reveal_strlit("on");
            reveal_strlit("off");
            assert(is_plain(args[0]) && is_plain(args[1]) && is_plain(args[2]));
        },
        ToggleSetting::Brightness { percent } => {
            reveal_strlit("set");
            reveal_strlit("%");
            decimal_is_plain(percent as nat);
            assert(is_plain(args[0]) && is_plain(args[1]));
        },
        ToggleSetting::Volume { percent } => {
            reveal_strlit("set-sink-volume");
            reveal_strlit("@DEFAULT_SINK@");
            reveal_strlit("%");
            decimal_is_plain(percent as nat);
            assert(is_plain(args[0]) && is_plain(args[1]) && is_plain(args[2]));
        },
        ToggleSetting::DarkMode { .. } => {
            reveal_strlit("set");
            reveal_strlit("org.gnome.desktop.interface");
            reveal_strlit("color-scheme");
            reveal_strlit("prefer-dark");
            reveal_strlit("default");
            assert(is_plain(args[0]) && is_plain(args[1]) && is_plain(args[2]) && is_plain(
                args[3],
            ));
        },
        ToggleSetting::DoNotDisturb { .. } => {
            reveal_strlit("set");
            reveal_strlit("org.gnome.desktop.notifications");
            reveal_strlit("show-banners");
            reveal_strlit("false");
            reveal_strlit("true");
            assert(is_plain(args[0]) && is_plain(args[1]) && is_plain(args[2]) && is_plain(
                args[3],
            ));
        },
    }
}

/// A change of the same setting, with its switch off or at zero.
pub open spec fn at_rest(setting: ToggleSetting) -> ToggleSetting {
    match setting {
        ToggleSetting::Wifi { .. } => ToggleSetting::Wifi { enabled: false },
        ToggleSetting::Brightness { .. } => ToggleSetting::Brightness { percent: 0 },
        ToggleSetting::Volume { .. } => ToggleSetting::Volume { percent: 0 },
        ToggleSetting::DarkMode { .. } => ToggleSetting::DarkMode { enabled: false },
        ToggleSetting::DoNotDisturb { .. } => ToggleSetting::DoNotDisturb { enabled: false },
    }
}

/// The arguments of the commands that only read are plain: for the network
/// always, for the journal where the name of the service is one that may be passed
/// on.
pub proof fn reading_commands_are_plain(service: Seq<char>, lines: u32)
    requires
        is_service_name(service),
    ensures
        all_plain(network_args()),
        all_plain(log_args(service, lines)),
{
    reveal_strlit("-t");
    reveal_strlit("-f");
    reveal_strlit("ACTIVE,SSID,SIGNAL");
    reveal_strlit("dev");
    reveal_strlit("wifi");
    reveal_strlit("-u");
    reveal_strlit("-n");
    reveal_strlit("--no-pager");
    reveal_strlit("--output=short-iso");
    decimal_is_plain(lines as nat);
    let n = network_args();
    assert(is_plain(n[0]) && is_plain(n[1]) && is_plain(n[2]) && is_plain(n[3]) && is_plain(n[4]));
    let l = log_args(service, lines);
    assert(is_plain(l[0]) && is_plain(l[1]) && is_plain(l[2]) && is_plain(l[3]) && is_plain(l[4])
        && is_plain(l[5]));
}

} // verus!
