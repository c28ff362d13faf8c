//! Laws of intents, changes and the consent to them.
use vstd::prelude::*;

use crate::gate::{gate_after, let_through, GateEvent, PendingAction};
use crate::intent::{Action, Intent, RiskTier};
use crate::laws::numbers::digits_denote_the_number;
use crate::laws::texts::{parts_show_in_the_whole, texts_stand_in_what_they_make_up};
use crate::planner::{
    asks_to_launch, intent_fault, is_launch_request, names_application, params_fit, plan, tier_of,
};
use crate::session::{processed, NextStep};
use crate::settings::{
    listed_toggle, preview_text, requested_toggle, toggle_args, toggle_program, SettingValue,
    ToggleFault, ToggleSetting,
};
use crate::text::{decimal, decimal_is_injective, digits_value, has_text};

verus! {

/// Two changes are made by the same program with the same arguments only where they are
/// the same change.
pub proof fn commands_tell_changes_apart(a: ToggleSetting, b: ToggleSetting)
    requires
        toggle_program(a) == toggle_program(b),
        toggle_args(a) == toggle_args(b),
    ensures
        a == b,
{
    reveal_strlit("nmcli");
    reveal_strlit("brightnessctl");
    reveal_strlit("pactl");
    reveal_strlit("gsettings");
    reveal_strlit("on");
    reveal_strlit("off");
    reveal_strlit("prefer-dark");
    reveal_strlit("default");
    reveal_strlit("true");
    reveal_strlit("false");
    reveal_strlit("org.gnome.desktop.interface");
    reveal_strlit("org.gnome.desktop.notifications");
    reveal_strlit("%");
    let p = toggle_program(a);
    let q = toggle_program(b);
    assert(p[0] == q[0] && p.len() == q.len());
    let x = toggle_args(a);
    let y = toggle_args(b);
    assert(x.last() == y.last());
    assert(x[1] == y[1] && x[1].len() == y[1].len());
    match (a, b) {
        (ToggleSetting::Brightness { percent: m }, ToggleSetting::Brightness { percent: n }) => {
            assert(x[1].drop_last() =~= decimal(m as nat));
            assert(y[1].drop_last() =~= decimal(n as nat));
            decimal_is_injective(m as nat, n as nat);
        },
        (ToggleSetting::Volume { percent: m }, ToggleSetting::Volume { percent: n }) => {
            assert(x[2] == y[2]);
            assert(x[2].drop_last() =~= decimal(m as nat));
            assert(y[2].drop_last() =~= decimal(n as nat));
            decimal_is_injective(m as nat, n as nat);
        },
        _ => {
            assert(x.last().len() == y.last().len());
            assert(x.last()[0] == y.last()[0]);
        },
    }
}

/// The last argument of the command for a percentage is digits that denote it, and a
/// percent sign; the preview shows the same digits, before a percent sign and a full stop.
pub proof fn the_number_in_the_command_is_the_number_shown(percent: u8)
    ensures
        exists|d: Seq<char>, a: Seq<char>|
            {
                &&& digits_value(d) == percent
                &&& d.len() > 0
                &&& forall|i: int| 0 <= i < d.len() ==> '0' <= #[trigger] d[i] <= '9'
                &&& toggle_args(ToggleSetting::Brightness { percent }).last() == d + seq!['%']
                &&& preview_text(ToggleSetting::Brightness { percent }) == #[trigger] (a + d)
                    + seq!['%', '.']
                &&& forall|i: int| 0 <= i < a.len() ==> !('0' <= #[trigger] a[i] <= '9')
            },
        exists|d: Seq<char>, a: Seq<char>|
            {
                &&& digits_value(d) == percent
                &&& d.len() > 0
                &&& forall|i: int| 0 <= i < d.len() ==> '0' <= #[trigger] d[i] <= '9'
                &&& toggle_args(ToggleSetting::Volume { percent }).last() == d + seq!['%']
                &&& preview_text(ToggleSetting::Volume { percent }) == #[trigger] (a + d)
                    + seq!['%', '.']
                &&& forall|i: int| 0 <= i < a.len() ==> !('0' <= #[trigger] a[i] <= '9')
            },
{
    let d = decimal(percent as nat);
    digits_denote_the_number(percent as nat);
    reveal_strlit("%");
    reveal_strlit("%.");
    reveal_strlit("Set screen brightness to ");
    reveal_strlit("Set volume to ");
    assert("%"@ =~= seq!['%']);
    assert("%."@ =~= seq!['%', '.']);
    let a = "Set screen brightness to "@;
    let b = "Set volume to "@;
    assert(preview_text(ToggleSetting::Brightness { percent }) == a + d + seq!['%', '.']);
    assert(preview_text(ToggleSetting::Volume { percent }) == b + d + seq!['%', '.']);
    assert(toggle_args(ToggleSetting::Brightness { percent }).last() == d + seq!['%']);
    assert(toggle_args(ToggleSetting::Volume { percent }).last() == d + seq!['%']);
}

/// The brightness and the volume can be set to every whole number from 0 to 100 and to
/// nothing else, and what is set is the number that was asked for.
pub proof fn percentages_are_taken_as_asked(n: u64, truth: bool, text: String)
    ensures
        n <= 100 ==> (listed_toggle("brightness"@, SettingValue::Unsigned(n)) matches Ok(
            ToggleSetting::Brightness { percent },
        ) && percent == n),
        n <= 100 ==> (listed_toggle("volume"@, SettingValue::Unsigned(n)) matches Ok(
            ToggleSetting::Volume { percent },
        ) && percent == n),
        n > 100 ==> listed_toggle("brightness"@, SettingValue::Unsigned(n)) is Err,
        n > 100 ==> listed_toggle("volume"@, SettingValue::Unsigned(n)) is Err,
        listed_toggle("brightness"@, SettingValue::Bool(truth)) is Err,
        listed_toggle("volume"@, SettingValue::Bool(truth)) is Err,
        listed_toggle("brightness"@, SettingValue::Other(text)) is Err,
        listed_toggle("volume"@, SettingValue::Other(text)) is Err,
{
    words_differ();
}

/// A switch takes the position that was asked for, and nothing but a position.
pub proof fn switches_are_taken_as_asked(truth: bool, n: u64, text: String)
    ensures
        listed_toggle("wifi"@, SettingValue::Bool(truth)) == Ok::<ToggleSetting, ToggleFault>(
            ToggleSetting::Wifi { enabled: truth },
        ),
        listed_toggle("dark_mode"@, SettingValue::Bool(truth)) == Ok::<ToggleSetting, ToggleFault>(
            ToggleSetting::DarkMode { enabled: truth },
        ),
        listed_toggle("dark mode"@, SettingValue::Bool(truth)) == Ok::<ToggleSetting, ToggleFault>(
            ToggleSetting::DarkMode { enabled: truth },
        ),
        listed_toggle("do_not_disturb"@, SettingValue::Bool(truth)) == Ok::<
            ToggleSetting,
            ToggleFault,
        >(ToggleSetting::DoNotDisturb { enabled: truth }),
        listed_toggle("do not disturb"@, SettingValue::Bool(truth)) == Ok::<
            ToggleSetting,
            ToggleFault,
        >(ToggleSetting::DoNotDisturb { enabled: truth }),
        listed_toggle("wifi"@, SettingValue::Unsigned(n)) is Err,
        listed_toggle("dark_mode"@, SettingValue::Unsigned(n)) is Err,
        listed_toggle("dark mode"@, SettingValue::Unsigned(n)) is Err,
        listed_toggle("do_not_disturb"@, SettingValue::Unsigned(n)) is Err,
        listed_toggle("do not disturb"@, SettingValue::Unsigned(n)) is Err,
        listed_toggle("wifi"@, SettingValue::Other(text)) is Err,
        listed_toggle("dark_mode"@, SettingValue::Other(text)) is Err,
        listed_toggle("dark mode"@, SettingValue::Other(text)) is Err,
        listed_toggle("do_not_disturb"@, SettingValue::Other(text)) is Err,
        listed_toggle("do not disturb"@, SettingValue::Other(text)) is Err,
{
    words_differ();
}

proof fn words_differ()
    ensures
        "wifi"@.len() == 4,
        "volume"@.len() == 6,
        "brightness"@.len() == 10,
        "dark_mode"@.len() == 9,
        "dark mode"@.len() == 9,
        "do_not_disturb"@.len() == 14,
        "do not disturb"@.len() == 14,
{
    reveal_strlit("wifi");
    reveal_strlit("volume");
    reveal_strlit("brightness");
    reveal_strlit("dark_mode");
    reveal_strlit("dark mode");
    reveal_strlit("do_not_disturb");
    reveal_strlit("do not disturb");
}

/// No name but those of the settings can be changed, to whatever value.
pub proof fn other_names_are_refused(name: Seq<char>, value: SettingValue)
    requires
        !seq![
            "wifi"@,
            "brightness"@,
            "volume"@,
            "dark_mode"@,
            "dark mode"@,
            "do_not_disturb"@,
            "do not disturb"@,
        ].contains(name),
    ensures
        listed_toggle(name, value) is Err,
{
    let names = seq![
        "wifi"@,
        "brightness"@,
        "volume"@,
        "dark_mode"@,
        "dark mode"@,
        "do_not_disturb"@,
        "do not disturb"@,
    ];
    assert(names[0] == "wifi"@ && names[1] == "brightness"@ && names[2] == "volume"@ && names[3]
        == "dark_mode"@ && names[4] == "dark mode"@ && names[5] == "do_not_disturb"@ && names[6]
        == "do not disturb"@);
}

/// Whether an intent meets the rules depends on which parameters are there, not on what
/// they hold, nor on the tier that is claimed or on what a question asks.
pub proof fn rules_do_not_read_the_parameters(a: Intent, b: Intent)
    requires
        a.action == b.action,
        a.params.present() == b.params.present(),
        a.confidence.is_low() == b.confidence.is_low(),
        a.clarification_needed == b.clarification_needed,
        a.clarification_question is Some == b.clarification_question is Some,
        a.clarification_question is Some ==> (a.clarification_question->0@.len() == 0) == (
        b.clarification_question->0@.len() == 0),
    ensures
        intent_fault(a) == intent_fault(b),
{
}

/// An intent meets the rules exactly where a low score comes with a request for
/// clarification, such a request with a question, and the parameters suit the action.
pub proof fn rules_are_met_by_all_that_they_name(intent: Intent)
    ensures
        intent_fault(intent) is None <==> {
            &&& intent.confidence.is_low() ==> intent.clarification_needed
            &&& intent.clarification_needed ==> intent.clarification_question is Some
                && intent.clarification_question->0@.len() > 0
            &&& params_fit(intent.action, intent.params.present())
        },
{
}

/// An intent goes ahead exactly where it meets the rules, claims the tier of its action,
/// and, for a change, asks for one that may be made. The tier is medium for a change and
/// low for all else.
pub proof fn intents_go_ahead_at_their_own_tier(intent: Intent)
    ensures
        plan(intent) is Ok <==> {
            &&& intent_fault(intent) is None
            &&& intent.action == Action::ToggleSetting ==> intent.risk_tier == RiskTier::Medium
            &&& intent.action != Action::ToggleSetting ==> intent.risk_tier == RiskTier::Low
            &&& intent.action == Action::ToggleSetting ==> requested_toggle(
                intent.params.setting_name,
                intent.params.value,
            ) is Ok
        },
        plan(intent) is Ok ==> plan(intent)->Ok_0 == intent.risk_tier,
{
}

/// A verb of opening and the name of an application make a request to open it, in either
/// order and whatever stands around them; and no other text is such a request.
pub proof fn launch_requests_hold_a_verb_and_an_application(
    a: Seq<char>,
    verb: Seq<char>,
    b: Seq<char>,
    app: Seq<char>,
    c: Seq<char>,
)
    requires
        verb == "open"@ || verb == "launch"@ || verb == "start"@ || verb == "run"@,
        app == "file manager"@ || app == "nautilus"@ || app == "dolphin"@ || app == "terminal"@
            || app == "browser"@,
    ensures
        is_launch_request(a + verb + b + app + c),
        is_launch_request(a + app + b + verb + c),
{
    let s = a + verb + b + app + c;
    assert(s =~= a + verb + (b + app + c));
    assert(s =~= (a + verb + b) + app + c);
    texts_stand_in_what_they_make_up(s, verb);
    texts_stand_in_what_they_make_up(s, app);
    let t = a + app + b + verb + c;
    assert(t =~= a + app + (b + verb + c));
    assert(t =~= (a + app + b) + verb + c);
    texts_stand_in_what_they_make_up(t, verb);
    texts_stand_in_what_they_make_up(t, app);
}

/// What stands around a request to open an application does not make it another.
pub proof fn launch_requests_stay_so_in_longer_texts(a: Seq<char>, s: Seq<char>, b: Seq<char>)
    requires
        is_launch_request(s),
    ensures
        is_launch_request(a + s + b),
        has_text(s, "open"@) || has_text(s, "launch"@) || has_text(s, "start"@) || has_text(
            s,
            "run"@,
        ),
        has_text(s, "file manager"@) || has_text(s, "nautilus"@) || has_text(s, "dolphin"@)
            || has_text(s, "terminal"@) || has_text(s, "browser"@),
{
    let verbs = seq!["open"@, "launch"@, "start"@, "run"@];
    let apps = seq!["file manager"@, "nautilus"@, "dolphin"@, "terminal"@, "browser"@];
    assert forall|i: int| 0 <= i < verbs.len() && has_text(s, #[trigger] verbs[i]) implies has_text(
        a + s + b,
        verbs[i],
    ) by {
        parts_show_in_the_whole(a, s, b, verbs[i]);
    }
    assert forall|i: int| 0 <= i < apps.len() && has_text(s, #[trigger] apps[i]) implies has_text(
        a + s + b,
        apps[i],
    ) by {
        parts_show_in_the_whole(a, s, b, apps[i]);
    }
    assert(verbs[0] == "open"@ && verbs[1] == "launch"@ && verbs[2] == "start"@ && verbs[3]
        == "run"@);
    assert(apps[0] == "file manager"@ && apps[1] == "nautilus"@ && apps[2] == "dolphin"@
        && apps[3] == "terminal"@ && apps[4] == "browser"@);
    assert(asks_to_launch(s) && names_application(s));
}

/// A change goes through exactly once: on the first consent, and only within 60 seconds
/// of its proposal. It is the change that was proposed.
pub proof fn consent_counts_for_sixty_seconds(
    before: Option<PendingAction>,
    setting: ToggleSetting,
    proposed: u128,
    now: u128,
    later: u128,
)
    ensures
        ({
            let waiting = gate_after(before, GateEvent::Propose { setting, now: proposed });
            let after = gate_after(waiting, GateEvent::Confirm { now });
            let cancelled = gate_after(waiting, GateEvent::Cancel);
            &&& now <= proposed + 60_000_000_000 ==> let_through(
                waiting,
                GateEvent::Confirm { now },
            ) == Some(setting)
            &&& now > proposed + 60_000_000_000 ==> let_through(
                waiting,
                GateEvent::Confirm { now },
            ) is None
            &&& let_through(after, GateEvent::Confirm { now: later }) is None
            &&& let_through(cancelled, GateEvent::Confirm { now: later }) is None
            &&& let_through(before, GateEvent::Propose { setting, now: proposed }) is None
            &&& let_through(before, GateEvent::Cancel) is None
        }),
{
}

/// An intent that asks back is answered with its question as it stands.
pub proof fn questions_are_passed_on_whole(intent: Intent, r: Result<NextStep, String>)
    requires
        processed(intent, r),
        intent.clarification_needed,
    ensures
        r is Ok && r->Ok_0 is Reply,
        intent.clarification_question matches Some(q) ==> r->Ok_0->Reply_response.message@ == q@,
        r->Ok_0->Reply_response.intent == intent,
{
}

/// The change that waits for consent is the one that the name and the value ask for, and
/// the user is shown its preview, with 60 seconds to consent.
pub proof fn consent_is_asked_for_the_change_itself(intent: Intent, r: Result<NextStep, String>)
    requires
        processed(intent, r),
        r is Ok && r->Ok_0 is AskConsent,
    ensures
        requested_toggle(intent.params.setting_name, intent.params.value) == Ok::<
            ToggleSetting,
            ToggleFault,
        >(r->Ok_0->setting),
        r->Ok_0->AskConsent_response.confirmation is Some,
        r->Ok_0->AskConsent_response.confirmation->0.summary@ == preview_text(r->Ok_0->setting),
        r->Ok_0->AskConsent_response.confirmation->0.expires_in_seconds == 60,
        r->Ok_0->AskConsent_response.execution is None,
        r->Ok_0->AskConsent_response.intent == intent,
{
}

/// Where no clarification is needed, an intent that goes ahead at the low tier runs the
/// tool of its own action, with the intent as it was.
pub proof fn tools_run_on_the_intent_itself(intent: Intent, r: Result<NextStep, String>)
    requires
        processed(intent, r),
        !intent.clarification_needed,
        plan(intent) is Ok,
        tier_of(intent.action) == RiskTier::Low,
    ensures
        r is Ok && r->Ok_0 is RunTool,
        r->Ok_0->RunTool_intent == intent,
        intent.action == Action::SearchFiles <==> r->Ok_0->tool is SearchFiles,
        intent.action == Action::GetSystemInfo <==> r->Ok_0->tool is GetSystemInfo,
        intent.action == Action::ListLargeFiles <==> r->Ok_0->tool is ListLargeFiles,
        intent.action == Action::GetNetworkStatus <==> r->Ok_0->tool is GetNetworkStatus,
        intent.action == Action::ReadRecentLogs <==> r->Ok_0->tool is ReadRecentLogs,
{
}

} // verus!
