//! The confirmation gate that a change passes only with the user's consent.
use vstd::prelude::*;

use crate::execution::refused;
use crate::settings::ToggleSetting;

verus! {

/// How long a change waits for consent, in seconds.
pub const CONFIRMATION_TTL_SECONDS: u64 = 60;

/// How long a change waits for consent, in nanoseconds.
pub const CONFIRMATION_TTL_NANOS: u128 = 60_000_000_000;

/// A change that waits for consent, since `created_at` nanoseconds on the clock of
/// the confirmation gate.
#[derive(Clone, Copy, Debug, PartialEq, Eq, Structural)]
pub struct PendingAction {
    pub setting: ToggleSetting,
    pub created_at: u128,
}

impl PendingAction {
    /// The change has waited too long.
    pub open spec fn expired(self, now: u128) -> bool {
        now - self.created_at > CONFIRMATION_TTL_NANOS
    }
}

/// The confirmation gate, with the change that waits at it.
#[derive(Debug)]
pub struct PendingConfirmation {
    pending: Option<PendingAction>,
}

impl View for PendingConfirmation {
    type V = Option<PendingAction>;

    closed spec fn view(&self) -> Option<PendingAction> {
        self.pending
    }
}

/// What happens to the confirmation gate.
pub enum GateEvent {
    Propose { setting: ToggleSetting, now: u128 },
    Confirm { now: u128 },
    Cancel,
}

/// What waits in the confirmation gate after an event.
pub open spec fn gate_after(pending: Option<PendingAction>, event: GateEvent) -> Option<
    PendingAction,
> {
    match event {
        GateEvent::Propose { setting, now } => Some(PendingAction { setting, created_at: now }),
        GateEvent::Confirm { .. } => None,
        GateEvent::Cancel => None,
    }
}

/// The change that an event lets through.
pub open spec fn let_through(pending: Option<PendingAction>, event: GateEvent) -> Option<
    ToggleSetting,
> {
    match (pending, event) {
        (Some(action), GateEvent::Confirm { now }) => if action.expired(now) {
            None
        } else {
            Some(action.setting)
        },
        _ => None,
    }
}

impl Default for PendingConfirmation {
    /// Nothing waits.
    fn default() -> (r: Self)
        ensures
            r@ is None,
    {
        PendingConfirmation { pending: None }
    }
}

impl PendingConfirmation {
    /// Makes a change wait for consent, in the place of any that waits.
    pub fn propose(&mut self, setting: ToggleSetting, now: u128)
        ensures
            final(self)@ == gate_after(old(self)@, GateEvent::Propose { setting, now }),
    {
        self.pending = Some(PendingAction { setting, created_at: now });
    }

    /// Consents to the change that waits, and takes it from the confirmation gate. It
    /// goes through unless it has waited too long.
    pub fn confirm_pending_action(&mut self, now: u128) -> (r: Result<ToggleSetting, String>)
        ensures
            final(self)@ == gate_after(old(self)@, GateEvent::Confirm { now }),
            match let_through(old(self)@, GateEvent::Confirm { now }) {
                Some(setting) => r == Ok::<ToggleSetting, String>(setting),
                None => refused(
                    r,
                    if old(self)@ is None {
                        "There is no pending action to confirm."@
                    } else {
                        "The confirmation expired after 60 seconds. Submit the request again."@
                    },
                ),
            },
    {
        match self.pending.take() {
            None => Err("There is no pending action to confirm.".to_owned()),
            Some(action) => {
                if now > action.created_at && now - action.created_at > CONFIRMATION_TTL_NANOS {
                    return Err(
                        "The confirmation expired after 60 seconds. Submit the request again.".to_owned(),
                    );
                }
                Ok(action.setting)
            },
        }
    }

    /// Takes the change that waits from the confirmation gate, without letting it
    /// through.
    pub fn cancel_pending_action(&mut self) -> (r: String)
        ensures
            final(self)@ == gate_after(old(self)@, GateEvent::Cancel),
            r@ == (if old(self)@ is Some {
                "Pending setting change cancelled. Nothing was changed."@
            } else {
                "There was no pending setting change."@
            }),
    {
        if self.pending.take().is_some() {
            "Pending setting change cancelled. Nothing was changed.".to_owned()
        } else {
            "There was no pending setting change.".to_owned()
        }
    }
}

/// What waits in the confirmation gate after a history of events.
pub open spec fn gate_state(history: Seq<GateEvent>) -> Option<PendingAction>
    decreases history.len(),
{
    if history.len() == 0 {
        None
    } else {
        gate_after(gate_state(history.drop_last()), history.last())
    }
}

/// In every history, a change goes through only on a consent that directly
/// follows its own proposal, at most 60 seconds later.
pub proof fn only_confirmed_changes_go_through(history: Seq<GateEvent>, event: GateEvent)
    ensures
        match let_through(gate_state(history), event) {
            Some(setting) => exists|proposed: u128, now: u128|
                {
                    &&& event == (GateEvent::Confirm { now })
                    &&& history.len() > 0
                    &&& history.last() == #[trigger] proposal(setting, proposed)
                    &&& #[trigger] within_ttl(proposed, now)
                },
            None => true,
        },
{
    if let Some(setting) = let_through(gate_state(history), event) {
        let action = gate_state(history)->0;
        let now = event->Confirm_now;
        assert(history.last() == proposal(setting, action.created_at));
        assert(within_ttl(action.created_at, now));
    }
}

/// The event that proposes a change.
pub open spec fn proposal(setting: ToggleSetting, now: u128) -> GateEvent {
    GateEvent::Propose { setting, now }
}

/// At most 60 seconds lie between the two times.
pub open spec fn within_ttl(proposed: u128, now: u128) -> bool {
    now - proposed <= CONFIRMATION_TTL_SECONDS * 1_000_000_000
}

/// A consent in time lets through exactly the change that was proposed, and a
/// second consent lets nothing through.
pub proof fn a_consent_counts_once(
    history: Seq<GateEvent>,
    setting: ToggleSetting,
    proposed: u128,
    now: u128,
    later: u128,
)
    requires
        within_ttl(proposed, now),
    ensures
        ({
            let h1 = history.push(proposal(setting, proposed));
            let h2 = h1.push(GateEvent::Confirm { now });
            &&& let_through(gate_state(h1), GateEvent::Confirm { now }) == Some(setting)
            &&& let_through(gate_state(h2), GateEvent::Confirm { now: later }) is None
        }),
{
    let h1 = history.push(proposal(setting, proposed));
    let h2 = h1.push(GateEvent::Confirm { now });
    assert(h1.drop_last() =~= history);
    assert(h2.drop_last() =~= h1);
}

/// A change that was cancelled, or whose time has run out, does not go through.
pub proof fn cancelled_and_expired_changes_do_not_go_through(
    history: Seq<GateEvent>,
    setting: ToggleSetting,
    proposed: u128,
    now: u128,
)
    ensures
        ({
            let h1 = history.push(proposal(setting, proposed));
            let h2 = h1.push(GateEvent::Cancel);
            &&& let_through(gate_state(h2), GateEvent::Confirm { now }) is None
            &&& !within_ttl(proposed, now) ==> let_through(
                gate_state(h1),
                GateEvent::Confirm { now },
            ) is None
        }),
{
    let h1 = history.push(proposal(setting, proposed));
    let h2 = h1.push(GateEvent::Cancel);
    assert(h1.drop_last() =~= history);
    assert(h2.drop_last() =~= h1);
}

} // verus!
