use crate::events::{Action, KeyAction, KeyboardEvent, LayerChangeEvent};
use vstd::prelude::*;

verus! {

/// Broadcast whenever the anti-idle state flips; the payload is the new
/// state (`true`: jiggling is now active).
#[derive(Clone, Copy, PartialEq, Eq, Structural, Debug)]
pub struct JiggleEvent(pub bool);

/// A relative pointer-motion report for the host.
#[derive(Clone, Copy, PartialEq, Eq, Structural, Debug)]
pub struct MouseReport {
    pub buttons: u8,
    pub x: i8,
    pub y: i8,
    pub wheel: i8,
    pub pan: i8,
}

/// The anti-idle controller. Toggled by the designated key action, it emits,
/// on each timer tick while active, a diagonal relative pointer report whose
/// direction alternates from tick to tick, so the cursor wanders back and
/// forth instead of drifting away. Sending the report (and publishing the
/// toggle broadcast) is the caller's business; the controller only decides.
#[derive(Clone, Copy, PartialEq, Eq, Structural, Debug)]
pub struct JiggleController {
    /// Whether jiggling is active.
    pub active: bool,
    /// Oscillation phase: decides the sign of the next displacement.
    pub tick_tock: bool,
    /// The most recently observed active layer.
    pub current_layer: u8,
}

/// Whether a key event is the designated anti-idle toggle: a press (not a
/// release) whose slot resolved to the first user-defined action.
pub open spec fn is_toggle(event: KeyboardEvent) -> bool {
    event.pressed && event.action == KeyAction::Single(Action::User(0))
}

/// The report an active tick emits: +/-20 units on both axes, sign chosen by
/// the oscillation phase.
pub open spec fn spec_jiggle_report(tick_tock: bool) -> MouseReport {
    MouseReport {
        buttons: 0,
        x: if tick_tock { 20i8 } else { -20i8 },
        y: if tick_tock { 20i8 } else { -20i8 },
        wheel: 0,
        pan: 0,
    }
}

/// Transition on a key event: the toggle key flips `active` and announces
/// the new state; every other key leaves the controller alone.
pub open spec fn spec_on_keyboard_event(s: JiggleController, event: KeyboardEvent) -> (
    JiggleController,
    Option<JiggleEvent>,
) {
    if is_toggle(event) {
        (
            JiggleController { active: !s.active, tick_tock: s.tick_tock, current_layer: s.current_layer },
            Some(JiggleEvent(!s.active)),
        )
    } else {
        (s, None)
    }
}

/// Transition on a timer tick: while active, emit the phase's report and flip
/// the phase; while idle, do nothing.
pub open spec fn spec_poll(s: JiggleController) -> (JiggleController, Option<MouseReport>) {
    if s.active {
        (
            JiggleController { active: s.active, tick_tock: !s.tick_tock, current_layer: s.current_layer },
            Some(spec_jiggle_report(s.tick_tock)),
        )
    } else {
        (s, None)
    }
}

/// The reports of `n` consecutive ticks starting from `s`.
pub open spec fn spec_polls(s: JiggleController, n: nat) -> Seq<Option<MouseReport>>
    decreases n,
{
    if n == 0 {
        Seq::empty()
    } else {
        seq![spec_poll(s).1] + spec_polls(spec_poll(s).0, (n - 1) as nat)
    }
}

impl JiggleController {
    /// A fresh controller: idle, phase down, layer 0.
    pub fn new() -> (r: Self)
        ensures
            r == (JiggleController { active: false, tick_tock: false, current_layer: 0 }),
    {
        JiggleController { active: false, tick_tock: false, current_layer: 0 }
    }

    /// Records the new active layer; the rest of the state is untouched.
    pub fn on_layer_change_event(&mut self, event: LayerChangeEvent)
        ensures
            *final(self) == (JiggleController {
                active: old(self).active,
                tick_tock: old(self).tick_tock,
                current_layer: event.layer,
            }),
    {
        if event.layer != self.current_layer {
            self.current_layer = event.layer;
        }
    }

    /// Handles a key event; returns the state-change broadcast to publish,
    /// if the event was the toggle.
    pub fn on_keyboard_event(&mut self, event: KeyboardEvent) -> (r: Option<JiggleEvent>)
        ensures
            (*final(self), r) == spec_on_keyboard_event(*old(self), event),
    {
        if event.pressed {
            match event.action {
                KeyAction::Single(Action::User(0)) => {
                    let now_active = !self.active;
                    self.active = now_active;
                    Some(JiggleEvent(now_active))
                },
                _ => None,
            }
        } else {
            None
        }
    }

    /// Handles a timer tick; returns the pointer report to send, if any.
    pub fn poll(&mut self) -> (r: Option<MouseReport>)
        ensures
            (*final(self), r) == spec_poll(*old(self)),
    {
        if self.active {
            let report = MouseReport {
                buttons: 0,
                x: if self.tick_tock {
                    20
                } else {
                    -20
                },
                y: if self.tick_tock {
                    20
                } else {
                    -20
                },
                wheel: 0,
                pan: 0,
            };
            self.tick_tock = !self.tick_tock;
            Some(report)
        } else {
            None
        }
    }
}

/// Toggling twice returns the controller to its original state.
pub proof fn lemma_toggle_twice(s: JiggleController, e1: KeyboardEvent, e2: KeyboardEvent)
    requires
        is_toggle(e1),
        is_toggle(e2),
    ensures
        spec_on_keyboard_event(spec_on_keyboard_event(s, e1).0, e2).0 == s,
{
}

/// While active, two consecutive ticks both emit a report, and the second
/// report's displacement is the exact opposite of the first on both axes.
pub proof fn lemma_active_ticks_alternate(s: JiggleController)
    requires
        s.active,
    ensures
        spec_poll(s).1 == Some(spec_jiggle_report(s.tick_tock)),
        spec_poll(spec_poll(s).0).1 == Some(spec_jiggle_report(!s.tick_tock)),
        spec_jiggle_report(s.tick_tock).x + spec_jiggle_report(!s.tick_tock).x == 0,
        spec_jiggle_report(s.tick_tock).y + spec_jiggle_report(!s.tick_tock).y == 0,
{
}

/// While idle, no tick emits a report and the state never moves, however many
/// ticks arrive.
pub proof fn lemma_idle_no_reports(s: JiggleController, n: nat)
    requires
        !s.active,
    ensures
        spec_polls(s, n).len() == n,
        forall|i: int| 0 <= i < n ==> spec_polls(s, n)[i] is None,
    decreases n,
{
    if n > 0 {
        lemma_idle_no_reports(s, (n - 1) as nat);
        assert forall|i: int| 0 <= i < n implies spec_polls(s, n)[i] is None by {
            if i > 0 {
                assert(spec_polls(s, n)[i] == spec_polls(s, (n - 1) as nat)[i - 1]);
            }
        }
    }
}

} // verus!
