use vstd::prelude::*;

verus! {

/// Host LED indicator state as reported over HID: one flag per lock key plus
/// the compose indicator.
#[derive(Clone, Copy, PartialEq, Eq, Structural, Debug)]
pub struct LedIndicator {
    pub num_lock: bool,
    pub caps_lock: bool,
    pub scroll_lock: bool,
    pub compose: bool,
}

impl LedIndicator {
    /// The power-on state: every indicator off.
    pub fn all_off() -> (r: Self)
        ensures
            r == (LedIndicator { num_lock: false, caps_lock: false, scroll_lock: false, compose: false }),
    {
        LedIndicator { num_lock: false, caps_lock: false, scroll_lock: false, compose: false }
    }
}

/// A primitive action the keymap can bind to a key slot. Only the user-defined
/// actions are interpreted by the controllers here; everything else (plain
/// keycodes, modifiers, macros) is handled by the external key processor and
/// collapsed into `Other`.
#[derive(Clone, Copy, PartialEq, Eq, Structural, Debug)]
pub enum Action {
    User(u8),
    Other,
}

/// The resolved binding of a key slot: a single primitive action, or any of
/// the composite bindings (tap-hold, morse, macros) that the controllers here
/// never interpret.
#[derive(Clone, Copy, PartialEq, Eq, Structural, Debug)]
pub enum KeyAction {
    Single(Action),
    Other,
}

/// A key press or release, carrying the action the keymap resolved for the
/// slot under the active layer at press time.
#[derive(Clone, Copy, PartialEq, Eq, Structural, Debug)]
pub struct KeyboardEvent {
    pub pressed: bool,
    pub action: KeyAction,
}

/// The active layer changed to `layer`.
#[derive(Clone, Copy, PartialEq, Eq, Structural, Debug)]
pub struct LayerChangeEvent {
    pub layer: u8,
}

/// The host updated the LED indicator state.
#[derive(Clone, Copy, PartialEq, Eq, Structural, Debug)]
pub struct LedIndicatorEvent {
    pub indicator: LedIndicator,
}

/// A new typing-speed measurement, in words per minute.
#[derive(Clone, Copy, PartialEq, Eq, Structural, Debug)]
pub struct WpmUpdateEvent {
    pub wpm: u16,
}

/// A parameter-change directive for a relative-motion pointing sensor.
/// Reapplying a directive with the same value is idempotent on the device:
/// the latest value takes precedence.
#[derive(Clone, Copy, PartialEq, Eq, Structural, Debug)]
pub enum PointingEvent {
    SetCpi(u16),
    SetPollInterval(u16),
    SetRotationAngle(i16),
    SetLiftoffDist(u8),
    SetForceAwake(bool),
    SetInvertX(bool),
    SetInvertY(bool),
    SwapXy(bool),
}

/// A pointing-device directive addressed to one peripheral by its small
/// integer device id.
#[derive(Clone, Copy, PartialEq, Eq, Structural, Debug)]
pub struct DeviceCommand {
    pub device: u8,
    pub event: PointingEvent,
}

/// An event on the controller channel. The pointing-device policy controller
/// reacts only to layer changes; every other controller event is collapsed
/// into `Other`.
#[derive(Clone, Copy, PartialEq, Eq, Structural, Debug)]
pub enum ControllerEvent {
    Layer(u8),
    Other,
}

} // verus!
