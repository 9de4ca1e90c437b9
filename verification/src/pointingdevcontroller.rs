use crate::events::{ControllerEvent, DeviceCommand, PointingEvent};
use vstd::prelude::*;

verus! {

/// Sensitivity applied while the base layer is active: full speed.
pub const CPI_HIGH: u16 = 1600;

/// Sensitivity applied while layer 1 is active: slowed down for fine control.
pub const CPI_LOW: u16 = 200;

/// The parameter change owed to a newly activated layer: the base layer gets
/// the high sensitivity, layer 1 the low one, any other layer none.
pub open spec fn spec_layer_command(layer: u8) -> Option<DeviceCommand> {
    if layer == 0 {
        Some(DeviceCommand { device: 0, event: PointingEvent::SetCpi(CPI_HIGH) })
    } else if layer == 1 {
        Some(DeviceCommand { device: 0, event: PointingEvent::SetCpi(CPI_LOW) })
    } else {
        None
    }
}

/// Transition on an observed layer value: only a real change (new value
/// differs from the recorded one) records the layer and emits that layer's
/// command; a repeat of the recorded layer does nothing.
pub open spec fn spec_handle_layer_change(current: u8, new_layer: u8) -> (u8, Option<
    DeviceCommand,
>) {
    if new_layer == current {
        (current, None)
    } else {
        (new_layer, spec_layer_command(new_layer))
    }
}

/// The pointing-device policy controller: watches layer changes and answers
/// each real transition with the parameter command the new layer calls for.
/// Delivering the command to the peripheral (with backpressure, never
/// dropping it) is the caller's business.
#[derive(Clone, Copy, PartialEq, Eq, Structural, Debug)]
pub struct PointingDeviceController {
    /// The most recently recorded active layer.
    pub current_layer: u8,
}

impl PointingDeviceController {
    /// A fresh controller, recorded layer 0.
    pub fn new() -> (r: Self)
        ensures
            r == (PointingDeviceController { current_layer: 0 }),
    {
        PointingDeviceController { current_layer: 0 }
    }

    /// Handles an observed layer value; returns the command to deliver, if
    /// the layer really changed and has one.
    pub fn handle_layer_change(&mut self, new_layer: u8) -> (r: Option<DeviceCommand>)
        ensures
            (final(self).current_layer, r) == spec_handle_layer_change(
                old(self).current_layer,
                new_layer,
            ),
    {
        if new_layer != self.current_layer {
            self.current_layer = new_layer;
            if new_layer == 0 {
                Some(DeviceCommand { device: 0, event: PointingEvent::SetCpi(CPI_HIGH) })
            } else if new_layer == 1 {
                Some(DeviceCommand { device: 0, event: PointingEvent::SetCpi(CPI_LOW) })
            } else {
                None
            }
        } else {
            None
        }
    }

    /// Dispatches one controller event: layer changes go to the policy, every
    /// other event is ignored.
    pub fn process_event(&mut self, event: ControllerEvent) -> (r: Option<DeviceCommand>)
        ensures
            match event {
                ControllerEvent::Layer(layer) => (final(self).current_layer, r)
                    == spec_handle_layer_change(old(self).current_layer, layer),
                ControllerEvent::Other => *final(self) == *old(self) && r is None,
            },
    {
        match event {
            ControllerEvent::Layer(layer) => self.handle_layer_change(layer),
            ControllerEvent::Other => None,
        }
    }
}

/// Replaying a layer change with the same target is idempotent: the second
/// observation of the value changes nothing and emits no command.
pub proof fn lemma_layer_change_idempotent(current: u8, new_layer: u8)
    ensures
        ({
            let first = spec_handle_layer_change(current, new_layer);
            spec_handle_layer_change(first.0, new_layer) == (first.0, None::<DeviceCommand>)
        }),
{
}

/// One demonstration sweep over every pointing-device parameter, all aimed at
/// device 0; a diagnostic helper replays these with a delay between steps.
pub fn debug_pointing_sequence() -> (r: Vec<DeviceCommand>)
    ensures
        r@.len() == 8,
        r@[0] == (DeviceCommand { device: 0, event: PointingEvent::SetCpi(800) }),
        r@[1] == (DeviceCommand { device: 0, event: PointingEvent::SetPollInterval(4000) }),
        r@[2] == (DeviceCommand { device: 0, event: PointingEvent::SetRotationAngle(-15i16) }),
        r@[3] == (DeviceCommand { device: 0, event: PointingEvent::SetLiftoffDist(8) }),
        r@[4] == (DeviceCommand { device: 0, event: PointingEvent::SetForceAwake(true) }),
        r@[5] == (DeviceCommand { device: 0, event: PointingEvent::SetInvertX(true) }),
        r@[6] == (DeviceCommand { device: 0, event: PointingEvent::SetInvertY(false) }),
        r@[7] == (DeviceCommand { device: 0, event: PointingEvent::SwapXy(false) }),
{
    let r: Vec<DeviceCommand> = vec![
        DeviceCommand { device: 0, event: PointingEvent::SetCpi(800) },
        DeviceCommand { device: 0, event: PointingEvent::SetPollInterval(4000) },
        DeviceCommand { device: 0, event: PointingEvent::SetRotationAngle(-15) },
        DeviceCommand { device: 0, event: PointingEvent::SetLiftoffDist(8) },
        DeviceCommand { device: 0, event: PointingEvent::SetForceAwake(true) },
        DeviceCommand { device: 0, event: PointingEvent::SetInvertX(true) },
        DeviceCommand { device: 0, event: PointingEvent::SetInvertY(false) },
        DeviceCommand { device: 0, event: PointingEvent::SwapXy(false) },
    ];
    r
}

} // verus!
