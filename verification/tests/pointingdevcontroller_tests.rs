use tractyl_core::events::{ControllerEvent, DeviceCommand, PointingEvent};
use tractyl_core::pointingdevcontroller::{
    debug_pointing_sequence, PointingDeviceController, CPI_HIGH, CPI_LOW,
};

fn cpi(value: u16) -> DeviceCommand {
    DeviceCommand {
        device: 0,
        event: PointingEvent::SetCpi(value),
    }
}

#[test]
fn layer_round_trip_emits_exactly_two_commands() {
    // 0 -> 1 -> 0: one command for 1, one for 0, and nothing more.
    let mut c = PointingDeviceController::new();
    let mut emitted: Vec<DeviceCommand> = Vec::new();
    for layer in [1u8, 0u8] {
        if let Some(cmd) = c.handle_layer_change(layer) {
            emitted.push(cmd);
        }
    }
    assert_eq!(emitted, vec![cpi(CPI_LOW), cpi(CPI_HIGH)]);
}

#[test]
fn repeated_layer_value_emits_nothing() {
    let mut c = PointingDeviceController::new();
    assert_eq!(c.handle_layer_change(1), Some(cpi(CPI_LOW)));
    assert_eq!(c.handle_layer_change(1), None);
    assert_eq!(c.handle_layer_change(1), None);
    assert_eq!(c.current_layer, 1);
}

#[test]
fn initial_layer_zero_repeat_emits_nothing() {
    let mut c = PointingDeviceController::new();
    assert_eq!(c.handle_layer_change(0), None);
}

#[test]
fn unknown_layer_records_but_emits_nothing() {
    let mut c = PointingDeviceController::new();
    assert_eq!(c.handle_layer_change(2), None);
    assert_eq!(c.current_layer, 2);
    // Coming back to a known layer still emits its command.
    assert_eq!(c.handle_layer_change(0), Some(cpi(CPI_HIGH)));
}

#[test]
fn end_to_end_layer_events_drive_sensitivity() {
    // The bus publishes layer 1, then layer 0; the policy answers with the
    // low, then the high sensitivity, both addressed to device 0.
    let mut c = PointingDeviceController::new();
    let first = c.process_event(ControllerEvent::Layer(1));
    assert_eq!(first, Some(cpi(200)));
    let second = c.process_event(ControllerEvent::Layer(0));
    assert_eq!(second, Some(cpi(1600)));
}

#[test]
fn other_controller_events_are_ignored() {
    let mut c = PointingDeviceController::new();
    assert_eq!(c.process_event(ControllerEvent::Other), None);
    assert_eq!(c.current_layer, 0);
}

#[test]
fn debug_sequence_sweeps_every_parameter() {
    let cmds = debug_pointing_sequence();
    assert_eq!(cmds.len(), 8);
    assert!(cmds.iter().all(|c| c.device == 0));
    assert_eq!(cmds[0].event, PointingEvent::SetCpi(800));
    assert_eq!(cmds[1].event, PointingEvent::SetPollInterval(4000));
    assert_eq!(cmds[2].event, PointingEvent::SetRotationAngle(-15));
    assert_eq!(cmds[3].event, PointingEvent::SetLiftoffDist(8));
    assert_eq!(cmds[4].event, PointingEvent::SetForceAwake(true));
    assert_eq!(cmds[5].event, PointingEvent::SetInvertX(true));
    assert_eq!(cmds[6].event, PointingEvent::SetInvertY(false));
    assert_eq!(cmds[7].event, PointingEvent::SwapXy(false));
}
