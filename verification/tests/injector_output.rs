use acheron_daemon::injector::{
    all_axis_abs_codes, injector_step, translate, wheel_scroll_events, Device, EventKind,
    InjectorClosed, InjectorRequest, OutputEvent,
};
use acheron_daemon::input::{Direction, EventState, Input, PhysicalEvent, WheelEvent};

fn key_event(code: u16, value: i32) -> OutputEvent {
    OutputEvent { kind: EventKind::Key, code, value }
}

#[test]
fn translate_passthrough_key_preserves_code_and_state() {
    let event = PhysicalEvent { input: Input::ModeKey, state: EventState::Down, depth: None };
    let batch = translate(event, Some(evdev::KeyCode::KEY_LEFTALT.code()));
    assert_eq!(batch.len(), 1);
    assert_eq!(batch[0].kind, EventKind::Key);
    assert_eq!(batch[0].code, evdev::KeyCode::KEY_LEFTALT.code());
    assert_eq!(batch[0].value, 1);
}

#[test]
fn translate_wheel_scroll_emits_paired_rel_events() {
    let event = PhysicalEvent { input: Input::Wheel(WheelEvent::ScrollUp), state: EventState::Down, depth: None };
    let batch = translate(event, None);
    assert_eq!(batch.len(), 2);
    assert_eq!((batch[0].kind, batch[0].code, batch[0].value), (EventKind::RelativeAxis, evdev::RelativeAxisCode::REL_WHEEL.0, 1));
    assert_eq!(
        (batch[1].kind, batch[1].code, batch[1].value),
        (EventKind::RelativeAxis, evdev::RelativeAxisCode::REL_WHEEL_HI_RES.0, 120)
    );
}

#[test]
fn build_gamepad_device_declares_all_11_axis_codes() {
    let codes = all_axis_abs_codes();
    assert_eq!(codes.len(), 11);
    assert!(codes.contains(&evdev::AbsoluteAxisCode::ABS_Z.0));
    assert!(codes.contains(&evdev::AbsoluteAxisCode::ABS_X.0));
}

#[test]
fn every_axis_code_is_distinct_and_matches_evdev() {
    let codes = all_axis_abs_codes();
    let expected = [
        evdev::AbsoluteAxisCode::ABS_Z.0,
        evdev::AbsoluteAxisCode::ABS_RZ.0,
        evdev::AbsoluteAxisCode::ABS_THROTTLE.0,
        evdev::AbsoluteAxisCode::ABS_GAS.0,
        evdev::AbsoluteAxisCode::ABS_BRAKE.0,
        evdev::AbsoluteAxisCode::ABS_X.0,
        evdev::AbsoluteAxisCode::ABS_Y.0,
        evdev::AbsoluteAxisCode::ABS_RX.0,
        evdev::AbsoluteAxisCode::ABS_RY.0,
        evdev::AbsoluteAxisCode::ABS_RUDDER.0,
        evdev::AbsoluteAxisCode::ABS_WHEEL.0,
    ];
    assert_eq!(codes, expected.to_vec());
    for (i, a) in codes.iter().enumerate() {
        for b in &codes[i + 1..] {
            assert_ne!(a, b);
        }
    }
}

#[test]
fn a_scroll_down_tick_is_the_negated_pair() {
    let event = PhysicalEvent { input: Input::Wheel(WheelEvent::ScrollDown), state: EventState::Down, depth: None };
    let batch = translate(event, Some(30));
    assert_eq!(batch, wheel_scroll_events(-1));
    assert_eq!(batch[0].value, -1);
    assert_eq!(batch[1].value, -120);
}

#[test]
fn every_edge_maps_to_its_key_value() {
    for (state, value) in [(EventState::Down, 1), (EventState::Repeat, 2), (EventState::Up, 0)] {
        let event = PhysicalEvent { input: Input::Thumbstick(Direction::Left), state, depth: None };
        assert_eq!(translate(event, Some(105)), vec![key_event(105, value)]);
    }
}

#[test]
fn an_input_with_no_passthrough_code_translates_to_nothing() {
    let event = PhysicalEvent { input: Input::Grid(1, 1), state: EventState::Down, depth: Some(12) };
    assert!(translate(event, None).is_empty());
}

#[test]
fn a_key_edge_goes_to_the_device_its_code_belongs_to() {
    let keyboard = injector_step(false, InjectorRequest::KeyState { key: 59, down: true }, false);
    assert_eq!(keyboard.write, Some((Device::KeyboardMouse, vec![key_event(59, 1)])));
    assert_eq!(keyboard.applied, Some(true));
    let gamepad = injector_step(false, InjectorRequest::KeyState { key: evdev::KeyCode::BTN_SOUTH.code(), down: false }, true);
    assert_eq!(gamepad.write, Some((Device::Gamepad, vec![key_event(evdev::KeyCode::BTN_SOUTH.code(), 0)])));
}

#[test]
fn suppression_withholds_everything_but_a_force_release() {
    let on = injector_step(false, InjectorRequest::SetSuppressed { suppressed: true }, false);
    assert!(on.suppressed);
    assert!(on.write.is_none());

    let edge = injector_step(true, InjectorRequest::KeyState { key: 30, down: true }, false);
    assert!(edge.write.is_none());
    assert_eq!(edge.applied, Some(false));

    let axis = injector_step(true, InjectorRequest::AxisValue { code: 2, value: 100 }, false);
    assert!(axis.write.is_none());

    let physical = injector_step(
        true,
        InjectorRequest::Physical { event: PhysicalEvent { input: Input::ModeKey, state: EventState::Down, depth: None }, passthrough: Some(56) },
        false,
    );
    assert!(physical.write.is_none());

    let release = injector_step(true, InjectorRequest::ForceRelease { key: evdev::KeyCode::BTN_TRIGGER_HAPPY1.code() }, true);
    assert_eq!(release.write, Some((Device::Gamepad, vec![key_event(evdev::KeyCode::BTN_TRIGGER_HAPPY1.code(), 0)])));
    assert!(release.suppressed);
}

#[test]
fn an_axis_value_always_goes_to_the_gamepad() {
    let step = injector_step(false, InjectorRequest::AxisValue { code: evdev::AbsoluteAxisCode::ABS_X.0, value: -200 }, false);
    assert_eq!(
        step.write,
        Some((Device::Gamepad, vec![OutputEvent { kind: EventKind::AbsoluteAxis, code: evdev::AbsoluteAxisCode::ABS_X.0, value: -200 }]))
    );
}

#[test]
fn an_empty_batch_writes_nothing() {
    let step = injector_step(
        false,
        InjectorRequest::Physical { event: PhysicalEvent { input: Input::Grid(2, 3), state: EventState::Up, depth: None }, passthrough: None },
        false,
    );
    assert!(step.write.is_none());
}

#[test]
fn the_closed_channel_error_reads_as_documented() {
    assert_eq!(InjectorClosed.message(), "injector task's channel is closed");
}
