//! The injector's decisions: how a captured event is reproduced as raw
//! output events, which of the two virtual devices a write goes to, and what
//! suppression withholds. The task that owns the devices and the channel
//! runs `injector_step` for each message it receives.

use vstd::prelude::*;
use crate::config::KeyCode;
use crate::input::{EventState, Input, PhysicalEvent, WheelEvent};

verus! {

/// The evdev event class of a raw output event.
#[derive(Clone, Copy, Debug, PartialEq, Eq, Structural)]
pub enum EventKind {
    Key,
    RelativeAxis,
    AbsoluteAxis,
}

/// One raw output event: its class, its code within the class and its value.
#[derive(Clone, Copy, Debug, PartialEq, Eq, Structural)]
pub struct OutputEvent {
    pub kind: EventKind,
    pub code: u16,
    pub value: i32,
}

/// evdev's `REL_WHEEL` and `REL_WHEEL_HI_RES` codes.
pub open spec fn wheel_codes() -> (u16, u16) {
    (8u16, 11u16)
}

/// The unsigned axes' codes: `ABS_Z`, `ABS_RZ`, `ABS_THROTTLE`, `ABS_GAS`,
/// `ABS_BRAKE`.
pub open spec fn unsigned_axis_code_seq() -> Seq<u16> {
    seq![2u16, 5u16, 6u16, 9u16, 10u16]
}

/// The signed axes' codes: `ABS_X`, `ABS_Y`, `ABS_RX`, `ABS_RY`,
/// `ABS_RUDDER`, `ABS_WHEEL`.
pub open spec fn signed_axis_code_seq() -> Seq<u16> {
    seq![0u16, 1u16, 3u16, 4u16, 7u16, 8u16]
}

/// evdev's `REL_WHEEL` and `REL_WHEEL_HI_RES` codes.
#[verifier::external_body]
fn wheel_axis_codes() -> (r: (u16, u16))
    ensures
        r == wheel_codes(),
{
    (evdev::RelativeAxisCode::REL_WHEEL.0, evdev::RelativeAxisCode::REL_WHEEL_HI_RES.0)
}

/// evdev's codes for the unsigned axes, in `unsigned_axis_code_seq` order.
#[verifier::external_body]
fn unsigned_axis_codes() -> (r: [u16; 5])
    ensures
        r@ == unsigned_axis_code_seq(),
{
    [
        evdev::AbsoluteAxisCode::ABS_Z.0,
        evdev::AbsoluteAxisCode::ABS_RZ.0,
        evdev::AbsoluteAxisCode::ABS_THROTTLE.0,
        evdev::AbsoluteAxisCode::ABS_GAS.0,
        evdev::AbsoluteAxisCode::ABS_BRAKE.0,
    ]
}

/// evdev's codes for the signed axes, in `signed_axis_code_seq` order.
#[verifier::external_body]
fn signed_axis_codes() -> (r: [u16; 6])
    ensures
        r@ == signed_axis_code_seq(),
{
    [
        evdev::AbsoluteAxisCode::ABS_X.0,
        evdev::AbsoluteAxisCode::ABS_Y.0,
        evdev::AbsoluteAxisCode::ABS_RX.0,
        evdev::AbsoluteAxisCode::ABS_RY.0,
        evdev::AbsoluteAxisCode::ABS_RUDDER.0,
        evdev::AbsoluteAxisCode::ABS_WHEEL.0,
    ]
}

/// Every `ABS_*` code the gamepad device advertises: the unsigned axes, then
/// the signed ones.
pub fn all_axis_abs_codes() -> (r: Vec<u16>)
    ensures
        r@ == unsigned_axis_code_seq() + signed_axis_code_seq(),
{
    let unsigned = unsigned_axis_codes();
    let signed = signed_axis_codes();
    let mut codes: Vec<u16> = Vec::new();
    let mut i: usize = 0;
    while i < 5
        invariant
            i <= 5,
            unsigned@ == unsigned_axis_code_seq(),
            codes@ == unsigned@.subrange(0, i as int),
        decreases 5 - i,
    {
        codes.push(unsigned[i]);
        assert(codes@ =~= unsigned@.subrange(0, i + 1));
        i = i + 1;
    }
    let mut j: usize = 0;
    while j < 6
        invariant
            j <= 6,
            unsigned@ == unsigned_axis_code_seq(),
            signed@ == signed_axis_code_seq(),
            codes@ == unsigned@ + signed@.subrange(0, j as int),
        decreases 6 - j,
    {
        codes.push(signed[j]);
        assert(codes@ =~= unsigned@ + signed@.subrange(0, j + 1));
        j = j + 1;
    }
    assert(codes@ =~= unsigned_axis_code_seq() + signed_axis_code_seq());
    codes
}

/// The paired wheel events of one scroll tick in `direction` (`1` up, `-1`
/// down): `REL_WHEEL` by the direction, `REL_WHEEL_HI_RES` by 120 times it.
pub open spec fn wheel_scroll_spec(direction: i32) -> Seq<OutputEvent> {
    seq![
        OutputEvent { kind: EventKind::RelativeAxis, code: wheel_codes().0, value: direction },
        OutputEvent { kind: EventKind::RelativeAxis, code: wheel_codes().1, value: (direction * 120) as i32 },
    ]
}

/// The paired wheel events of one scroll tick in `direction`.
pub fn wheel_scroll_events(direction: i32) -> (r: Vec<OutputEvent>)
    requires
        i32::MIN <= direction * 120 <= i32::MAX,
    ensures
        r@ == wheel_scroll_spec(direction),
{
    let (wheel, hi_res) = wheel_axis_codes();
    let mut events: Vec<OutputEvent> = Vec::new();
    events.push(OutputEvent { kind: EventKind::RelativeAxis, code: wheel, value: direction });
    events.push(OutputEvent { kind: EventKind::RelativeAxis, code: hi_res, value: direction * 120 });
    assert(events@ =~= wheel_scroll_spec(direction));
    events
}

/// The `EV_KEY` value of an edge: 1 down, 2 autorepeat, 0 up.
pub open spec fn key_value(state: EventState) -> i32 {
    match state {
        EventState::Down => 1,
        EventState::Repeat => 2,
        EventState::Up => 0,
    }
}

/// The raw events that reproduce a captured event unchanged, given the key
/// code its Input passes through as (if any).
pub open spec fn translate_spec(event: PhysicalEvent, passthrough: Option<KeyCode>) -> Seq<OutputEvent> {
    match event.input {
        Input::Wheel(WheelEvent::ScrollUp) => wheel_scroll_spec(1),
        Input::Wheel(WheelEvent::ScrollDown) => wheel_scroll_spec(-1i32),
        _ => match passthrough {
            Some(code) => seq![OutputEvent { kind: EventKind::Key, code, value: key_value(event.state) }],
            None => Seq::empty(),
        },
    }
}

/// Translates one captured event into the raw events that reproduce it: a
/// wheel tick is the paired `REL_WHEEL`/`REL_WHEEL_HI_RES` events; any other
/// Input is one `EV_KEY` event carrying `passthrough`, the key code the
/// Input passes through as, with the edge's value — or nothing when the
/// Input has no such code.
pub fn translate(event: PhysicalEvent, passthrough: Option<KeyCode>) -> (r: Vec<OutputEvent>)
    ensures
        r@ == translate_spec(event, passthrough),
{
    match event.input {
        Input::Wheel(WheelEvent::ScrollUp) => wheel_scroll_events(1),
        Input::Wheel(WheelEvent::ScrollDown) => wheel_scroll_events(-1),
        _ => {
            let mut events: Vec<OutputEvent> = Vec::new();
            match passthrough {
                Some(code) => {
                    let value: i32 = match event.state {
                        EventState::Down => 1,
                        EventState::Repeat => 2,
                        EventState::Up => 0,
                    };
                    events.push(OutputEvent { kind: EventKind::Key, code, value });
                    assert(events@ =~= translate_spec(event, passthrough));
                },
                None => {
                    assert(events@ =~= translate_spec(event, passthrough));
                },
            }
            events
        },
    }
}

/// The injector task's channel has closed: the task itself has died.
#[derive(Clone, Copy, Debug, PartialEq, Eq, Structural)]
pub struct InjectorClosed;

impl InjectorClosed {
    /// The error's text.
    pub fn message(&self) -> (r: String)
        ensures
            r@ == "injector task's channel is closed"@,
    {
        String::from_str("injector task's channel is closed")
    }
}

/// A write-command the injector task receives.
#[derive(Clone, Copy, Debug, PartialEq, Eq, Structural)]
pub enum InjectorRequest {
    /// Re-emit a captured event unchanged, through the key code its Input
    /// passes through as.
    Physical { event: PhysicalEvent, passthrough: Option<KeyCode> },
    /// One key edge of a compiled firing.
    KeyState { key: KeyCode, down: bool },
    /// Release a key whatever suppression says.
    ForceRelease { key: KeyCode },
    /// Level-set whether writes are withheld.
    SetSuppressed { suppressed: bool },
    /// One resolved `ABS_*` value for the gamepad device.
    AxisValue { code: u16, value: i32 },
}

/// Which virtual device a write goes to.
#[derive(Clone, Copy, Debug, PartialEq, Eq, Structural)]
pub enum Device {
    KeyboardMouse,
    Gamepad,
}

/// What the injector task does with one request: the batch to write and
/// where (none when nothing is written), the acknowledgement a key edge gets
/// (whether it reached the device), and the suppression state afterwards.
pub struct InjectorStep {
    pub write: Option<(Device, Vec<OutputEvent>)>,
    pub applied: Option<bool>,
    pub suppressed: bool,
}

/// The device a key write goes to: the gamepad for a gamepad button code.
pub open spec fn device_for(key_is_gamepad: bool) -> Device {
    if key_is_gamepad { Device::Gamepad } else { Device::KeyboardMouse }
}

/// What the injector task decides for `request` while `suppressed`;
/// `key_is_gamepad` says whether the request's key is a gamepad button code.
pub open spec fn injector_step_spec(
    suppressed: bool,
    request: InjectorRequest,
    key_is_gamepad: bool,
) -> (Option<(Device, Seq<OutputEvent>)>, Option<bool>, bool) {
    match request {
        InjectorRequest::Physical { event, passthrough } => {
            let batch = translate_spec(event, passthrough);
            (if batch.len() > 0 && !suppressed { Some((Device::KeyboardMouse, batch)) } else { None }, None, suppressed)
        },
        InjectorRequest::KeyState { key, down } => (
            if !suppressed {
                Some((device_for(key_is_gamepad), seq![OutputEvent { kind: EventKind::Key, code: key, value: if down { 1 } else { 0 } }]))
            } else {
                None
            },
            Some(!suppressed),
            suppressed,
        ),
        InjectorRequest::ForceRelease { key } => (
            Some((device_for(key_is_gamepad), seq![OutputEvent { kind: EventKind::Key, code: key, value: 0 }])),
            None,
            suppressed,
        ),
        InjectorRequest::SetSuppressed { suppressed: s } => (None, None, s),
        InjectorRequest::AxisValue { code, value } => (
            if !suppressed {
                Some((Device::Gamepad, seq![OutputEvent { kind: EventKind::AbsoluteAxis, code, value }]))
            } else {
                None
            },
            None,
            suppressed,
        ),
    }
}

/// Decides one request: a physical event's raw events go to the
/// keyboard/mouse device unless empty or suppressed; a key edge goes to the
/// device its code belongs to unless suppressed, and is acknowledged with
/// whether it was written; a force-release is written whatever suppression
/// says; an axis value goes to the gamepad unless suppressed; a suppression
/// request only sets the state.
pub fn injector_step(suppressed: bool, request: InjectorRequest, key_is_gamepad: bool) -> (r: InjectorStep)
    ensures
        (match r.write {
            Some((d, b)) => Some((d, b@)),
            None => None,
        }, r.applied, r.suppressed) == injector_step_spec(suppressed, request, key_is_gamepad),
{
    let device = if key_is_gamepad { Device::Gamepad } else { Device::KeyboardMouse };
    match request {
        InjectorRequest::Physical { event, passthrough } => {
            let batch = translate(event, passthrough);
            let write = if batch.len() > 0 && !suppressed { Some((Device::KeyboardMouse, batch)) } else { None };
            InjectorStep { write, applied: None, suppressed }
        },
        InjectorRequest::KeyState { key, down } => {
            let write = if !suppressed {
                let mut batch: Vec<OutputEvent> = Vec::new();
                batch.push(OutputEvent { kind: EventKind::Key, code: key, value: if down { 1 } else { 0 } });
                assert(batch@ =~= seq![OutputEvent { kind: EventKind::Key, code: key, value: if down { 1 } else { 0 } }]);
                Some((device, batch))
            } else {
                None
            };
            InjectorStep { write, applied: Some(!suppressed), suppressed }
        },
        InjectorRequest::ForceRelease { key } => {
            let mut batch: Vec<OutputEvent> = Vec::new();
            batch.push(OutputEvent { kind: EventKind::Key, code: key, value: 0 });
            assert(batch@ =~= seq![OutputEvent { kind: EventKind::Key, code: key, value: 0 }]);
            InjectorStep { write: Some((device, batch)), applied: None, suppressed }
        },
        InjectorRequest::SetSuppressed { suppressed: s } => InjectorStep { write: None, applied: None, suppressed: s },
        InjectorRequest::AxisValue { code, value } => {
            let write = if !suppressed {
                let mut batch: Vec<OutputEvent> = Vec::new();
                batch.push(OutputEvent { kind: EventKind::AbsoluteAxis, code, value });
                assert(batch@ =~= seq![OutputEvent { kind: EventKind::AbsoluteAxis, code, value }]);
                Some((Device::Gamepad, batch))
            } else {
                None
            };
            InjectorStep { write, applied: None, suppressed }
        },
    }
}

/// What a bounded open-retry does after an open failed.
#[derive(Clone, Copy, Debug, PartialEq, Eq, Structural)]
pub enum RetryDecision {
    /// Give up at once with this error.
    Fail,
    /// Wait the retry delay — reporting the refusal if it is the first —
    /// then try again, or give up with this error if it was the last try.
    Wait { report: bool, last: bool },
}

/// What a bounded open-retry does after its open number `attempt` (from 0)
/// of `attempts` failed: only a permission refusal is retried, and the
/// first one is reported.
pub fn retry_after_failed_open(attempt: u32, attempts: u32, permission_denied: bool) -> (r: RetryDecision)
    requires
        attempt < attempts,
    ensures
        r == if permission_denied {
            RetryDecision::Wait { report: attempt == 0, last: attempt + 1 == attempts }
        } else {
            RetryDecision::Fail
        },
{
    if permission_denied {
        RetryDecision::Wait { report: attempt == 0, last: attempt + 1 == attempts }
    } else {
        RetryDecision::Fail
    }
}

/// While suppressed, nothing but a force-release reaches a device, and a
/// key edge is acknowledged as withheld.
pub proof fn suppression_withholds_all_but_force_release(request: InjectorRequest, key_is_gamepad: bool)
    ensures
        !(request is ForceRelease) ==> injector_step_spec(true, request, key_is_gamepad).0 is None,
        request is KeyState ==> injector_step_spec(true, request, key_is_gamepad).1 == Some(false),
        request is ForceRelease ==> injector_step_spec(true, request, key_is_gamepad).0 is Some,
{
}


/// A key write goes to the device its key belongs to — the gamepad for a
/// gamepad button code, the keyboard/mouse device otherwise: a force-release
/// always, as that key's single release, whatever suppression says and
/// without changing it; a key edge whenever it is written. So a release is
/// written to the device its press went to.
pub proof fn a_key_write_goes_to_its_own_device(suppressed: bool, key: KeyCode, down: bool, key_is_gamepad: bool)
    ensures
        injector_step_spec(suppressed, InjectorRequest::ForceRelease { key }, key_is_gamepad).0 == Some((
            if key_is_gamepad { Device::Gamepad } else { Device::KeyboardMouse },
            seq![OutputEvent { kind: EventKind::Key, code: key, value: 0 }],
        )),
        injector_step_spec(suppressed, InjectorRequest::ForceRelease { key }, key_is_gamepad).2 == suppressed,
        !suppressed ==> injector_step_spec(suppressed, InjectorRequest::KeyState { key, down }, key_is_gamepad).0 == Some((
            if key_is_gamepad { Device::Gamepad } else { Device::KeyboardMouse },
            seq![OutputEvent { kind: EventKind::Key, code: key, value: if down { 1 } else { 0 } }],
        )),
        injector_step_spec(false, InjectorRequest::KeyState { key, down: true }, key_is_gamepad).0->Some_0.0
            == injector_step_spec(suppressed, InjectorRequest::ForceRelease { key }, key_is_gamepad).0->Some_0.0,
        injector_step_spec(false, InjectorRequest::KeyState { key, down: true }, key_is_gamepad).0->Some_0.0
            == injector_step_spec(false, InjectorRequest::KeyState { key, down: false }, key_is_gamepad).0->Some_0.0,
{
}


/// A captured event is reproduced as itself: a wheel tick up is `REL_WHEEL`
/// +1 with `REL_WHEEL_HI_RES` +120, a tick down the same negated; any other
/// Input with a pass-through code is one `EV_KEY` event on that code whose
/// value is 1 for a press, 2 for an autorepeat and 0 for a release, so a
/// press and its release carry the same code; an Input with no such code
/// produces nothing. Unless suppressed, a non-empty reproduction goes to the
/// keyboard/mouse device; suppressed, nothing is written.
pub proof fn a_captured_event_is_reproduced_as_itself(event: PhysicalEvent, passthrough: Option<KeyCode>, suppressed: bool)
    ensures
        event.input == Input::Wheel(WheelEvent::ScrollUp) ==> translate_spec(event, passthrough) == seq![
            OutputEvent { kind: EventKind::RelativeAxis, code: 8u16, value: 1i32 },
            OutputEvent { kind: EventKind::RelativeAxis, code: 11u16, value: 120i32 },
        ],
        event.input == Input::Wheel(WheelEvent::ScrollDown) ==> translate_spec(event, passthrough) == seq![
            OutputEvent { kind: EventKind::RelativeAxis, code: 8u16, value: -1i32 },
            OutputEvent { kind: EventKind::RelativeAxis, code: 11u16, value: -120i32 },
        ],
        !(event.input is Wheel) ==> match passthrough {
            Some(code) => translate_spec(event, passthrough) == seq![OutputEvent {
                kind: EventKind::Key,
                code,
                value: if event.state == EventState::Down { 1i32 } else if event.state == EventState::Repeat { 2i32 } else { 0i32 },
            }],
            None => translate_spec(event, passthrough).len() == 0,
        },
        !(event.input is Wheel) ==> translate_spec(PhysicalEvent { state: EventState::Down, ..event }, passthrough)[0].code
            == translate_spec(PhysicalEvent { state: EventState::Up, ..event }, passthrough)[0].code,
        injector_step_spec(suppressed, InjectorRequest::Physical { event, passthrough }, false).0 == if !suppressed
            && translate_spec(event, passthrough).len() > 0 {
            Some((Device::KeyboardMouse, translate_spec(event, passthrough)))
        } else {
            None
        },
{
}

} // verus!
