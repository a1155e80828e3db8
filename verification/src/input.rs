//! The physical inputs the device reports, the two Layers, and the one total
//! order every sorted output of the library uses.

use vstd::prelude::*;
use evdev::KeyCode;

verus! {

/// A thumbstick direction.
#[derive(Clone, Copy, Debug, PartialEq, Eq, Hash, PartialOrd, Ord, Structural)]
pub enum Direction {
    Up,
    Down,
    Left,
    Right,
}

/// One tick of the scroll wheel.
#[derive(Clone, Copy, Debug, PartialEq, Eq, Hash, PartialOrd, Ord, Structural)]
pub enum WheelEvent {
    ScrollUp,
    ScrollDown,
}

/// A physical Input of the device: the Mode key, a grid key by
/// `(row, column)`, a thumbstick direction, or a wheel tick.
#[derive(Clone, Copy, Debug, PartialEq, Eq, Hash, PartialOrd, Ord, Structural)]
pub enum Input {
    ModeKey,
    Grid(u8, u8),
    Thumbstick(Direction),
    Wheel(WheelEvent),
}

/// Which Layer of a Profile a Binding lives on.
#[derive(Clone, Copy, Debug, PartialEq, Eq, Hash, PartialOrd, Ord, Structural)]
pub enum Layer {
    Base,
    Held,
}

/// The edge a physical event reports.
#[derive(Clone, Copy, Debug, PartialEq, Eq, Hash, Structural)]
pub enum EventState {
    Down,
    Repeat,
    Up,
}

/// One captured event: which Input, which edge, and the analog Depth when the
/// event was sourced from the analog capture path.
#[derive(Clone, Copy, Debug, PartialEq, Eq, Structural)]
pub struct PhysicalEvent {
    pub input: Input,
    pub state: EventState,
    pub depth: Option<u8>,
}

impl View for Input {
    type V = Input;

    open spec fn view(&self) -> Input {
        *self
    }
}

/// Whether an Input is a grid key.
pub open spec fn is_grid(input: Input) -> bool {
    input is Grid
}

pub open spec fn direction_rank(d: Direction) -> int {
    match d {
        Direction::Up => 0,
        Direction::Down => 1,
        Direction::Left => 2,
        Direction::Right => 3,
    }
}

pub open spec fn wheel_rank(w: WheelEvent) -> int {
    match w {
        WheelEvent::ScrollUp => 0,
        WheelEvent::ScrollDown => 1,
    }
}

/// The position of an Input's variant in the declaration order.
pub open spec fn variant_rank(i: Input) -> int {
    match i {
        Input::ModeKey => 0,
        Input::Grid(_, _) => 1,
        Input::Thumbstick(_) => 2,
        Input::Wheel(_) => 3,
    }
}

/// The strict order on Inputs: by variant in declaration order, then by the
/// variant's fields lexicographically — the order `derive(Ord)` gives.
pub open spec fn input_lt(a: Input, b: Input) -> bool {
    if variant_rank(a) != variant_rank(b) {
        variant_rank(a) < variant_rank(b)
    } else {
        match (a, b) {
            (Input::Grid(r1, c1), Input::Grid(r2, c2)) => r1 < r2 || (r1 == r2 && c1 < c2),
            (Input::Thumbstick(d1), Input::Thumbstick(d2)) => direction_rank(d1) < direction_rank(d2),
            (Input::Wheel(w1), Input::Wheel(w2)) => wheel_rank(w1) < wheel_rank(w2),
            _ => false,
        }
    }
}

/// `input_lt` is a strict total order.
pub proof fn lemma_input_lt_total(a: Input, b: Input)
    ensures
        !input_lt(a, a),
        a != b ==> (input_lt(a, b) || input_lt(b, a)),
        !(input_lt(a, b) && input_lt(b, a)),
{
}

/// `input_lt` is transitive.
pub proof fn lemma_input_lt_transitive(a: Input, b: Input, c: Input)
    requires
        input_lt(a, b),
        input_lt(b, c),
    ensures
        input_lt(a, c),
{
}

fn direction_index(d: Direction) -> (r: u8)
    ensures
        r as int == direction_rank(d),
{
    match d {
        Direction::Up => 0,
        Direction::Down => 1,
        Direction::Left => 2,
        Direction::Right => 3,
    }
}

fn wheel_index(w: WheelEvent) -> (r: u8)
    ensures
        r as int == wheel_rank(w),
{
    match w {
        WheelEvent::ScrollUp => 0,
        WheelEvent::ScrollDown => 1,
    }
}

fn variant_index(i: Input) -> (r: u8)
    ensures
        r as int == variant_rank(i),
{
    match i {
        Input::ModeKey => 0,
        Input::Grid(_, _) => 1,
        Input::Thumbstick(_) => 2,
        Input::Wheel(_) => 3,
    }
}

/// Whether `a` sorts strictly before `b`.
pub fn input_less(a: Input, b: Input) -> (r: bool)
    ensures
        r == input_lt(a, b),
{
    let va = variant_index(a);
    let vb = variant_index(b);
    if va != vb {
        return va < vb;
    }
    match (a, b) {
        (Input::Grid(r1, c1), Input::Grid(r2, c2)) => r1 < r2 || (r1 == r2 && c1 < c2),
        (Input::Thumbstick(d1), Input::Thumbstick(d2)) => direction_index(d1) < direction_index(d2),
        (Input::Wheel(w1), Input::Wheel(w2)) => wheel_index(w1) < wheel_index(w2),
        _ => false,
    }
}

/// Whether `input` is a grid key.
pub fn input_is_grid(input: Input) -> (r: bool)
    ensures
        r == is_grid(input),
{
    matches!(input, Input::Grid(_, _))
}

/// The gamepad button codes a ControllerButton Action may name: `BTN_SOUTH`,
/// `BTN_EAST`, `BTN_NORTH`, `BTN_WEST`, `BTN_TL` through `BTN_THUMBR`,
/// the four `BTN_DPAD_*` codes and `BTN_TRIGGER_HAPPY1` through
/// `BTN_TRIGGER_HAPPY40`.
pub open spec fn gamepad_button_code(c: u16) -> bool {
    ||| c == 0x130
    ||| c == 0x131
    ||| c == 0x133
    ||| c == 0x134
    ||| 0x136 <= c <= 0x13e
    ||| 0x220 <= c <= 0x223
    ||| 0x2c0 <= c <= 0x2e7
}

/// The evdev codes bounding the gamepad buttons, in order: `BTN_SOUTH`,
/// `BTN_EAST`, `BTN_NORTH`, `BTN_WEST`, `BTN_TL`, `BTN_THUMBR`,
/// `BTN_DPAD_UP`, `BTN_DPAD_RIGHT`, `BTN_TRIGGER_HAPPY1`,
/// `BTN_TRIGGER_HAPPY40`.
#[verifier::external_body]
fn gamepad_code_bounds() -> (r: [u16; 10])
    ensures
        r@ == seq![0x130u16, 0x131u16, 0x133u16, 0x134u16, 0x136u16, 0x13eu16, 0x220u16, 0x223u16, 0x2c0u16, 0x2e7u16],
{
    [
        KeyCode::BTN_SOUTH.code(), KeyCode::BTN_EAST.code(), KeyCode::BTN_NORTH.code(),
        KeyCode::BTN_WEST.code(), KeyCode::BTN_TL.code(), KeyCode::BTN_THUMBR.code(),
        KeyCode::BTN_DPAD_UP.code(), KeyCode::BTN_DPAD_RIGHT.code(),
        KeyCode::BTN_TRIGGER_HAPPY1.code(), KeyCode::BTN_TRIGGER_HAPPY40.code(),
    ]
}

/// Whether `code` is one of the gamepad button codes — the ones the gamepad
/// device carries.
pub fn is_gamepad_button(code: u16) -> (r: bool)
    ensures
        r == gamepad_button_code(code),
{
    let b = gamepad_code_bounds();
    code == b[0] || code == b[1] || code == b[2] || code == b[3] || (b[4] <= code && code <= b[5])
        || (b[6] <= code && code <= b[7]) || (b[8] <= code && code <= b[9])
}

} // verus!
