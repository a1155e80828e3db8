use acheron_daemon::amap::AssocMap;
use acheron_daemon::config::{Action, MacroDef, MacroId, MacroStepDto, Modifiers, StepperItem};
use acheron_daemon::executor::{
    combine_toggle_lap_target, compile, compile_stepper_item, controller_button_steps,
    fire_once_key_steps, held_key_down_steps, keypress_steps, lap_padding, single_held_key,
    HeldKeys, MacroStep, CONTROLLER_BUTTON_DIGITAL_PULSE_HOLD_MS, FIRE_ONCE_KEY_DWELL_MS,
    MIN_TOGGLE_LAP_MS,
};

fn k(code: evdev::KeyCode) -> u16 {
    code.code()
}

fn empty_macros() -> AssocMap<MacroId, MacroDef> {
    AssocMap::new()
}

fn ctrl() -> u16 {
    k(evdev::KeyCode::KEY_LEFTCTRL)
}
fn shift() -> u16 {
    k(evdev::KeyCode::KEY_LEFTSHIFT)
}
fn alt() -> u16 {
    k(evdev::KeyCode::KEY_LEFTALT)
}
fn super_key() -> u16 {
    k(evdev::KeyCode::KEY_LEFTMETA)
}

fn mods(ctrl: bool, shift: bool, alt: bool, super_key: bool) -> Modifiers {
    Modifiers { ctrl, shift, alt, super_key }
}

#[test]
fn compile_keypress_is_a_canned_modifier_key_sequence() {
    let action = Action::Keypress { modifiers: mods(true, true, false, false), key: k(evdev::KeyCode::KEY_T) };
    let steps = compile(&action, &empty_macros());
    assert_eq!(
        steps,
        vec![
            MacroStep::KeyDown(ctrl()),
            MacroStep::KeyDown(shift()),
            MacroStep::KeyDown(k(evdev::KeyCode::KEY_T)),
            MacroStep::KeyUp(k(evdev::KeyCode::KEY_T)),
            MacroStep::KeyUp(shift()),
            MacroStep::KeyUp(ctrl()),
        ]
    );
}

#[test]
fn compile_macro_maps_steps_straight_across() {
    let mut macros = empty_macros();
    macros.insert(
        MacroId::new("test-macro"),
        MacroDef {
            name: "Test macro".to_string(),
            steps: vec![
                MacroStepDto::KeyDown(k(evdev::KeyCode::KEY_A)),
                MacroStepDto::Delay(50),
                MacroStepDto::KeyUp(k(evdev::KeyCode::KEY_A)),
            ],
        },
    );
    let action = Action::Macro { macro_id: MacroId::new("test-macro") };
    let steps = compile(&action, &macros);
    assert_eq!(
        steps,
        vec![
            MacroStep::KeyDown(k(evdev::KeyCode::KEY_A)),
            MacroStep::Delay(50),
            MacroStep::KeyUp(k(evdev::KeyCode::KEY_A)),
        ]
    );
}

#[test]
fn compile_controller_button_is_a_down_up_pair_with_a_dwell() {
    let action = Action::ControllerButton { button: k(evdev::KeyCode::BTN_SOUTH) };
    let steps = compile(&action, &empty_macros());
    assert_eq!(
        steps,
        vec![
            MacroStep::KeyDown(k(evdev::KeyCode::BTN_SOUTH)),
            MacroStep::Delay(CONTROLLER_BUTTON_DIGITAL_PULSE_HOLD_MS),
            MacroStep::KeyUp(k(evdev::KeyCode::BTN_SOUTH)),
        ]
    );
}

#[test]
fn controller_button_steps_helper_matches_the_compile_arm() {
    assert_eq!(
        controller_button_steps(k(evdev::KeyCode::BTN_TL)),
        compile(&Action::ControllerButton { button: k(evdev::KeyCode::BTN_TL) }, &empty_macros())
    );
}

#[test]
fn compile_stepper_item_with_modifiers_is_the_canned_mods_down_key_up_sequence() {
    let steps = compile_stepper_item(StepperItem::Key { key: k(evdev::KeyCode::KEY_3), modifiers: mods(true, true, false, false) });
    assert_eq!(
        steps,
        vec![
            MacroStep::KeyDown(ctrl()),
            MacroStep::KeyDown(shift()),
            MacroStep::KeyDown(k(evdev::KeyCode::KEY_3)),
            MacroStep::KeyUp(k(evdev::KeyCode::KEY_3)),
            MacroStep::KeyUp(shift()),
            MacroStep::KeyUp(ctrl()),
        ]
    );
}

#[test]
fn compile_stepper_item_controller_button_is_the_dwell_triple() {
    let steps = compile_stepper_item(StepperItem::ControllerButton { button: k(evdev::KeyCode::BTN_SOUTH) });
    assert_eq!(
        steps,
        vec![
            MacroStep::KeyDown(k(evdev::KeyCode::BTN_SOUTH)),
            MacroStep::Delay(CONTROLLER_BUTTON_DIGITAL_PULSE_HOLD_MS),
            MacroStep::KeyUp(k(evdev::KeyCode::BTN_SOUTH)),
        ]
    );
}

#[test]
fn single_held_key_accepts_a_plain_unmodified_key() {
    let steps = vec![MacroStep::KeyDown(k(evdev::KeyCode::KEY_X)), MacroStep::KeyUp(k(evdev::KeyCode::KEY_X))];
    assert_eq!(single_held_key(&steps), Some((Modifiers::none(), k(evdev::KeyCode::KEY_X))));
}

#[test]
fn single_held_key_accepts_a_modifier_wrapped_key() {
    let steps = vec![
        MacroStep::KeyDown(ctrl()),
        MacroStep::KeyDown(k(evdev::KeyCode::KEY_X)),
        MacroStep::KeyUp(k(evdev::KeyCode::KEY_X)),
        MacroStep::KeyUp(ctrl()),
    ];
    assert_eq!(single_held_key(&steps), Some((Modifiers { ctrl: true, ..Modifiers::none() }, k(evdev::KeyCode::KEY_X))));
}

#[test]
fn single_held_key_matches_keypress_steps_for_every_modifier_combination() {
    for m in [
        Modifiers::none(),
        Modifiers { ctrl: true, ..Modifiers::none() },
        Modifiers { shift: true, alt: true, ..Modifiers::none() },
        mods(true, true, true, true),
    ] {
        let steps = keypress_steps(m, k(evdev::KeyCode::KEY_J));
        assert_eq!(single_held_key(&steps), Some((m, k(evdev::KeyCode::KEY_J))), "keypress_steps({m:?}) must round-trip");
    }
}

#[test]
fn single_held_key_ignores_one_trailing_delay() {
    let steps = vec![
        MacroStep::KeyDown(shift()),
        MacroStep::KeyDown(k(evdev::KeyCode::KEY_X)),
        MacroStep::KeyUp(k(evdev::KeyCode::KEY_X)),
        MacroStep::KeyUp(shift()),
        MacroStep::Delay(30),
    ];
    assert_eq!(single_held_key(&steps), Some((Modifiers { shift: true, ..Modifiers::none() }, k(evdev::KeyCode::KEY_X))));
}

#[test]
fn single_held_key_rejects_a_delay_between_the_key_steps() {
    let steps = vec![MacroStep::KeyDown(k(evdev::KeyCode::KEY_X)), MacroStep::Delay(30), MacroStep::KeyUp(k(evdev::KeyCode::KEY_X))];
    assert_eq!(single_held_key(&steps), None);
}

#[test]
fn single_held_key_rejects_two_trailing_delays() {
    let steps = vec![
        MacroStep::KeyDown(k(evdev::KeyCode::KEY_X)),
        MacroStep::KeyUp(k(evdev::KeyCode::KEY_X)),
        MacroStep::Delay(30),
        MacroStep::Delay(30),
    ];
    assert_eq!(single_held_key(&steps), None);
}

#[test]
fn single_held_key_rejects_modifiers_out_of_keypress_order() {
    let steps = vec![
        MacroStep::KeyDown(shift()),
        MacroStep::KeyDown(ctrl()),
        MacroStep::KeyDown(k(evdev::KeyCode::KEY_X)),
        MacroStep::KeyUp(k(evdev::KeyCode::KEY_X)),
        MacroStep::KeyUp(ctrl()),
        MacroStep::KeyUp(shift()),
    ];
    assert_eq!(single_held_key(&steps), None);
}

#[test]
fn single_held_key_accepts_modifiers_in_keypress_order() {
    let steps = vec![
        MacroStep::KeyDown(ctrl()),
        MacroStep::KeyDown(alt()),
        MacroStep::KeyDown(super_key()),
        MacroStep::KeyDown(k(evdev::KeyCode::KEY_X)),
        MacroStep::KeyUp(k(evdev::KeyCode::KEY_X)),
        MacroStep::KeyUp(super_key()),
        MacroStep::KeyUp(alt()),
        MacroStep::KeyUp(ctrl()),
    ];
    assert_eq!(
        single_held_key(&steps),
        Some((Modifiers { ctrl: true, alt: true, super_key: true, ..Modifiers::none() }, k(evdev::KeyCode::KEY_X)))
    );
}

#[test]
fn single_held_key_rejects_more_than_one_non_modifier_key() {
    let steps = vec![
        MacroStep::KeyDown(k(evdev::KeyCode::KEY_X)),
        MacroStep::KeyDown(k(evdev::KeyCode::KEY_Y)),
        MacroStep::KeyUp(k(evdev::KeyCode::KEY_Y)),
        MacroStep::KeyUp(k(evdev::KeyCode::KEY_X)),
    ];
    assert_eq!(single_held_key(&steps), None);
}

#[test]
fn single_held_key_rejects_modifiers_not_released_in_reverse() {
    let steps = vec![
        MacroStep::KeyDown(ctrl()),
        MacroStep::KeyDown(shift()),
        MacroStep::KeyDown(k(evdev::KeyCode::KEY_X)),
        MacroStep::KeyUp(k(evdev::KeyCode::KEY_X)),
        MacroStep::KeyUp(ctrl()),
        MacroStep::KeyUp(shift()),
    ];
    assert_eq!(single_held_key(&steps), None);
}

#[test]
fn single_held_key_rejects_unbalanced_and_empty_shapes() {
    assert_eq!(single_held_key(&vec![]), None);
    assert_eq!(single_held_key(&vec![MacroStep::KeyDown(k(evdev::KeyCode::KEY_X))]), None);
    assert_eq!(
        single_held_key(&vec![MacroStep::KeyDown(k(evdev::KeyCode::KEY_X)), MacroStep::KeyDown(k(evdev::KeyCode::KEY_X))]),
        None,
        "two KeyDowns is not a balanced hold"
    );
    assert_eq!(single_held_key(&vec![MacroStep::Delay(5)]), None);
}

#[test]
fn fire_once_key_steps_splices_one_dwell_between_the_edges() {
    assert_eq!(
        fire_once_key_steps(Modifiers::none(), k(evdev::KeyCode::KEY_X)),
        vec![
            MacroStep::KeyDown(k(evdev::KeyCode::KEY_X)),
            MacroStep::Delay(FIRE_ONCE_KEY_DWELL_MS),
            MacroStep::KeyUp(k(evdev::KeyCode::KEY_X)),
        ]
    );
    assert_eq!(
        fire_once_key_steps(Modifiers { ctrl: true, shift: true, ..Modifiers::none() }, k(evdev::KeyCode::KEY_X)),
        vec![
            MacroStep::KeyDown(ctrl()),
            MacroStep::KeyDown(shift()),
            MacroStep::KeyDown(k(evdev::KeyCode::KEY_X)),
            MacroStep::Delay(FIRE_ONCE_KEY_DWELL_MS),
            MacroStep::KeyUp(k(evdev::KeyCode::KEY_X)),
            MacroStep::KeyUp(shift()),
            MacroStep::KeyUp(ctrl()),
        ]
    );
}

#[test]
fn fire_once_key_steps_output_is_not_re_classified_as_a_single_held_key() {
    for m in [Modifiers::none(), Modifiers { ctrl: true, ..Modifiers::none() }] {
        let pre = keypress_steps(m, k(evdev::KeyCode::KEY_X));
        assert_eq!(single_held_key(&pre), Some((m, k(evdev::KeyCode::KEY_X))));
        let spliced = fire_once_key_steps(m, k(evdev::KeyCode::KEY_X));
        assert_eq!(single_held_key(&spliced), None);
    }
}

#[test]
fn toggle_lap_target_floors_an_implausibly_fast_kernel_period() {
    assert_eq!(combine_toggle_lap_target(5), MIN_TOGGLE_LAP_MS);
}

#[test]
fn toggle_lap_target_uses_a_slower_kernel_period_unfloored() {
    let slower = 40;
    assert_eq!(combine_toggle_lap_target(slower), slower);
}

#[test]
fn toggle_lap_target_at_exactly_the_floor_is_unchanged() {
    assert_eq!(combine_toggle_lap_target(MIN_TOGGLE_LAP_MS), MIN_TOGGLE_LAP_MS);
}

#[test]
fn the_dwell_constants_are_the_documented_values() {
    assert_eq!(CONTROLLER_BUTTON_DIGITAL_PULSE_HOLD_MS, 35);
    assert_eq!(FIRE_ONCE_KEY_DWELL_MS, 40);
    assert_eq!(MIN_TOGGLE_LAP_MS, 20);
}

#[test]
fn held_key_down_steps_is_the_down_only_prefix_of_the_key_press() {
    assert_eq!(
        held_key_down_steps(Modifiers { ctrl: true, super_key: true, ..Modifiers::none() }, k(evdev::KeyCode::KEY_Q)),
        vec![MacroStep::KeyDown(ctrl()), MacroStep::KeyDown(super_key()), MacroStep::KeyDown(k(evdev::KeyCode::KEY_Q))]
    );
}

#[test]
fn a_controller_press_is_never_a_single_held_key() {
    assert_eq!(single_held_key(&controller_button_steps(k(evdev::KeyCode::BTN_SOUTH))), None);
}

#[test]
fn a_balanced_press_leaves_nothing_held() {
    let mut held = HeldKeys::new();
    for s in keypress_steps(mods(true, true, false, false), k(evdev::KeyCode::KEY_T)) {
        held.record(s, true);
    }
    assert_eq!(held.len(), 0);
}

#[test]
fn a_withheld_key_up_keeps_the_key_held_for_a_later_force_release() {
    let mut held = HeldKeys::new();
    held.record(MacroStep::KeyDown(k(evdev::KeyCode::KEY_A)), true);
    held.record(MacroStep::KeyUp(k(evdev::KeyCode::KEY_A)), false);
    assert!(held.contains(k(evdev::KeyCode::KEY_A)));
    held.record(MacroStep::KeyDown(k(evdev::KeyCode::KEY_B)), false);
    assert!(!held.contains(k(evdev::KeyCode::KEY_B)));
    held.record(MacroStep::Delay(10), true);
    held.record(MacroStep::KeyDown(k(evdev::KeyCode::KEY_A)), true);
    assert_eq!(held.len(), 1);
    let drained = held.drain();
    assert_eq!(drained, vec![k(evdev::KeyCode::KEY_A)]);
    assert_eq!(held.len(), 0);
}

#[test]
fn an_unbalanced_macro_leaves_its_bare_key_down_held() {
    let mut macros = empty_macros();
    macros.insert(
        MacroId::new("hold"),
        MacroDef { name: "hold".to_string(), steps: vec![MacroStepDto::KeyDown(k(evdev::KeyCode::KEY_W))] },
    );
    let mut held = HeldKeys::new();
    for s in compile(&Action::Macro { macro_id: MacroId::new("hold") }, &macros) {
        held.record(s, true);
    }
    assert_eq!(held.drain(), vec![k(evdev::KeyCode::KEY_W)]);
}

#[test]
fn lap_padding_fills_a_short_lap_up_to_the_target_and_nothing_more() {
    assert_eq!(lap_padding(5, 20), Some(15));
    assert_eq!(lap_padding(20, 20), None);
    assert_eq!(lap_padding(35, 20), None);
    assert_eq!(lap_padding(0, 50), Some(50));
}
