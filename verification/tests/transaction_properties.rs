use acheron_daemon::config::{
    Action, Binding, Config, MacroId, Modifiers, Profile, StepDirection, StepperDef, StepperId,
    TriggerMode, DEFAULT_PROFILE_NAME,
};
use acheron_daemon::edit::{plan, reconcile_teardowns, CommandError, CreatedId, Edit, Effect};
use acheron_daemon::input::{Input, Layer};
use acheron_daemon::rules::validate;

fn keypress() -> Binding {
    Binding {
        trigger: TriggerMode::HoldToRepeat,
        action: Action::Keypress { modifiers: Modifiers::none(), key: evdev::KeyCode::KEY_A.code() },
    }
}

fn step(stepper: &str) -> Binding {
    Binding { trigger: TriggerMode::FireOnce, action: Action::Step { stepper: StepperId::new(stepper), direction: StepDirection::Backward } }
}

fn edit_profile(config: &mut Config, name: &str, f: impl FnOnce(&mut Profile)) {
    let mut p = config.profiles.get(&name.to_string()).unwrap().duplicate();
    f(&mut p);
    config.profiles.insert(name.to_string(), p);
}

#[test]
fn two_macros_with_one_name_get_distinct_slug_ids() {
    let (first, outcome) = plan(&Config::seed(), Edit::CreateMacro { name: "My Macro".to_string(), steps: vec![] }).unwrap();
    assert_eq!(outcome.created, Some(CreatedId::Macro(MacroId::new("my-macro"))));
    let (second, outcome) = plan(&first, Edit::CreateMacro { name: "My Macro".to_string(), steps: vec![] }).unwrap();
    assert_eq!(outcome.created, Some(CreatedId::Macro(MacroId::new("my-macro-2"))));
    assert_eq!(second.macros.len(), 2);
    assert_eq!(second.macros.get(&MacroId::new("my-macro")).unwrap().name, "My Macro");
}

#[test]
fn a_step_binding_is_taken_off_every_other_profile_too() {
    let mut config = Config::seed();
    config.steppers.insert(StepperId::new("wep"), StepperDef { name: "wep".to_string(), items: vec![] });
    config.profiles.insert("Gaming".to_string(), Profile::empty());
    edit_profile(&mut config, "Gaming", |p| p.held.insert(Input::Grid(4, 4), step("wep")));
    edit_profile(&mut config, DEFAULT_PROFILE_NAME, |p| p.base.insert(Input::Grid(1, 1), step("wep")));

    let (next, outcome) = plan(&config, Edit::SetBinding { input: Input::Grid(2, 2), layer: Layer::Held, binding: step("wep") }).unwrap();
    assert!(next.profiles.get(&"Gaming".to_string()).unwrap().held.is_empty());
    let active = next.profiles.get(&DEFAULT_PROFILE_NAME.to_string()).unwrap();
    assert!(active.base.is_empty());
    assert_eq!(*active.held.get(&Input::Grid(2, 2)).unwrap(), step("wep"));
    assert_eq!(outcome.effects, vec![Effect::StopToggle(Input::Grid(1, 1))]);
}

#[test]
fn every_committed_configuration_passes_validation() {
    let (next, _) = plan(
        &Config::seed(),
        Edit::SetChordBinding { inputs: vec![Input::Grid(3, 1), Input::Grid(1, 3)], layer: Layer::Base, binding: keypress() },
    )
    .unwrap();
    assert_eq!(validate(&next), Ok(()));
    let (next, _) = plan(&next, Edit::CreateProfile { name: "Other".to_string() }).unwrap();
    assert_eq!(validate(&next), Ok(()));
}

#[test]
fn resaving_an_identical_binding_returns_the_configuration_unchanged() {
    let mut config = Config::seed();
    edit_profile(&mut config, DEFAULT_PROFILE_NAME, |p| p.base.insert(Input::Grid(1, 1), keypress()));
    let (next, outcome) = plan(&config, Edit::SetBinding { input: Input::Grid(1, 1), layer: Layer::Base, binding: keypress() }).unwrap();
    assert_eq!(next, config);
    assert!(outcome.effects.is_empty());
}

#[test]
fn the_teardown_does_not_depend_on_insertion_order() {
    let mut before_a = Config::seed();
    edit_profile(&mut before_a, DEFAULT_PROFILE_NAME, |p| {
        p.base.insert(Input::Grid(3, 3), keypress());
        p.base.insert(Input::Grid(1, 1), keypress());
        p.base.insert(Input::ModeKey, keypress());
    });
    let mut before_b = Config::seed();
    edit_profile(&mut before_b, DEFAULT_PROFILE_NAME, |p| {
        p.base.insert(Input::ModeKey, keypress());
        p.base.insert(Input::Grid(1, 1), keypress());
        p.base.insert(Input::Grid(3, 3), keypress());
    });
    let after = Config::seed();
    let expected = vec![Effect::StopToggle(Input::ModeKey), Effect::StopToggle(Input::Grid(1, 1)), Effect::StopToggle(Input::Grid(3, 3))];
    assert_eq!(reconcile_teardowns(&before_a, &after), expected);
    assert_eq!(reconcile_teardowns(&before_b, &after), expected);
    assert!(reconcile_teardowns(&before_a, &before_b).is_empty());
}

#[test]
fn renaming_a_profile_to_its_own_name_rewrites_nothing() {
    let (with_gaming, _) = plan(&Config::seed(), Edit::CreateProfile { name: "Gaming".to_string() }).unwrap();
    let (same, outcome) = plan(&with_gaming, Edit::RenameProfile { old_name: "Gaming".to_string(), new_name: "Gaming".to_string() }).unwrap();
    assert!(same.profiles.contains_key(&"Gaming".to_string()));
    assert_eq!(same.profiles.len(), 2);
    assert!(outcome.effects.is_empty());
}

#[test]
fn renaming_to_a_blank_name_is_rejected_by_the_rules() {
    let (with_gaming, _) = plan(&Config::seed(), Edit::CreateProfile { name: "Gaming".to_string() }).unwrap();
    let err = plan(&with_gaming, Edit::RenameProfile { old_name: "Gaming".to_string(), new_name: " ".to_string() }).unwrap_err();
    assert!(matches!(err, CommandError::InvalidRequest(m) if m.contains("whitespace-only name")));
}

#[test]
fn deleting_a_referenced_macro_names_it_in_the_message() {
    let mut config = Config::seed();
    config.macros.insert(MacroId::new("m"), acheron_daemon::config::MacroDef { name: "m".to_string(), steps: vec![] });
    edit_profile(&mut config, DEFAULT_PROFILE_NAME, |p| {
        p.base.insert(Input::Grid(1, 1), Binding { trigger: TriggerMode::FireOnce, action: Action::Macro { macro_id: MacroId::new("m") } })
    });
    let err = plan(&config, Edit::DeleteMacro { macro_id: MacroId::new("m") }).unwrap_err();
    assert_eq!(err, CommandError::InvalidRequest("MacroId(\"m\") is still referenced by a Macro Binding".to_string()));
}

#[test]
fn a_controller_button_must_name_a_gamepad_button() {
    let bind = |button: u16| Edit::SetBinding {
        input: Input::Grid(1, 1),
        layer: Layer::Base,
        binding: Binding { trigger: TriggerMode::HoldToRepeat, action: Action::ControllerButton { button } },
    };
    let err = plan(&Config::seed(), bind(evdev::KeyCode::KEY_A.code())).unwrap_err();
    assert!(matches!(err, CommandError::InvalidRequest(m) if m.contains("gamepad button")));
    for ok in [evdev::KeyCode::BTN_SOUTH, evdev::KeyCode::BTN_THUMBR, evdev::KeyCode::BTN_DPAD_LEFT, evdev::KeyCode::BTN_TRIGGER_HAPPY40] {
        assert!(plan(&Config::seed(), bind(ok.code())).is_ok());
    }
    let chord = Edit::SetChordBinding {
        inputs: vec![Input::Grid(1, 1), Input::Grid(1, 2)],
        layer: Layer::Base,
        binding: Binding { trigger: TriggerMode::FireOnce, action: Action::ControllerButton { button: evdev::KeyCode::BTN_C.code() } },
    };
    assert!(matches!(plan(&Config::seed(), chord).unwrap_err(), CommandError::InvalidRequest(_)));
}

#[test]
fn the_gamepad_set_has_the_curated_57_codes() {
    let count = (0u16..0x400).filter(|&c| acheron_daemon::input::is_gamepad_button(c)).count();
    assert_eq!(count, 57);
    assert!(acheron_daemon::input::is_gamepad_button(evdev::KeyCode::BTN_TL.code()));
    assert!(!acheron_daemon::input::is_gamepad_button(evdev::KeyCode::BTN_Z.code()));
    assert!(!acheron_daemon::input::is_gamepad_button(evdev::KeyCode::BTN_LEFT.code()));
}

#[test]
fn a_new_profile_has_the_backlight_off_and_edits_carry_it_along() {
    let (next, _) = plan(&Config::seed(), Edit::CreateProfile { name: "Gaming".to_string() }).unwrap();
    let gaming = next.profiles.get(&"Gaming".to_string()).unwrap();
    assert_eq!(gaming.lighting, acheron_daemon::config::LightingAssignment::Off);
    assert_eq!(gaming.brightness, 0);
    let mut config = Config::seed();
    edit_profile(&mut config, DEFAULT_PROFILE_NAME, |p| p.brightness = 0x55);
    let (next, _) = plan(&config, Edit::SetBinding { input: Input::Grid(1, 1), layer: Layer::Base, binding: keypress() }).unwrap();
    assert_eq!(next.profiles.get(&DEFAULT_PROFILE_NAME.to_string()).unwrap().brightness, 0x55);
}
