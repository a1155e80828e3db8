use acheron_daemon::config::{
    Action, ActuationPoint, AxisTarget, Binding, ChordKey, Config, DeepStageConfig, MacroDef,
    MacroId, MacroStepDto, ModeKeyRole, Modifiers, Profile, StagingMode, StepDirection,
    StepperDef, StepperId, StepperItem, TriggerMode, DEFAULT_PROFILE_NAME,
};
use acheron_daemon::edit::{plan, reconcile_teardowns, CommandError, Edit, Effect};
use acheron_daemon::input::{Input, Layer};
use acheron_daemon::rules::{validate, ConfigError};

fn seed() -> Config {
    Config::seed()
}

fn key(code: evdev::KeyCode) -> u16 {
    code.code()
}

fn active(config: &mut Config, f: impl FnOnce(&mut Profile)) {
    let name = config.active_profile.clone();
    let mut p = config.profiles.get(&name).unwrap().duplicate();
    f(&mut p);
    config.profiles.insert(name, p);
}

fn keypress() -> Binding {
    Binding {
        trigger: TriggerMode::HoldToRepeat,
        action: Action::Keypress { modifiers: Modifiers::none(), key: key(evdev::KeyCode::KEY_A) },
    }
}

fn toggle_keypress(k: evdev::KeyCode) -> Binding {
    Binding { trigger: TriggerMode::Toggle, action: Action::Keypress { modifiers: Modifiers::none(), key: key(k) } }
}

fn chord(members: &[Input]) -> Vec<Input> {
    members.to_vec()
}

fn step(stepper: &str, direction: StepDirection) -> Binding {
    Binding { trigger: TriggerMode::FireOnce, action: Action::Step { stepper: StepperId::new(stepper), direction } }
}

fn with_stepper(config: &mut Config, id: &str) -> StepperId {
    let sid = StepperId::new(id);
    config.steppers.insert(
        sid.clone(),
        StepperDef {
            name: id.to_string(),
            items: vec![
                StepperItem::Key { key: key(evdev::KeyCode::KEY_1), modifiers: Modifiers::none() },
                StepperItem::Key { key: key(evdev::KeyCode::KEY_2), modifiers: Modifiers::none() },
            ],
        },
    );
    sid
}

fn with_macro(config: &mut Config, id: &str) -> MacroId {
    let mid = MacroId::new(id);
    config.macros.insert(
        mid.clone(),
        MacroDef { name: id.to_string(), steps: vec![MacroStepDto::KeyDown(key(evdev::KeyCode::KEY_A))] },
    );
    mid
}

#[test]
fn reconcile_teardowns_covers_every_matrix_row_both_deltas_and_the_negatives() {
    let g11 = Input::Grid(1, 1);
    let g22 = Input::Grid(2, 2);
    let ckey = || ChordKey::new(chord(&[Input::Grid(1, 1), Input::Grid(1, 2)]));
    let deep = |mode| DeepStageConfig { actuation: ActuationPoint { actuation: 220, release: 200 }, mode };

    let check = |name: &str, before: &dyn Fn(&mut Profile), after: &dyn Fn(&mut Profile), expect: Vec<Effect>| {
        let mut b = seed();
        active(&mut b, |p| before(p));
        let mut a = b.duplicate();
        active(&mut a, |p| after(p));
        assert_eq!(reconcile_teardowns(&b, &a), expect, "{name}");
    };

    check(
        "base binding removed",
        &|p| p.base.insert(g11, keypress()),
        &|p| {
            p.base.remove(&g11);
        },
        vec![Effect::StopToggle(g11)],
    );
    check(
        "base binding changed",
        &|p| p.base.insert(g11, keypress()),
        &|p| p.base.insert(g11, toggle_keypress(evdev::KeyCode::KEY_B)),
        vec![Effect::StopToggle(g11)],
    );
    check("base binding present and byte-equal → nothing", &|p| p.base.insert(g11, keypress()), &|_| {}, vec![]);
    check(
        "held binding removed",
        &|p| p.held.insert(g11, keypress()),
        &|p| {
            p.held.remove(&g11);
        },
        vec![Effect::StopToggle(g11)],
    );
    check("fresh base bind orphans nothing", &|_| {}, &|p| p.base.insert(g11, keypress()), vec![]);

    check(
        "deep binding removed",
        &|p| {
            p.base.insert(g11, keypress());
            p.deep_base.insert(g11, keypress());
            p.deep_stages.insert(g11, deep(StagingMode::Handoff));
        },
        &|p| {
            p.deep_base.remove(&g11);
        },
        vec![Effect::StopStage(g11)],
    );
    check(
        "deep binding changed (delta 1)",
        &|p| {
            p.base.insert(g11, keypress());
            p.deep_base.insert(g11, keypress());
            p.deep_stages.insert(g11, deep(StagingMode::Handoff));
        },
        &|p| p.deep_base.insert(g11, toggle_keypress(evdev::KeyCode::KEY_B)),
        vec![Effect::StopStage(g11)],
    );
    check(
        "deep binding byte-equal → nothing",
        &|p| {
            p.base.insert(g11, keypress());
            p.deep_base.insert(g11, keypress());
            p.deep_stages.insert(g11, deep(StagingMode::Handoff));
        },
        &|_| {},
        vec![],
    );

    check(
        "chord binding removed",
        &|p| p.chords_base.insert(ckey(), keypress()),
        &|p| {
            p.chords_base.remove(&ckey());
        },
        vec![Effect::StopChord(ckey())],
    );
    check(
        "chord binding changed",
        &|p| p.chords_base.insert(ckey(), keypress()),
        &|p| p.chords_base.insert(ckey(), toggle_keypress(evdev::KeyCode::KEY_B)),
        vec![Effect::StopChord(ckey())],
    );
    check("chord binding byte-equal → nothing", &|p| p.chords_base.insert(ckey(), keypress()), &|_| {}, vec![]);

    check(
        "staging mode changed",
        &|p| p.deep_stages.insert(g11, deep(StagingMode::Handoff)),
        &|p| p.deep_stages.insert(g11, deep(StagingMode::QuickSkip)),
        vec![Effect::StopStage(g11)],
    );
    check(
        "deep_stages actuation-only change → nothing",
        &|p| p.deep_stages.insert(g11, deep(StagingMode::Handoff)),
        &|p| {
            p.deep_stages.insert(
                g11,
                DeepStageConfig { actuation: ActuationPoint { actuation: 210, release: 190 }, mode: StagingMode::Handoff },
            )
        },
        vec![],
    );
    check(
        "fresh deep_stages entry with a non-default mode counts as a change",
        &|_| {},
        &|p| p.deep_stages.insert(g11, deep(StagingMode::QuickSkip)),
        vec![Effect::StopStage(g11)],
    );

    check(
        "mode_key_role Bound → LayerSwitch",
        &|p| p.mode_key_role = ModeKeyRole::Bound,
        &|p| p.mode_key_role = ModeKeyRole::LayerSwitch,
        vec![Effect::StopToggle(Input::ModeKey)],
    );
    check(
        "mode_key_role LayerSwitch → LayerSwitch → nothing (delta 2)",
        &|p| p.mode_key_role = ModeKeyRole::LayerSwitch,
        &|_| {},
        vec![],
    );
    check(
        "mode_key_role LayerSwitch → Bound → nothing",
        &|p| p.mode_key_role = ModeKeyRole::LayerSwitch,
        &|p| p.mode_key_role = ModeKeyRole::Bound,
        vec![],
    );

    check(
        "type order StopToggle → StopStage → StopChord, keys sorted",
        &|p| {
            p.base.insert(g22, keypress());
            p.base.insert(g11, keypress());
            p.deep_base.insert(g11, keypress());
            p.deep_stages.insert(g11, deep(StagingMode::Handoff));
            p.chords_base.insert(ckey(), keypress());
            p.mode_key_role = ModeKeyRole::Bound;
        },
        &|p| {
            p.base.remove(&g11);
            p.base.remove(&g22);
            p.deep_base.remove(&g11);
            p.chords_base.remove(&ckey());
            p.mode_key_role = ModeKeyRole::LayerSwitch;
        },
        vec![
            Effect::StopToggle(Input::ModeKey),
            Effect::StopToggle(g11),
            Effect::StopToggle(g22),
            Effect::StopStage(g11),
            Effect::StopChord(ckey()),
        ],
    );

    let mut two = seed();
    two.profiles.insert("Gaming".to_string(), Profile::empty());
    active(&mut two, |p| p.base.insert(g11, keypress()));
    let mut switched = two.duplicate();
    switched.active_profile = "Gaming".to_string();
    assert!(
        reconcile_teardowns(&two, &switched).is_empty(),
        "an active-Profile change bails — SwitchProfile owns TearDown(ProfileSwitch)"
    );

    let mut renamed = two.duplicate();
    let p = renamed.profiles.remove(&DEFAULT_PROFILE_NAME.to_string()).unwrap();
    renamed.profiles.insert("Renamed".to_string(), p);
    renamed.active_profile = "Renamed".to_string();
    assert!(reconcile_teardowns(&two, &renamed).is_empty(), "an active-Profile rename bails too");
}

struct Case {
    name: &'static str,
    setup: fn(&mut Config),
    edit: fn() -> Edit,
    matches: fn(&CommandError) -> bool,
}

fn is_invalid(err: &CommandError, needle: &str) -> bool {
    matches!(err, CommandError::InvalidRequest(m) if m.contains(needle))
}

#[test]
fn every_precondition_and_invariant_path_has_a_dedicated_rejection() {
    let cases = [
        Case {
            name: "SetBinding: ProfileSwitch paired with a non-fire-once trigger (invariant)",
            setup: |_| {},
            edit: || Edit::SetBinding {
                input: Input::Grid(1, 1),
                layer: Layer::Base,
                binding: Binding {
                    trigger: TriggerMode::Toggle,
                    action: Action::ProfileSwitch { target: DEFAULT_PROFILE_NAME.to_string() },
                },
            },
            matches: |e| is_invalid(e, "fire_once"),
        },
        Case {
            name: "SetBinding: analog_repeat on a non-grid Input (invariant)",
            setup: |_| {},
            edit: || Edit::SetBinding {
                input: Input::ModeKey,
                layer: Layer::Base,
                binding: Binding {
                    trigger: TriggerMode::AnalogRepeat,
                    action: Action::Keypress { modifiers: Modifiers::none(), key: key(evdev::KeyCode::KEY_A) },
                },
            },
            matches: |e| is_invalid(e, "analog_repeat"),
        },
        Case {
            name: "CreateProfile: name already taken (precondition)",
            setup: |c| c.profiles.insert("Gaming".to_string(), Profile::empty()),
            edit: || Edit::CreateProfile { name: "Gaming".to_string() },
            matches: |e| matches!(e, CommandError::AlreadyExists),
        },
        Case {
            name: "CreateProfile: blank name (invariant)",
            setup: |_| {},
            edit: || Edit::CreateProfile { name: "   ".to_string() },
            matches: |e| is_invalid(e, "whitespace-only name"),
        },
        Case {
            name: "DeleteProfile: the active Profile (precondition)",
            setup: |_| {},
            edit: || Edit::DeleteProfile { name: DEFAULT_PROFILE_NAME.to_string() },
            matches: |e| is_invalid(e, "cannot delete the active Profile"),
        },
        Case {
            name: "DeleteProfile: still referenced by a ProfileSwitch (precondition)",
            setup: |c| {
                c.profiles.insert("Gaming".to_string(), Profile::empty());
                active(c, |p| {
                    p.base.insert(
                        Input::Grid(1, 1),
                        Binding { trigger: TriggerMode::FireOnce, action: Action::ProfileSwitch { target: "Gaming".to_string() } },
                    )
                });
            },
            edit: || Edit::DeleteProfile { name: "Gaming".to_string() },
            matches: |e| is_invalid(e, "still referenced by a Profile Switch Binding"),
        },
        Case {
            name: "DeleteProfile: unknown name (precondition)",
            setup: |_| {},
            edit: || Edit::DeleteProfile { name: "Ghost".to_string() },
            matches: |e| matches!(e, CommandError::NotFound),
        },
        Case {
            name: "RenameProfile: unknown old_name (precondition)",
            setup: |_| {},
            edit: || Edit::RenameProfile { old_name: "Ghost".to_string(), new_name: "Whatever".to_string() },
            matches: |e| matches!(e, CommandError::NotFound),
        },
        Case {
            name: "RenameProfile: new_name already taken (precondition)",
            setup: |c| c.profiles.insert("Gaming".to_string(), Profile::empty()),
            edit: || Edit::RenameProfile { old_name: "Gaming".to_string(), new_name: DEFAULT_PROFILE_NAME.to_string() },
            matches: |e| matches!(e, CommandError::AlreadyExists),
        },
        Case {
            name: "SwitchProfile: unknown name (precondition)",
            setup: |_| {},
            edit: || Edit::SwitchProfile { name: "Ghost".to_string() },
            matches: |e| matches!(e, CommandError::NotFound),
        },
        Case {
            name: "SetActuationPoint: release >= actuation (invariant)",
            setup: |_| {},
            edit: || Edit::SetActuationPoint { input: Input::Grid(1, 1), actuation: 100, release: 120 },
            matches: |e| is_invalid(e, "release point at or above"),
        },
        Case {
            name: "SetActuationPoint: non-grid Input (invariant)",
            setup: |_| {},
            edit: || Edit::SetActuationPoint { input: Input::ModeKey, actuation: 200, release: 100 },
            matches: |e| is_invalid(e, "actuation override"),
        },
        Case {
            name: "SetDefaultActuation: release >= actuation (invariant)",
            setup: |_| {},
            edit: || Edit::SetDefaultActuation { actuation: 100, release: 100 },
            matches: |e| is_invalid(e, "default"),
        },
        Case {
            name: "SetDefaultDeepActuation: release >= actuation (invariant)",
            setup: |_| {},
            edit: || Edit::SetDefaultDeepActuation { actuation: 200, release: 200 },
            matches: |e| is_invalid(e, "default deep"),
        },
        Case {
            name: "CreateMacro: blank name (precondition)",
            setup: |_| {},
            edit: || Edit::CreateMacro { name: "  ".to_string(), steps: vec![] },
            matches: |e| is_invalid(e, "Macro name can't be empty"),
        },
        Case {
            name: "RenameMacro: unknown id (precondition)",
            setup: |_| {},
            edit: || Edit::RenameMacro { macro_id: MacroId::new("ghost"), new_name: "x".to_string() },
            matches: |e| matches!(e, CommandError::NotFound),
        },
        Case {
            name: "DeleteMacro: still referenced (precondition)",
            setup: |c| {
                let mid = with_macro(c, "m");
                active(c, |p| {
                    p.base.insert(Input::Grid(1, 1), Binding { trigger: TriggerMode::FireOnce, action: Action::Macro { macro_id: mid } })
                });
            },
            edit: || Edit::DeleteMacro { macro_id: MacroId::new("m") },
            matches: |e| is_invalid(e, "still referenced by a Macro Binding"),
        },
        Case {
            name: "DeleteMacro: unknown id (precondition)",
            setup: |_| {},
            edit: || Edit::DeleteMacro { macro_id: MacroId::new("ghost") },
            matches: |e| matches!(e, CommandError::NotFound),
        },
        Case {
            name: "SetMacroSteps: unknown id (precondition)",
            setup: |_| {},
            edit: || Edit::SetMacroSteps { macro_id: MacroId::new("ghost"), steps: vec![] },
            matches: |e| matches!(e, CommandError::NotFound),
        },
        Case {
            name: "CreateStepper: blank name (precondition)",
            setup: |_| {},
            edit: || Edit::CreateStepper { name: "  ".to_string(), items: vec![] },
            matches: |e| is_invalid(e, "Stepper name can't be empty"),
        },
        Case {
            name: "RenameStepper: unknown id (precondition)",
            setup: |_| {},
            edit: || Edit::RenameStepper { stepper_id: StepperId::new("ghost"), new_name: "x".to_string() },
            matches: |e| matches!(e, CommandError::NotFound),
        },
        Case {
            name: "DeleteStepper: still referenced (precondition)",
            setup: |c| {
                let sid = with_stepper(c, "wep");
                active(c, |p| p.base.insert(Input::Grid(1, 1), step(sid.as_str(), StepDirection::Forward)));
            },
            edit: || Edit::DeleteStepper { stepper_id: StepperId::new("wep") },
            matches: |e| is_invalid(e, "still referenced by a Step Binding"),
        },
        Case {
            name: "DeleteStepper: unknown id (precondition)",
            setup: |_| {},
            edit: || Edit::DeleteStepper { stepper_id: StepperId::new("ghost") },
            matches: |e| matches!(e, CommandError::NotFound),
        },
        Case {
            name: "SetStepperItems: unknown id (precondition)",
            setup: |_| {},
            edit: || Edit::SetStepperItems { stepper_id: StepperId::new("ghost"), items: vec![] },
            matches: |e| matches!(e, CommandError::NotFound),
        },
        Case {
            name: "SetChordBinding: fewer than two members (invariant)",
            setup: |_| {},
            edit: || Edit::SetChordBinding { inputs: chord(&[Input::Grid(1, 1)]), layer: Layer::Base, binding: keypress() },
            matches: |e| is_invalid(e, "fewer than two member"),
        },
        Case {
            name: "SetChordBinding: ProfileSwitch action (invariant)",
            setup: |_| {},
            edit: || Edit::SetChordBinding {
                inputs: chord(&[Input::Grid(1, 1), Input::Grid(1, 2)]),
                layer: Layer::Base,
                binding: Binding {
                    trigger: TriggerMode::FireOnce,
                    action: Action::ProfileSwitch { target: DEFAULT_PROFILE_NAME.to_string() },
                },
            },
            matches: |e| is_invalid(e, "cannot be profile_switch"),
        },
        Case {
            name: "ClearChordBinding: no such member set (precondition)",
            setup: |_| {},
            edit: || Edit::ClearChordBinding { inputs: chord(&[Input::Grid(1, 1), Input::Grid(1, 2)]), layer: Layer::Base },
            matches: |e| matches!(e, CommandError::NotFound),
        },
        Case {
            name: "SetAxisAssignment: non-grid Input (invariant)",
            setup: |_| {},
            edit: || Edit::SetAxisAssignment { input: Input::ModeKey, layer: Layer::Base, target: AxisTarget::LeftTrigger },
            matches: |e| is_invalid(e, "only Grid Inputs"),
        },
        Case {
            name: "SetDeepStage: no primary Binding on the layer (invariant)",
            setup: |_| {},
            edit: || Edit::SetDeepStage {
                input: Input::Grid(1, 1),
                layer: Layer::Base,
                binding: Binding {
                    trigger: TriggerMode::HoldToRepeat,
                    action: Action::Keypress { modifiers: Modifiers::none(), key: key(evdev::KeyCode::KEY_A) },
                },
            },
            matches: |e| is_invalid(e, "no primary Binding"),
        },
    ];

    for case in cases {
        let mut config = seed();
        (case.setup)(&mut config);
        let before = config.duplicate();
        let err = match plan(&config, (case.edit)()) {
            Ok(_) => panic!("{}", case.name),
            Err(e) => e,
        };
        assert!((case.matches)(&err), "{}: wrong error {err:?}", case.name);
        assert_eq!(config, before, "{}: caller's Config was mutated", case.name);
    }
}

#[test]
fn validation_reports_the_profile_fields_before_its_bindings() {
    let mut c = seed();
    active(&mut c, |p| {
        p.default_actuation = ActuationPoint { actuation: 100, release: 150 };
        p.axis_base.insert(Input::Grid(1, 1), AxisTarget::Throttle);
        p.base.insert(Input::Grid(1, 1), keypress());
    });
    assert_eq!(validate(&c), Err(ConfigError::DefaultReleaseNotBelow));
}

#[test]
fn validation_reports_a_profile_switch_trigger_before_its_target() {
    let mut c = seed();
    active(&mut c, |p| {
        p.base.insert(
            Input::Grid(1, 1),
            Binding { trigger: TriggerMode::Toggle, action: Action::ProfileSwitch { target: "Nowhere".to_string() } },
        );
    });
    assert_eq!(validate(&c), Err(ConfigError::ProfileSwitchNotFireOnce));
}

#[test]
fn validation_reports_primary_bindings_before_chords() {
    let mut c = seed();
    active(&mut c, |p| {
        p.held.insert(Input::Grid(2, 2), step("missing", StepDirection::Forward));
        p.chords_base.insert(ChordKey::new(chord(&[Input::Grid(1, 1)])), keypress());
    });
    assert_eq!(validate(&c), Err(ConfigError::UnknownStepper));
}
