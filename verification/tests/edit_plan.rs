use acheron_daemon::config::{
    Action, ActuationPoint, AxisTarget, Binding, ChordKey, Config, DeepStageConfig, MacroDef,
    MacroId, MacroStepDto, ModeKeyRole, Modifiers, Profile, StagingMode, StatusLeds,
    StepDirection, StepperDef, StepperId, StepperItem, TriggerMode, DEFAULT_PROFILE_NAME,
};
use acheron_daemon::edit::{plan, CommandError, CreatedId, Edit, Effect, Outcome, TeardownReason};
use acheron_daemon::input::{Input, Layer};

fn seed() -> Config {
    Config::seed()
}

fn key(code: evdev::KeyCode) -> u16 {
    code.code()
}

/// Runs `f` on the active Profile of `config`.
fn active(config: &mut Config, f: impl FnOnce(&mut Profile)) {
    let name = config.active_profile.clone();
    let mut p = config.profiles.get(&name).unwrap().duplicate();
    f(&mut p);
    config.profiles.insert(name, p);
}

fn profile<'a>(config: &'a Config, name: &str) -> &'a Profile {
    config.profiles.get(&name.to_string()).unwrap()
}

fn default_profile(config: &Config) -> &Profile {
    profile(config, DEFAULT_PROFILE_NAME)
}

fn keypress() -> Binding {
    Binding {
        trigger: TriggerMode::HoldToRepeat,
        action: Action::Keypress { modifiers: Modifiers::none(), key: key(evdev::KeyCode::KEY_A) },
    }
}

fn toggle_keypress(k: evdev::KeyCode) -> Binding {
    Binding { trigger: TriggerMode::Toggle, action: Action::Keypress { modifiers: Modifiers::none(), key: key(k) } }
}

fn chord(members: &[Input]) -> Vec<Input> {
    members.to_vec()
}

fn step(stepper: &str, direction: StepDirection) -> Binding {
    Binding { trigger: TriggerMode::FireOnce, action: Action::Step { stepper: StepperId::new(stepper), direction } }
}

fn with_stepper(config: &mut Config, id: &str) -> StepperId {
    let sid = StepperId::new(id);
    config.steppers.insert(
        sid.clone(),
        StepperDef {
            name: id.to_string(),
            items: vec![
                StepperItem::Key { key: key(evdev::KeyCode::KEY_1), modifiers: Modifiers::none() },
                StepperItem::Key { key: key(evdev::KeyCode::KEY_2), modifiers: Modifiers::none() },
            ],
        },
    );
    sid
}

fn with_macro(config: &mut Config, id: &str) -> MacroId {
    let mid = MacroId::new(id);
    config.macros.insert(
        mid.clone(),
        MacroDef { name: id.to_string(), steps: vec![MacroStepDto::KeyDown(key(evdev::KeyCode::KEY_A))] },
    );
    mid
}

fn plan_ok(config: &Config, edit: Edit) -> (Config, Outcome) {
    plan(config, edit).expect("plan must succeed")
}

fn plan_err(config: &Config, edit: Edit) -> CommandError {
    match plan(config, edit) {
        Ok(_) => panic!("plan must reject the edit"),
        Err(e) => e,
    }
}

fn deep_stage(mode: StagingMode) -> DeepStageConfig {
    DeepStageConfig { actuation: ActuationPoint { actuation: 220, release: 200 }, mode }
}

fn with_primary_and_deep_stage(input: Input) -> Config {
    let mut config = seed();
    active(&mut config, |p| {
        p.base.insert(input, keypress());
        p.deep_stages.insert(input, deep_stage(StagingMode::Handoff));
    });
    config
}

#[test]
fn set_binding_inserts_into_the_active_profiles_layer() {
    let (next, outcome) = plan_ok(
        &seed(),
        Edit::SetBinding { input: Input::Grid(1, 1), layer: Layer::Base, binding: keypress() },
    );
    assert_eq!(*default_profile(&next).base.get(&Input::Grid(1, 1)).unwrap(), keypress());
    assert!(outcome.effects.is_empty());
}

#[test]
fn set_binding_overwriting_a_primary_keeps_its_live_deep_binding() {
    let mut config = with_primary_and_deep_stage(Input::Grid(1, 1));
    active(&mut config, |p| p.deep_base.insert(Input::Grid(1, 1), keypress()));

    let (next, outcome) = plan_ok(
        &config,
        Edit::SetBinding {
            input: Input::Grid(1, 1),
            layer: Layer::Base,
            binding: Binding {
                trigger: TriggerMode::Toggle,
                action: Action::Keypress { modifiers: Modifiers::none(), key: key(evdev::KeyCode::KEY_B) },
            },
        },
    );
    assert!(
        default_profile(&next).deep_base.contains_key(&Input::Grid(1, 1)),
        "the deep Binding must survive an overwrite of its primary"
    );
    assert_eq!(
        outcome.effects,
        vec![Effect::StopToggle(Input::Grid(1, 1))],
        "a changed overwrite releases the individual Toggle but keeps the deep stage"
    );
}

#[test]
fn set_binding_with_a_step_action_steals_the_direction_off_its_old_input() {
    let mut config = seed();
    with_stepper(&mut config, "wep");
    active(&mut config, |p| p.base.insert(Input::Grid(1, 1), step("wep", StepDirection::Forward)));

    let (next, outcome) = plan_ok(
        &config,
        Edit::SetBinding { input: Input::Grid(2, 2), layer: Layer::Base, binding: step("wep", StepDirection::Forward) },
    );
    let base = &default_profile(&next).base;
    assert!(!base.contains_key(&Input::Grid(1, 1)), "old owner cleared");
    assert!(base.contains_key(&Input::Grid(2, 2)), "new owner set");
    assert_eq!(outcome.effects, vec![Effect::StopToggle(Input::Grid(1, 1))]);
}

#[test]
fn set_binding_and_set_chord_binding_steal_a_step_direction_across_both_keyspaces() {
    let mut config = seed();
    with_stepper(&mut config, "wep");
    let members = chord(&[Input::Grid(1, 1), Input::Grid(1, 2)]);
    active(&mut config, |p| p.chords_base.insert(ChordKey::new(members.clone()), step("wep", StepDirection::Forward)));

    let (next, _) = plan_ok(
        &config,
        Edit::SetBinding { input: Input::Grid(3, 3), layer: Layer::Base, binding: step("wep", StepDirection::Forward) },
    );
    assert!(default_profile(&next).chords_base.is_empty());

    let mut with_input = seed();
    with_stepper(&mut with_input, "wep");
    active(&mut with_input, |p| p.base.insert(Input::Grid(3, 3), step("wep", StepDirection::Forward)));
    let (back, _) = plan_ok(
        &with_input,
        Edit::SetChordBinding { inputs: members, layer: Layer::Base, binding: step("wep", StepDirection::Forward) },
    );
    assert!(!default_profile(&back).base.contains_key(&Input::Grid(3, 3)));
}

#[test]
fn delete_macro_is_rejected_when_only_a_chord_still_references_it() {
    let mut config = seed();
    let mid = with_macro(&mut config, "m");
    let bound = mid.clone();
    active(&mut config, |p| {
        p.chords_base.insert(
            ChordKey::new(chord(&[Input::Grid(1, 1), Input::Grid(1, 2)])),
            Binding { trigger: TriggerMode::FireOnce, action: Action::Macro { macro_id: bound } },
        )
    });
    assert!(matches!(plan_err(&config, Edit::DeleteMacro { macro_id: mid }), CommandError::InvalidRequest(_)));
}

#[test]
fn clear_binding_removes_it_and_rejects_an_absent_one() {
    let mut config = seed();
    active(&mut config, |p| p.base.insert(Input::Grid(1, 1), keypress()));
    let (next, _) = plan_ok(&config, Edit::ClearBinding { input: Input::Grid(1, 1), layer: Layer::Base });
    assert!(default_profile(&next).base.is_empty());

    assert!(matches!(
        plan_err(&seed(), Edit::ClearBinding { input: Input::Grid(1, 1), layer: Layer::Base }),
        CommandError::NotFound
    ));
}

#[test]
fn clear_binding_removing_a_primary_with_a_live_deep_binding_cascades_it_away() {
    let mut config = with_primary_and_deep_stage(Input::Grid(1, 1));
    active(&mut config, |p| p.deep_base.insert(Input::Grid(1, 1), keypress()));

    let (next, outcome) = plan_ok(&config, Edit::ClearBinding { input: Input::Grid(1, 1), layer: Layer::Base });
    assert!(default_profile(&next).base.is_empty());
    assert!(default_profile(&next).deep_base.is_empty(), "the orphaned deep Binding must be cascaded away");
    assert!(!default_profile(&next).deep_stages.is_empty());
    assert_eq!(
        outcome.effects,
        vec![Effect::StopToggle(Input::Grid(1, 1)), Effect::StopStage(Input::Grid(1, 1))]
    );
}

#[test]
fn set_binding_accepts_the_valid_shapes_config_validate_allows() {
    let (next, _) = plan_ok(
        &seed(),
        Edit::SetBinding {
            input: Input::Grid(1, 1),
            layer: Layer::Base,
            binding: Binding {
                trigger: TriggerMode::AnalogRepeat,
                action: Action::Keypress { modifiers: Modifiers::none(), key: key(evdev::KeyCode::KEY_A) },
            },
        },
    );
    assert_eq!(default_profile(&next).base.get(&Input::Grid(1, 1)).unwrap().trigger, TriggerMode::AnalogRepeat);

    let (next, _) = plan_ok(
        &seed(),
        Edit::SetBinding {
            input: Input::Grid(1, 1),
            layer: Layer::Base,
            binding: Binding {
                trigger: TriggerMode::HoldToRepeat,
                action: Action::ControllerButton { button: key(evdev::KeyCode::BTN_SOUTH) },
            },
        },
    );
    assert_eq!(
        default_profile(&next).base.get(&Input::Grid(1, 1)).unwrap().action,
        Action::ControllerButton { button: key(evdev::KeyCode::BTN_SOUTH) }
    );
}

#[test]
fn set_mode_key_role_flips_the_field_and_emits_stop_toggle_only_on_bound_to_layer_switch() {
    let mut config = seed();
    active(&mut config, |p| {
        p.mode_key_role = ModeKeyRole::Bound;
        p.held.insert(Input::Grid(1, 1), keypress());
    });

    let (next, outcome) = plan_ok(&config, Edit::SetModeKeyRole { role: ModeKeyRole::LayerSwitch });
    assert_eq!(default_profile(&next).mode_key_role, ModeKeyRole::LayerSwitch);
    assert_eq!(
        *default_profile(&next).held.get(&Input::Grid(1, 1)).unwrap(),
        keypress(),
        "Held bindings survive the role flip"
    );
    assert_eq!(outcome.effects, vec![Effect::StopToggle(Input::ModeKey)]);

    let (_, outcome) = plan_ok(&seed(), Edit::SetModeKeyRole { role: ModeKeyRole::Bound });
    assert!(outcome.effects.is_empty());

    let (_, outcome) = plan_ok(&seed(), Edit::SetModeKeyRole { role: ModeKeyRole::LayerSwitch });
    assert!(outcome.effects.is_empty(), "a LayerSwitch → LayerSwitch re-apply orphans nothing");
}

#[test]
fn create_and_delete_and_rename_profile_round_trip() {
    let (with_gaming, _) = plan_ok(&seed(), Edit::CreateProfile { name: "Gaming".to_string() });
    assert!(with_gaming.profiles.contains_key(&"Gaming".to_string()));

    let (renamed, _) = plan_ok(
        &with_gaming,
        Edit::RenameProfile { old_name: "Gaming".to_string(), new_name: "Editing".to_string() },
    );
    assert!(!renamed.profiles.contains_key(&"Gaming".to_string()));
    assert!(renamed.profiles.contains_key(&"Editing".to_string()));
    assert_eq!(renamed.active_profile, DEFAULT_PROFILE_NAME);

    let (without_editing, _) = plan_ok(&renamed, Edit::DeleteProfile { name: "Editing".to_string() });
    assert!(!without_editing.profiles.contains_key(&"Editing".to_string()));
}

#[test]
fn rename_profile_follows_active_profile_and_cascades_switch_targets() {
    let mut config = seed();
    config = plan(&config, Edit::CreateProfile { name: "Gaming".to_string() }).map(|(c, _)| c).unwrap();
    active(&mut config, |p| {
        p.base.insert(
            Input::Grid(1, 1),
            Binding { trigger: TriggerMode::FireOnce, action: Action::ProfileSwitch { target: "Gaming".to_string() } },
        )
    });
    config.active_profile = "Gaming".to_string();

    let (next, _) = plan_ok(
        &config,
        Edit::RenameProfile { old_name: "Gaming".to_string(), new_name: "Renamed".to_string() },
    );
    assert_eq!(next.active_profile, "Renamed");
    assert_eq!(
        default_profile(&next).base.get(&Input::Grid(1, 1)).unwrap().action,
        Action::ProfileSwitch { target: "Renamed".to_string() }
    );
}

#[test]
fn switch_profile_sets_active_and_emits_its_ordered_effect_chain() {
    let mut config = seed();
    config.profiles.insert("Gaming".to_string(), Profile::empty());

    let (next, outcome) = plan_ok(&config, Edit::SwitchProfile { name: "Gaming".to_string() });
    assert_eq!(next.active_profile, "Gaming");
    assert_eq!(
        outcome.effects,
        vec![
            Effect::TearDown(TeardownReason::ProfileSwitch),
            Effect::RepublishActuation,
            Effect::AssertStatusLeds,
            Effect::AnnounceProfileChange("Gaming".to_string()),
        ]
    );
}

#[test]
fn set_status_leds_writes_the_active_profiles_triple_and_asks_for_an_assert() {
    let (next, outcome) = plan_ok(&seed(), Edit::SetStatusLeds { orange: true, green: false, blue: true });
    assert_eq!(default_profile(&next).status_leds, StatusLeds { orange: true, green: false, blue: true });
    assert_eq!(outcome.effects, vec![Effect::AssertStatusLeds]);
}

#[test]
fn actuation_edits_all_republish_the_snapshot() {
    for edit in [
        Edit::SetActuationPoint { input: Input::Grid(1, 1), actuation: 200, release: 100 },
        Edit::ClearActuationPoint { input: Input::Grid(1, 1) },
        Edit::SetDefaultActuation { actuation: 200, release: 100 },
        Edit::ResetActuationPoints,
    ] {
        let (_, outcome) = plan_ok(&seed(), edit);
        assert_eq!(outcome.effects, vec![Effect::RepublishActuation]);
    }
}

#[test]
fn set_default_deep_actuation_records_it_with_no_effect() {
    let (next, outcome) = plan_ok(&seed(), Edit::SetDefaultDeepActuation { actuation: 240, release: 205 });
    assert_eq!(
        default_profile(&next).default_deep_actuation,
        Some(ActuationPoint { actuation: 240, release: 205 })
    );
    assert!(outcome.effects.is_empty());
}

#[test]
fn set_force_digital_writes_the_flag_and_signals_the_supervisor() {
    let (next, outcome) = plan_ok(&seed(), Edit::SetForceDigital { force: true });
    assert!(next.force_digital);
    assert_eq!(outcome.effects, vec![Effect::SignalCaptureMode(true)]);
}

#[test]
fn create_macro_mints_an_id_and_hands_it_back() {
    let (next, outcome) = plan_ok(&seed(), Edit::CreateMacro { name: "My Macro".to_string(), steps: vec![] });
    let Some(CreatedId::Macro(id)) = outcome.created else {
        panic!("CreateMacro must set Outcome.created");
    };
    assert!(next.macros.contains_key(&id));
}

#[test]
fn create_stepper_mints_an_id_and_hands_it_back() {
    let (next, outcome) = plan_ok(&seed(), Edit::CreateStepper { name: "My Stepper".to_string(), items: vec![] });
    let Some(CreatedId::Stepper(id)) = outcome.created else {
        panic!("CreateStepper must set Outcome.created");
    };
    assert!(next.steppers.contains_key(&id));
}

#[test]
fn set_binding_targets_the_named_layer_and_clear_actuation_on_a_non_grid_input_is_a_no_op() {
    let (next, _) = plan_ok(&seed(), Edit::SetBinding { input: Input::Grid(1, 1), layer: Layer::Held, binding: keypress() });
    let p = default_profile(&next);
    assert!(!p.base.contains_key(&Input::Grid(1, 1)), "Base untouched");
    assert!(p.held.contains_key(&Input::Grid(1, 1)));

    let (unchanged, outcome) = plan_ok(&seed(), Edit::ClearActuationPoint { input: Input::ModeKey });
    assert_eq!(unchanged, seed());
    assert_eq!(outcome.effects, vec![Effect::RepublishActuation]);
}

#[test]
fn delete_stepper_emits_a_reconcile_effect_for_its_cursor() {
    let mut config = seed();
    let sid = with_stepper(&mut config, "wep");
    let (_, outcome) = plan_ok(&config, Edit::DeleteStepper { stepper_id: sid.clone() });
    assert_eq!(outcome.effects, vec![Effect::ReconcileStepperCursor(sid)]);
}

#[test]
fn set_stepper_items_emits_a_reconcile_effect_for_the_list_shrunk_or_emptied() {
    let mut config = seed();
    let sid = with_stepper(&mut config, "wep");
    for items in [vec![StepperItem::Key { key: key(evdev::KeyCode::KEY_1), modifiers: Modifiers::none() }], vec![]] {
        let (_, outcome) = plan_ok(&config, Edit::SetStepperItems { stepper_id: sid.clone(), items });
        assert_eq!(outcome.effects, vec![Effect::ReconcileStepperCursor(sid.clone())]);
    }
}

#[test]
fn rename_and_set_steps_are_pure_field_writes() {
    let mut config = seed();
    let mid = with_macro(&mut config, "m");
    let (next, _) = plan_ok(&config, Edit::RenameMacro { macro_id: mid.clone(), new_name: "renamed".to_string() });
    assert_eq!(next.macros.get(&mid).unwrap().name, "renamed");
    let (next, _) = plan_ok(
        &config,
        Edit::SetMacroSteps { macro_id: mid.clone(), steps: vec![MacroStepDto::KeyUp(key(evdev::KeyCode::KEY_B))] },
    );
    assert_eq!(next.macros.get(&mid).unwrap().steps, vec![MacroStepDto::KeyUp(key(evdev::KeyCode::KEY_B))]);
}

#[test]
fn set_chord_binding_inserts_by_member_set_and_clear_removes_it() {
    let members = [Input::Grid(1, 1), Input::Grid(1, 2)];
    let (next, _) = plan_ok(
        &seed(),
        Edit::SetChordBinding { inputs: chord(&members), layer: Layer::Base, binding: keypress() },
    );
    assert_eq!(default_profile(&next).chords_base.len(), 1);

    let (cleared, _) = plan_ok(&next, Edit::ClearChordBinding { inputs: chord(&members), layer: Layer::Base });
    assert!(default_profile(&cleared).chords_base.is_empty());
}

#[test]
fn clear_chord_binding_pushes_stop_chord_after_a_successful_remove() {
    let members = [Input::Grid(1, 1), Input::Grid(1, 2)];
    let mut config = seed();
    active(&mut config, |p| p.chords_base.insert(ChordKey::new(chord(&members)), keypress()));
    let k = ChordKey::new(chord(&members));

    let (_, outcome) = plan_ok(&config, Edit::ClearChordBinding { inputs: chord(&members), layer: Layer::Base });
    assert_eq!(outcome.effects, vec![Effect::StopChord(k)]);
}

#[test]
fn set_chord_binding_replacing_a_differing_binding_pushes_stop_chord_an_identical_re_save_does_not() {
    let members = [Input::Grid(1, 1), Input::Grid(1, 2)];
    let k = ChordKey::new(chord(&members));
    let mut config = seed();
    let stored = k.clone();
    active(&mut config, |p| p.chords_base.insert(stored, keypress()));

    let (_, outcome) = plan_ok(
        &config,
        Edit::SetChordBinding { inputs: chord(&members), layer: Layer::Base, binding: toggle_keypress(evdev::KeyCode::KEY_B) },
    );
    assert_eq!(outcome.effects, vec![Effect::StopChord(k)]);

    let (_, outcome) = plan_ok(
        &config,
        Edit::SetChordBinding { inputs: chord(&members), layer: Layer::Base, binding: keypress() },
    );
    assert!(outcome.effects.is_empty(), "an identical re-Save must not drop a live Chord Toggle");
}

#[test]
fn set_binding_replacing_a_differing_binding_pushes_stop_toggle_a_fresh_bind_or_re_save_does_not() {
    let mut config = seed();
    active(&mut config, |p| p.base.insert(Input::Grid(1, 1), keypress()));

    let (_, outcome) = plan_ok(
        &config,
        Edit::SetBinding { input: Input::Grid(1, 1), layer: Layer::Base, binding: toggle_keypress(evdev::KeyCode::KEY_B) },
    );
    assert_eq!(outcome.effects, vec![Effect::StopToggle(Input::Grid(1, 1))]);

    let (_, outcome) = plan_ok(&config, Edit::SetBinding { input: Input::Grid(1, 1), layer: Layer::Base, binding: keypress() });
    assert!(outcome.effects.is_empty(), "an identical re-Save is a no-op");

    let (_, outcome) = plan_ok(&seed(), Edit::SetBinding { input: Input::Grid(2, 2), layer: Layer::Base, binding: keypress() });
    assert!(outcome.effects.is_empty(), "a fresh bind has no live slot to orphan");
}

#[test]
fn set_axis_assignment_over_a_key_that_had_binding_chord_membership_and_a_deep_stage() {
    let members = [Input::Grid(1, 1), Input::Grid(1, 2)];
    let k = ChordKey::new(chord(&members));
    let mut config = seed();
    let stored = k.clone();
    active(&mut config, |p| {
        p.base.insert(Input::Grid(1, 1), keypress());
        p.deep_base.insert(Input::Grid(1, 1), keypress());
        p.deep_stages.insert(Input::Grid(1, 1), deep_stage(StagingMode::Handoff));
        p.chords_base.insert(stored, keypress());
    });

    let (next, outcome) = plan_ok(
        &config,
        Edit::SetAxisAssignment { input: Input::Grid(1, 1), layer: Layer::Base, target: AxisTarget::LeftTrigger },
    );
    let p = default_profile(&next);
    assert!(!p.base.contains_key(&Input::Grid(1, 1)));
    assert!(!p.deep_base.contains_key(&Input::Grid(1, 1)));
    assert!(p.chords_base.is_empty());
    assert_eq!(
        outcome.effects,
        vec![
            Effect::StopToggle(Input::Grid(1, 1)),
            Effect::StopStage(Input::Grid(1, 1)),
            Effect::StopChord(k),
            Effect::RecomputeAxes { layer: Layer::Base },
        ]
    );
}

#[test]
fn set_axis_assignment_clears_a_colliding_binding_and_asks_for_a_recompute() {
    let mut config = seed();
    active(&mut config, |p| p.base.insert(Input::Grid(1, 1), keypress()));

    let (next, outcome) = plan_ok(
        &config,
        Edit::SetAxisAssignment { input: Input::Grid(1, 1), layer: Layer::Base, target: AxisTarget::LeftTrigger },
    );
    let p = default_profile(&next);
    assert!(!p.base.contains_key(&Input::Grid(1, 1)));
    assert_eq!(*p.axis_base.get(&Input::Grid(1, 1)).unwrap(), AxisTarget::LeftTrigger);
    assert_eq!(
        outcome.effects,
        vec![Effect::StopToggle(Input::Grid(1, 1)), Effect::RecomputeAxes { layer: Layer::Base }]
    );
}

#[test]
fn clear_axis_assignment_forgets_the_contribution_then_recomputes() {
    let mut config = seed();
    active(&mut config, |p| p.axis_base.insert(Input::Grid(1, 1), AxisTarget::LeftTrigger));

    let (next, outcome) = plan_ok(&config, Edit::ClearAxisAssignment { input: Input::Grid(1, 1), layer: Layer::Base });
    assert!(default_profile(&next).axis_base.is_empty());
    assert_eq!(
        outcome.effects,
        vec![Effect::ForgetAxisContribution(Input::Grid(1, 1)), Effect::RecomputeAxes { layer: Layer::Base }]
    );

    assert!(matches!(
        plan_err(&seed(), Edit::ClearAxisAssignment { input: Input::Grid(1, 1), layer: Layer::Base }),
        CommandError::NotFound
    ));
}

#[test]
fn set_deep_stage_inserts_into_the_active_profiles_deep_layer_and_relies_on_validate() {
    let config = with_primary_and_deep_stage(Input::Grid(1, 1));
    let (next, outcome) = plan_ok(
        &config,
        Edit::SetDeepStage { input: Input::Grid(1, 1), layer: Layer::Base, binding: keypress() },
    );
    assert_eq!(*default_profile(&next).deep_base.get(&Input::Grid(1, 1)).unwrap(), keypress());
    assert!(outcome.effects.is_empty(), "a fresh deep bind has no live slot to orphan");

    let mut with_deep = with_primary_and_deep_stage(Input::Grid(1, 1));
    active(&mut with_deep, |p| p.deep_base.insert(Input::Grid(1, 1), keypress()));
    let (_, outcome) = plan_ok(
        &with_deep,
        Edit::SetDeepStage { input: Input::Grid(1, 1), layer: Layer::Base, binding: toggle_keypress(evdev::KeyCode::KEY_B) },
    );
    assert_eq!(outcome.effects, vec![Effect::StopStage(Input::Grid(1, 1))]);

    let (_, outcome) = plan_ok(
        &with_deep,
        Edit::SetDeepStage { input: Input::Grid(1, 1), layer: Layer::Base, binding: keypress() },
    );
    assert!(outcome.effects.is_empty(), "an identical deep re-Save must not drop a live deep slot");

    assert!(matches!(
        plan_err(&seed(), Edit::SetDeepStage { input: Input::Grid(1, 1), layer: Layer::Base, binding: keypress() }),
        CommandError::InvalidRequest(_)
    ));
}

#[test]
fn clear_deep_stage_removes_it_and_rejects_an_absent_one() {
    let mut config = with_primary_and_deep_stage(Input::Grid(1, 1));
    active(&mut config, |p| p.deep_base.insert(Input::Grid(1, 1), keypress()));

    let (next, _) = plan_ok(&config, Edit::ClearDeepStage { input: Input::Grid(1, 1), layer: Layer::Base });
    assert!(default_profile(&next).deep_base.is_empty());

    assert!(matches!(
        plan_err(&seed(), Edit::ClearDeepStage { input: Input::Grid(1, 1), layer: Layer::Base }),
        CommandError::NotFound
    ));
}

#[test]
fn clear_deep_stage_pushes_stop_stage_to_force_release_a_live_deep_slot() {
    let mut config = with_primary_and_deep_stage(Input::Grid(1, 1));
    active(&mut config, |p| p.deep_base.insert(Input::Grid(1, 1), keypress()));

    let (next, outcome) = plan_ok(&config, Edit::ClearDeepStage { input: Input::Grid(1, 1), layer: Layer::Base });
    assert!(default_profile(&next).deep_base.is_empty());
    assert!(!default_profile(&next).deep_stages.is_empty());
    assert_eq!(outcome.effects, vec![Effect::StopStage(Input::Grid(1, 1))]);
}

#[test]
fn set_deep_actuation_creates_a_fresh_deep_stage_config_defaulting_to_handoff() {
    let (next, outcome) = plan_ok(&seed(), Edit::SetDeepActuation { input: Input::Grid(1, 1), actuation: 220, release: 200 });
    assert_eq!(
        *default_profile(&next).deep_stages.get(&Input::Grid(1, 1)).unwrap(),
        DeepStageConfig { actuation: ActuationPoint { actuation: 220, release: 200 }, mode: StagingMode::Handoff }
    );
    assert!(outcome.effects.is_empty());
}

#[test]
fn set_deep_actuation_on_an_existing_entry_leaves_its_mode_untouched() {
    let mut config = seed();
    active(&mut config, |p| p.deep_stages.insert(Input::Grid(1, 1), deep_stage(StagingMode::NoReturn)));

    let (next, _) = plan_ok(&config, Edit::SetDeepActuation { input: Input::Grid(1, 1), actuation: 230, release: 210 });
    let cfg = *default_profile(&next).deep_stages.get(&Input::Grid(1, 1)).unwrap();
    assert_eq!(cfg.actuation, ActuationPoint { actuation: 230, release: 210 });
    assert_eq!(cfg.mode, StagingMode::NoReturn);
}

#[test]
fn set_staging_mode_creates_a_fresh_deep_stage_config_and_only_writes_mode() {
    let mut config = seed();
    active(&mut config, |p| p.actuation_overrides.insert(Input::Grid(1, 1), ActuationPoint { actuation: 50, release: 40 }));

    let (next, outcome) = plan_ok(&config, Edit::SetStagingMode { input: Input::Grid(1, 1), mode: StagingMode::QuickSkip });
    assert_eq!(default_profile(&next).deep_stages.get(&Input::Grid(1, 1)).unwrap().mode, StagingMode::QuickSkip);
    assert_eq!(outcome.effects, vec![Effect::StopStage(Input::Grid(1, 1))]);
}

#[test]
fn set_staging_mode_pushes_stop_stage_even_on_an_existing_entry() {
    let mut config = seed();
    active(&mut config, |p| p.deep_stages.insert(Input::Grid(1, 1), deep_stage(StagingMode::Handoff)));

    let (next, outcome) = plan_ok(&config, Edit::SetStagingMode { input: Input::Grid(1, 1), mode: StagingMode::QuickSkip });
    assert_eq!(default_profile(&next).deep_stages.get(&Input::Grid(1, 1)).unwrap().mode, StagingMode::QuickSkip);
    assert_eq!(outcome.effects, vec![Effect::StopStage(Input::Grid(1, 1))]);
}

#[test]
fn set_staging_mode_to_the_same_mode_pushes_no_effect() {
    let mut config = seed();
    active(&mut config, |p| p.deep_stages.insert(Input::Grid(1, 1), deep_stage(StagingMode::NoReturn)));

    let (_next, outcome) = plan_ok(&config, Edit::SetStagingMode { input: Input::Grid(1, 1), mode: StagingMode::NoReturn });
    assert!(outcome.effects.is_empty(), "same-mode re-apply is a no-op — no StopStage");
}
