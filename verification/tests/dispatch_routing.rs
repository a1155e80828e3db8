use acheron_daemon::config::{
    Action, AxisTarget, Binding, ChordKey, Colour, Config, FixedEffect, LightingAssignment,
    ModeKeyRole, Modifiers, Profile, StepperId, TriggerMode, DEFAULT_PROFILE_NAME,
};
use acheron_daemon::dispatch::{
    analog_repeat_inputs, axis_route, binding_route, capture_mode_transition, chord_effect_plan,
    lighting_state, press_route, ChordAction, ChordEffect, LayerSwitchReport, LightingState, PressRoute, layer_switch_report,
    connection_report, effect_plan, individual_down, intercept, layer_switch, teardown_plan,
    AxisRoute, BindingRoute, CaptureMode, ConnectionReport, DownRoute, Interception, RuntimeAction, TeardownStep,
    Transition,
};
use acheron_daemon::dispatch::{command_plan, CommandStep, RuntimeCommand};
use acheron_daemon::edit::{Effect, TeardownReason};
use acheron_daemon::input::{EventState, Input, Layer, PhysicalEvent};

fn keypress(trigger: TriggerMode) -> Binding {
    Binding { trigger, action: Action::Keypress { modifiers: Modifiers::none(), key: evdev::KeyCode::KEY_A.code() } }
}

fn event(input: Input, state: EventState, depth: Option<u8>) -> PhysicalEvent {
    PhysicalEvent { input, state, depth }
}

fn profile_of(config: &Config) -> &Profile {
    config.profiles.get(&DEFAULT_PROFILE_NAME.to_string()).unwrap()
}

#[test]
fn the_teardown_matrix_releases_toggles_only_on_a_profile_switch() {
    assert_eq!(
        teardown_plan(TeardownReason::ProfileSwitch),
        vec![
            TeardownStep::StopAllIndividualToggles,
            TeardownStep::DrainIndividualFirings,
            TeardownStep::ResetAxisOutputs,
            TeardownStep::StopAllAnalogRepeats,
            TeardownStep::StopAllStages,
            TeardownStep::ResetChordMachine,
            TeardownStep::StopAllChordToggles,
            TeardownStep::DrainChordFirings,
        ]
    );
    for reason in [TeardownReason::LayerSwitch, TeardownReason::Disconnect, TeardownReason::CaptureModeToDigital] {
        assert_eq!(
            teardown_plan(reason),
            vec![
                TeardownStep::ResetAxisOutputs,
                TeardownStep::StopAllAnalogRepeats,
                TeardownStep::StopAllStages,
                TeardownStep::DrainIndividualFirings,
                TeardownStep::ResetChordMachine,
                TeardownStep::DrainChordFirings,
            ]
        );
    }
}

#[test]
fn a_mode_key_edge_switches_layer_only_on_a_transition() {
    assert_eq!(layer_switch(Layer::Base, EventState::Down), Some(Layer::Held));
    assert_eq!(layer_switch(Layer::Held, EventState::Down), None);
    assert_eq!(layer_switch(Layer::Held, EventState::Up), Some(Layer::Base));
    assert_eq!(layer_switch(Layer::Base, EventState::Up), None);
    assert_eq!(layer_switch(Layer::Base, EventState::Repeat), None);
    assert_eq!(layer_switch(Layer::Held, EventState::Repeat), None);
}

#[test]
fn redundant_connection_reports_are_idempotent() {
    assert_eq!(connection_report(true, true), ConnectionReport { changed: false, teardown: None, reassert_device_state: true });
    assert_eq!(
        connection_report(true, false),
        ConnectionReport { changed: true, teardown: Some(TeardownReason::Disconnect), reassert_device_state: false }
    );
    assert_eq!(connection_report(false, false), ConnectionReport { changed: false, teardown: None, reassert_device_state: false });
    assert_eq!(connection_report(false, true), ConnectionReport { changed: true, teardown: None, reassert_device_state: true });
}

#[test]
fn only_a_flip_to_digital_tears_down() {
    assert_eq!(
        capture_mode_transition(CaptureMode::Analog, CaptureMode::Digital),
        Transition { changed: true, teardown: Some(TeardownReason::CaptureModeToDigital) }
    );
    assert_eq!(capture_mode_transition(CaptureMode::Digital, CaptureMode::Analog), Transition { changed: true, teardown: None });
    assert_eq!(capture_mode_transition(CaptureMode::Digital, CaptureMode::Digital), Transition { changed: false, teardown: None });
}

#[test]
fn the_mode_key_is_intercepted_only_under_the_layer_switch_role() {
    let mut config = Config::seed();
    assert_eq!(
        intercept(profile_of(&config), Layer::Base, event(Input::ModeKey, EventState::Down, None)),
        Interception::LayerSwitch(LayerSwitchReport {
            new_layer: Some(Layer::Held),
            teardown: Some(TeardownReason::LayerSwitch),
            announce: Some(Layer::Held)
        })
    );
    assert_eq!(
        intercept(profile_of(&config), Layer::Held, event(Input::ModeKey, EventState::Repeat, None)),
        Interception::LayerSwitch(LayerSwitchReport { new_layer: None, teardown: None, announce: None })
    );
    let mut p = profile_of(&config).duplicate();
    p.mode_key_role = ModeKeyRole::Bound;
    config.profiles.insert(DEFAULT_PROFILE_NAME.to_string(), p);
    assert_eq!(
        intercept(profile_of(&config), Layer::Base, event(Input::ModeKey, EventState::Down, None)),
        Interception::Evaluate { stop_toggle_first: true }
    );
    assert_eq!(
        intercept(profile_of(&config), Layer::Base, event(Input::Grid(1, 1), EventState::Up, None)),
        Interception::Evaluate { stop_toggle_first: false }
    );
}

#[test]
fn an_axis_assigned_input_steps_digitally_or_is_swallowed() {
    let mut p = Profile::empty();
    p.axis_base.insert(Input::Grid(1, 1), AxisTarget::LeftTrigger);
    assert_eq!(axis_route(&p, Layer::Base, event(Input::Grid(1, 1), EventState::Down, None)), AxisRoute::StepDigital);
    assert_eq!(axis_route(&p, Layer::Base, event(Input::Grid(1, 1), EventState::Down, Some(80))), AxisRoute::Swallow);
    assert_eq!(axis_route(&p, Layer::Held, event(Input::Grid(1, 1), EventState::Down, None)), AxisRoute::NotAssigned);
    assert_eq!(axis_route(&p, Layer::Base, event(Input::Grid(1, 2), EventState::Down, None)), AxisRoute::NotAssigned);
}

#[test]
fn the_binding_lookup_routes_each_edge() {
    let mut p = Profile::empty();
    p.base.insert(Input::Grid(1, 1), keypress(TriggerMode::AnalogRepeat));
    p.base.insert(Input::Grid(1, 2), keypress(TriggerMode::HoldToRepeat));
    p.base.insert(
        Input::Grid(1, 3),
        Binding { trigger: TriggerMode::FireOnce, action: Action::ProfileSwitch { target: "Gaming".to_string() } },
    );

    assert!(matches!(binding_route(&p, Layer::Base, event(Input::Grid(1, 1), EventState::Down, Some(40))), BindingRoute::SwallowAnalog));
    assert!(matches!(binding_route(&p, Layer::Base, event(Input::Grid(1, 1), EventState::Down, None)), BindingRoute::IndividualDown));
    assert!(matches!(binding_route(&p, Layer::Base, event(Input::Grid(2, 2), EventState::Up, None)), BindingRoute::Passthrough));
    assert!(matches!(binding_route(&p, Layer::Base, event(Input::Grid(1, 3), EventState::Repeat, None)), BindingRoute::Inert));
    match binding_route(&p, Layer::Base, event(Input::Grid(1, 2), EventState::Repeat, None)) {
        BindingRoute::Perform(b) => assert_eq!(b, keypress(TriggerMode::HoldToRepeat)),
        _ => panic!("a bound Repeat must run the Trigger-mode decision"),
    }
}

#[test]
fn a_fresh_down_switches_performs_or_passes_through() {
    let mut p = Profile::empty();
    p.held.insert(
        Input::Grid(1, 3),
        Binding { trigger: TriggerMode::FireOnce, action: Action::ProfileSwitch { target: "Gaming".to_string() } },
    );
    p.held.insert(Input::Grid(1, 2), keypress(TriggerMode::Toggle));
    match individual_down(&p, Layer::Held, Input::Grid(1, 3)) {
        DownRoute::SwitchProfile(name) => assert_eq!(name, "Gaming"),
        _ => panic!("a Profile Switch Binding must switch"),
    }
    match individual_down(&p, Layer::Held, Input::Grid(1, 2)) {
        DownRoute::Perform(b) => assert_eq!(b, keypress(TriggerMode::Toggle)),
        _ => panic!("a bound Down must perform"),
    }
    assert!(matches!(individual_down(&p, Layer::Base, Input::Grid(1, 2)), DownRoute::Passthrough));
}

#[test]
fn analog_repeat_inputs_lists_each_analog_repeat_binding_once() {
    let mut p = Profile::empty();
    p.base.insert(Input::Grid(1, 1), keypress(TriggerMode::AnalogRepeat));
    p.base.insert(Input::Grid(2, 1), keypress(TriggerMode::FireOnce));
    p.base.insert(Input::Grid(3, 1), keypress(TriggerMode::AnalogRepeat));
    p.held.insert(Input::Grid(4, 1), keypress(TriggerMode::AnalogRepeat));
    let mut inputs = analog_repeat_inputs(&p, Layer::Base);
    inputs.sort();
    assert_eq!(inputs, vec![Input::Grid(1, 1), Input::Grid(3, 1)]);
    assert_eq!(analog_repeat_inputs(&p, Layer::Held), vec![Input::Grid(4, 1)]);
}

fn describe(actions: &[RuntimeAction]) -> Vec<String> {
    actions
        .iter()
        .map(|a| match a {
            RuntimeAction::PublishActuation => "publish".to_string(),
            RuntimeAction::RecomputeAxes(l) => format!("recompute {l:?}"),
            RuntimeAction::ForgetAxisContribution(i) => format!("forget {i:?}"),
            RuntimeAction::SignalCaptureMode(b) => format!("capture {b}"),
            RuntimeAction::StopToggle(i) => format!("stop toggle {i:?}"),
            RuntimeAction::TearDown(s) => format!("teardown {s:?}"),
            RuntimeAction::StopStage(i) => format!("stop stage {i:?}"),
            RuntimeAction::StopChordToggle(k) => format!("stop chord toggle {:?}", k.members()),
            RuntimeAction::StopChordFiring(k) => format!("stop chord firing {:?}", k.members()),
            RuntimeAction::ReconcileStepperCursor(s) => format!("reconcile {}", s.as_str()),
            RuntimeAction::AnnounceProfileChange(n) => format!("announce {n}"),
            RuntimeAction::PushStatusLeds => "leds".to_string(),
        })
        .collect()
}

#[test]
fn committed_effects_become_runtime_operations_in_order() {
    let effects = vec![
        Effect::StopChord(ChordKey::new(vec![Input::Grid(1, 2), Input::Grid(1, 1)])),
        Effect::RecomputeAxes { layer: Layer::Held },
        Effect::RecomputeAxes { layer: Layer::Base },
        Effect::ReconcileStepperCursor(StepperId::new("wep")),
        Effect::AssertStatusLeds,
    ];
    assert_eq!(
        describe(&effect_plan(&effects, Layer::Base)),
        vec![
            "stop chord toggle [Grid(1, 1), Grid(1, 2)]",
            "stop chord firing [Grid(1, 1), Grid(1, 2)]",
            "recompute Base",
            "reconcile wep",
            "leds",
        ]
    );
}

#[test]
fn a_profile_switch_effect_runs_its_whole_teardown_row() {
    let effects = vec![
        Effect::TearDown(TeardownReason::ProfileSwitch),
        Effect::RepublishActuation,
        Effect::AnnounceProfileChange("Gaming".to_string()),
    ];
    let described = describe(&effect_plan(&effects, Layer::Held));
    assert_eq!(described.len(), 10);
    assert_eq!(described[0], "teardown StopAllIndividualToggles");
    assert_eq!(described[7], "teardown DrainChordFirings");
    assert_eq!(described[8], "publish");
    assert_eq!(described[9], "announce Gaming");
}

#[test]
fn a_press_that_stops_a_toggle_is_consumed() {
    let mut p = Profile::empty();
    p.base.insert(Input::Grid(1, 1), keypress(TriggerMode::Toggle));
    p.axis_base.insert(Input::Grid(2, 2), AxisTarget::LeftTrigger);
    let first = event(Input::Grid(1, 1), EventState::Down, None);
    assert_eq!(press_route(&p, Layer::Base, first, false), PressRoute::Continue);
    assert!(matches!(binding_route(&p, Layer::Base, first), BindingRoute::IndividualDown));
    assert_eq!(press_route(&p, Layer::Base, first, true), PressRoute::Consumed);
    assert_eq!(press_route(&p, Layer::Base, event(Input::Grid(2, 2), EventState::Down, None), true), PressRoute::Consumed);
    assert_eq!(
        press_route(&p, Layer::Base, event(Input::Grid(2, 2), EventState::Down, None), false),
        PressRoute::Axis(AxisRoute::StepDigital)
    );
    assert_eq!(
        press_route(&p, Layer::Base, event(Input::Grid(2, 2), EventState::Up, Some(9)), false),
        PressRoute::Axis(AxisRoute::Swallow)
    );
}

#[test]
fn the_backlight_state_is_the_profiles_assignment_and_brightness() {
    let mut p = Profile::empty();
    assert_eq!(lighting_state(&p), LightingState { assignment: LightingAssignment::Off, brightness: 0 });
    p.lighting = LightingAssignment::FixedEffect { effect: FixedEffect::Static { colour: Colour { r: 0x10, g: 0x20, b: 0x30 } } };
    p.brightness = 0x80;
    assert_eq!(lighting_state(&p).assignment, p.lighting);
    assert_eq!(lighting_state(&p).brightness, 0x80);
}

#[test]
fn chord_effects_become_operations_one_for_one() {
    let mut p = Profile::empty();
    p.base.insert(
        Input::Grid(1, 3),
        Binding { trigger: TriggerMode::FireOnce, action: Action::ProfileSwitch { target: "Gaming".to_string() } },
    );
    p.base.insert(Input::Grid(1, 2), keypress(TriggerMode::HoldToRepeat));
    let key = ChordKey::new(vec![Input::Grid(1, 1), Input::Grid(1, 2)]);
    let effects = vec![
        ChordEffect::FireChord { key: key.clone(), binding: keypress(TriggerMode::Toggle), state: EventState::Down },
        ChordEffect::FireIndividual { input: Input::Grid(1, 3) },
        ChordEffect::FireIndividual { input: Input::Grid(1, 2) },
        ChordEffect::FireIndividual { input: Input::Grid(4, 4) },
        ChordEffect::ReleaseChordFiring { key: key.clone() },
        ChordEffect::StopChordToggle { key: key.clone() },
        ChordEffect::ForceReleaseIndividual { input: Input::Grid(1, 2) },
    ];
    let plan = chord_effect_plan(&effects, &p, Layer::Base);
    assert_eq!(plan.len(), 7);
    match &plan[0] {
        ChordAction::PerformChord { key: k, binding, state } => {
            assert_eq!(k.members(), key.members());
            assert_eq!(*binding, keypress(TriggerMode::Toggle));
            assert_eq!(*state, EventState::Down);
        }
        _ => panic!("a Chord firing runs its Trigger-mode decision"),
    }
    assert!(matches!(&plan[1], ChordAction::SwitchProfile(n) if n == "Gaming"));
    assert!(matches!(&plan[2], ChordAction::PerformIndividual { input: Input::Grid(1, 2), binding } if *binding == keypress(TriggerMode::HoldToRepeat)));
    assert!(matches!(&plan[3], ChordAction::PassthroughDown(Input::Grid(4, 4))));
    assert!(matches!(&plan[4], ChordAction::ReleaseChordFiring(k) if k.members() == key.members()));
    assert!(matches!(&plan[5], ChordAction::StopChordToggle(k) if k.members() == key.members()));
    assert!(matches!(&plan[6], ChordAction::ForceReleaseIndividual(Input::Grid(1, 2))));
}

#[test]
fn an_actual_layer_switch_tears_down_and_announces() {
    assert_eq!(
        layer_switch_report(Layer::Base, EventState::Down),
        LayerSwitchReport { new_layer: Some(Layer::Held), teardown: Some(TeardownReason::LayerSwitch), announce: Some(Layer::Held) }
    );
    assert_eq!(
        layer_switch_report(Layer::Held, EventState::Up),
        LayerSwitchReport { new_layer: Some(Layer::Base), teardown: Some(TeardownReason::LayerSwitch), announce: Some(Layer::Base) }
    );
    for (active, state) in [(Layer::Held, EventState::Down), (Layer::Base, EventState::Up), (Layer::Held, EventState::Repeat)] {
        assert_eq!(layer_switch_report(active, state), LayerSwitchReport { new_layer: None, teardown: None, announce: None });
    }
}

#[test]
fn stopping_every_toggle_spares_chord_toggles_and_answers_last() {
    assert_eq!(
        command_plan(RuntimeCommand::StopAllToggles, false),
        vec![CommandStep::StopIndividualToggles, CommandStep::StopStageToggles, CommandStep::SendDone]
    );
}

#[test]
fn an_edit_is_answered_before_its_effects_and_a_refusal_runs_none() {
    assert_eq!(command_plan(RuntimeCommand::Apply, true), vec![CommandStep::SendCreated, CommandStep::RunEffects]);
    assert_eq!(command_plan(RuntimeCommand::Apply, false), vec![CommandStep::SendRefusal]);
    assert_eq!(command_plan(RuntimeCommand::GetConfig, true), vec![CommandStep::SendConfig]);
    assert_eq!(command_plan(RuntimeCommand::GetState, false), vec![CommandStep::SendState]);
}
