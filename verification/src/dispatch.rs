//! The dispatch task's decisions: how a physical event is routed against the
//! active Profile and Layer, which Layer a Mode-key edge selects, what each
//! lifecycle teardown releases, and what each post-commit effect does to the
//! runtime state. The task performs the returned actions against the state
//! it owns and hands each outcome back.

use vstd::prelude::*;
use crate::amap::{AssocMap, MapKey, MapValue};
use crate::config::{
    ActionView, Binding, BindingView, ChordKey, LightingAssignment, ModeKeyRole, Profile,
    ProfileView, StepperId,
    TriggerMode, layer_axes, layer_bindings,
};
use crate::edit::{Effect, EffectView, TeardownReason, effect_views};
use crate::input::{EventState, Input, Layer, PhysicalEvent};
use crate::sorted::{lemma_prefix_full, lemma_prefix_step};

verus! {

/// One participant's release in a lifecycle teardown.
#[derive(Clone, Copy, Debug, PartialEq, Eq, Structural)]
pub enum TeardownStep {
    /// Center every live axis output and clear the axis engine.
    ResetAxisOutputs,
    /// Stop every Analog-repeat task.
    StopAllAnalogRepeats,
    /// Release every live dual-stage deep slot.
    StopAllStages,
    /// Stop every individual Toggle.
    StopAllIndividualToggles,
    /// Force-release every individual firing.
    DrainIndividualFirings,
    /// Reset the Chord-detection machine.
    ResetChordMachine,
    /// Stop every Chord Toggle.
    StopAllChordToggles,
    /// Force-release every Chord firing.
    DrainChordFirings,
}

/// The teardown matrix: what each reason releases, in order. A Profile
/// switch releases every Toggle, individual and Chord alike; a Layer switch,
/// a disconnect and a flip to Digital leave every Toggle running.
pub open spec fn teardown_steps(reason: TeardownReason) -> Seq<TeardownStep> {
    match reason {
        TeardownReason::ProfileSwitch => seq![
            TeardownStep::StopAllIndividualToggles,
            TeardownStep::DrainIndividualFirings,
            TeardownStep::ResetAxisOutputs,
            TeardownStep::StopAllAnalogRepeats,
            TeardownStep::StopAllStages,
            TeardownStep::ResetChordMachine,
            TeardownStep::StopAllChordToggles,
            TeardownStep::DrainChordFirings,
        ],
        _ => seq![
            TeardownStep::ResetAxisOutputs,
            TeardownStep::StopAllAnalogRepeats,
            TeardownStep::StopAllStages,
            TeardownStep::DrainIndividualFirings,
            TeardownStep::ResetChordMachine,
            TeardownStep::DrainChordFirings,
        ],
    }
}

/// The ordered releases a lifecycle teardown for `reason` performs.
pub fn teardown_plan(reason: TeardownReason) -> (r: Vec<TeardownStep>)
    ensures
        r@ == teardown_steps(reason),
{
    let mut steps: Vec<TeardownStep> = Vec::new();
    match reason {
        TeardownReason::ProfileSwitch => {
            steps.push(TeardownStep::StopAllIndividualToggles);
            steps.push(TeardownStep::DrainIndividualFirings);
            steps.push(TeardownStep::ResetAxisOutputs);
            steps.push(TeardownStep::StopAllAnalogRepeats);
            steps.push(TeardownStep::StopAllStages);
            steps.push(TeardownStep::ResetChordMachine);
            steps.push(TeardownStep::StopAllChordToggles);
            steps.push(TeardownStep::DrainChordFirings);
        },
        _ => {
            steps.push(TeardownStep::ResetAxisOutputs);
            steps.push(TeardownStep::StopAllAnalogRepeats);
            steps.push(TeardownStep::StopAllStages);
            steps.push(TeardownStep::DrainIndividualFirings);
            steps.push(TeardownStep::ResetChordMachine);
            steps.push(TeardownStep::DrainChordFirings);
        },
    }
    assert(steps@ =~= teardown_steps(reason));
    steps
}

/// Every teardown drains every firing, resets the axes, the Analog-repeat
/// tasks, the deep slots and the Chord machine; only a Profile switch stops
/// Toggles, and then both individual and Chord ones.
pub proof fn only_a_profile_switch_stops_toggles(reason: TeardownReason)
    ensures
        teardown_steps(reason).contains(TeardownStep::StopAllIndividualToggles) <==> reason == TeardownReason::ProfileSwitch,
        teardown_steps(reason).contains(TeardownStep::StopAllChordToggles) <==> reason == TeardownReason::ProfileSwitch,
        teardown_steps(reason).contains(TeardownStep::ResetAxisOutputs),
        teardown_steps(reason).contains(TeardownStep::StopAllAnalogRepeats),
        teardown_steps(reason).contains(TeardownStep::StopAllStages),
        teardown_steps(reason).contains(TeardownStep::DrainIndividualFirings),
        teardown_steps(reason).contains(TeardownStep::ResetChordMachine),
        teardown_steps(reason).contains(TeardownStep::DrainChordFirings),
{
    let s = teardown_steps(reason);
    if reason == TeardownReason::ProfileSwitch {
        assert(s[0] == TeardownStep::StopAllIndividualToggles);
        assert(s[1] == TeardownStep::DrainIndividualFirings);
        assert(s[2] == TeardownStep::ResetAxisOutputs);
        assert(s[3] == TeardownStep::StopAllAnalogRepeats);
        assert(s[4] == TeardownStep::StopAllStages);
        assert(s[5] == TeardownStep::ResetChordMachine);
        assert(s[6] == TeardownStep::StopAllChordToggles);
        assert(s[7] == TeardownStep::DrainChordFirings);
    } else {
        assert(s[0] == TeardownStep::ResetAxisOutputs);
        assert(s[1] == TeardownStep::StopAllAnalogRepeats);
        assert(s[2] == TeardownStep::StopAllStages);
        assert(s[3] == TeardownStep::DrainIndividualFirings);
        assert(s[4] == TeardownStep::ResetChordMachine);
        assert(s[5] == TeardownStep::DrainChordFirings);
        assert(!s.contains(TeardownStep::StopAllIndividualToggles));
        assert(!s.contains(TeardownStep::StopAllChordToggles));
    }
}

/// The Layer a Mode-key edge selects under the Layer-switch role: `Down`
/// the Held Layer, `Up` the Base Layer, `Repeat` none.
pub open spec fn layer_for_edge(state: EventState) -> Option<Layer> {
    match state {
        EventState::Down => Some(Layer::Held),
        EventState::Up => Some(Layer::Base),
        EventState::Repeat => None,
    }
}

/// The Layer a Mode-key edge switches to from `active`, or `None` when the
/// edge changes nothing (an autorepeat, or the Layer already active).
pub open spec fn layer_switch_spec(active: Layer, state: EventState) -> Option<Layer> {
    match layer_for_edge(state) {
        Some(l) => if l == active { None } else { Some(l) },
        None => None,
    }
}

/// The Layer a Mode-key edge switches to from `active`, or `None` when the
/// edge changes nothing (an autorepeat, or the Layer already active).
pub fn layer_switch(active: Layer, state: EventState) -> (r: Option<Layer>)
    ensures
        r == layer_switch_spec(active, state),
{
    let new_layer = match state {
        EventState::Down => Layer::Held,
        EventState::Up => Layer::Base,
        EventState::Repeat => {
            return None;
        },
    };
    if new_layer == active {
        None
    } else {
        Some(new_layer)
    }
}

/// After a Mode-key edge the active Layer is the one the edge selects, and
/// the same edge again switches nothing: a Layer switch happens once per
/// actual transition.
pub proof fn a_mode_key_edge_switches_at_most_once(active: Layer, state: EventState)
    ensures
        ({
            let next = match layer_switch_spec(active, state) {
                Some(l) => l,
                None => active,
            };
            &&& layer_switch_spec(next, state) is None
            &&& state != EventState::Repeat ==> layer_for_edge(state) == Some(next)
        }),
{
}

/// What a capture-mode report does: whether it is an actual
/// transition, and the teardown the transition runs.
#[derive(Clone, Copy, Debug, PartialEq, Eq, Structural)]
pub struct Transition {
    pub changed: bool,
    pub teardown: Option<TeardownReason>,
}

/// What a connectivity report does: whether it is a transition, the
/// teardown it runs, and whether the active Profile's Status LEDs and
/// Lighting are asserted on the device again.
#[derive(Clone, Copy, Debug, PartialEq, Eq, Structural)]
pub struct ConnectionReport {
    pub changed: bool,
    pub teardown: Option<TeardownReason>,
    pub reassert_device_state: bool,
}

/// A connectivity report against the current state: a transition only when
/// it differs, a disconnect tears down, and every report of a connected
/// device — transition or not, since the firmware resets its lights on each
/// enumeration — asserts the Profile's lights again.
pub fn connection_report(connected_now: bool, reported: bool) -> (r: ConnectionReport)
    ensures
        r.changed == (connected_now != reported),
        r.teardown == if connected_now != reported && !reported { Some(TeardownReason::Disconnect) } else { None },
        r.reassert_device_state == reported,
{
    let changed = connected_now != reported;
    let teardown = if changed && !reported { Some(TeardownReason::Disconnect) } else { None };
    ConnectionReport { changed, teardown, reassert_device_state: reported }
}

/// Which capture path is running.
#[derive(Clone, Copy, Debug, PartialEq, Eq, Structural)]
pub enum CaptureMode {
    Digital,
    Analog,
}

/// A capture-mode report against the current mode: a transition only when
/// it differs, and a flip to Digital tears down.
pub fn capture_mode_transition(current: CaptureMode, reported: CaptureMode) -> (r: Transition)
    ensures
        r.changed == (current != reported),
        r.teardown == if current != reported && reported == CaptureMode::Digital {
            Some(TeardownReason::CaptureModeToDigital)
        } else {
            None
        },
{
    if current == reported {
        Transition { changed: false, teardown: None }
    } else {
        match reported {
            CaptureMode::Digital => Transition { changed: true, teardown: Some(TeardownReason::CaptureModeToDigital) },
            CaptureMode::Analog => Transition { changed: true, teardown: None },
        }
    }
}

/// What a Mode-key edge under the Layer-switch role does: the Layer it
/// makes active, the teardown that switch runs, and the Layer announced —
/// in that order, and all three only on an actual switch.
#[derive(Clone, Copy, Debug, PartialEq, Eq, Structural)]
pub struct LayerSwitchReport {
    pub new_layer: Option<Layer>,
    pub teardown: Option<TeardownReason>,
    pub announce: Option<Layer>,
}

/// The report of a Mode-key edge from `active`.
pub open spec fn layer_switch_report_spec(active: Layer, state: EventState) -> LayerSwitchReport {
    LayerSwitchReport {
        new_layer: layer_switch_spec(active, state),
        teardown: if layer_switch_spec(active, state) is Some { Some(TeardownReason::LayerSwitch) } else { None },
        announce: layer_switch_spec(active, state),
    }
}

/// Decides a Mode-key edge from `active`: `Down` makes the Held Layer
/// active and `Up` the Base Layer; an actual change runs the Layer-switch
/// teardown and announces the new Layer, while an autorepeat or an edge
/// selecting the Layer already active does nothing at all.
pub fn layer_switch_report(active: Layer, state: EventState) -> (r: LayerSwitchReport)
    ensures
        r == layer_switch_report_spec(active, state),
{
    match layer_switch(active, state) {
        Some(l) => LayerSwitchReport { new_layer: Some(l), teardown: Some(TeardownReason::LayerSwitch), announce: Some(l) },
        None => LayerSwitchReport { new_layer: None, teardown: None, announce: None },
    }
}

/// A Mode-key edge runs the Layer-switch teardown and announces a Layer
/// exactly when it changes the active Layer, and then the Layer it selects
/// is the one made active and announced.
pub proof fn a_layer_switch_tears_down_exactly_on_a_change(active: Layer, state: EventState)
    ensures
        ({
            let r = layer_switch_report_spec(active, state);
            &&& (r.teardown == Some(TeardownReason::LayerSwitch)) <==> (state != EventState::Repeat
                && layer_for_edge(state) != Some(active))
            &&& r.teardown is None ==> r.new_layer is None && r.announce is None
            &&& r.new_layer is Some ==> r.new_layer == layer_for_edge(state) && r.announce == r.new_layer
        }),
{
}

/// The first decision on a physical event.
#[derive(Clone, Copy, Debug, PartialEq, Eq, Structural)]
pub enum Interception {
    /// The Mode key under the Layer-switch role: never a Binding, never
    /// passed through; the report says what the edge switches.
    LayerSwitch(LayerSwitchReport),
    /// Evaluate against the Bindings; a `Down` first stops a live Toggle on
    /// the Input, and is consumed if one was running.
    Evaluate { stop_toggle_first: bool },
}

/// The first decision on `event` under the active Profile `profile` and
/// `active` Layer.
pub fn intercept(profile: &Profile, active: Layer, event: PhysicalEvent) -> (r: Interception)
    ensures
        r == if event.input == Input::ModeKey && profile@.mode_key_role == ModeKeyRole::LayerSwitch {
            Interception::LayerSwitch(layer_switch_report_spec(active, event.state))
        } else {
            Interception::Evaluate { stop_toggle_first: event.state == EventState::Down }
        },
{
    if event.input == Input::ModeKey && profile.mode_key_role == ModeKeyRole::LayerSwitch {
        Interception::LayerSwitch(layer_switch_report(active, event.state))
    } else {
        Interception::Evaluate { stop_toggle_first: event.state == EventState::Down }
    }
}

/// What an Axis assignment makes of an event.
#[derive(Clone, Copy, Debug, PartialEq, Eq, Structural)]
pub enum AxisRoute {
    /// The Input has no Axis assignment on the Layer.
    NotAssigned,
    /// A Digital-sourced edge on an assigned Input: the press/release
    /// step-increment fallback.
    StepDigital,
    /// An Analog-sourced edge on an assigned Input: swallowed, the live-Depth
    /// path drives the axis.
    Swallow,
}

/// What `event` means for the Axis assignments of the `active` Layer.
pub fn axis_route(profile: &Profile, active: Layer, event: PhysicalEvent) -> (r: AxisRoute)
    ensures
        r == if !layer_axes(profile@, active).dom().contains(event.input) {
            AxisRoute::NotAssigned
        } else if event.depth is None {
            AxisRoute::StepDigital
        } else {
            AxisRoute::Swallow
        },
{
    if !profile.axis_layer(active).contains_key(&event.input) {
        AxisRoute::NotAssigned
    } else if event.depth.is_none() {
        AxisRoute::StepDigital
    } else {
        AxisRoute::Swallow
    }
}

/// What an evaluated event does once any Toggle stop its `Down` asked for
/// has run.
#[derive(Clone, Copy, Debug, PartialEq, Eq, Structural)]
pub enum PressRoute {
    /// The `Down` stopped a running Toggle on its Input: the stop is the
    /// whole effect of the press — nothing fires, nothing is passed through,
    /// whatever the Input's Binding, and no edit results.
    Consumed,
    /// An Axis-assigned Input: its axis route, and nothing else.
    Axis(AxisRoute),
    /// On to the Chord and Staging machines, then the Binding lookup.
    Continue,
}

/// The route of an event after the Toggle stop: `toggle_stopped` says
/// whether its `Down` stopped a running Toggle on the Input.
pub open spec fn press_route_spec(p: ProfileView, active: Layer, event: PhysicalEvent, toggle_stopped: bool) -> PressRoute {
    if event.state == EventState::Down && toggle_stopped {
        PressRoute::Consumed
    } else if layer_axes(p, active).dom().contains(event.input) {
        PressRoute::Axis(if event.depth is None { AxisRoute::StepDigital } else { AxisRoute::Swallow })
    } else {
        PressRoute::Continue
    }
}

/// Decides an evaluated event once its `Down` has tried to stop a Toggle: a
/// press that stopped one is consumed; otherwise an Axis-assigned Input
/// takes its axis route, and any other goes on to the machines and the
/// Binding lookup.
pub fn press_route(profile: &Profile, active: Layer, event: PhysicalEvent, toggle_stopped: bool) -> (r: PressRoute)
    ensures
        r == press_route_spec(profile@, active, event, toggle_stopped),
{
    if event.state == EventState::Down && toggle_stopped {
        return PressRoute::Consumed;
    }
    match axis_route(profile, active, event) {
        AxisRoute::NotAssigned => PressRoute::Continue,
        route => PressRoute::Axis(route),
    }
}

/// A `Down` that stops a running Toggle is consumed, whatever the Input is
/// bound to; a press that stopped nothing is never consumed.
pub proof fn a_toggle_stopping_press_is_consumed(p: ProfileView, active: Layer, event: PhysicalEvent, toggle_stopped: bool)
    ensures
        (press_route_spec(p, active, event, toggle_stopped) == PressRoute::Consumed) <==> (event.state == EventState::Down
            && toggle_stopped),
{
}

/// What an ordinary Binding lookup makes of an event the Chord and Staging
/// machines left alone.
pub enum BindingRoute {
    /// An Analog-sourced edge on an Analog-repeat Binding: its firing comes
    /// from the depth-driven task alone.
    SwallowAnalog,
    /// A fresh `Down`: the individual-down path.
    IndividualDown,
    /// An unbound `Repeat`/`Up`: passed through unchanged.
    Passthrough,
    /// A `Repeat`/`Up` on a Profile Switch Binding: inert, its `Down` fired it.
    Inert,
    /// A `Repeat`/`Up` on another Binding: the Trigger-mode decision runs.
    Perform(Binding),
}

/// The view of a Binding route.
pub enum BindingRouteView {
    SwallowAnalog,
    IndividualDown,
    Passthrough,
    Inert,
    Perform(BindingView),
}

impl View for BindingRoute {
    type V = BindingRouteView;

    open spec fn view(&self) -> BindingRouteView {
        match self {
            BindingRoute::SwallowAnalog => BindingRouteView::SwallowAnalog,
            BindingRoute::IndividualDown => BindingRouteView::IndividualDown,
            BindingRoute::Passthrough => BindingRouteView::Passthrough,
            BindingRoute::Inert => BindingRouteView::Inert,
            BindingRoute::Perform(b) => BindingRouteView::Perform(b@),
        }
    }
}

/// The Binding route of `event` on the `active` Layer of `p`.
pub open spec fn binding_route_spec(p: ProfileView, active: Layer, event: PhysicalEvent) -> BindingRouteView {
    let bindings = layer_bindings(p, active);
    let bound = bindings.dom().contains(event.input);
    if bound && bindings[event.input].trigger == TriggerMode::AnalogRepeat && event.depth is Some {
        BindingRouteView::SwallowAnalog
    } else if event.state == EventState::Down {
        BindingRouteView::IndividualDown
    } else if !bound {
        BindingRouteView::Passthrough
    } else if bindings[event.input].action is ProfileSwitch {
        BindingRouteView::Inert
    } else {
        BindingRouteView::Perform(bindings[event.input])
    }
}

/// Routes `event` through the ordinary Binding lookup of the `active` Layer.
pub fn binding_route(profile: &Profile, active: Layer, event: PhysicalEvent) -> (r: BindingRoute)
    ensures
        r@ == binding_route_spec(profile@, active, event),
{
    let bindings = profile.layer(active);
    let binding = bindings.get(&event.input);
    if let Some(b) = binding {
        if b.trigger == TriggerMode::AnalogRepeat && event.depth.is_some() {
            return BindingRoute::SwallowAnalog;
        }
    }
    match event.state {
        EventState::Down => BindingRoute::IndividualDown,
        _ => match binding {
            None => BindingRoute::Passthrough,
            Some(b) => match &b.action {
                crate::config::Action::ProfileSwitch { .. } => BindingRoute::Inert,
                _ => BindingRoute::Perform(b.value_clone()),
            },
        },
    }
}

/// What a fresh `Down` on an Input does.
pub enum DownRoute {
    /// A Profile Switch Binding: the switch to commit.
    SwitchProfile(String),
    /// Another Binding: the Trigger-mode decision runs for a `Down`.
    Perform(Binding),
    /// Unbound: the `Down` is passed through.
    Passthrough,
}

/// The view of a down route.
pub enum DownRouteView {
    SwitchProfile(Seq<char>),
    Perform(BindingView),
    Passthrough,
}

impl View for DownRoute {
    type V = DownRouteView;

    open spec fn view(&self) -> DownRouteView {
        match self {
            DownRoute::SwitchProfile(n) => DownRouteView::SwitchProfile(n@),
            DownRoute::Perform(b) => DownRouteView::Perform(b@),
            DownRoute::Passthrough => DownRouteView::Passthrough,
        }
    }
}

/// The route of a fresh `Down` on `input` on the `active` Layer of `p`.
pub open spec fn individual_down_spec(p: ProfileView, active: Layer, input: Input) -> DownRouteView {
    let bindings = layer_bindings(p, active);
    if !bindings.dom().contains(input) {
        DownRouteView::Passthrough
    } else {
        match bindings[input].action {
            ActionView::ProfileSwitch { target } => DownRouteView::SwitchProfile(target),
            _ => DownRouteView::Perform(bindings[input]),
        }
    }
}

/// Decides a fresh `Down` on `input` against the `active` Layer: the
/// ordinary input path and a Chord member's retroactive firing share it.
pub fn individual_down(profile: &Profile, active: Layer, input: Input) -> (r: DownRoute)
    ensures
        r@ == individual_down_spec(profile@, active, input),
{
    match profile.layer(active).get(&input) {
        None => DownRoute::Passthrough,
        Some(b) => match &b.action {
            crate::config::Action::ProfileSwitch { target } => DownRoute::SwitchProfile(target.clone()),
            _ => DownRoute::Perform(b.value_clone()),
        },
    }
}

/// The Inputs whose Binding on the `active` Layer of `p` is Analog-repeat.
pub open spec fn analog_repeat_set(p: ProfileView, active: Layer) -> Set<Input> {
    Set::new(|i: Input| layer_bindings(p, active).dom().contains(i) && layer_bindings(p, active)[i].trigger == TriggerMode::AnalogRepeat)
}

/// The Inputs whose Binding on the `active` Layer is Analog-repeat, each
/// once.
pub fn analog_repeat_inputs(profile: &Profile, active: Layer) -> (r: Vec<Input>)
    ensures
        r@.no_duplicates(),
        r@.to_set() == analog_repeat_set(profile@, active),
{
    let bindings = profile.layer(active);
    let n = bindings.len();
    let mut out: Vec<Input> = Vec::new();
    let mut j: usize = 0;
    while j < n
        invariant
            n == bindings.key_seq().len(),
            bindings.key_seq().no_duplicates(),
            forall|x: Input| #[trigger] bindings@.dom().contains(x) <==> bindings.key_seq().contains(x),
            bindings@ == layer_bindings(profile@, active),
            j <= n,
            out@.no_duplicates(),
            forall|x: Input| #[trigger] out@.contains(x) ==> bindings.key_seq().subrange(0, j as int).contains(x),
            out@.to_set() == Set::new(
                |x: Input| bindings.key_seq().subrange(0, j as int).contains(x) && bindings@[x].trigger == TriggerMode::AnalogRepeat,
            ),
        decreases n - j,
    {
        let k = *bindings.key_at(j);
        let b = bindings.value_at(j);
        let ghost prev = out@;
        proof {
            lemma_prefix_step(bindings.key_seq(), j as int);
            if prev.contains(k) {
                let q = choose|q: int| 0 <= q < j && bindings.key_seq().subrange(0, j as int)[q] == k;
                assert(bindings.key_seq()[q] == bindings.key_seq()[j as int]);
            }
        }
        if b.trigger == TriggerMode::AnalogRepeat {
            out.push(k);
            proof {
                assert forall|x: Input| out@.contains(x) <==> (prev.contains(x) || x == k) by {
                    if out@.contains(x) && x != k {
                        let q = choose|q: int| 0 <= q < out@.len() && out@[q] == x;
                        assert(prev[q] == x);
                    }
                    if prev.contains(x) {
                        let q = choose|q: int| 0 <= q < prev.len() && prev[q] == x;
                        assert(out@[q] == x);
                    }
                    if x == k {
                        assert(out@[prev.len() as int] == x);
                    }
                }
                assert forall|x: Input| #[trigger] out@.contains(x) implies bindings.key_seq().subrange(0, j + 1).contains(x) by {
                    if x != k {
                        assert(prev.contains(x));
                    }
                }
                assert(out@.to_set() =~= prev.to_set().insert(k));
            }
        } else {
            proof {
                assert forall|x: Input| #[trigger] out@.contains(x) implies bindings.key_seq().subrange(0, j + 1).contains(x) by {
                    assert(prev.contains(x));
                }
            }
        }
        proof {
            assert(out@.to_set() =~= Set::new(
                |x: Input| bindings.key_seq().subrange(0, j + 1).contains(x) && bindings@[x].trigger == TriggerMode::AnalogRepeat,
            ));
        }
        j = j + 1;
    }
    proof {
        lemma_prefix_full(bindings.key_seq());
        assert(out@.to_set() =~= analog_repeat_set(profile@, active));
    }
    out
}

/// One operation on the dispatch task's runtime state.
pub enum RuntimeAction {
    PublishActuation,
    RecomputeAxes(Layer),
    ForgetAxisContribution(Input),
    SignalCaptureMode(bool),
    StopToggle(Input),
    TearDown(TeardownStep),
    StopStage(Input),
    StopChordToggle(ChordKey),
    StopChordFiring(ChordKey),
    ReconcileStepperCursor(StepperId),
    AnnounceProfileChange(String),
    PushStatusLeds,
}

/// The view of a runtime operation.
pub enum RuntimeActionView {
    PublishActuation,
    RecomputeAxes(Layer),
    ForgetAxisContribution(Input),
    SignalCaptureMode(bool),
    StopToggle(Input),
    TearDown(TeardownStep),
    StopStage(Input),
    StopChordToggle(Seq<Input>),
    StopChordFiring(Seq<Input>),
    ReconcileStepperCursor(Seq<char>),
    AnnounceProfileChange(Seq<char>),
    PushStatusLeds,
}

impl View for RuntimeAction {
    type V = RuntimeActionView;

    open spec fn view(&self) -> RuntimeActionView {
        match self {
            RuntimeAction::PublishActuation => RuntimeActionView::PublishActuation,
            RuntimeAction::RecomputeAxes(l) => RuntimeActionView::RecomputeAxes(*l),
            RuntimeAction::ForgetAxisContribution(i) => RuntimeActionView::ForgetAxisContribution(*i),
            RuntimeAction::SignalCaptureMode(b) => RuntimeActionView::SignalCaptureMode(*b),
            RuntimeAction::StopToggle(i) => RuntimeActionView::StopToggle(*i),
            RuntimeAction::TearDown(s) => RuntimeActionView::TearDown(*s),
            RuntimeAction::StopStage(i) => RuntimeActionView::StopStage(*i),
            RuntimeAction::StopChordToggle(k) => RuntimeActionView::StopChordToggle(k@),
            RuntimeAction::StopChordFiring(k) => RuntimeActionView::StopChordFiring(k@),
            RuntimeAction::ReconcileStepperCursor(s) => RuntimeActionView::ReconcileStepperCursor(s@),
            RuntimeAction::AnnounceProfileChange(n) => RuntimeActionView::AnnounceProfileChange(n@),
            RuntimeAction::PushStatusLeds => RuntimeActionView::PushStatusLeds,
        }
    }
}

/// The views of a list of runtime operations.
pub open spec fn action_views(v: Seq<RuntimeAction>) -> Seq<RuntimeActionView> {
    v.map_values(|a: RuntimeAction| a@)
}

/// What one committed effect does to the runtime state with `active` the
/// active Layer: an axis recompute for an inactive Layer does nothing; a
/// Chord stop stops its Toggle then releases its firing; a teardown runs the
/// matrix row of its reason.
pub open spec fn effect_actions_spec(e: EffectView, active: Layer) -> Seq<RuntimeActionView> {
    match e {
        EffectView::RepublishActuation => seq![RuntimeActionView::PublishActuation],
        EffectView::RecomputeAxes { layer } => if layer == active {
            seq![RuntimeActionView::RecomputeAxes(layer)]
        } else {
            Seq::empty()
        },
        EffectView::ForgetAxisContribution(i) => seq![RuntimeActionView::ForgetAxisContribution(i)],
        EffectView::SignalCaptureMode(b) => seq![RuntimeActionView::SignalCaptureMode(b)],
        EffectView::StopToggle(i) => seq![RuntimeActionView::StopToggle(i)],
        EffectView::TearDown(reason) => teardown_steps(reason).map_values(|s: TeardownStep| RuntimeActionView::TearDown(s)),
        EffectView::StopStage(i) => seq![RuntimeActionView::StopStage(i)],
        EffectView::StopChord(k) => seq![RuntimeActionView::StopChordToggle(k), RuntimeActionView::StopChordFiring(k)],
        EffectView::ReconcileStepperCursor(s) => seq![RuntimeActionView::ReconcileStepperCursor(s)],
        EffectView::AnnounceProfileChange(n) => seq![RuntimeActionView::AnnounceProfileChange(n)],
        EffectView::AssertStatusLeds => seq![RuntimeActionView::PushStatusLeds],
    }
}

/// What a list of committed effects does, in order.
pub open spec fn effects_actions_spec(effects: Seq<EffectView>, active: Layer) -> Seq<RuntimeActionView>
    decreases effects.len(),
{
    if effects.len() == 0 {
        Seq::empty()
    } else {
        effects_actions_spec(effects.drop_last(), active) + effect_actions_spec(effects.last(), active)
    }
}

fn push_action(out: &mut Vec<RuntimeAction>, a: RuntimeAction)
    ensures
        action_views(final(out)@) == action_views(old(out)@).push(a@),
{
    out.push(a);
    assert(action_views(out@) =~= action_views(old(out)@).push(a@));
}

fn push_effect_actions(out: &mut Vec<RuntimeAction>, effect: &Effect, active: Layer)
    ensures
        action_views(final(out)@) == action_views(old(out)@) + effect_actions_spec(effect@, active),
{
    let ghost start = action_views(out@);
    match effect {
        Effect::RepublishActuation => push_action(out, RuntimeAction::PublishActuation),
        Effect::RecomputeAxes { layer } => {
            if *layer == active {
                push_action(out, RuntimeAction::RecomputeAxes(*layer));
            }
        },
        Effect::ForgetAxisContribution(i) => push_action(out, RuntimeAction::ForgetAxisContribution(*i)),
        Effect::SignalCaptureMode(b) => push_action(out, RuntimeAction::SignalCaptureMode(*b)),
        Effect::StopToggle(i) => push_action(out, RuntimeAction::StopToggle(*i)),
        Effect::TearDown(reason) => {
            let steps = teardown_plan(*reason);
            let mut i: usize = 0;
            while i < steps.len()
                invariant
                    i <= steps@.len(),
                    steps@ == teardown_steps(*reason),
                    action_views(out@) == start + steps@.subrange(0, i as int).map_values(|s: TeardownStep| RuntimeActionView::TearDown(s)),
                decreases steps@.len() - i,
            {
                push_action(out, RuntimeAction::TearDown(steps[i]));
                assert(steps@.subrange(0, i + 1).map_values(|s: TeardownStep| RuntimeActionView::TearDown(s))
                    =~= steps@.subrange(0, i as int).map_values(|s: TeardownStep| RuntimeActionView::TearDown(s)).push(RuntimeActionView::TearDown(steps@[i as int])));
                i = i + 1;
            }
            assert(steps@.subrange(0, steps@.len() as int) =~= steps@);
        },
        Effect::StopStage(i) => push_action(out, RuntimeAction::StopStage(*i)),
        Effect::StopChord(k) => {
            push_action(out, RuntimeAction::StopChordToggle(k.duplicate()));
            push_action(out, RuntimeAction::StopChordFiring(k.duplicate()));
        },
        Effect::ReconcileStepperCursor(s) => push_action(out, RuntimeAction::ReconcileStepperCursor(s.key_clone())),
        Effect::AnnounceProfileChange(n) => push_action(out, RuntimeAction::AnnounceProfileChange(n.clone())),
        Effect::AssertStatusLeds => push_action(out, RuntimeAction::PushStatusLeds),
    }
    assert(action_views(out@) =~= start + effect_actions_spec(effect@, active));
}

/// What the dispatch task does, in order, for the effects a committed edit
/// returned, with `active` the active Layer.
pub fn effect_plan(effects: &Vec<Effect>, active: Layer) -> (r: Vec<RuntimeAction>)
    ensures
        action_views(r@) == effects_actions_spec(effect_views(effects@), active),
{
    let mut out: Vec<RuntimeAction> = Vec::new();
    let mut i: usize = 0;
    assert(action_views(out@) =~= Seq::<RuntimeActionView>::empty());
    assert(effect_views(effects@).subrange(0, 0) =~= Seq::<EffectView>::empty());
    while i < effects.len()
        invariant
            i <= effects@.len(),
            action_views(out@) == effects_actions_spec(effect_views(effects@).subrange(0, i as int), active),
        decreases effects@.len() - i,
    {
        push_effect_actions(&mut out, &effects[i], active);
        assert(effect_views(effects@).subrange(0, i + 1).drop_last() =~= effect_views(effects@).subrange(0, i as int));
        i = i + 1;
    }
    assert(effect_views(effects@).subrange(0, effects@.len() as int) =~= effect_views(effects@));
    out
}

/// What the backlight is sent for a Profile.
#[derive(Clone, Copy, Debug, PartialEq, Eq, Structural)]
pub struct LightingState {
    pub assignment: LightingAssignment,
    pub brightness: u8,
}

/// The backlight state of the active Profile `profile`: its assignment and
/// brightness.
pub fn lighting_state(profile: &Profile) -> (r: LightingState)
    ensures
        r == (LightingState { assignment: profile@.lighting, brightness: profile@.brightness }),
{
    LightingState { assignment: profile.lighting, brightness: profile.brightness }
}

/// What the Chord-detection machine asks the dispatch task to perform.
pub enum ChordEffect {
    /// Run the Trigger-mode decision for the Chord's Binding on this edge.
    FireChord { key: ChordKey, binding: Binding, state: EventState },
    /// Force-release the Chord's live firing.
    ReleaseChordFiring { key: ChordKey },
    /// Stop the Chord's running Toggle.
    StopChordToggle { key: ChordKey },
    /// A member's own Binding fires retroactively, as a fresh `Down`.
    FireIndividual { input: Input },
    /// Force-release a member's own live firing.
    ForceReleaseIndividual { input: Input },
}

/// The view of a Chord effect.
pub enum ChordEffectView {
    FireChord { key: Seq<Input>, binding: BindingView, state: EventState },
    ReleaseChordFiring { key: Seq<Input> },
    StopChordToggle { key: Seq<Input> },
    FireIndividual { input: Input },
    ForceReleaseIndividual { input: Input },
}

impl View for ChordEffect {
    type V = ChordEffectView;

    open spec fn view(&self) -> ChordEffectView {
        match self {
            ChordEffect::FireChord { key, binding, state } => ChordEffectView::FireChord { key: key@, binding: binding@, state: *state },
            ChordEffect::ReleaseChordFiring { key } => ChordEffectView::ReleaseChordFiring { key: key@ },
            ChordEffect::StopChordToggle { key } => ChordEffectView::StopChordToggle { key: key@ },
            ChordEffect::FireIndividual { input } => ChordEffectView::FireIndividual { input: *input },
            ChordEffect::ForceReleaseIndividual { input } => ChordEffectView::ForceReleaseIndividual { input: *input },
        }
    }
}

/// One operation the dispatch task performs for a Chord effect.
pub enum ChordAction {
    /// The Trigger-mode decision for the Chord's Binding, against the
    /// Chord's own firing and Toggle.
    PerformChord { key: ChordKey, binding: Binding, state: EventState },
    ReleaseChordFiring(ChordKey),
    StopChordToggle(ChordKey),
    /// A member's own Binding is a Profile Switch: the switch to commit.
    SwitchProfile(String),
    /// A member's own Binding runs its Trigger-mode decision for a `Down`.
    PerformIndividual { input: Input, binding: Binding },
    /// A member without a Binding: its `Down` is passed through.
    PassthroughDown(Input),
    ForceReleaseIndividual(Input),
}

/// The view of a Chord operation.
pub enum ChordActionView {
    PerformChord { key: Seq<Input>, binding: BindingView, state: EventState },
    ReleaseChordFiring(Seq<Input>),
    StopChordToggle(Seq<Input>),
    SwitchProfile(Seq<char>),
    PerformIndividual { input: Input, binding: BindingView },
    PassthroughDown(Input),
    ForceReleaseIndividual(Input),
}

impl View for ChordAction {
    type V = ChordActionView;

    open spec fn view(&self) -> ChordActionView {
        match self {
            ChordAction::PerformChord { key, binding, state } => ChordActionView::PerformChord {
                key: key@,
                binding: binding@,
                state: *state,
            },
            ChordAction::ReleaseChordFiring(k) => ChordActionView::ReleaseChordFiring(k@),
            ChordAction::StopChordToggle(k) => ChordActionView::StopChordToggle(k@),
            ChordAction::SwitchProfile(n) => ChordActionView::SwitchProfile(n@),
            ChordAction::PerformIndividual { input, binding } => ChordActionView::PerformIndividual { input: *input, binding: binding@ },
            ChordAction::PassthroughDown(i) => ChordActionView::PassthroughDown(*i),
            ChordAction::ForceReleaseIndividual(i) => ChordActionView::ForceReleaseIndividual(*i),
        }
    }
}

/// What one Chord effect becomes on the `active` Layer of `p`: a member's
/// retroactive firing takes the fresh-`Down` route of its own Binding.
pub open spec fn chord_action_spec(e: ChordEffectView, p: ProfileView, active: Layer) -> ChordActionView {
    match e {
        ChordEffectView::FireChord { key, binding, state } => ChordActionView::PerformChord { key, binding, state },
        ChordEffectView::ReleaseChordFiring { key } => ChordActionView::ReleaseChordFiring(key),
        ChordEffectView::StopChordToggle { key } => ChordActionView::StopChordToggle(key),
        ChordEffectView::FireIndividual { input } => match individual_down_spec(p, active, input) {
            DownRouteView::SwitchProfile(n) => ChordActionView::SwitchProfile(n),
            DownRouteView::Perform(b) => ChordActionView::PerformIndividual { input, binding: b },
            DownRouteView::Passthrough => ChordActionView::PassthroughDown(input),
        },
        ChordEffectView::ForceReleaseIndividual { input } => ChordActionView::ForceReleaseIndividual(input),
    }
}

/// The views of a list of Chord operations.
pub open spec fn chord_action_views(v: Seq<ChordAction>) -> Seq<ChordActionView> {
    v.map_values(|a: ChordAction| a@)
}

/// The views of a list of Chord effects.
pub open spec fn chord_effect_views(v: Seq<ChordEffect>) -> Seq<ChordEffectView> {
    v.map_values(|e: ChordEffect| e@)
}

fn chord_action(effect: &ChordEffect, profile: &Profile, active: Layer) -> (r: ChordAction)
    ensures
        r@ == chord_action_spec(effect@, profile@, active),
{
    match effect {
        ChordEffect::FireChord { key, binding, state } => ChordAction::PerformChord {
            key: key.duplicate(),
            binding: binding.value_clone(),
            state: *state,
        },
        ChordEffect::ReleaseChordFiring { key } => ChordAction::ReleaseChordFiring(key.duplicate()),
        ChordEffect::StopChordToggle { key } => ChordAction::StopChordToggle(key.duplicate()),
        ChordEffect::FireIndividual { input } => match individual_down(profile, active, *input) {
            DownRoute::SwitchProfile(n) => ChordAction::SwitchProfile(n),
            DownRoute::Perform(b) => ChordAction::PerformIndividual { input: *input, binding: b },
            DownRoute::Passthrough => ChordAction::PassthroughDown(*input),
        },
        ChordEffect::ForceReleaseIndividual { input } => ChordAction::ForceReleaseIndividual(*input),
    }
}

/// What the dispatch task does, in order, for the effects the Chord machine
/// decided, with `profile` the active Profile and `active` the active
/// Layer: one operation per effect.
pub fn chord_effect_plan(effects: &Vec<ChordEffect>, profile: &Profile, active: Layer) -> (r: Vec<ChordAction>)
    ensures
        chord_action_views(r@) == chord_effect_views(effects@).map_values(
            |e: ChordEffectView| chord_action_spec(e, profile@, active),
        ),
{
    let mut out: Vec<ChordAction> = Vec::new();
    let mut i: usize = 0;
    while i < effects.len()
        invariant
            i <= effects@.len(),
            chord_action_views(out@) == chord_effect_views(effects@).subrange(0, i as int).map_values(
                |e: ChordEffectView| chord_action_spec(e, profile@, active),
            ),
        decreases effects@.len() - i,
    {
        let a = chord_action(&effects[i], profile, active);
        let ghost prev = out@;
        out.push(a);
        assert(chord_action_views(out@) =~= chord_action_views(prev).push(out@[i as int]@));
        assert(chord_effect_views(effects@).subrange(0, i + 1).map_values(|e: ChordEffectView| chord_action_spec(e, profile@, active))
            =~= chord_effect_views(effects@).subrange(0, i as int).map_values(|e: ChordEffectView| chord_action_spec(e, profile@, active)).push(
            chord_action_spec(effects@[i as int]@, profile@, active)));
        i = i + 1;
    }
    assert(chord_effect_views(effects@).subrange(0, effects@.len() as int) =~= chord_effect_views(effects@));
    out
}


/// A runtime command the dispatch task answers.
#[derive(Clone, Copy, Debug, PartialEq, Eq, Structural)]
pub enum RuntimeCommand {
    GetConfig,
    GetState,
    StopAllToggles,
    Apply,
}

/// One step of answering a runtime command.
#[derive(Clone, Copy, Debug, PartialEq, Eq, Structural)]
pub enum CommandStep {
    /// Send a copy of the configuration back.
    SendConfig,
    /// Send a snapshot of the runtime state back.
    SendState,
    /// Stop every individual Toggle.
    StopIndividualToggles,
    /// Stop every deep-stage Toggle.
    StopStageToggles,
    /// Acknowledge the command.
    SendDone,
    /// Send the committed edit's minted id (if any) back.
    SendCreated,
    /// Run the committed edit's effects.
    RunEffects,
    /// Send the refusal back.
    SendRefusal,
}

/// How a command is answered; for `Apply`, `committed` says whether the edit
/// was planned and stored. Stopping every Toggle drains the individual and
/// the deep-stage Toggles and leaves the Chord Toggles running; a committed
/// edit is answered before its effects run, a refused one runs nothing.
pub open spec fn command_steps(cmd: RuntimeCommand, committed: bool) -> Seq<CommandStep> {
    match cmd {
        RuntimeCommand::GetConfig => seq![CommandStep::SendConfig],
        RuntimeCommand::GetState => seq![CommandStep::SendState],
        RuntimeCommand::StopAllToggles => seq![
            CommandStep::StopIndividualToggles,
            CommandStep::StopStageToggles,
            CommandStep::SendDone,
        ],
        RuntimeCommand::Apply => if committed {
            seq![CommandStep::SendCreated, CommandStep::RunEffects]
        } else {
            seq![CommandStep::SendRefusal]
        },
    }
}

/// The ordered steps that answer `cmd`.
pub fn command_plan(cmd: RuntimeCommand, committed: bool) -> (r: Vec<CommandStep>)
    ensures
        r@ == command_steps(cmd, committed),
{
    let mut steps: Vec<CommandStep> = Vec::new();
    match cmd {
        RuntimeCommand::GetConfig => steps.push(CommandStep::SendConfig),
        RuntimeCommand::GetState => steps.push(CommandStep::SendState),
        RuntimeCommand::StopAllToggles => {
            steps.push(CommandStep::StopIndividualToggles);
            steps.push(CommandStep::StopStageToggles);
            steps.push(CommandStep::SendDone);
        },
        RuntimeCommand::Apply => {
            if committed {
                steps.push(CommandStep::SendCreated);
                steps.push(CommandStep::RunEffects);
            } else {
                steps.push(CommandStep::SendRefusal);
            }
        },
    }
    assert(steps@ =~= command_steps(cmd, committed));
    steps
}

/// The step that sends the answer back.
pub open spec fn is_reply(s: CommandStep) -> bool {
    s == CommandStep::SendConfig || s == CommandStep::SendState || s == CommandStep::SendDone
        || s == CommandStep::SendCreated || s == CommandStep::SendRefusal
}

/// Every command is answered exactly once, by its last step unless a
/// committed edit's effects follow; an edit's effects run only when it was
/// committed, and only after the answer; stopping every Toggle answers only
/// once both kinds of Toggle are stopped.
pub proof fn every_command_is_answered_once(cmd: RuntimeCommand, committed: bool)
    ensures
        ({
            let s = command_steps(cmd, committed);
            &&& s.filter(|x: CommandStep| is_reply(x)).len() == 1
            &&& s.contains(CommandStep::RunEffects) <==> (cmd == RuntimeCommand::Apply && committed)
            &&& s.contains(CommandStep::RunEffects) ==> s[0] == CommandStep::SendCreated
                && s.last() == CommandStep::RunEffects
            &&& !s.contains(CommandStep::RunEffects) ==> is_reply(s.last())
            &&& cmd == RuntimeCommand::StopAllToggles ==> s.subrange(0, s.len() - 1)
                =~= seq![CommandStep::StopIndividualToggles, CommandStep::StopStageToggles]
        }),
{
    let s = command_steps(cmd, committed);
    reveal_with_fuel(Seq::filter, 4);
    match cmd {
        RuntimeCommand::GetConfig => {
            assert(s.drop_last() =~= Seq::<CommandStep>::empty());
        },
        RuntimeCommand::GetState => {
            assert(s.drop_last() =~= Seq::<CommandStep>::empty());
        },
        RuntimeCommand::StopAllToggles => {
            assert(s.drop_last() =~= seq![CommandStep::StopIndividualToggles, CommandStep::StopStageToggles]);
            assert(!s.contains(CommandStep::RunEffects)) by {
                assert(s[0] != CommandStep::RunEffects && s[1] != CommandStep::RunEffects && s[2] != CommandStep::RunEffects);
            }
        },
        RuntimeCommand::Apply => {
            if committed {
                assert(s[1] == CommandStep::RunEffects);
            } else {
                assert(s[0] != CommandStep::RunEffects);
            }
        },
    }
}


/// A release or a repeat on a bound Input — other than an Analog-sourced edge
/// of an Analog-repeat Binding — runs that very Binding's Trigger-mode
/// decision unless the Binding is a Profile Switch; only a Profile Switch's
/// release or repeat is inert; an unbound Input's release or repeat passes
/// through; a fresh `Down` always goes to the individual-down path unless
/// the depth-driven task owns it.
pub proof fn a_release_runs_its_own_binding(p: ProfileView, active: Layer, event: PhysicalEvent)
    ensures
        ({
            let bindings = layer_bindings(p, active);
            let bound = bindings.dom().contains(event.input);
            let owned_by_depth = bound && bindings[event.input].trigger == TriggerMode::AnalogRepeat && event.depth is Some;
            let r = binding_route_spec(p, active, event);
            &&& (r == BindingRouteView::SwallowAnalog) <==> owned_by_depth
            &&& (bound && event.state != EventState::Down && !owned_by_depth && !(bindings[event.input].action is ProfileSwitch))
                ==> r == BindingRouteView::Perform(bindings[event.input])
            &&& (r == BindingRouteView::Inert) <==> (bound && event.state != EventState::Down && !owned_by_depth
                && bindings[event.input].action is ProfileSwitch)
            &&& r is Perform ==> bound && event.state != EventState::Down && r->Perform_0 == bindings[event.input]
            &&& (!bound && event.state != EventState::Down) ==> r == BindingRouteView::Passthrough
            &&& (event.state == EventState::Down && !owned_by_depth) ==> r == BindingRouteView::IndividualDown
        }),
{
}

/// A fresh `Down` on an unbound Input passes through; on a Profile Switch it
/// switches to that very target; on any other Binding it runs that very
/// Binding.
pub proof fn a_press_runs_its_own_binding(p: ProfileView, active: Layer, input: Input)
    ensures
        ({
            let bindings = layer_bindings(p, active);
            let r = individual_down_spec(p, active, input);
            &&& !bindings.dom().contains(input) <==> r == DownRouteView::Passthrough
            &&& bindings.dom().contains(input) ==> match bindings[input].action {
                ActionView::ProfileSwitch { target } => r == DownRouteView::SwitchProfile(target),
                _ => r == DownRouteView::Perform(bindings[input]),
            }
        }),
{
}

/// On an Axis-assigned Input, an event that stopped no Toggle takes the
/// step-increment fallback exactly when it has no depth and is swallowed
/// exactly when it has one, whatever its edge — so a Digital press and its
/// release both step the axis; an Input with no Axis assignment never takes
/// an axis route.
pub proof fn an_axis_key_steps_on_every_digital_edge(p: ProfileView, active: Layer, event: PhysicalEvent, toggle_stopped: bool)
    ensures
        layer_axes(p, active).dom().contains(event.input) && !(event.state == EventState::Down && toggle_stopped) ==> {
            &&& (press_route_spec(p, active, event, toggle_stopped) == PressRoute::Axis(AxisRoute::StepDigital)) <==> event.depth is None
            &&& (press_route_spec(p, active, event, toggle_stopped) == PressRoute::Axis(AxisRoute::Swallow)) <==> event.depth is Some
        },
        !layer_axes(p, active).dom().contains(event.input) ==> !(press_route_spec(p, active, event, toggle_stopped) is Axis),
        forall|s1: EventState, s2: EventState|
            #![trigger press_route_spec(p, active, PhysicalEvent { state: s1, ..event }, false), press_route_spec(p, active, PhysicalEvent { state: s2, ..event }, false)]
            press_route_spec(p, active, PhysicalEvent { state: s1, ..event }, false)
                == press_route_spec(p, active, PhysicalEvent { state: s2, ..event }, false),
{
}

/// The plan of a list of effects is the plans of its parts, in order:
/// splitting the list splits the plan.
pub proof fn an_effect_plan_follows_its_effects(a: Seq<EffectView>, b: Seq<EffectView>, active: Layer)
    ensures
        effects_actions_spec(a + b, active) == effects_actions_spec(a, active) + effects_actions_spec(b, active),
    decreases b.len(),
{
    if b.len() == 0 {
        assert(a + b =~= a);
        assert(effects_actions_spec(a, active) + effects_actions_spec(b, active) =~= effects_actions_spec(a, active));
    } else {
        an_effect_plan_follows_its_effects(a, b.drop_last(), active);
        assert((a + b).drop_last() =~= a + b.drop_last());
        assert((a + b).last() == b.last());
        assert(effects_actions_spec(a + b, active) =~= effects_actions_spec(a, active) + effects_actions_spec(b, active));
    }
}

/// A Toggle stop in a committed edit's effects stops exactly that Toggle,
/// once, at its place in the plan: the plan of the effects before it, then
/// the stop, then the plan of the effects after it; and no other effect
/// stops an individual Toggle.
pub proof fn a_stop_toggle_effect_stops_exactly_its_toggle(effects: Seq<EffectView>, k: int, active: Layer, i: Input)
    requires
        0 <= k < effects.len(),
    ensures
        effects[k] == EffectView::StopToggle(i) ==> effects_actions_spec(effects, active)
            == effects_actions_spec(effects.take(k), active) + seq![RuntimeActionView::StopToggle(i)]
                + effects_actions_spec(effects.skip(k + 1), active),
        effect_actions_spec(effects[k], active).contains(RuntimeActionView::StopToggle(i))
            <==> effects[k] == EffectView::StopToggle(i),
{
    let e = effects[k];
    assert(effects =~= effects.take(k) + seq![e] + effects.skip(k + 1));
    an_effect_plan_follows_its_effects(effects.take(k) + seq![e], effects.skip(k + 1), active);
    an_effect_plan_follows_its_effects(effects.take(k), seq![e], active);
    assert(seq![e].drop_last() =~= Seq::<EffectView>::empty());
    assert(seq![e].last() == e);
    assert(effects_actions_spec(Seq::<EffectView>::empty(), active) =~= Seq::<RuntimeActionView>::empty());
    assert(effects_actions_spec(seq![e], active) == effects_actions_spec(seq![e].drop_last(), active) + effect_actions_spec(e, active));
    assert(effects_actions_spec(seq![e], active) =~= effect_actions_spec(e, active));
    let acts = effect_actions_spec(e, active);
    if acts.contains(RuntimeActionView::StopToggle(i)) {
        let q = choose|q: int| 0 <= q < acts.len() && acts[q] == RuntimeActionView::StopToggle(i);
        match e {
            EffectView::RecomputeAxes { layer } => {
                if layer != active {
                    assert(acts.len() == 0);
                }
            },
            EffectView::TearDown(reason) => {
                assert(acts[q] == RuntimeActionView::TearDown(teardown_steps(reason)[q]));
            },
            _ => {},
        }
    }
    if e == EffectView::StopToggle(i) {
        assert(acts[0] == RuntimeActionView::StopToggle(i));
    }
}


/// The Mode key under the Layer-switch role: a press from the Base Layer
/// switches to the Held Layer and a release from the Held Layer back to
/// Base, each with the Layer-switch teardown and an announcement of the new
/// Layer; an autorepeat, a press while Held and a release while Base change
/// nothing at all.
pub proof fn the_mode_key_holds_the_held_layer(active: Layer, state: EventState)
    ensures
        layer_switch_report_spec(Layer::Base, EventState::Down) == (LayerSwitchReport {
            new_layer: Some(Layer::Held),
            teardown: Some(TeardownReason::LayerSwitch),
            announce: Some(Layer::Held),
        }),
        layer_switch_report_spec(Layer::Held, EventState::Up) == (LayerSwitchReport {
            new_layer: Some(Layer::Base),
            teardown: Some(TeardownReason::LayerSwitch),
            announce: Some(Layer::Base),
        }),
        (state == EventState::Repeat || (state == EventState::Down && active == Layer::Held) || (state == EventState::Up
            && active == Layer::Base)) ==> layer_switch_report_spec(active, state) == (LayerSwitchReport {
            new_layer: None,
            teardown: None,
            announce: None,
        }),
{
}

/// A Chord machine effect becomes the operation it names on the same Chord
/// key or Input: a Chord firing performs exactly the Chord's Binding on its
/// edge; a member's retroactive firing takes exactly the route a fresh
/// `Down` on that member takes; stops and releases keep their key or Input.
pub proof fn a_chord_effect_acts_on_its_own_key(e: ChordEffectView, p: ProfileView, active: Layer)
    ensures
        e matches ChordEffectView::FireChord { key, binding, state } ==> chord_action_spec(e, p, active)
            == (ChordActionView::PerformChord { key, binding, state }),
        e matches ChordEffectView::ReleaseChordFiring { key } ==> chord_action_spec(e, p, active)
            == ChordActionView::ReleaseChordFiring(key),
        e matches ChordEffectView::StopChordToggle { key } ==> chord_action_spec(e, p, active)
            == ChordActionView::StopChordToggle(key),
        e matches ChordEffectView::ForceReleaseIndividual { input } ==> chord_action_spec(e, p, active)
            == ChordActionView::ForceReleaseIndividual(input),
        e matches ChordEffectView::FireIndividual { input } ==> {
            let bindings = layer_bindings(p, active);
            &&& !bindings.dom().contains(input) ==> chord_action_spec(e, p, active) == ChordActionView::PassthroughDown(input)
            &&& bindings.dom().contains(input) ==> match bindings[input].action {
                ActionView::ProfileSwitch { target } => chord_action_spec(e, p, active) == ChordActionView::SwitchProfile(target),
                _ => chord_action_spec(e, p, active) == (ChordActionView::PerformIndividual { input, binding: bindings[input] }),
            }
        },
{
}

/// Each committed effect becomes the runtime operations it names, on the
/// same Input, Chord key, Stepper, name or flag: an actuation republish,
/// an axis recompute only for the active Layer, a contribution forget, a
/// capture-mode signal, a Toggle stop, the teardown matrix row of its
/// reason, a stage stop, a Chord's Toggle stop then firing release, a
/// cursor reconcile, a Profile announcement, an LED push.
pub proof fn each_effect_becomes_its_own_operations(e: EffectView, active: Layer)
    ensures
        e == EffectView::RepublishActuation ==> effect_actions_spec(e, active) == seq![RuntimeActionView::PublishActuation],
        e matches EffectView::RecomputeAxes { layer } ==> effect_actions_spec(e, active)
            == if layer == active { seq![RuntimeActionView::RecomputeAxes(layer)] } else { Seq::empty() },
        e matches EffectView::ForgetAxisContribution(i) ==> effect_actions_spec(e, active)
            == seq![RuntimeActionView::ForgetAxisContribution(i)],
        e matches EffectView::SignalCaptureMode(b) ==> effect_actions_spec(e, active) == seq![RuntimeActionView::SignalCaptureMode(b)],
        e matches EffectView::StopToggle(i) ==> effect_actions_spec(e, active) == seq![RuntimeActionView::StopToggle(i)],
        e matches EffectView::TearDown(reason) ==> {
            &&& effect_actions_spec(e, active).len() == teardown_steps(reason).len()
            &&& forall|q: int| 0 <= q < teardown_steps(reason).len() ==> #[trigger] effect_actions_spec(e, active)[q]
                == RuntimeActionView::TearDown(teardown_steps(reason)[q])
        },
        e matches EffectView::StopStage(i) ==> effect_actions_spec(e, active) == seq![RuntimeActionView::StopStage(i)],
        e matches EffectView::StopChord(k) ==> effect_actions_spec(e, active)
            == seq![RuntimeActionView::StopChordToggle(k), RuntimeActionView::StopChordFiring(k)],
        e matches EffectView::ReconcileStepperCursor(s) ==> effect_actions_spec(e, active)
            == seq![RuntimeActionView::ReconcileStepperCursor(s)],
        e matches EffectView::AnnounceProfileChange(n) ==> effect_actions_spec(e, active)
            == seq![RuntimeActionView::AnnounceProfileChange(n)],
        e == EffectView::AssertStatusLeds ==> effect_actions_spec(e, active) == seq![RuntimeActionView::PushStatusLeds],
{
}


/// The Analog-repeat Inputs of the active Layer are exactly its bound
/// Inputs whose Binding uses the Analog-repeat trigger.
pub proof fn the_analog_repeat_inputs_are_its_analog_repeat_bindings(p: ProfileView, active: Layer, i: Input)
    ensures
        analog_repeat_set(p, active).contains(i) <==> (layer_bindings(p, active).dom().contains(i)
            && layer_bindings(p, active)[i].trigger == TriggerMode::AnalogRepeat),
{
}

} // verus!
