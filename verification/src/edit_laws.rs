//! What each committed edit does to the configuration and which effects it
//! ends with, stated over the configurations before and after.

use vstd::prelude::*;
use crate::config::{
    ActionView, ActuationPoint, AxisTarget, Binding, Config, ConfigView, ModeKeyRole, ProfileView, StagingMode,
    StatusLeds, active_of, chord_key_of, empty_profile, has_active_profile, layer_axes, layer_bindings, layer_chords,
    layer_deep,
};
use crate::edit::{CommandError, CommandErrorView, Edit, EffectView, Outcome, TeardownReason, effect_views, plan_arm, plan_holds, teardown_effects};
use crate::input::{Input, Layer};
use crate::config::{StepperItem, MacroStepDto, MacroId, StepperId};
use crate::rules::{config_valid, is_blank, violates};

verus! {

/// Only the active Profile may differ between `c` and `n`: the active name,
/// the Digital flag, both libraries and every other Profile stay.
pub open spec fn only_active_profile_changed(c: ConfigView, n: ConfigView) -> bool {
    &&& n.active_profile == c.active_profile
    &&& n.force_digital == c.force_digital
    &&& n.macros == c.macros
    &&& n.steppers == c.steppers
    &&& n.profiles.dom() == c.profiles.dom()
    &&& forall|q: Seq<char>| #[trigger] c.profiles.dom().contains(q) && q != c.active_profile ==> n.profiles[q] == c.profiles[q]
}

/// The effects of a committed plan end with `tail`.
pub open spec fn ends_with(r: Result<(Config, Outcome), CommandError>, tail: Seq<EffectView>) -> bool {
    let e = effect_views(r->Ok_0.1.effects@);
    e.len() >= tail.len() && e.skip(e.len() - tail.len()) == tail
}

/// A committed plan is the arm's configuration, and its effects end with the
/// arm's own.
proof fn lemma_committed(c: ConfigView, edit: Edit, r: Result<(Config, Outcome), CommandError>)
    requires
        plan_holds(c, edit, r),
        r is Ok,
    ensures
        plan_arm(c, edit) is Planned,
        r->Ok_0.0@ == plan_arm(c, edit)->Planned_0,
        ends_with(r, plan_arm(c, edit)->Planned_1),
{
    let arm = plan_arm(c, edit)->Planned_1;
    let td = choose|td: Seq<EffectView>|
        teardown_effects(c, r->Ok_0.0@, td) && effect_views(r->Ok_0.1.effects@) == td + arm;
    let e = effect_views(r->Ok_0.1.effects@);
    assert(e.skip(e.len() - arm.len()) =~= arm);
}

/// A committed write of a primary Binding leaves exactly that Binding on its
/// Input in the active Profile. Unless it steps a Stepper (which takes the
/// step off every other Binding), nothing else changes: the rest of that
/// Layer, the other Layer and every other Profile stay.
pub proof fn a_written_binding_is_in_place(
    c: ConfigView,
    input: Input,
    layer: Layer,
    binding: Binding,
    r: Result<(Config, Outcome), CommandError>,
)
    requires
        has_active_profile(c),
        plan_holds(c, Edit::SetBinding { input, layer, binding }, r),
        r is Ok,
    ensures
        r->Ok_0.0@.active_profile == c.active_profile,
        layer_bindings(active_of(r->Ok_0.0@), layer).dom().contains(input),
        layer_bindings(active_of(r->Ok_0.0@), layer)[input] == binding@,
        !(binding@.action is Step) ==> {
            &&& only_active_profile_changed(c, r->Ok_0.0@)
            &&& layer_bindings(active_of(r->Ok_0.0@), layer) == layer_bindings(active_of(c), layer).insert(input, binding@)
            &&& forall|l: Layer| l != layer ==> layer_bindings(active_of(r->Ok_0.0@), l) == layer_bindings(active_of(c), l)
            &&& forall|l: Layer| layer_chords(active_of(r->Ok_0.0@), l) == layer_chords(active_of(c), l)
        },
{
    lemma_committed(c, Edit::SetBinding { input, layer, binding }, r);
    reveal(plan_arm);
    if !(binding@.action is Step) {
        assert(r->Ok_0.0@.profiles.dom() =~= c.profiles.dom());
    }
}

/// A committed clear of a primary Binding removes it and the deep Binding on
/// the same Input and Layer, and nothing else.
pub proof fn a_cleared_binding_is_gone(c: ConfigView, input: Input, layer: Layer, r: Result<(Config, Outcome), CommandError>)
    requires
        has_active_profile(c),
        plan_holds(c, Edit::ClearBinding { input, layer }, r),
        r is Ok,
    ensures
        layer_bindings(active_of(c), layer).dom().contains(input),
        only_active_profile_changed(c, r->Ok_0.0@),
        layer_bindings(active_of(r->Ok_0.0@), layer) == layer_bindings(active_of(c), layer).remove(input),
        layer_deep(active_of(r->Ok_0.0@), layer) == layer_deep(active_of(c), layer).remove(input),
        forall|l: Layer| l != layer ==> layer_bindings(active_of(r->Ok_0.0@), l) == layer_bindings(active_of(c), l)
            && layer_deep(active_of(r->Ok_0.0@), l) == layer_deep(active_of(c), l),
{
    lemma_committed(c, Edit::ClearBinding { input, layer }, r);
    reveal(plan_arm);
    assert(r->Ok_0.0@.profiles.dom() =~= c.profiles.dom());
}

/// A committed Mode key role change sets that role and nothing else.
pub proof fn a_mode_key_role_change_sets_only_it(c: ConfigView, role: ModeKeyRole, r: Result<(Config, Outcome), CommandError>)
    requires
        has_active_profile(c),
        plan_holds(c, Edit::SetModeKeyRole { role }, r),
        r is Ok,
    ensures
        only_active_profile_changed(c, r->Ok_0.0@),
        active_of(r->Ok_0.0@).mode_key_role == role,
        (ProfileView { mode_key_role: active_of(c).mode_key_role, ..active_of(r->Ok_0.0@) }) == active_of(c),
{
    lemma_committed(c, Edit::SetModeKeyRole { role }, r);
    reveal(plan_arm);
    assert(r->Ok_0.0@.profiles.dom() =~= c.profiles.dom());
}

/// A committed Profile creation adds one empty Profile under a name no
/// Profile held, and changes nothing else.
pub proof fn a_created_profile_is_new_and_empty(c: ConfigView, name: String, r: Result<(Config, Outcome), CommandError>)
    requires
        has_active_profile(c),
        plan_holds(c, Edit::CreateProfile { name }, r),
        r is Ok,
    ensures
        !c.profiles.dom().contains(name@),
        r->Ok_0.0@.profiles == c.profiles.insert(name@, empty_profile()),
        forall|l: Layer| layer_bindings(r->Ok_0.0@.profiles[name@], l).dom().is_empty()
            && layer_chords(r->Ok_0.0@.profiles[name@], l).dom().is_empty(),
        r->Ok_0.0@.active_profile == c.active_profile,
        r->Ok_0.0@.macros == c.macros,
        r->Ok_0.0@.steppers == c.steppers,
{
    lemma_committed(c, Edit::CreateProfile { name }, r);
    reveal(plan_arm);
    assert forall|l: Layer| layer_bindings(r->Ok_0.0@.profiles[name@], l).dom().is_empty()
        && layer_chords(r->Ok_0.0@.profiles[name@], l).dom().is_empty() by {
        match l {
            Layer::Base => {},
            Layer::Held => {},
        }
    }
}

/// A committed Profile switch makes the named, existing Profile active,
/// changes no Profile, and ends with the Profile-switch teardown, the
/// actuation republish, the LED push and the announcement of the new name.
pub proof fn a_profile_switch_activates_the_target(c: ConfigView, name: String, r: Result<(Config, Outcome), CommandError>)
    requires
        has_active_profile(c),
        plan_holds(c, Edit::SwitchProfile { name }, r),
        r is Ok,
    ensures
        c.profiles.dom().contains(name@),
        r->Ok_0.0@.active_profile == name@,
        r->Ok_0.0@.profiles == c.profiles,
        r->Ok_0.0@.macros == c.macros,
        r->Ok_0.0@.steppers == c.steppers,
        ends_with(r, seq![
            EffectView::TearDown(TeardownReason::ProfileSwitch),
            EffectView::RepublishActuation,
            EffectView::AssertStatusLeds,
            EffectView::AnnounceProfileChange(name@),
        ]),
{
    lemma_committed(c, Edit::SwitchProfile { name }, r);
    reveal(plan_arm);
}

/// A committed per-key actuation override sets that key's point, changes no
/// other field of the active Profile, and ends by republishing actuation.
pub proof fn an_actuation_override_sets_only_its_key(
    c: ConfigView,
    input: Input,
    actuation: u8,
    release: u8,
    r: Result<(Config, Outcome), CommandError>,
)
    requires
        has_active_profile(c),
        plan_holds(c, Edit::SetActuationPoint { input, actuation, release }, r),
        r is Ok,
    ensures
        only_active_profile_changed(c, r->Ok_0.0@),
        active_of(r->Ok_0.0@).actuation_overrides
            == active_of(c).actuation_overrides.insert(input, ActuationPoint { actuation, release }),
        (ProfileView { actuation_overrides: active_of(c).actuation_overrides, ..active_of(r->Ok_0.0@) }) == active_of(c),
        ends_with(r, seq![EffectView::RepublishActuation]),
{
    lemma_committed(c, Edit::SetActuationPoint { input, actuation, release }, r);
    reveal(plan_arm);
    assert(r->Ok_0.0@.profiles.dom() =~= c.profiles.dom());
}

/// A committed clear of an override drops that key's override only, and
/// ends by republishing actuation.
pub proof fn a_cleared_override_is_gone(c: ConfigView, input: Input, r: Result<(Config, Outcome), CommandError>)
    requires
        has_active_profile(c),
        plan_holds(c, Edit::ClearActuationPoint { input }, r),
        r is Ok,
    ensures
        only_active_profile_changed(c, r->Ok_0.0@),
        active_of(r->Ok_0.0@).actuation_overrides == active_of(c).actuation_overrides.remove(input),
        (ProfileView { actuation_overrides: active_of(c).actuation_overrides, ..active_of(r->Ok_0.0@) }) == active_of(c),
        ends_with(r, seq![EffectView::RepublishActuation]),
{
    lemma_committed(c, Edit::ClearActuationPoint { input }, r);
    reveal(plan_arm);
    assert(r->Ok_0.0@.profiles.dom() =~= c.profiles.dom());
}

/// A committed default actuation change sets the default and nothing else,
/// and ends by republishing actuation.
pub proof fn a_default_actuation_change_sets_only_it(
    c: ConfigView,
    actuation: u8,
    release: u8,
    r: Result<(Config, Outcome), CommandError>,
)
    requires
        has_active_profile(c),
        plan_holds(c, Edit::SetDefaultActuation { actuation, release }, r),
        r is Ok,
    ensures
        only_active_profile_changed(c, r->Ok_0.0@),
        active_of(r->Ok_0.0@).default_actuation == (ActuationPoint { actuation, release }),
        (ProfileView { default_actuation: active_of(c).default_actuation, ..active_of(r->Ok_0.0@) }) == active_of(c),
        ends_with(r, seq![EffectView::RepublishActuation]),
{
    lemma_committed(c, Edit::SetDefaultActuation { actuation, release }, r);
    reveal(plan_arm);
    assert(r->Ok_0.0@.profiles.dom() =~= c.profiles.dom());
}

/// A committed default deep actuation change sets it and nothing else.
pub proof fn a_default_deep_actuation_change_sets_only_it(
    c: ConfigView,
    actuation: u8,
    release: u8,
    r: Result<(Config, Outcome), CommandError>,
)
    requires
        has_active_profile(c),
        plan_holds(c, Edit::SetDefaultDeepActuation { actuation, release }, r),
        r is Ok,
    ensures
        only_active_profile_changed(c, r->Ok_0.0@),
        active_of(r->Ok_0.0@).default_deep_actuation == Some(ActuationPoint { actuation, release }),
        (ProfileView { default_deep_actuation: active_of(c).default_deep_actuation, ..active_of(r->Ok_0.0@) })
            == active_of(c),
{
    lemma_committed(c, Edit::SetDefaultDeepActuation { actuation, release }, r);
    reveal(plan_arm);
    assert(r->Ok_0.0@.profiles.dom() =~= c.profiles.dom());
}

/// A committed reset drops every override of the active Profile and nothing
/// else, and ends by republishing actuation.
pub proof fn a_reset_drops_every_override(c: ConfigView, r: Result<(Config, Outcome), CommandError>)
    requires
        has_active_profile(c),
        plan_holds(c, Edit::ResetActuationPoints, r),
        r is Ok,
    ensures
        only_active_profile_changed(c, r->Ok_0.0@),
        active_of(r->Ok_0.0@).actuation_overrides.dom().is_empty(),
        (ProfileView { actuation_overrides: active_of(c).actuation_overrides, ..active_of(r->Ok_0.0@) }) == active_of(c),
        ends_with(r, seq![EffectView::RepublishActuation]),
{
    lemma_committed(c, Edit::ResetActuationPoints, r);
    reveal(plan_arm);
    assert(r->Ok_0.0@.profiles.dom() =~= c.profiles.dom());
}

/// A committed Digital-mode change sets the flag, changes nothing else, and
/// ends by signalling the new mode.
pub proof fn forcing_digital_sets_only_the_flag(c: ConfigView, force: bool, r: Result<(Config, Outcome), CommandError>)
    requires
        has_active_profile(c),
        plan_holds(c, Edit::SetForceDigital { force }, r),
        r is Ok,
    ensures
        r->Ok_0.0@.force_digital == force,
        (ConfigView { force_digital: c.force_digital, ..r->Ok_0.0@ }) == c,
        ends_with(r, seq![EffectView::SignalCaptureMode(force)]),
{
    lemma_committed(c, Edit::SetForceDigital { force }, r);
    reveal(plan_arm);
}

/// A committed Chord write leaves exactly that Binding under the member set
/// of the Chord in the active Profile.
pub proof fn a_written_chord_is_in_place(
    c: ConfigView,
    inputs: Vec<Input>,
    layer: Layer,
    binding: Binding,
    r: Result<(Config, Outcome), CommandError>,
)
    requires
        has_active_profile(c),
        plan_holds(c, Edit::SetChordBinding { inputs, layer, binding }, r),
        r is Ok,
    ensures
        r->Ok_0.0@.active_profile == c.active_profile,
        layer_chords(active_of(r->Ok_0.0@), layer).dom().contains(chord_key_of(inputs@)),
        layer_chords(active_of(r->Ok_0.0@), layer)[chord_key_of(inputs@)] == binding@,
        !(binding@.action is Step) ==> {
            &&& only_active_profile_changed(c, r->Ok_0.0@)
            &&& layer_chords(active_of(r->Ok_0.0@), layer) == layer_chords(active_of(c), layer).insert(chord_key_of(inputs@), binding@)
            &&& forall|l: Layer| layer_bindings(active_of(r->Ok_0.0@), l) == layer_bindings(active_of(c), l)
        },
{
    lemma_committed(c, Edit::SetChordBinding { inputs, layer, binding }, r);
    reveal(plan_arm);
    if !(binding@.action is Step) {
        assert(r->Ok_0.0@.profiles.dom() =~= c.profiles.dom());
    }
}

/// A committed Chord clear removes that Chord only.
pub proof fn a_cleared_chord_is_gone(c: ConfigView, inputs: Vec<Input>, layer: Layer, r: Result<(Config, Outcome), CommandError>)
    requires
        has_active_profile(c),
        plan_holds(c, Edit::ClearChordBinding { inputs, layer }, r),
        r is Ok,
    ensures
        layer_chords(active_of(c), layer).dom().contains(chord_key_of(inputs@)),
        only_active_profile_changed(c, r->Ok_0.0@),
        layer_chords(active_of(r->Ok_0.0@), layer) == layer_chords(active_of(c), layer).remove(chord_key_of(inputs@)),
        forall|l: Layer| layer_bindings(active_of(r->Ok_0.0@), l) == layer_bindings(active_of(c), l),
{
    lemma_committed(c, Edit::ClearChordBinding { inputs, layer }, r);
    reveal(plan_arm);
    assert(r->Ok_0.0@.profiles.dom() =~= c.profiles.dom());
}

/// A committed Axis assignment puts the target on the Input and takes the
/// Input out of every other role on that Layer — its primary and deep
/// Bindings and every Chord it belongs to — keeping every other Chord; it
/// ends by recomputing that Layer's axes.
pub proof fn an_axis_assignment_takes_the_input_over(
    c: ConfigView,
    input: Input,
    layer: Layer,
    target: AxisTarget,
    r: Result<(Config, Outcome), CommandError>,
)
    requires
        has_active_profile(c),
        plan_holds(c, Edit::SetAxisAssignment { input, layer, target }, r),
        r is Ok,
    ensures
        only_active_profile_changed(c, r->Ok_0.0@),
        layer_axes(active_of(r->Ok_0.0@), layer) == layer_axes(active_of(c), layer).insert(input, target),
        layer_bindings(active_of(r->Ok_0.0@), layer) == layer_bindings(active_of(c), layer).remove(input),
        layer_deep(active_of(r->Ok_0.0@), layer) == layer_deep(active_of(c), layer).remove(input),
        forall|k: Seq<Input>| #[trigger] layer_chords(active_of(r->Ok_0.0@), layer).dom().contains(k) ==> !k.contains(input),
        forall|k: Seq<Input>| #[trigger] layer_chords(active_of(c), layer).dom().contains(k) && !k.contains(input)
            ==> layer_chords(active_of(r->Ok_0.0@), layer).dom().contains(k)
                && layer_chords(active_of(r->Ok_0.0@), layer)[k] == layer_chords(active_of(c), layer)[k],
        ends_with(r, seq![EffectView::RecomputeAxes { layer }]),
{
    lemma_committed(c, Edit::SetAxisAssignment { input, layer, target }, r);
    reveal(plan_arm);
    assert(r->Ok_0.0@.profiles.dom() =~= c.profiles.dom());
}

/// A committed Axis clear drops that assignment only, and ends by forgetting
/// the Input's contribution and recomputing the Layer's axes.
pub proof fn a_cleared_axis_is_gone(c: ConfigView, input: Input, layer: Layer, r: Result<(Config, Outcome), CommandError>)
    requires
        has_active_profile(c),
        plan_holds(c, Edit::ClearAxisAssignment { input, layer }, r),
        r is Ok,
    ensures
        layer_axes(active_of(c), layer).dom().contains(input),
        only_active_profile_changed(c, r->Ok_0.0@),
        layer_axes(active_of(r->Ok_0.0@), layer) == layer_axes(active_of(c), layer).remove(input),
        forall|l: Layer| layer_bindings(active_of(r->Ok_0.0@), l) == layer_bindings(active_of(c), l),
        ends_with(r, seq![EffectView::ForgetAxisContribution(input), EffectView::RecomputeAxes { layer }]),
{
    lemma_committed(c, Edit::ClearAxisAssignment { input, layer }, r);
    reveal(plan_arm);
    assert(r->Ok_0.0@.profiles.dom() =~= c.profiles.dom());
}

/// A committed status LED change sets the LEDs and nothing else, and ends by
/// pushing them.
pub proof fn a_status_led_change_sets_only_them(
    c: ConfigView,
    orange: bool,
    green: bool,
    blue: bool,
    r: Result<(Config, Outcome), CommandError>,
)
    requires
        has_active_profile(c),
        plan_holds(c, Edit::SetStatusLeds { orange, green, blue }, r),
        r is Ok,
    ensures
        only_active_profile_changed(c, r->Ok_0.0@),
        active_of(r->Ok_0.0@).status_leds == (StatusLeds { orange, green, blue }),
        (ProfileView { status_leds: active_of(c).status_leds, ..active_of(r->Ok_0.0@) }) == active_of(c),
        ends_with(r, seq![EffectView::AssertStatusLeds]),
{
    lemma_committed(c, Edit::SetStatusLeds { orange, green, blue }, r);
    reveal(plan_arm);
    assert(r->Ok_0.0@.profiles.dom() =~= c.profiles.dom());
}

/// A committed deep Binding write leaves exactly that deep Binding on its
/// Input and nothing else changes.
pub proof fn a_written_deep_binding_is_in_place(
    c: ConfigView,
    input: Input,
    layer: Layer,
    binding: Binding,
    r: Result<(Config, Outcome), CommandError>,
)
    requires
        has_active_profile(c),
        plan_holds(c, Edit::SetDeepStage { input, layer, binding }, r),
        r is Ok,
    ensures
        only_active_profile_changed(c, r->Ok_0.0@),
        layer_deep(active_of(r->Ok_0.0@), layer) == layer_deep(active_of(c), layer).insert(input, binding@),
        forall|l: Layer| layer_bindings(active_of(r->Ok_0.0@), l) == layer_bindings(active_of(c), l),
{
    lemma_committed(c, Edit::SetDeepStage { input, layer, binding }, r);
    reveal(plan_arm);
    assert(r->Ok_0.0@.profiles.dom() =~= c.profiles.dom());
}

/// A committed deep Binding clear removes it only.
pub proof fn a_cleared_deep_binding_is_gone(c: ConfigView, input: Input, layer: Layer, r: Result<(Config, Outcome), CommandError>)
    requires
        has_active_profile(c),
        plan_holds(c, Edit::ClearDeepStage { input, layer }, r),
        r is Ok,
    ensures
        layer_deep(active_of(c), layer).dom().contains(input),
        only_active_profile_changed(c, r->Ok_0.0@),
        layer_deep(active_of(r->Ok_0.0@), layer) == layer_deep(active_of(c), layer).remove(input),
        forall|l: Layer| layer_bindings(active_of(r->Ok_0.0@), l) == layer_bindings(active_of(c), l),
{
    lemma_committed(c, Edit::ClearDeepStage { input, layer }, r);
    reveal(plan_arm);
    assert(r->Ok_0.0@.profiles.dom() =~= c.profiles.dom());
}

/// A committed deep actuation change sets that key's deep point, keeps its
/// staging mode if it had a deep stage config, and leaves every other key's
/// config alone.
pub proof fn a_deep_actuation_change_sets_only_its_point(
    c: ConfigView,
    input: Input,
    actuation: u8,
    release: u8,
    r: Result<(Config, Outcome), CommandError>,
)
    requires
        has_active_profile(c),
        plan_holds(c, Edit::SetDeepActuation { input, actuation, release }, r),
        r is Ok,
    ensures
        only_active_profile_changed(c, r->Ok_0.0@),
        active_of(r->Ok_0.0@).deep_stages.dom() == active_of(c).deep_stages.dom().insert(input),
        active_of(r->Ok_0.0@).deep_stages[input].actuation == (ActuationPoint { actuation, release }),
        active_of(c).deep_stages.dom().contains(input) ==> active_of(r->Ok_0.0@).deep_stages[input].mode
            == active_of(c).deep_stages[input].mode,
        forall|j: Input| #[trigger] active_of(c).deep_stages.dom().contains(j) && j != input
            ==> active_of(r->Ok_0.0@).deep_stages[j] == active_of(c).deep_stages[j],
        (ProfileView { deep_stages: active_of(c).deep_stages, ..active_of(r->Ok_0.0@) }) == active_of(c),
{
    lemma_committed(c, Edit::SetDeepActuation { input, actuation, release }, r);
    reveal(plan_arm);
    assert(r->Ok_0.0@.profiles.dom() =~= c.profiles.dom());
    assert(active_of(r->Ok_0.0@).deep_stages.dom() =~= active_of(c).deep_stages.dom().insert(input));
}

/// A committed staging mode change sets that key's mode, keeps its deep
/// point if it had a deep stage config, and leaves every other key's config
/// alone.
pub proof fn a_staging_mode_change_sets_only_its_mode(
    c: ConfigView,
    input: Input,
    mode: StagingMode,
    r: Result<(Config, Outcome), CommandError>,
)
    requires
        has_active_profile(c),
        plan_holds(c, Edit::SetStagingMode { input, mode }, r),
        r is Ok,
    ensures
        only_active_profile_changed(c, r->Ok_0.0@),
        active_of(r->Ok_0.0@).deep_stages.dom() == active_of(c).deep_stages.dom().insert(input),
        active_of(r->Ok_0.0@).deep_stages[input].mode == mode,
        active_of(c).deep_stages.dom().contains(input) ==> active_of(r->Ok_0.0@).deep_stages[input].actuation
            == active_of(c).deep_stages[input].actuation,
        forall|j: Input| #[trigger] active_of(c).deep_stages.dom().contains(j) && j != input
            ==> active_of(r->Ok_0.0@).deep_stages[j] == active_of(c).deep_stages[j],
        (ProfileView { deep_stages: active_of(c).deep_stages, ..active_of(r->Ok_0.0@) }) == active_of(c),
{
    lemma_committed(c, Edit::SetStagingMode { input, mode }, r);
    reveal(plan_arm);
    assert(r->Ok_0.0@.profiles.dom() =~= c.profiles.dom());
    assert(active_of(r->Ok_0.0@).deep_stages.dom() =~= active_of(c).deep_stages.dom().insert(input));
}


/// Renaming or re-filling library entries cannot break a structural rule:
/// the rules see only which ids exist.
proof fn lemma_library_change_keeps_validity(c: ConfigView, n: ConfigView)
    requires
        config_valid(c),
        n.profiles == c.profiles,
        n.active_profile == c.active_profile,
        n.macros.dom() == c.macros.dom(),
        n.steppers.dom() == c.steppers.dom(),
    ensures
        config_valid(n),
{
    assert forall|e: crate::rules::ConfigError| !#[trigger] violates(n, e) by {
        assert(!violates(c, e));
    }
}

/// A Stepper rename of a valid configuration is refused as invalid exactly
/// when the new name is blank, refused as not found exactly when no Stepper
/// has the id, and otherwise committed.
pub proof fn a_stepper_rename_is_refused_only_for_a_blank_name_or_an_unknown_id(
    c: ConfigView,
    stepper_id: StepperId,
    new_name: String,
    r: Result<(Config, Outcome), CommandError>,
)
    requires
        has_active_profile(c),
        config_valid(c),
        plan_holds(c, Edit::RenameStepper { stepper_id, new_name }, r),
    ensures
        is_blank(new_name@) ==> (r is Err && r->Err_0@ is InvalidRequest),
        !is_blank(new_name@) && !c.steppers.dom().contains(stepper_id@) ==> (r is Err && r->Err_0@ == CommandErrorView::NotFound),
        !is_blank(new_name@) && c.steppers.dom().contains(stepper_id@) ==> r is Ok,
{
    reveal(plan_arm);
    if !is_blank(new_name@) && c.steppers.dom().contains(stepper_id@) {
        let n = plan_arm(c, Edit::RenameStepper { stepper_id, new_name })->Planned_0;
        assert(n.steppers.dom() =~= c.steppers.dom());
        lemma_library_change_keeps_validity(c, n);
    }
}

/// A Macro rename of a valid configuration is refused as invalid exactly
/// when the new name is blank, refused as not found exactly when no Macro
/// has the id, and otherwise committed.
pub proof fn a_macro_rename_is_refused_only_for_a_blank_name_or_an_unknown_id(
    c: ConfigView,
    macro_id: MacroId,
    new_name: String,
    r: Result<(Config, Outcome), CommandError>,
)
    requires
        has_active_profile(c),
        config_valid(c),
        plan_holds(c, Edit::RenameMacro { macro_id, new_name }, r),
    ensures
        is_blank(new_name@) ==> (r is Err && r->Err_0@ is InvalidRequest),
        !is_blank(new_name@) && !c.macros.dom().contains(macro_id@) ==> (r is Err && r->Err_0@ == CommandErrorView::NotFound),
        !is_blank(new_name@) && c.macros.dom().contains(macro_id@) ==> r is Ok,
{
    reveal(plan_arm);
    if !is_blank(new_name@) && c.macros.dom().contains(macro_id@) {
        let n = plan_arm(c, Edit::RenameMacro { macro_id, new_name })->Planned_0;
        assert(n.macros.dom() =~= c.macros.dom());
        lemma_library_change_keeps_validity(c, n);
    }
}

/// A change of a Stepper's items in a valid configuration is refused exactly
/// when no Stepper has the id, as not found, and otherwise committed.
pub proof fn stepper_items_are_refused_only_for_an_unknown_id(
    c: ConfigView,
    stepper_id: StepperId,
    items: Vec<StepperItem>,
    r: Result<(Config, Outcome), CommandError>,
)
    requires
        has_active_profile(c),
        config_valid(c),
        plan_holds(c, Edit::SetStepperItems { stepper_id, items }, r),
    ensures
        !c.steppers.dom().contains(stepper_id@) ==> (r is Err && r->Err_0@ == CommandErrorView::NotFound),
        c.steppers.dom().contains(stepper_id@) ==> r is Ok,
{
    reveal(plan_arm);
    if c.steppers.dom().contains(stepper_id@) {
        let n = plan_arm(c, Edit::SetStepperItems { stepper_id, items })->Planned_0;
        assert(n.steppers.dom() =~= c.steppers.dom());
        lemma_library_change_keeps_validity(c, n);
    }
}

/// A change of a Macro's steps in a valid configuration is refused exactly
/// when no Macro has the id, as not found, and otherwise committed.
pub proof fn macro_steps_are_refused_only_for_an_unknown_id(
    c: ConfigView,
    macro_id: MacroId,
    steps: Vec<MacroStepDto>,
    r: Result<(Config, Outcome), CommandError>,
)
    requires
        has_active_profile(c),
        config_valid(c),
        plan_holds(c, Edit::SetMacroSteps { macro_id, steps }, r),
    ensures
        !c.macros.dom().contains(macro_id@) ==> (r is Err && r->Err_0@ == CommandErrorView::NotFound),
        c.macros.dom().contains(macro_id@) ==> r is Ok,
{
    reveal(plan_arm);
    if c.macros.dom().contains(macro_id@) {
        let n = plan_arm(c, Edit::SetMacroSteps { macro_id, steps })->Planned_0;
        assert(n.macros.dom() =~= c.macros.dom());
        lemma_library_change_keeps_validity(c, n);
    }
}


/// A clear is refused as not found exactly when there is nothing to clear:
/// no primary Binding, Chord, Axis assignment or deep Binding of the active
/// Profile on that Input or member set and Layer.
pub proof fn a_clear_is_not_found_exactly_when_nothing_is_there(
    c: ConfigView,
    input: Input,
    inputs: Vec<Input>,
    layer: Layer,
    r1: Result<(Config, Outcome), CommandError>,
    r2: Result<(Config, Outcome), CommandError>,
    r3: Result<(Config, Outcome), CommandError>,
    r4: Result<(Config, Outcome), CommandError>,
)
    requires
        has_active_profile(c),
        plan_holds(c, Edit::ClearBinding { input, layer }, r1),
        plan_holds(c, Edit::ClearChordBinding { inputs, layer }, r2),
        plan_holds(c, Edit::ClearAxisAssignment { input, layer }, r3),
        plan_holds(c, Edit::ClearDeepStage { input, layer }, r4),
    ensures
        (r1 is Err && r1->Err_0@ == CommandErrorView::NotFound) <==> !layer_bindings(active_of(c), layer).dom().contains(input),
        (r2 is Err && r2->Err_0@ == CommandErrorView::NotFound) <==> !layer_chords(active_of(c), layer).dom().contains(
            chord_key_of(inputs@),
        ),
        (r3 is Err && r3->Err_0@ == CommandErrorView::NotFound) <==> !layer_axes(active_of(c), layer).dom().contains(input),
        (r4 is Err && r4->Err_0@ == CommandErrorView::NotFound) <==> !layer_deep(active_of(c), layer).dom().contains(input),
{
    reveal(plan_arm);
}

/// A Profile switch of a valid configuration is refused as not found exactly
/// when no Profile has the name, and otherwise committed.
pub proof fn a_profile_switch_is_refused_only_for_an_unknown_name(
    c: ConfigView,
    name: String,
    r: Result<(Config, Outcome), CommandError>,
)
    requires
        has_active_profile(c),
        config_valid(c),
        plan_holds(c, Edit::SwitchProfile { name }, r),
    ensures
        !c.profiles.dom().contains(name@) ==> (r is Err && r->Err_0@ == CommandErrorView::NotFound),
        c.profiles.dom().contains(name@) ==> r is Ok,
{
    reveal(plan_arm);
    if c.profiles.dom().contains(name@) {
        let n = plan_arm(c, Edit::SwitchProfile { name })->Planned_0;
        assert forall|e: crate::rules::ConfigError| !#[trigger] violates(n, e) by {
            assert(!violates(c, e));
        }
    }
}

} // verus!
