//! Properties of the config transaction that span calls or hold of every
//! configuration: what `plan` commits, what it refuses, and what teardown a
//! change implies.

use vstd::prelude::*;
use crate::config::{
    ActionView, ActuationPoint, Binding, BindingView, Config, ConfigView, MacroDefView, MacroId,
    MacroStepDto, ModeKeyRole, ProfileView, StepperId, StagingMode, StepperDefView, StepperItem, active_of, chord_key_of,
    has_active_profile, layer_bindings, layer_chords, with_layer_bindings,
};
use crate::edit::{
    ActionQueryView, ArmView, CommandError, CreatedId, Edit, EffectView, Outcome, chord_set,
    effect_views, enumerates, enumerates_chords, referenced, mode_at, plan_arm, plan_holds, stage_or_fresh, stage_set, stop_chords,
    stop_stages, stop_toggles, teardown_effects, toggle_set,
};
use crate::input::{Input, Layer};
use crate::ids::{fresh_id, lemma_fresh_id_is_free, slug};
use crate::rules::config_valid;
use crate::sorted::{lemma_chords_sorted_unique, lemma_sorted_unique};

verus! {

/// The teardown a change implies is fully determined by the configurations
/// before and after: one list, whatever order the maps are walked in.
pub proof fn teardown_is_determined(
    before: ConfigView,
    after: ConfigView,
    e1: Seq<EffectView>,
    e2: Seq<EffectView>,
)
    requires
        teardown_effects(before, after, e1),
        teardown_effects(before, after, e2),
    ensures
        e1 == e2,
{
    if before.active_profile == after.active_profile && has_active_profile(before) && has_active_profile(after) {
        let was = active_of(before);
        let now = active_of(after);
        let (t1, s1, c1): (Seq<Input>, Seq<Input>, Seq<Seq<Input>>) = choose|t: Seq<Input>, s: Seq<Input>, c: Seq<Seq<Input>>|
            enumerates(t, toggle_set(was, now)) && enumerates(s, stage_set(was, now))
                && enumerates_chords(c, chord_set(was, now)) && e1 == stop_toggles(t) + stop_stages(s) + stop_chords(c);
        let (t2, s2, c2): (Seq<Input>, Seq<Input>, Seq<Seq<Input>>) = choose|t: Seq<Input>, s: Seq<Input>, c: Seq<Seq<Input>>|
            enumerates(t, toggle_set(was, now)) && enumerates(s, stage_set(was, now))
                && enumerates_chords(c, chord_set(was, now)) && e2 == stop_toggles(t) + stop_stages(s) + stop_chords(c);
        lemma_sorted_unique(t1, t2);
        lemma_sorted_unique(s1, s2);
        lemma_chords_sorted_unique(c1, c2);
    }
}

/// Every binding of `a` is in `b`, bound the same.
pub open spec fn keeps_bindings<K>(a: Map<K, BindingView>, b: Map<K, BindingView>) -> bool {
    forall|k: K| #[trigger] a.dom().contains(k) ==> b.dom().contains(k) && b[k] == a[k]
}

/// `b` keeps everything of `a` that a live runtime slot hangs off: every
/// primary, Chord and deep Binding unchanged, every key's Staging mode, and
/// the Mode key's role unless it goes from Bound to Layer switch. Bindings
/// may be added.
pub open spec fn keeps_runtime_bindings(a: ProfileView, b: ProfileView) -> bool {
    &&& keeps_bindings(a.base, b.base)
    &&& keeps_bindings(a.held, b.held)
    &&& keeps_bindings(a.chords_base, b.chords_base)
    &&& keeps_bindings(a.chords_held, b.chords_held)
    &&& keeps_bindings(a.deep_base, b.deep_base)
    &&& keeps_bindings(a.deep_held, b.deep_held)
    &&& !(a.mode_key_role == ModeKeyRole::Bound && b.mode_key_role == ModeKeyRole::LayerSwitch)
    &&& forall|i: Input| mode_at(a, i) == mode_at(b, i)
}

/// A change to the active Profile that removes and rebinds nothing a live
/// runtime slot hangs off — a fresh bind, a byte-identical re-save, an
/// actuation-only edit — orphans nothing: its teardown is empty.
pub proof fn untouched_bindings_orphan_nothing(before: ConfigView, after: ConfigView, e: Seq<EffectView>)
    requires
        teardown_effects(before, after, e),
        before.active_profile == after.active_profile,
        keeps_runtime_bindings(active_of(before), active_of(after)),
    ensures
        e == Seq::<EffectView>::empty(),
{
    if has_active_profile(before) && has_active_profile(after) {
        let was = active_of(before);
        let now = active_of(after);
        assert(toggle_set(was, now) =~= Set::empty());
        assert(stage_set(was, now) =~= Set::empty());
        assert(chord_set(was, now) =~= Set::empty());
        let (t, s, c): (Seq<Input>, Seq<Input>, Seq<Seq<Input>>) = choose|t: Seq<Input>, s: Seq<Input>, c: Seq<Seq<Input>>|
            enumerates(t, toggle_set(was, now)) && enumerates(s, stage_set(was, now))
                && enumerates_chords(c, chord_set(was, now)) && e == stop_toggles(t) + stop_stages(s) + stop_chords(c);
        if t.len() > 0 {
            assert(t.to_set().contains(t[0]));
        }
        if s.len() > 0 {
            assert(s.to_set().contains(s[0]));
        }
        if c.len() > 0 {
            assert(c.to_set().contains(c[0]));
        }
        assert(e =~= Seq::<EffectView>::empty());
    }
}

/// Every configuration `plan` commits meets every structural rule.
pub proof fn committed_configs_are_valid(c: ConfigView, edit: Edit, r: Result<(Config, Outcome), CommandError>)
    requires
        plan_holds(c, edit, r),
        r is Ok,
    ensures
        config_valid(r->Ok_0.0@),
{
}

/// The effects of a committed plan are its teardown followed by the arm's
/// own effects.
proof fn lemma_committed_effects(c: ConfigView, edit: Edit, r: Result<(Config, Outcome), CommandError>)
    requires
        plan_holds(c, edit, r),
        r is Ok,
    ensures
        plan_arm(c, edit) is Planned,
        r->Ok_0.0@ == plan_arm(c, edit)->Planned_0,
        exists|td: Seq<EffectView>|
            teardown_effects(c, r->Ok_0.0@, td) && effect_views(r->Ok_0.1.effects@) == td + plan_arm(c, edit)->Planned_1,
{
}

/// Saving a primary Binding over an identical one is a no-op: the
/// configuration comes back unchanged and no effect runs.
pub proof fn resaving_a_binding_changes_nothing(
    c: ConfigView,
    input: Input,
    layer: Layer,
    binding: Binding,
    r: Result<(Config, Outcome), CommandError>,
)
    requires
        has_active_profile(c),
        layer_bindings(active_of(c), layer).dom().contains(input),
        layer_bindings(active_of(c), layer)[input] == binding@,
        !(binding@.action is Step),
        plan_holds(c, Edit::SetBinding { input, layer, binding }, r),
        r is Ok,
    ensures
        r->Ok_0.0@ == c,
        r->Ok_0.1.effects@.len() == 0,
{
    let edit = Edit::SetBinding { input, layer, binding };
    lemma_committed_effects(c, edit, r);
    reveal(plan_arm);
    let p = active_of(c);
    let m = layer_bindings(p, layer);
    assert(m.insert(input, binding@) =~= m);
    assert(with_layer_bindings(p, layer, m) == p);
    assert(c.profiles.insert(c.active_profile, p) =~= c.profiles);
    assert(r->Ok_0.0@ == c);
    let td = choose|td: Seq<EffectView>|
        teardown_effects(c, r->Ok_0.0@, td) && effect_views(r->Ok_0.1.effects@) == td + plan_arm(c, edit)->Planned_1;
    untouched_bindings_orphan_nothing(c, c, td);
    assert(effect_views(r->Ok_0.1.effects@).len() == 0);
}

/// Moving a key's deep Actuation point runs no effect and keeps its Staging
/// mode: nothing live is orphaned by a re-threshold.
pub proof fn moving_a_deep_point_orphans_nothing(
    c: ConfigView,
    input: Input,
    actuation: u8,
    release: u8,
    r: Result<(Config, Outcome), CommandError>,
)
    requires
        has_active_profile(c),
        plan_holds(c, Edit::SetDeepActuation { input, actuation, release }, r),
        r is Ok,
    ensures
        r->Ok_0.1.effects@.len() == 0,
        has_active_profile(r->Ok_0.0@),
        active_of(r->Ok_0.0@).deep_stages.dom().contains(input),
        active_of(r->Ok_0.0@).deep_stages[input].actuation == (ActuationPoint { actuation, release }),
        forall|i: Input| mode_at(active_of(r->Ok_0.0@), i) == mode_at(active_of(c), i),
{
    let edit = Edit::SetDeepActuation { input, actuation, release };
    lemma_committed_effects(c, edit, r);
    reveal(plan_arm);
    let p = active_of(c);
    let n = r->Ok_0.0@;
    assert(n.profiles.dom().contains(n.active_profile));
    let q = active_of(n);
    assert(q.deep_stages[input].mode == stage_or_fresh(p, input).mode);
    assert forall|i: Input| mode_at(q, i) == mode_at(p, i) by {
        if i == input {
        } else {
            assert(q.deep_stages.dom().contains(i) == p.deep_stages.dom().contains(i));
        }
    }
    let td = choose|td: Seq<EffectView>|
        teardown_effects(c, n, td) && effect_views(r->Ok_0.1.effects@) == td + plan_arm(c, edit)->Planned_1;
    untouched_bindings_orphan_nothing(c, n, td);
    assert(effect_views(r->Ok_0.1.effects@).len() == 0);
}

/// A Staging-mode edit stops the key's live deep slot exactly when the mode
/// actually changes, and runs nothing else.
pub proof fn staging_mode_edit_stops_only_a_changed_mode(
    c: ConfigView,
    input: Input,
    mode: StagingMode,
    r: Result<(Config, Outcome), CommandError>,
)
    requires
        has_active_profile(c),
        plan_holds(c, Edit::SetStagingMode { input, mode }, r),
        r is Ok,
    ensures
        effect_views(r->Ok_0.1.effects@) == if mode_at(active_of(c), input) == mode {
            Seq::<EffectView>::empty()
        } else {
            seq![EffectView::StopStage(input)]
        },
        mode_at(active_of(r->Ok_0.0@), input) == mode,
{
    let edit = Edit::SetStagingMode { input, mode };
    lemma_committed_effects(c, edit, r);
    reveal(plan_arm);
    let p = active_of(c);
    let n = r->Ok_0.0@;
    assert(n.profiles.dom().contains(n.active_profile));
    let q = active_of(n);
    let td = choose|td: Seq<EffectView>|
        teardown_effects(c, n, td) && effect_views(r->Ok_0.1.effects@) == td + plan_arm(c, edit)->Planned_1;
    assert(plan_arm(c, edit)->Planned_1 =~= Seq::<EffectView>::empty());
    assert(toggle_set(p, q) =~= Set::empty());
    assert(chord_set(p, q) =~= Set::empty());
    let (t, s, k): (Seq<Input>, Seq<Input>, Seq<Seq<Input>>) = choose|t: Seq<Input>, s: Seq<Input>, k: Seq<Seq<Input>>|
        enumerates(t, toggle_set(p, q)) && enumerates(s, stage_set(p, q))
            && enumerates_chords(k, chord_set(p, q)) && td == stop_toggles(t) + stop_stages(s) + stop_chords(k);
    if t.len() > 0 {
        assert(t.to_set().contains(t[0]));
    }
    if k.len() > 0 {
        assert(k.to_set().contains(k[0]));
    }
    assert(t =~= Seq::<Input>::empty());
    assert(k =~= Seq::<Seq<Input>>::empty());
    assert forall|i: Input| i != input implies mode_at(q, i) == mode_at(p, i) by {
        assert(q.deep_stages.dom().contains(i) == p.deep_stages.dom().contains(i));
    }
    if mode_at(p, input) == mode {
        assert(stage_set(p, q) =~= Set::empty());
        if s.len() > 0 {
            assert(s.to_set().contains(s[0]));
        }
        assert(s =~= Seq::<Input>::empty());
    } else {
        assert(stage_set(p, q) =~= Set::empty().insert(input));
        let one = seq![input];
        assert(one[0] == input);
        assert forall|x: Input| one.to_set().contains(x) <==> x == input by {
            if one.contains(x) {
                let j = choose|j: int| 0 <= j < one.len() && one[j] == x;
            }
        }
        assert(one.to_set() =~= Set::empty().insert(input));
        lemma_sorted_unique(s, one);
    }
    assert(effect_views(r->Ok_0.1.effects@) =~= td);
}

/// Every committed configuration still names a Profile that exists as its
/// active one: the active Profile can never be deleted or renamed away.
pub proof fn the_active_profile_always_exists(c: ConfigView, edit: Edit, r: Result<(Config, Outcome), CommandError>)
    requires
        has_active_profile(c),
        plan_holds(c, edit, r),
        r is Ok,
    ensures
        has_active_profile(r->Ok_0.0@),
{
    lemma_committed_effects(c, edit, r);
    reveal(plan_arm);
}

/// Renaming a Profile moves it to its new name, carries the active Profile
/// along, and leaves no primary Profile Switch anywhere aimed at the old
/// name.
pub proof fn renaming_a_profile_retargets_every_switch(
    c: ConfigView,
    old_name: String,
    new_name: String,
    r: Result<(Config, Outcome), CommandError>,
)
    requires
        has_active_profile(c),
        plan_holds(c, Edit::RenameProfile { old_name, new_name }, r),
        r is Ok,
        old_name@ != new_name@,
    ensures
        !r->Ok_0.0@.profiles.dom().contains(old_name@),
        r->Ok_0.0@.profiles.dom().contains(new_name@),
        forall|n: Seq<char>| n != old_name@ && n != new_name@ ==>
            (r->Ok_0.0@.profiles.dom().contains(n) == c.profiles.dom().contains(n)),
        r->Ok_0.0@.active_profile == if c.active_profile == old_name@ { new_name@ } else { c.active_profile },
        forall|n: Seq<char>, l: Layer, i: Input|
            r->Ok_0.0@.profiles.dom().contains(n) && #[trigger] layer_bindings(r->Ok_0.0@.profiles[n], l).dom().contains(i)
                ==> layer_bindings(r->Ok_0.0@.profiles[n], l)[i].action != (ActionView::ProfileSwitch { target: old_name@ }),
{
    let edit = Edit::RenameProfile { old_name, new_name };
    lemma_committed_effects(c, edit, r);
    reveal(plan_arm);
}

/// After a Step Binding is written on an Input, it is the only Binding in
/// the whole configuration — any Profile, either Layer, primary or Chord —
/// that steps its Stepper in its direction.
pub proof fn a_step_binding_is_exclusive(
    c: ConfigView,
    input: Input,
    layer: Layer,
    binding: Binding,
    r: Result<(Config, Outcome), CommandError>,
)
    requires
        has_active_profile(c),
        plan_holds(c, Edit::SetBinding { input, layer, binding }, r),
        r is Ok,
        binding@.action is Step,
    ensures
        layer_bindings(active_of(r->Ok_0.0@), layer).dom().contains(input),
        layer_bindings(active_of(r->Ok_0.0@), layer)[input] == binding@,
        forall|n: Seq<char>, l: Layer, i: Input|
            r->Ok_0.0@.profiles.dom().contains(n) && #[trigger] layer_bindings(r->Ok_0.0@.profiles[n], l).dom().contains(i)
                && layer_bindings(r->Ok_0.0@.profiles[n], l)[i].action == binding@.action
                ==> n == r->Ok_0.0@.active_profile && l == layer && i == input,
        forall|n: Seq<char>, l: Layer, k: Seq<Input>|
            r->Ok_0.0@.profiles.dom().contains(n) && #[trigger] layer_chords(r->Ok_0.0@.profiles[n], l).dom().contains(k)
                ==> layer_chords(r->Ok_0.0@.profiles[n], l)[k].action != binding@.action,
{
    let edit = Edit::SetBinding { input, layer, binding };
    lemma_committed_effects(c, edit, r);
    reveal(plan_arm);
}

/// After a Step Binding is written on a Chord, it is the only Binding in the
/// whole configuration — any Profile, either Layer, primary or Chord — that
/// steps its Stepper in its direction.
pub proof fn a_step_chord_binding_is_exclusive(
    c: ConfigView,
    inputs: Vec<Input>,
    layer: Layer,
    binding: Binding,
    r: Result<(Config, Outcome), CommandError>,
)
    requires
        has_active_profile(c),
        plan_holds(c, Edit::SetChordBinding { inputs, layer, binding }, r),
        r is Ok,
        binding@.action is Step,
    ensures
        layer_chords(active_of(r->Ok_0.0@), layer).dom().contains(chord_key_of(inputs@)),
        layer_chords(active_of(r->Ok_0.0@), layer)[chord_key_of(inputs@)] == binding@,
        forall|n: Seq<char>, l: Layer, k: Seq<Input>|
            r->Ok_0.0@.profiles.dom().contains(n) && #[trigger] layer_chords(r->Ok_0.0@.profiles[n], l).dom().contains(k)
                && layer_chords(r->Ok_0.0@.profiles[n], l)[k].action == binding@.action
                ==> n == r->Ok_0.0@.active_profile && l == layer && k == chord_key_of(inputs@),
        forall|n: Seq<char>, l: Layer, i: Input|
            r->Ok_0.0@.profiles.dom().contains(n) && #[trigger] layer_bindings(r->Ok_0.0@.profiles[n], l).dom().contains(i)
                ==> layer_bindings(r->Ok_0.0@.profiles[n], l)[i].action != binding@.action,
{
    let edit = Edit::SetChordBinding { inputs, layer, binding };
    lemma_committed_effects(c, edit, r);
    reveal(plan_arm);
}

/// Creating a Macro mints an id no existing Macro holds — the first free
/// candidate from the name's slug — stores the new entry under it, leaves
/// every other entry alone, and hands the id back.
pub proof fn a_created_macro_gets_a_fresh_id(
    config: Config,
    name: String,
    steps: Vec<MacroStepDto>,
    r: Result<(Config, Outcome), CommandError>,
)
    requires
        has_active_profile(config@),
        plan_holds(config@, Edit::CreateMacro { name, steps }, r),
        r is Ok,
    ensures
        r->Ok_0.1.created matches Some(CreatedId::Macro(id)) && id@ == fresh_id(slug(name@), config@.macros.dom())
            && !config@.macros.dom().contains(id@)
            && r->Ok_0.0@.macros == config@.macros.insert(id@, MacroDefView { name: name@, steps: steps@ }),
{
    let edit = Edit::CreateMacro { name, steps };
    lemma_committed_effects(config@, edit, r);
    reveal(plan_arm);
    config.macros.lemma_dom_finite();
    lemma_fresh_id_is_free(slug(name@), config@.macros.dom());
}

/// Creating a Stepper mints an id no existing Stepper holds — the first free
/// candidate from the name's slug — stores the new entry under it, leaves
/// every other entry alone, and hands the id back.
pub proof fn a_created_stepper_gets_a_fresh_id(
    config: Config,
    name: String,
    items: Vec<StepperItem>,
    r: Result<(Config, Outcome), CommandError>,
)
    requires
        has_active_profile(config@),
        plan_holds(config@, Edit::CreateStepper { name, items }, r),
        r is Ok,
    ensures
        r->Ok_0.1.created matches Some(CreatedId::Stepper(id)) && id@ == fresh_id(slug(name@), config@.steppers.dom())
            && !config@.steppers.dom().contains(id@)
            && r->Ok_0.0@.steppers == config@.steppers.insert(id@, StepperDefView { name: name@, items: items@ }),
{
    let edit = Edit::CreateStepper { name, items };
    lemma_committed_effects(config@, edit, r);
    reveal(plan_arm);
    config.steppers.lemma_dom_finite();
    lemma_fresh_id_is_free(slug(name@), config@.steppers.dom());
}

/// Once a Macro is deleted, no Binding anywhere — primary or Chord, in any
/// Profile — names it.
pub proof fn a_deleted_macro_is_named_nowhere(c: ConfigView, macro_id: MacroId, r: Result<(Config, Outcome), CommandError>)
    requires
        has_active_profile(c),
        plan_holds(c, Edit::DeleteMacro { macro_id }, r),
        r is Ok,
    ensures
        !r->Ok_0.0@.macros.dom().contains(macro_id@),
        !referenced(r->Ok_0.0@, ActionQueryView::UsesMacro(macro_id@), true),
{
    lemma_committed_effects(c, Edit::DeleteMacro { macro_id }, r);
    reveal(plan_arm);
}

/// Once a Stepper is deleted, no Binding anywhere — primary or Chord, in any
/// Profile, either direction — steps it.
pub proof fn a_deleted_stepper_is_named_nowhere(c: ConfigView, stepper_id: StepperId, r: Result<(Config, Outcome), CommandError>)
    requires
        has_active_profile(c),
        plan_holds(c, Edit::DeleteStepper { stepper_id }, r),
        r is Ok,
    ensures
        !r->Ok_0.0@.steppers.dom().contains(stepper_id@),
        !referenced(r->Ok_0.0@, ActionQueryView::UsesStepper(stepper_id@), true),
{
    lemma_committed_effects(c, Edit::DeleteStepper { stepper_id }, r);
    reveal(plan_arm);
}

/// Once a Profile is deleted, it was not the active one, and no primary
/// Profile Switch anywhere targets it.
pub proof fn a_deleted_profile_is_targeted_nowhere(c: ConfigView, name: String, r: Result<(Config, Outcome), CommandError>)
    requires
        has_active_profile(c),
        plan_holds(c, Edit::DeleteProfile { name }, r),
        r is Ok,
    ensures
        name@ != c.active_profile,
        !r->Ok_0.0@.profiles.dom().contains(name@),
        !referenced(r->Ok_0.0@, ActionQueryView::Targets(name@), false),
{
    lemma_committed_effects(c, Edit::DeleteProfile { name }, r);
    reveal(plan_arm);
}


/// A committed Stepper rename gives the Stepper under its id the new name
/// and keeps its items; no other Stepper, Macro or Profile changes.
pub proof fn renaming_a_stepper_renames_only_it(
    c: ConfigView,
    stepper_id: StepperId,
    new_name: String,
    r: Result<(Config, Outcome), CommandError>,
)
    requires
        plan_holds(c, Edit::RenameStepper { stepper_id, new_name }, r),
        r is Ok,
    ensures
        c.steppers.dom().contains(stepper_id@),
        r->Ok_0.0@.steppers.dom() == c.steppers.dom(),
        r->Ok_0.0@.steppers[stepper_id@].name == new_name@,
        r->Ok_0.0@.steppers[stepper_id@].items == c.steppers[stepper_id@].items,
        forall|s: Seq<char>| #[trigger] c.steppers.dom().contains(s) && s != stepper_id@ ==> r->Ok_0.0@.steppers[s] == c.steppers[s],
        r->Ok_0.0@.macros == c.macros,
        r->Ok_0.0@.profiles == c.profiles,
        r->Ok_0.0@.active_profile == c.active_profile,
{
    lemma_committed_effects(c, Edit::RenameStepper { stepper_id, new_name }, r);
    reveal(plan_arm);
    assert(r->Ok_0.0@.steppers.dom() =~= c.steppers.dom());
}

/// A committed change of a Stepper's items keeps its name and gives it the
/// new items; no other Stepper, Macro or Profile changes.
pub proof fn setting_stepper_items_changes_only_them(
    c: ConfigView,
    stepper_id: StepperId,
    items: Vec<StepperItem>,
    r: Result<(Config, Outcome), CommandError>,
)
    requires
        plan_holds(c, Edit::SetStepperItems { stepper_id, items }, r),
        r is Ok,
    ensures
        c.steppers.dom().contains(stepper_id@),
        r->Ok_0.0@.steppers.dom() == c.steppers.dom(),
        r->Ok_0.0@.steppers[stepper_id@].name == c.steppers[stepper_id@].name,
        r->Ok_0.0@.steppers[stepper_id@].items == items@,
        forall|s: Seq<char>| #[trigger] c.steppers.dom().contains(s) && s != stepper_id@ ==> r->Ok_0.0@.steppers[s] == c.steppers[s],
        r->Ok_0.0@.macros == c.macros,
        r->Ok_0.0@.profiles == c.profiles,
        r->Ok_0.0@.active_profile == c.active_profile,
{
    lemma_committed_effects(c, Edit::SetStepperItems { stepper_id, items }, r);
    reveal(plan_arm);
    assert(r->Ok_0.0@.steppers.dom() =~= c.steppers.dom());
}

/// A committed Macro rename gives the Macro under its id the new name and
/// keeps its steps; no other Macro, Stepper or Profile changes.
pub proof fn renaming_a_macro_renames_only_it(
    c: ConfigView,
    macro_id: MacroId,
    new_name: String,
    r: Result<(Config, Outcome), CommandError>,
)
    requires
        plan_holds(c, Edit::RenameMacro { macro_id, new_name }, r),
        r is Ok,
    ensures
        c.macros.dom().contains(macro_id@),
        r->Ok_0.0@.macros.dom() == c.macros.dom(),
        r->Ok_0.0@.macros[macro_id@].name == new_name@,
        r->Ok_0.0@.macros[macro_id@].steps == c.macros[macro_id@].steps,
        forall|m: Seq<char>| #[trigger] c.macros.dom().contains(m) && m != macro_id@ ==> r->Ok_0.0@.macros[m] == c.macros[m],
        r->Ok_0.0@.steppers == c.steppers,
        r->Ok_0.0@.profiles == c.profiles,
        r->Ok_0.0@.active_profile == c.active_profile,
{
    lemma_committed_effects(c, Edit::RenameMacro { macro_id, new_name }, r);
    reveal(plan_arm);
    assert(r->Ok_0.0@.macros.dom() =~= c.macros.dom());
}

/// A committed change of a Macro's steps keeps its name and gives it the new
/// steps; no other Macro, Stepper or Profile changes.
pub proof fn setting_macro_steps_changes_only_them(
    c: ConfigView,
    macro_id: MacroId,
    steps: Vec<MacroStepDto>,
    r: Result<(Config, Outcome), CommandError>,
)
    requires
        plan_holds(c, Edit::SetMacroSteps { macro_id, steps }, r),
        r is Ok,
    ensures
        c.macros.dom().contains(macro_id@),
        r->Ok_0.0@.macros.dom() == c.macros.dom(),
        r->Ok_0.0@.macros[macro_id@].name == c.macros[macro_id@].name,
        r->Ok_0.0@.macros[macro_id@].steps == steps@,
        forall|m: Seq<char>| #[trigger] c.macros.dom().contains(m) && m != macro_id@ ==> r->Ok_0.0@.macros[m] == c.macros[m],
        r->Ok_0.0@.steppers == c.steppers,
        r->Ok_0.0@.profiles == c.profiles,
        r->Ok_0.0@.active_profile == c.active_profile,
{
    lemma_committed_effects(c, Edit::SetMacroSteps { macro_id, steps }, r);
    reveal(plan_arm);
    assert(r->Ok_0.0@.macros.dom() =~= c.macros.dom());
}


/// A change within the same active Profile stops an individual Toggle on an
/// Input exactly when a primary Binding on it was removed or rebound on
/// either Layer, or the Mode key moved from a bound role to the Layer-switch
/// role; it releases a deep slot exactly when a deep Binding on the Input was
/// removed or rebound, or its Staging mode (Handoff when unset) changed; it
/// stops a Chord exactly when that Chord's Binding was removed or rebound.
/// All Toggle stops come first, then the deep-slot stops, then the Chord
/// stops, and the teardown holds nothing else.
pub proof fn a_teardown_stops_exactly_what_a_change_orphans(
    before: ConfigView,
    after: ConfigView,
    e: Seq<EffectView>,
    i: Input,
    k: Seq<Input>,
)
    requires
        teardown_effects(before, after, e),
        before.active_profile == after.active_profile,
        has_active_profile(before),
        has_active_profile(after),
    ensures
        ({
            let was = active_of(before);
            let now = active_of(after);
            &&& e.contains(EffectView::StopToggle(i)) <==> (
                (was.base.dom().contains(i) && (!now.base.dom().contains(i) || now.base[i] != was.base[i]))
                || (was.held.dom().contains(i) && (!now.held.dom().contains(i) || now.held[i] != was.held[i]))
                || (i == Input::ModeKey && was.mode_key_role == ModeKeyRole::Bound && now.mode_key_role == ModeKeyRole::LayerSwitch))
            &&& e.contains(EffectView::StopStage(i)) <==> (
                (was.deep_base.dom().contains(i) && (!now.deep_base.dom().contains(i) || now.deep_base[i] != was.deep_base[i]))
                || (was.deep_held.dom().contains(i) && (!now.deep_held.dom().contains(i) || now.deep_held[i] != was.deep_held[i]))
                || ((was.deep_stages.dom().contains(i) || now.deep_stages.dom().contains(i))
                    && (if was.deep_stages.dom().contains(i) { was.deep_stages[i].mode } else { StagingMode::Handoff })
                    != (if now.deep_stages.dom().contains(i) { now.deep_stages[i].mode } else { StagingMode::Handoff })))
            &&& e.contains(EffectView::StopChord(k)) <==> (
                (was.chords_base.dom().contains(k) && (!now.chords_base.dom().contains(k) || now.chords_base[k] != was.chords_base[k]))
                || (was.chords_held.dom().contains(k) && (!now.chords_held.dom().contains(k) || now.chords_held[k] != was.chords_held[k])))
            &&& forall|q: int| 0 <= q < e.len() ==> (#[trigger] e[q] is StopToggle || e[q] is StopStage || e[q] is StopChord)
            &&& forall|a: int, b: int| 0 <= a < b < e.len() ==> ((#[trigger] e[b]) is StopToggle ==> (#[trigger] e[a]) is StopToggle)
                && (e[a] is StopChord ==> e[b] is StopChord)
        }),
{
    let was = active_of(before);
    let now = active_of(after);
    let (t, s, c): (Seq<Input>, Seq<Input>, Seq<Seq<Input>>) = choose|t: Seq<Input>, s: Seq<Input>, c: Seq<Seq<Input>>|
        enumerates(t, toggle_set(was, now)) && enumerates(s, stage_set(was, now))
            && enumerates_chords(c, chord_set(was, now)) && e == stop_toggles(t) + stop_stages(s) + stop_chords(c);
    let st = stop_toggles(t);
    let ss = stop_stages(s);
    let sc = stop_chords(c);
    assert(e.len() == t.len() + s.len() + c.len());
    assert forall|q: int| 0 <= q < e.len() implies
        (q < t.len() ==> e[q] == EffectView::StopToggle(t[q]))
        && (t.len() <= q < t.len() + s.len() ==> e[q] == EffectView::StopStage(s[q - t.len()]))
        && (t.len() + s.len() <= q ==> e[q] == EffectView::StopChord(c[q - t.len() - s.len()])) by {
        if q < t.len() {
            assert(e[q] == st[q]);
        } else if q < t.len() + s.len() {
            assert(e[q] == ss[q - t.len()]);
        } else {
            assert(e[q] == sc[q - t.len() - s.len()]);
        }
    }
    assert(e.contains(EffectView::StopToggle(i)) <==> t.contains(i)) by {
        if e.contains(EffectView::StopToggle(i)) {
            let q = choose|q: int| 0 <= q < e.len() && e[q] == EffectView::StopToggle(i);
            assert(t[q] == i);
        }
        if t.contains(i) {
            let q = choose|q: int| 0 <= q < t.len() && t[q] == i;
            assert(e[q] == EffectView::StopToggle(i));
        }
    }
    assert(e.contains(EffectView::StopStage(i)) <==> s.contains(i)) by {
        if e.contains(EffectView::StopStage(i)) {
            let q = choose|q: int| 0 <= q < e.len() && e[q] == EffectView::StopStage(i);
            assert(s[q - t.len()] == i);
        }
        if s.contains(i) {
            let q = choose|q: int| 0 <= q < s.len() && s[q] == i;
            assert(e[q + t.len()] == EffectView::StopStage(i));
        }
    }
    assert(e.contains(EffectView::StopChord(k)) <==> c.contains(k)) by {
        if e.contains(EffectView::StopChord(k)) {
            let q = choose|q: int| 0 <= q < e.len() && e[q] == EffectView::StopChord(k);
            assert(c[q - t.len() - s.len()] == k);
        }
        if c.contains(k) {
            let q = choose|q: int| 0 <= q < c.len() && c[q] == k;
            assert(e[q + t.len() + s.len()] == EffectView::StopChord(k));
        }
    }
    assert(t.to_set().contains(i) == t.contains(i));
    assert(s.to_set().contains(i) == s.contains(i));
    assert(c.to_set().contains(k) == c.contains(k));
}

} // verus!
