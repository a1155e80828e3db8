//! The config transaction: `plan` applies one requested mutation to a copy
//! of the stored configuration, checks the result against the structural
//! rules, and describes the post-commit effects the dispatch task must run.
//! `reconcile_teardowns` derives the teardown effects by diffing the active
//! Profile before and after.

use vstd::prelude::*;
use crate::amap::{AssocMap, MapKey, MapValue};
use crate::config::{
    ActionView, Action, ActuationPoint, AxisTarget, Binding, BindingView, ChordKey, Config,
    ConfigView, DeepStageConfig, MacroDef, MacroDefView, MacroId, MacroStepDto, ModeKeyRole,
    Profile, ProfileView, StagingMode, StatusLeds, StepDirection, StepperDef, StepperDefView,
    StepperId, StepperItem, active_of, has_active_profile, strictly_sorted, chord_key_of,
    default_deep_stage, empty_profile, layer_axes, layer_bindings, layer_chords, layer_deep,
    with_layer_axes, with_layer_bindings, with_layer_chords, with_layer_deep,
};
use crate::ids::{fresh_id, slug, unique_id};
use vstd::string::StringExecFns;
use crate::input::{Input, Layer};
use crate::rules::{ConfigError, config_valid, error_message, violates, validation_reports, blank, is_blank, validate};
use crate::sorted::{chord_views, lemma_prefix_full, lemma_prefix_step, chords_sorted, insert_chord_sorted, insert_input_sorted};

verus! {

/// Why the dispatch task's lifecycle teardown runs.
#[derive(Clone, Copy, Debug, PartialEq, Eq, Structural)]
pub enum TeardownReason {
    LayerSwitch,
    ProfileSwitch,
    Disconnect,
    CaptureModeToDigital,
}

/// A post-commit effect the dispatch task must run.
#[derive(Debug, PartialEq, Eq)]
pub enum Effect {
    RepublishActuation,
    RecomputeAxes { layer: Layer },
    ForgetAxisContribution(Input),
    SignalCaptureMode(bool),
    StopToggle(Input),
    TearDown(TeardownReason),
    StopStage(Input),
    StopChord(ChordKey),
    ReconcileStepperCursor(StepperId),
    AnnounceProfileChange(String),
    AssertStatusLeds,
}

/// The view of an Effect.
pub enum EffectView {
    RepublishActuation,
    RecomputeAxes { layer: Layer },
    ForgetAxisContribution(Input),
    SignalCaptureMode(bool),
    StopToggle(Input),
    TearDown(TeardownReason),
    StopStage(Input),
    StopChord(Seq<Input>),
    ReconcileStepperCursor(Seq<char>),
    AnnounceProfileChange(Seq<char>),
    AssertStatusLeds,
}

impl View for Effect {
    type V = EffectView;

    open spec fn view(&self) -> EffectView {
        match self {
            Effect::RepublishActuation => EffectView::RepublishActuation,
            Effect::RecomputeAxes { layer } => EffectView::RecomputeAxes { layer: *layer },
            Effect::ForgetAxisContribution(i) => EffectView::ForgetAxisContribution(*i),
            Effect::SignalCaptureMode(b) => EffectView::SignalCaptureMode(*b),
            Effect::StopToggle(i) => EffectView::StopToggle(*i),
            Effect::TearDown(r) => EffectView::TearDown(*r),
            Effect::StopStage(i) => EffectView::StopStage(*i),
            Effect::StopChord(k) => EffectView::StopChord(k@),
            Effect::ReconcileStepperCursor(s) => EffectView::ReconcileStepperCursor(s@),
            Effect::AnnounceProfileChange(n) => EffectView::AnnounceProfileChange(n@),
            Effect::AssertStatusLeds => EffectView::AssertStatusLeds,
        }
    }
}

/// The views of a list of effects.
pub open spec fn effect_views(v: Seq<Effect>) -> Seq<EffectView> {
    v.map_values(|e: Effect| e@)
}

/// The keys `was` binds that `now` drops or binds to a different value.
pub open spec fn changed_keys<K>(was: Map<K, BindingView>, now: Map<K, BindingView>) -> Set<K> {
    Set::new(|k: K| was.dom().contains(k) && (!now.dom().contains(k) || now[k] != was[k]))
}

/// A key's Staging mode; an absent deep-stage config reads as Handoff.
pub open spec fn mode_at(p: ProfileView, i: Input) -> StagingMode {
    if p.deep_stages.dom().contains(i) {
        p.deep_stages[i].mode
    } else {
        StagingMode::Handoff
    }
}

/// The Inputs whose live individual Toggle a change from `was` to `now`
/// orphans: a primary Binding removed or changed on either Layer, and the
/// Mode key when its role goes from Bound to LayerSwitch.
pub open spec fn toggle_set(was: ProfileView, now: ProfileView) -> Set<Input> {
    changed_keys(was.base, now.base) + changed_keys(was.held, now.held) + (if was.mode_key_role
        == ModeKeyRole::Bound && now.mode_key_role == ModeKeyRole::LayerSwitch {
        Set::empty().insert(Input::ModeKey)
    } else {
        Set::empty()
    })
}

/// The Inputs whose live deep slot a change orphans: a deep Binding removed
/// or changed on either Layer, or a Staging mode changed.
pub open spec fn stage_set(was: ProfileView, now: ProfileView) -> Set<Input> {
    changed_keys(was.deep_base, now.deep_base) + changed_keys(was.deep_held, now.deep_held)
        + Set::new(
        |i: Input|
            (was.deep_stages.dom().contains(i) || now.deep_stages.dom().contains(i)) && mode_at(was, i)
                != mode_at(now, i),
    )
}

/// The Chords whose live Toggle or firing a change orphans: a Chord Binding
/// removed or changed on either Layer.
pub open spec fn chord_set(was: ProfileView, now: ProfileView) -> Set<Seq<Input>> {
    changed_keys(was.chords_base, now.chords_base) + changed_keys(was.chords_held, now.chords_held)
}

/// `s` lists exactly the elements of `set`, ascending.
pub open spec fn enumerates(s: Seq<Input>, set: Set<Input>) -> bool {
    strictly_sorted(s) && s.to_set() == set
}

/// `s` lists exactly the member sets of `set`, ascending.
pub open spec fn enumerates_chords(s: Seq<Seq<Input>>, set: Set<Seq<Input>>) -> bool {
    chords_sorted(s) && s.to_set() == set
}

pub open spec fn stop_toggles(s: Seq<Input>) -> Seq<EffectView> {
    s.map_values(|i: Input| EffectView::StopToggle(i))
}

pub open spec fn stop_stages(s: Seq<Input>) -> Seq<EffectView> {
    s.map_values(|i: Input| EffectView::StopStage(i))
}

pub open spec fn stop_chords(s: Seq<Seq<Input>>) -> Seq<EffectView> {
    s.map_values(|k: Seq<Input>| EffectView::StopChord(k))
}

/// The teardown effects a change from `before` to `after` implies: none when
/// the active Profile changes or either side has none; otherwise every
/// orphaned Toggle, then every orphaned deep slot, then every orphaned
/// Chord, each group ascending without repeats.
pub open spec fn teardown_effects(before: ConfigView, after: ConfigView, effects: Seq<EffectView>) -> bool {
    if before.active_profile != after.active_profile || !has_active_profile(before)
        || !has_active_profile(after) {
        effects == Seq::<EffectView>::empty()
    } else {
        let was = active_of(before);
        let now = active_of(after);
        exists|t: Seq<Input>, s: Seq<Input>, c: Seq<Seq<Input>>|
            enumerates(t, toggle_set(was, now)) && enumerates(s, stage_set(was, now))
                && enumerates_chords(c, chord_set(was, now)) && effects == stop_toggles(t)
                + stop_stages(s) + stop_chords(c)
    }
}

/// Adds to the sorted set `out` every key of `was` that `now` drops or
/// rebinds — the diff `reconcile_teardowns` runs over each pair of primary
/// and deep Binding maps.
pub fn removed_or_changed(
    was: &AssocMap<Input, Binding>,
    now: &AssocMap<Input, Binding>,
    out: &mut Vec<Input>,
)
    requires
        strictly_sorted(old(out)@),
    ensures
        strictly_sorted(final(out)@),
        final(out)@.to_set() == old(out)@.to_set() + changed_keys(was@, now@),
{
    let n = was.len();
    let ghost start = out@.to_set();
    let mut i: usize = 0;
    while i < n
        invariant
            n == was.key_seq().len(),
            i <= n,
            strictly_sorted(out@),
            forall|k: Input| #[trigger] was@.dom().contains(k) <==> was.key_seq().contains(k),
            out@.to_set() == start + Set::new(
                |k: Input| was.key_seq().subrange(0, i as int).contains(k) && changed_keys(was@, now@).contains(k),
            ),
        decreases n - i,
    {
        let k = was.key_at(i);
        let v = was.value_at(i);
        let changed = match now.get(k) {
            None => true,
            Some(cur) => !cur.same_as(v),
        };
        let ghost before_set = out@.to_set();
        if changed {
            insert_input_sorted(out, *k);
        }
        proof {
            let ks = was.key_seq();
            let x0 = ks[i as int];
            assert(was@.dom().contains(x0));
            assert(changed == changed_keys(was@, now@).contains(x0));
            if changed {
                assert(out@.to_set() == before_set.insert(x0));
            } else {
                assert(out@.to_set() == before_set);
            }
            lemma_prefix_step(ks, i as int);
            assert(out@.to_set() =~= start + Set::new(
                |x: Input| ks.subrange(0, i + 1).contains(x) && changed_keys(was@, now@).contains(x),
            ));
        }
        i = i + 1;
    }
    proof {
        lemma_prefix_full(was.key_seq());
        assert(out@.to_set() =~= start + changed_keys(was@, now@));
    }
}

/// Adds to `out` every Chord key of `was` that `now` drops or rebinds.
fn collect_changed_chords(
    was: &AssocMap<ChordKey, Binding>,
    now: &AssocMap<ChordKey, Binding>,
    out: &mut Vec<ChordKey>,
)
    requires
        chords_sorted(chord_views(old(out)@)),
    ensures
        chords_sorted(chord_views(final(out)@)),
        chord_views(final(out)@).to_set() == chord_views(old(out)@).to_set() + changed_keys(was@, now@),
{
    let n = was.len();
    let ghost start = chord_views(out@).to_set();
    let mut i: usize = 0;
    while i < n
        invariant
            n == was.key_seq().len(),
            i <= n,
            chords_sorted(chord_views(out@)),
            forall|k: Seq<Input>| #[trigger] was@.dom().contains(k) <==> was.key_seq().contains(k),
            chord_views(out@).to_set() == start + Set::new(
                |k: Seq<Input>| was.key_seq().subrange(0, i as int).contains(k) && changed_keys(was@, now@).contains(k),
            ),
        decreases n - i,
    {
        let k = was.key_at(i);
        let v = was.value_at(i);
        let changed = match now.get(k) {
            None => true,
            Some(cur) => !cur.same_as(v),
        };
        let ghost before_set = chord_views(out@).to_set();
        if changed {
            insert_chord_sorted(out, k.duplicate());
        }
        proof {
            let ks = was.key_seq();
            let x0 = ks[i as int];
            assert(was@.dom().contains(x0));
            assert(changed == changed_keys(was@, now@).contains(x0));
            lemma_prefix_step(ks, i as int);
            assert(chord_views(out@).to_set() =~= start + Set::new(
                |x: Seq<Input>| ks.subrange(0, i + 1).contains(x) && changed_keys(was@, now@).contains(x),
            ));
        }
        i = i + 1;
    }
    proof {
        lemma_prefix_full(was.key_seq());
        assert(chord_views(out@).to_set() =~= start + changed_keys(was@, now@));
    }
}

fn staging_mode_at(p: &Profile, i: Input) -> (r: StagingMode)
    ensures
        r == mode_at(p@, i),
{
    match p.deep_stages.get(&i) {
        Some(c) => c.mode,
        None => StagingMode::Handoff,
    }
}

/// The Inputs of `stages` (a deep-stage map of `side`) whose Staging mode
/// differs between `was` and `now`.
pub open spec fn mode_changes_in(keys: Set<Input>, was: ProfileView, now: ProfileView) -> Set<Input> {
    Set::new(|i: Input| keys.contains(i) && mode_at(was, i) != mode_at(now, i))
}

/// Adds to `out` every key of `side`'s deep-stage map whose mode differs
/// between `was` and `now`.
fn collect_mode_changes(side: &Profile, was: &Profile, now: &Profile, out: &mut Vec<Input>)
    requires
        strictly_sorted(old(out)@),
    ensures
        strictly_sorted(final(out)@),
        final(out)@.to_set() == old(out)@.to_set() + mode_changes_in(side@.deep_stages.dom(), was@, now@),
{
    let stages = &side.deep_stages;
    let n = stages.len();
    let ghost start = out@.to_set();
    let mut i: usize = 0;
    while i < n
        invariant
            n == stages.key_seq().len(),
            i <= n,
            strictly_sorted(out@),
            forall|k: Input| #[trigger] stages@.dom().contains(k) <==> stages.key_seq().contains(k),
            stages@ == side@.deep_stages,
            out@.to_set() == start + Set::new(
                |k: Input| stages.key_seq().subrange(0, i as int).contains(k) && mode_at(was@, k) != mode_at(now@, k),
            ),
        decreases n - i,
    {
        let k = *stages.key_at(i);
        let changed = staging_mode_at(was, k) != staging_mode_at(now, k);
        if changed {
            insert_input_sorted(out, k);
        }
        proof {
            let ks = stages.key_seq();
            lemma_prefix_step(ks, i as int);
            assert(out@.to_set() =~= start + Set::new(
                |x: Input| ks.subrange(0, i + 1).contains(x) && mode_at(was@, x) != mode_at(now@, x),
            ));
        }
        i = i + 1;
    }
    proof {
        lemma_prefix_full(stages.key_seq());
        assert(out@.to_set() =~= start + mode_changes_in(side@.deep_stages.dom(), was@, now@));
    }
}

/// Every teardown effect a committed edit implies, derived by diffing the
/// active Profile before and after: `StopToggle` for a removed or changed
/// primary Binding (and for the Mode key on a Bound to LayerSwitch flip),
/// `StopStage` for a removed or changed deep Binding or a changed Staging
/// mode, `StopChord` for a removed or changed Chord Binding — in that type
/// order, keys ascending and without repeats within each type. Empty when the
/// active Profile changes.
pub fn reconcile_teardowns(before: &Config, after: &Config) -> (r: Vec<Effect>)
    ensures
        teardown_effects(before@, after@, effect_views(r@)),
{
    if before.active_profile != after.active_profile {
        let none: Vec<Effect> = Vec::new();
        assert(effect_views(none@) =~= Seq::<EffectView>::empty());
        return none;
    }
    let (was, now) = match (before.active_profile(), after.active_profile()) {
        (Some(was), Some(now)) => (was, now),
        _ => {
            let none: Vec<Effect> = Vec::new();
            assert(effect_views(none@) =~= Seq::<EffectView>::empty());
            return none;
        },
    };
    let mut toggles: Vec<Input> = Vec::new();
    let mut stages: Vec<Input> = Vec::new();
    let mut chords: Vec<ChordKey> = Vec::new();
    proof {
        assert(toggles@.to_set() =~= Set::<Input>::empty());
        assert(stages@.to_set() =~= Set::<Input>::empty());
        assert(chord_views(chords@).to_set() =~= Set::<Seq<Input>>::empty());
    }

    removed_or_changed(&was.base, &now.base, &mut toggles);
    removed_or_changed(&was.held, &now.held, &mut toggles);
    let ghost before_mode = toggles@.to_set();
    if was.mode_key_role == ModeKeyRole::Bound && now.mode_key_role == ModeKeyRole::LayerSwitch {
        insert_input_sorted(&mut toggles, Input::ModeKey);
    }
    proof {
        assert(toggles@.to_set() =~= toggle_set(was@, now@));
    }

    removed_or_changed(&was.deep_base, &now.deep_base, &mut stages);
    removed_or_changed(&was.deep_held, &now.deep_held, &mut stages);
    collect_mode_changes(was, was, now, &mut stages);
    collect_mode_changes(now, was, now, &mut stages);
    proof {
        assert(stages@.to_set() =~= stage_set(was@, now@));
    }

    collect_changed_chords(&was.chords_base, &now.chords_base, &mut chords);
    collect_changed_chords(&was.chords_held, &now.chords_held, &mut chords);
    proof {
        assert(chord_views(chords@).to_set() =~= chord_set(was@, now@));
    }

    let mut effects: Vec<Effect> = Vec::new();
    let mut i: usize = 0;
    while i < toggles.len()
        invariant
            i <= toggles@.len(),
            effect_views(effects@) == stop_toggles(toggles@.subrange(0, i as int)),
        decreases toggles@.len() - i,
    {
        let ghost prev = effects@;
        effects.push(Effect::StopToggle(toggles[i]));
        proof {
            assert(toggles@.subrange(0, i + 1) =~= toggles@.subrange(0, i as int).push(toggles@[i as int]));
            assert(effect_views(effects@) =~= effect_views(prev).push(EffectView::StopToggle(toggles@[i as int])));
            assert(effect_views(effects@) =~= stop_toggles(toggles@.subrange(0, i + 1)));
        }
        i = i + 1;
    }
    let ghost part1 = effect_views(effects@);
    let mut i: usize = 0;
    while i < stages.len()
        invariant
            i <= stages@.len(),
            effect_views(effects@) == part1 + stop_stages(stages@.subrange(0, i as int)),
        decreases stages@.len() - i,
    {
        let ghost prev = effects@;
        effects.push(Effect::StopStage(stages[i]));
        proof {
            assert(stages@.subrange(0, i + 1) =~= stages@.subrange(0, i as int).push(stages@[i as int]));
            assert(effect_views(effects@) =~= effect_views(prev).push(EffectView::StopStage(stages@[i as int])));
            assert(effect_views(effects@) =~= part1 + stop_stages(stages@.subrange(0, i + 1)));
        }
        i = i + 1;
    }
    let ghost part2 = effect_views(effects@);
    let ghost chord_seq = chord_views(chords@);
    let mut i: usize = 0;
    while i < chords.len()
        invariant
            i <= chords@.len(),
            chord_seq == chord_views(chords@),
            effect_views(effects@) == part2 + stop_chords(chord_seq.subrange(0, i as int)),
        decreases chords@.len() - i,
    {
        let k = chords[i].duplicate();
        let ghost kv = k@;
        let ghost prev = effects@;
        effects.push(Effect::StopChord(k));
        proof {
            assert(kv == chord_seq[i as int]);
            assert(effect_views(effects@) =~= effect_views(prev).push(EffectView::StopChord(kv)));
            assert(chord_seq.subrange(0, i + 1) =~= chord_seq.subrange(0, i as int).push(chord_seq[i as int]));
            assert(effect_views(effects@) =~= part2 + stop_chords(chord_seq.subrange(0, i + 1)));
        }
        i = i + 1;
    }
    proof {
        assert(toggles@.subrange(0, toggles@.len() as int) == toggles@);
        assert(stages@.subrange(0, stages@.len() as int) == stages@);
        assert(chord_seq.subrange(0, chord_seq.len() as int) == chord_seq);
        assert(effect_views(effects@) == stop_toggles(toggles@) + stop_stages(stages@) + stop_chords(chord_seq));
    }
    effects
}

/// A requested mutation of the stored configuration.
#[derive(Debug, PartialEq)]
pub enum Edit {
    SetBinding { input: Input, layer: Layer, binding: Binding },
    ClearBinding { input: Input, layer: Layer },
    SetModeKeyRole { role: ModeKeyRole },
    CreateProfile { name: String },
    DeleteProfile { name: String },
    RenameProfile { old_name: String, new_name: String },
    SwitchProfile { name: String },
    SetActuationPoint { input: Input, actuation: u8, release: u8 },
    ClearActuationPoint { input: Input },
    SetDefaultActuation { actuation: u8, release: u8 },
    SetDefaultDeepActuation { actuation: u8, release: u8 },
    ResetActuationPoints,
    SetForceDigital { force: bool },
    CreateMacro { name: String, steps: Vec<MacroStepDto> },
    RenameMacro { macro_id: MacroId, new_name: String },
    DeleteMacro { macro_id: MacroId },
    SetMacroSteps { macro_id: MacroId, steps: Vec<MacroStepDto> },
    CreateStepper { name: String, items: Vec<StepperItem> },
    RenameStepper { stepper_id: StepperId, new_name: String },
    DeleteStepper { stepper_id: StepperId },
    SetStepperItems { stepper_id: StepperId, items: Vec<StepperItem> },
    SetChordBinding { inputs: Vec<Input>, layer: Layer, binding: Binding },
    ClearChordBinding { inputs: Vec<Input>, layer: Layer },
    SetAxisAssignment { input: Input, layer: Layer, target: AxisTarget },
    ClearAxisAssignment { input: Input, layer: Layer },
    SetStatusLeds { orange: bool, green: bool, blue: bool },
    SetDeepStage { input: Input, layer: Layer, binding: Binding },
    ClearDeepStage { input: Input, layer: Layer },
    SetDeepActuation { input: Input, actuation: u8, release: u8 },
    SetStagingMode { input: Input, mode: StagingMode },
}

/// The id a create edit minted.
#[derive(Debug, PartialEq, Eq)]
pub enum CreatedId {
    Macro(MacroId),
    Stepper(StepperId),
}

/// The view of a minted id.
pub enum CreatedIdView {
    Macro(Seq<char>),
    Stepper(Seq<char>),
}

impl View for CreatedId {
    type V = CreatedIdView;

    open spec fn view(&self) -> CreatedIdView {
        match self {
            CreatedId::Macro(m) => CreatedIdView::Macro(m@),
            CreatedId::Stepper(s) => CreatedIdView::Stepper(s@),
        }
    }
}

/// Why an edit was rejected.
#[derive(Debug, PartialEq, Eq)]
pub enum CommandError {
    NotFound,
    AlreadyExists,
    InvalidRequest(String),
    IoError(String),
}

/// The view of a rejection.
pub enum CommandErrorView {
    NotFound,
    AlreadyExists,
    InvalidRequest(Seq<char>),
    IoError(Seq<char>),
}

impl View for CommandError {
    type V = CommandErrorView;

    open spec fn view(&self) -> CommandErrorView {
        match self {
            CommandError::NotFound => CommandErrorView::NotFound,
            CommandError::AlreadyExists => CommandErrorView::AlreadyExists,
            CommandError::InvalidRequest(m) => CommandErrorView::InvalidRequest(m@),
            CommandError::IoError(m) => CommandErrorView::IoError(m@),
        }
    }
}

impl CommandError {
    /// A broken structural rule is reported as an invalid request carrying the
    /// rule's message.
    pub fn from_config_error(e: ConfigError) -> (r: CommandError)
        ensures
            r@ == CommandErrorView::InvalidRequest(error_message(e)),
    {
        CommandError::InvalidRequest(e.message())
    }
}

/// What `plan` derives beyond the new configuration: the effects to run and
/// the id a create edit minted.
#[derive(Debug, PartialEq)]
pub struct Outcome {
    pub effects: Vec<Effect>,
    pub created: Option<CreatedId>,
}

/// The `Debug` rendering of a string: quoted, with escapes.
pub uninterp spec fn debug_str(s: Seq<char>) -> Seq<char>;

/// `format!("{s:?}")` — the `Debug` rendering of `s`.
#[verifier::external_body]
fn debug_text(s: &str) -> (r: String)
    ensures
        r@ == debug_str(s@),
{
    format!("{s:?}")
}

/// A rewrite applied to every Profile.
pub enum ProfileOp {
    /// Drop every primary Binding stepping `stepper` in `direction`, except
    /// the one `(profile, layer, input)` named.
    StealInputs { stepper: StepperId, direction: StepDirection, except: Option<(String, Layer, Input)> },
    /// Drop every Chord Binding stepping `stepper` in `direction`, except the
    /// one `(profile, layer, key)` named.
    StealChords { stepper: StepperId, direction: StepDirection, except_chord: Option<(String, Layer, ChordKey)> },
    /// Point every primary Profile Switch at `old` to `new` instead.
    Retarget { old: String, new: String },
}

/// The view of a Profile rewrite.
pub enum ProfileOpView {
    StealInputs { stepper: Seq<char>, direction: StepDirection, except: Option<(Seq<char>, Layer, Input)> },
    StealChords { stepper: Seq<char>, direction: StepDirection, except_chord: Option<(Seq<char>, Layer, Seq<Input>)> },
    Retarget { old: Seq<char>, new: Seq<char> },
}

impl View for ProfileOp {
    type V = ProfileOpView;

    open spec fn view(&self) -> ProfileOpView {
        match self {
            ProfileOp::StealInputs { stepper, direction, except } => ProfileOpView::StealInputs {
                stepper: stepper@,
                direction: *direction,
                except: match except {
                    Some((n, l, i)) => Some((n@, *l, *i)),
                    None => None,
                },
            },
            ProfileOp::StealChords { stepper, direction, except_chord } => ProfileOpView::StealChords {
                stepper: stepper@,
                direction: *direction,
                except_chord: match except_chord {
                    Some((n, l, k)) => Some((n@, *l, k@)),
                    None => None,
                },
            },
            ProfileOp::Retarget { old, new } => ProfileOpView::Retarget { old: old@, new: new@ },
        }
    }
}

/// The key a `(profile, layer, key)` exception spares in Profile `name`'s
/// `layer`.
pub open spec fn spared<K>(except: Option<(Seq<char>, Layer, K)>, name: Seq<char>, layer: Layer) -> Option<K> {
    match except {
        Some((n, l, k)) => if n == name && l == layer { Some(k) } else { None },
        None => None,
    }
}

/// A Binding stepping `stepper` in `direction`.
pub open spec fn steps(b: BindingView, stepper: Seq<char>, direction: StepDirection) -> bool {
    b.action == ActionView::Step { stepper, direction }
}

/// `m` without its Bindings stepping `stepper` in `direction`, but for the
/// spared key.
pub open spec fn strip_steps<K>(m: Map<K, BindingView>, stepper: Seq<char>, direction: StepDirection, spare: Option<K>) -> Map<K, BindingView> {
    Map::new(|k: K| m.dom().contains(k) && (spare == Some(k) || !steps(m[k], stepper, direction)), |k: K| m[k])
}

/// A Binding with a Profile Switch at `old` pointed at `new`.
pub open spec fn retarget(b: BindingView, old: Seq<char>, new: Seq<char>) -> BindingView {
    if b.action == (ActionView::ProfileSwitch { target: old }) {
        BindingView { trigger: b.trigger, action: ActionView::ProfileSwitch { target: new } }
    } else {
        b
    }
}

/// Every Binding of `m` retargeted from `old` to `new`.
pub open spec fn retarget_all(m: Map<Input, BindingView>, old: Seq<char>, new: Seq<char>) -> Map<Input, BindingView> {
    Map::new(|k: Input| m.dom().contains(k), |k: Input| retarget(m[k], old, new))
}

/// Profile `name` after rewrite `op`.
pub open spec fn apply_op(op: ProfileOpView, name: Seq<char>, p: ProfileView) -> ProfileView {
    match op {
        ProfileOpView::StealInputs { stepper, direction, except } => ProfileView {
            base: strip_steps(p.base, stepper, direction, spared(except, name, Layer::Base)),
            held: strip_steps(p.held, stepper, direction, spared(except, name, Layer::Held)),
            ..p
        },
        ProfileOpView::StealChords { stepper, direction, except_chord } => ProfileView {
            chords_base: strip_steps(p.chords_base, stepper, direction, spared(except_chord, name, Layer::Base)),
            chords_held: strip_steps(p.chords_held, stepper, direction, spared(except_chord, name, Layer::Held)),
            ..p
        },
        ProfileOpView::Retarget { old, new } => ProfileView {
            base: retarget_all(p.base, old, new),
            held: retarget_all(p.held, old, new),
            ..p
        },
    }
}

/// The configuration with every Profile rewritten by `op`.
pub open spec fn apply_op_all(c: ConfigView, op: ProfileOpView) -> ConfigView {
    ConfigView {
        profiles: Map::new(|n: Seq<char>| c.profiles.dom().contains(n), |n: Seq<char>| apply_op(op, n, c.profiles[n])),
        ..c
    }
}

fn strip_steps_exec<K: MapKey>(
    m: &AssocMap<K, Binding>,
    stepper: &StepperId,
    direction: StepDirection,
    spare: Option<&K>,
) -> (r: AssocMap<K, Binding>)
    ensures
        r@ == strip_steps(m@, stepper@, direction, match spare { Some(k) => Some(k@), None => None }),
{
    let ghost sp = match spare { Some(k) => Some(k@), None => None::<K::V> };
    let target = Action::Step { stepper: stepper.key_clone(), direction };
    let n = m.len();
    let mut out: AssocMap<K, Binding> = AssocMap::new();
    let mut j: usize = 0;
    while j < n
        invariant
            n == m.key_seq().len(),
            j <= n,
            target@ == (ActionView::Step { stepper: stepper@, direction }),
            forall|x: K::V| #[trigger] m@.dom().contains(x) <==> m.key_seq().contains(x),
            sp == match spare { Some(k) => Some(k@), None => None::<K::V> },
            out@ == Map::new(
                |x: K::V| m.key_seq().subrange(0, j as int).contains(x) && (sp == Some(x) || !steps(m@[x], stepper@, direction)),
                |x: K::V| m@[x],
            ),
        decreases n - j,
    {
        let k = m.key_at(j);
        let v = m.value_at(j);
        let spare_this = match spare {
            Some(s) => s.key_eq(k),
            None => false,
        };
        if spare_this || !v.action.same_as(&target) {
            out.insert(k.key_clone(), v.value_clone());
        }
        proof {
            lemma_prefix_step(m.key_seq(), j as int);
            assert(out@ =~= Map::new(
                |x: K::V| m.key_seq().subrange(0, j + 1).contains(x) && (sp == Some(x) || !steps(m@[x], stepper@, direction)),
                |x: K::V| m@[x],
            ));
        }
        j = j + 1;
    }
    proof {
        lemma_prefix_full(m.key_seq());
        assert(out@ =~= strip_steps(m@, stepper@, direction, sp));
    }
    out
}

fn retarget_exec(m: &AssocMap<Input, Binding>, old: &String, new: &String) -> (r: AssocMap<Input, Binding>)
    ensures
        r@ == retarget_all(m@, old@, new@),
{
    let n = m.len();
    let mut out: AssocMap<Input, Binding> = AssocMap::new();
    let mut j: usize = 0;
    while j < n
        invariant
            n == m.key_seq().len(),
            j <= n,
            forall|x: Input| #[trigger] m@.dom().contains(x) <==> m.key_seq().contains(x),
            out@ == Map::new(|x: Input| m.key_seq().subrange(0, j as int).contains(x), |x: Input| retarget(m@[x], old@, new@)),
        decreases n - j,
    {
        let k = *m.key_at(j);
        let v = m.value_at(j);
        let nb = match &v.action {
            Action::ProfileSwitch { target } => {
                if *target == *old {
                    Binding { trigger: v.trigger, action: Action::ProfileSwitch { target: new.clone() } }
                } else {
                    v.value_clone()
                }
            },
            _ => v.value_clone(),
        };
        out.insert(k, nb);
        proof {
            lemma_prefix_step(m.key_seq(), j as int);
            assert(out@ =~= Map::new(|x: Input| m.key_seq().subrange(0, j + 1).contains(x), |x: Input| retarget(m@[x], old@, new@)));
        }
        j = j + 1;
    }
    proof {
        lemma_prefix_full(m.key_seq());
        assert(out@ =~= retarget_all(m@, old@, new@));
    }
    out
}

fn apply_op_exec(op: &ProfileOp, name: &String, p: &Profile) -> (r: Profile)
    ensures
        r@ == apply_op(op@, name@, p@),
{
    let mut q = p.duplicate();
    match op {
        ProfileOp::StealInputs { stepper, direction, except } => {
            let (sb, sh) = match except {
                Some((n, l, i)) => {
                    if *n == *name {
                        match l {
                            Layer::Base => (Some(i), None),
                            Layer::Held => (None, Some(i)),
                        }
                    } else {
                        (None, None)
                    }
                },
                None => (None, None),
            };
            q.base = strip_steps_exec(&p.base, stepper, *direction, sb);
            q.held = strip_steps_exec(&p.held, stepper, *direction, sh);
        },
        ProfileOp::StealChords { stepper, direction, except_chord } => {
            let (sb, sh) = match except_chord {
                Some((n, l, k)) => {
                    if *n == *name {
                        match l {
                            Layer::Base => (Some(k), None),
                            Layer::Held => (None, Some(k)),
                        }
                    } else {
                        (None, None)
                    }
                },
                None => (None, None),
            };
            q.chords_base = strip_steps_exec(&p.chords_base, stepper, *direction, sb);
            q.chords_held = strip_steps_exec(&p.chords_held, stepper, *direction, sh);
        },
        ProfileOp::Retarget { old, new } => {
            q.base = retarget_exec(&p.base, old, new);
            q.held = retarget_exec(&p.held, old, new);
        },
    }
    q
}

/// Rewrites every Profile of `config` by `op`.
fn apply_op_all_exec(config: &mut Config, op: &ProfileOp)
    ensures
        final(config)@ == apply_op_all(old(config)@, op@),
{
    let n = config.profiles.len();
    let mut out: AssocMap<String, Profile> = AssocMap::new();
    let mut j: usize = 0;
    while j < n
        invariant
            n == config.profiles.key_seq().len(),
            j <= n,
            forall|x: Seq<char>| #[trigger] config.profiles@.dom().contains(x) <==> config.profiles.key_seq().contains(x),
            out@ == Map::new(
                |x: Seq<char>| config.profiles.key_seq().subrange(0, j as int).contains(x),
                |x: Seq<char>| apply_op(op@, x, config.profiles@[x]),
            ),
        decreases n - j,
    {
        let name = config.profiles.key_at(j);
        let p = config.profiles.value_at(j);
        let q = apply_op_exec(op, name, p);
        out.insert(name.clone(), q);
        proof {
            lemma_prefix_step(config.profiles.key_seq(), j as int);
            assert(out@ =~= Map::new(
                |x: Seq<char>| config.profiles.key_seq().subrange(0, j + 1).contains(x),
                |x: Seq<char>| apply_op(op@, x, config.profiles@[x]),
            ));
        }
        j = j + 1;
    }
    proof {
        lemma_prefix_full(config.profiles.key_seq());
        assert(out@ =~= apply_op_all(config@, op@).profiles);
    }
    config.profiles = out;
}

/// What an edit's arm asks about the Bindings.
pub enum ActionQuery {
    Targets(String),
    UsesMacro(MacroId),
    UsesStepper(StepperId),
}

/// The view of a query.
pub enum ActionQueryView {
    Targets(Seq<char>),
    UsesMacro(Seq<char>),
    UsesStepper(Seq<char>),
}

impl View for ActionQuery {
    type V = ActionQueryView;

    open spec fn view(&self) -> ActionQueryView {
        match self {
            ActionQuery::Targets(n) => ActionQueryView::Targets(n@),
            ActionQuery::UsesMacro(m) => ActionQueryView::UsesMacro(m@),
            ActionQuery::UsesStepper(s) => ActionQueryView::UsesStepper(s@),
        }
    }
}

/// An Action a query asks about: a Profile Switch to the Profile, a Macro
/// Action naming the Macro, a Step Action (either direction) naming the
/// Stepper.
pub open spec fn answers(a: ActionView, q: ActionQueryView) -> bool {
    match q {
        ActionQueryView::Targets(n) => a == ActionView::ProfileSwitch { target: n },
        ActionQueryView::UsesMacro(id) => a == ActionView::Macro { macro_id: id },
        ActionQueryView::UsesStepper(id) => a matches ActionView::Step { stepper, .. } && stepper == id,
    }
}

/// Some Binding of `m` answers `q`.
pub open spec fn mentions<K>(m: Map<K, BindingView>, q: ActionQueryView) -> bool {
    exists|k: K| #[trigger] m.dom().contains(k) && answers(m[k].action, q)
}

/// Some Profile's primary Bindings (and, with `chords`, its Chord Bindings)
/// answer `q`.
pub open spec fn referenced(c: ConfigView, q: ActionQueryView, chords: bool) -> bool {
    exists|n: Seq<char>|
        #[trigger] c.profiles.dom().contains(n) && (mentions(c.profiles[n].base, q) || mentions(c.profiles[n].held, q)
            || (chords && (mentions(c.profiles[n].chords_base, q) || mentions(c.profiles[n].chords_held, q))))
}

fn action_answers(a: &Action, q: &ActionQuery) -> (r: bool)
    ensures
        r == answers(a@, q@),
{
    match (q, a) {
        (ActionQuery::Targets(n), Action::ProfileSwitch { target }) => *target == *n,
        (ActionQuery::UsesMacro(id), Action::Macro { macro_id }) => macro_id.key_eq(id),
        (ActionQuery::UsesStepper(id), Action::Step { stepper, .. }) => stepper.key_eq(id),
        _ => false,
    }
}

fn map_mentions<K: MapKey>(m: &AssocMap<K, Binding>, q: &ActionQuery) -> (r: bool)
    ensures
        r == mentions(m@, q@),
{
    let n = m.len();
    let mut j: usize = 0;
    while j < n
        invariant
            n == m.key_seq().len(),
            j <= n,
            forall|x: K::V| #[trigger] m@.dom().contains(x) <==> m.key_seq().contains(x),
            forall|i: int| 0 <= i < j ==> !answers(m@[#[trigger] m.key_seq()[i]].action, q@),
        decreases n - j,
    {
        if action_answers(&m.value_at(j).action, q) {
            proof {
                assert(m@.dom().contains(m.key_seq()[j as int]));
            }
            return true;
        }
        j = j + 1;
    }
    proof {
        assert forall|k: K::V| #[trigger] m@.dom().contains(k) implies !answers(m@[k].action, q@) by {
            let i = choose|i: int| 0 <= i < m.key_seq().len() && m.key_seq()[i] == k;
        }
    }
    false
}

fn is_referenced(c: &Config, q: &ActionQuery, chords: bool) -> (r: bool)
    ensures
        r == referenced(c@, q@, chords),
{
    let profiles = &c.profiles;
    let n = profiles.len();
    let mut j: usize = 0;
    while j < n
        invariant
            n == profiles.key_seq().len(),
            j <= n,
            profiles@ == c@.profiles,
            forall|x: Seq<char>| #[trigger] profiles@.dom().contains(x) <==> profiles.key_seq().contains(x),
            forall|i: int| 0 <= i < j ==> !{
                let p = profiles@[#[trigger] profiles.key_seq()[i]];
                mentions(p.base, q@) || mentions(p.held, q@) || (chords && (mentions(p.chords_base, q@) || mentions(p.chords_held, q@)))
            },
        decreases n - j,
    {
        let p = profiles.value_at(j);
        if map_mentions(&p.base, q) || map_mentions(&p.held, q)
            || (chords && (map_mentions(&p.chords_base, q) || map_mentions(&p.chords_held, q))) {
            proof {
                assert(profiles@.dom().contains(profiles.key_seq()[j as int]));
            }
            return true;
        }
        j = j + 1;
    }
    proof {
        assert forall|k: Seq<char>| #[trigger] c@.profiles.dom().contains(k) implies !{
            let p = c@.profiles[k];
            mentions(p.base, q@) || mentions(p.held, q@) || (chords && (mentions(p.chords_base, q@) || mentions(p.chords_held, q@)))
        } by {
            let i = choose|i: int| 0 <= i < profiles.key_seq().len() && profiles.key_seq()[i] == k;
        }
    }
    false
}

/// `m` without the Chords whose member set holds `input`.
pub open spec fn drop_chords_with(m: Map<Seq<Input>, BindingView>, input: Input) -> Map<Seq<Input>, BindingView> {
    Map::new(|k: Seq<Input>| m.dom().contains(k) && !k.contains(input), |k: Seq<Input>| m[k])
}

fn holds_member(k: &ChordKey, input: Input) -> (r: bool)
    ensures
        r == k@.contains(input),
{
    let members = k.members();
    let mut i: usize = 0;
    while i < members.len()
        invariant
            i <= members@.len(),
            members@ == k@,
            forall|j: int| 0 <= j < i ==> members@[j] != input,
        decreases members@.len() - i,
    {
        if members[i] == input {
            assert(k@[i as int] == input);
            return true;
        }
        i = i + 1;
    }
    false
}

fn drop_chords_with_exec(m: &AssocMap<ChordKey, Binding>, input: Input) -> (r: AssocMap<ChordKey, Binding>)
    ensures
        r@ == drop_chords_with(m@, input),
{
    let n = m.len();
    let mut out: AssocMap<ChordKey, Binding> = AssocMap::new();
    let mut j: usize = 0;
    while j < n
        invariant
            n == m.key_seq().len(),
            j <= n,
            forall|x: Seq<Input>| #[trigger] m@.dom().contains(x) <==> m.key_seq().contains(x),
            out@ == Map::new(|x: Seq<Input>| m.key_seq().subrange(0, j as int).contains(x) && !x.contains(input), |x: Seq<Input>| m@[x]),
        decreases n - j,
    {
        let k = m.key_at(j);
        if !holds_member(k, input) {
            out.insert(k.duplicate(), m.value_at(j).value_clone());
        }
        proof {
            lemma_prefix_step(m.key_seq(), j as int);
            assert(out@ =~= Map::new(|x: Seq<Input>| m.key_seq().subrange(0, j + 1).contains(x) && !x.contains(input), |x: Seq<Input>| m@[x]));
        }
        j = j + 1;
    }
    proof {
        lemma_prefix_full(m.key_seq());
        assert(out@ =~= drop_chords_with(m@, input));
    }
    out
}

/// Whether any Profile's Base/Held Bindings hold a Profile Switch to
/// `name` — a Profile cannot be deleted while one does.
pub fn profile_switch_references(config: &Config, name: &str) -> (r: bool)
    ensures
        r == referenced(config@, ActionQueryView::Targets(name@), false),
{
    is_referenced(config, &ActionQuery::Targets(String::from_str(name)), false)
}

/// Whether any Profile's Base/Held or Chord Bindings name the Macro — it
/// cannot be deleted while one does.
pub fn macro_references(config: &Config, macro_id: &MacroId) -> (r: bool)
    ensures
        r == referenced(config@, ActionQueryView::UsesMacro(macro_id@), true),
{
    is_referenced(config, &ActionQuery::UsesMacro(macro_id.key_clone()), true)
}

/// Whether any Profile's Base/Held or Chord Bindings step the Stepper, in
/// either direction — it cannot be deleted while one does.
pub fn stepper_references(config: &Config, stepper_id: &StepperId) -> (r: bool)
    ensures
        r == referenced(config@, ActionQueryView::UsesStepper(stepper_id@), true),
{
    is_referenced(config, &ActionQuery::UsesStepper(stepper_id.key_clone()), true)
}

/// Points every primary Profile Switch at `old_name`, in every Profile, at
/// `new_name` instead.
pub fn cascade_rename_profile_switch_targets(config: &mut Config, old_name: &str, new_name: &str)
    ensures
        final(config)@ == apply_op_all(old(config)@, ProfileOpView::Retarget { old: old_name@, new: new_name@ }),
{
    apply_op_all_exec(config, &ProfileOp::Retarget { old: String::from_str(old_name), new: String::from_str(new_name) });
}

/// Removes every primary Binding, in every Profile and Layer, that steps
/// `stepper` in `direction` — but the one `except` names.
pub fn take_stepper_direction_elsewhere(
    config: &mut Config,
    stepper: &StepperId,
    direction: StepDirection,
    except: Option<(&str, Layer, Input)>,
)
    ensures
        final(config)@ == apply_op_all(
            old(config)@,
            ProfileOpView::StealInputs {
                stepper: stepper@,
                direction,
                except: match except {
                    Some((n, l, i)) => Some((n@, l, i)),
                    None => None,
                },
            },
        ),
{
    let owned = match except {
        Some((n, l, i)) => Some((String::from_str(n), l, i)),
        None => None,
    };
    apply_op_all_exec(config, &ProfileOp::StealInputs { stepper: stepper.key_clone(), direction, except: owned });
}

/// Removes every Chord Binding, in every Profile and Layer, that steps
/// `stepper` in `direction` — but the one `except` names.
pub fn take_stepper_direction_elsewhere_from_chords(
    config: &mut Config,
    stepper: &StepperId,
    direction: StepDirection,
    except: Option<(&str, Layer, &ChordKey)>,
)
    ensures
        final(config)@ == apply_op_all(
            old(config)@,
            ProfileOpView::StealChords {
                stepper: stepper@,
                direction,
                except_chord: match except {
                    Some((n, l, k)) => Some((n@, l, k@)),
                    None => None,
                },
            },
        ),
{
    let owned = match except {
        Some((n, l, k)) => Some((String::from_str(n), l, k.duplicate())),
        None => None,
    };
    apply_op_all_exec(config, &ProfileOp::StealChords { stepper: stepper.key_clone(), direction, except_chord: owned });
}

/// Drops the deep Binding of `input` on the active Profile's `layer` — a
/// deep Binding cannot outlive the primary it hangs off. Leaves the deep
/// stage config alone.
pub fn drop_orphaned_deep_binding(next: &mut Config, layer: Layer, input: Input)
    requires
        has_active_profile(old(next)@),
    ensures
        final(next)@ == with_active(
            old(next)@,
            with_layer_deep(active_of(old(next)@), layer, layer_deep(active_of(old(next)@), layer).remove(input)),
        ),
{
    deep_mut(active_profile_mut(next), layer).remove(&input);
}

/// The active Profile, to edit in place.
pub fn active_profile_mut(config: &mut Config) -> (r: &mut Profile)
    requires
        has_active_profile(old(config)@),
    ensures
        (*r)@ == active_of(old(config)@),
        final(config)@ == with_active(old(config)@, (*final(r))@),
{
    match config.profiles.get_mut(&config.active_profile) {
        Some(p) => p,
        None => vstd::pervasive::unreached(),
    }
}

/// What an edit's own arm decides, before the teardown diff and the rule
/// check: a rejection, or the planned configuration with the arm's own
/// effects and minted id.
pub enum ArmView {
    Rejected(CommandErrorView),
    Planned(ConfigView, Seq<EffectView>, Option<CreatedIdView>),
}

/// The configuration with its active Profile replaced by `p`.
pub open spec fn with_active(c: ConfigView, p: ProfileView) -> ConfigView {
    ConfigView { profiles: c.profiles.insert(c.active_profile, p), ..c }
}

/// A plan with no arm effect and no minted id.
pub open spec fn plain(c: ConfigView) -> ArmView {
    ArmView::Planned(c, Seq::empty(), None)
}

/// A rejection as an invalid request with message `m`.
pub open spec fn invalid(m: Seq<char>) -> ArmView {
    ArmView::Rejected(CommandErrorView::InvalidRequest(m))
}

/// The message for deleting a Profile a Profile Switch still targets.
pub open spec fn profile_referenced_message(name: Seq<char>) -> Seq<char> {
    "Profile "@ + debug_str(name) + " is still referenced by a Profile Switch Binding"@
}

/// The message for deleting a Macro a Binding still names.
pub open spec fn macro_referenced_message(id: Seq<char>) -> Seq<char> {
    "MacroId("@ + debug_str(id) + ") is still referenced by a Macro Binding"@
}

/// The message for deleting a Stepper a Binding still names.
pub open spec fn stepper_referenced_message(id: Seq<char>) -> Seq<char> {
    "StepperId("@ + debug_str(id) + ") is still referenced by a Step Binding"@
}

/// A deep-stage config of `p` for `i`, or a fresh one.
pub open spec fn stage_or_fresh(p: ProfileView, i: Input) -> DeepStageConfig {
    if p.deep_stages.dom().contains(i) {
        p.deep_stages[i]
    } else {
        default_deep_stage()
    }
}

/// `c` with the `(stepper, direction)` pair taken off every Binding that
/// carries it, in both keyspaces, sparing the Input or Chord key named.
pub open spec fn steal(
    c: ConfigView,
    stepper: Seq<char>,
    direction: StepDirection,
    spare_input: Option<(Seq<char>, Layer, Input)>,
    spare_chord: Option<(Seq<char>, Layer, Seq<Input>)>,
) -> ConfigView {
    apply_op_all(
        apply_op_all(c, ProfileOpView::StealInputs { stepper, direction, except: spare_input }),
        ProfileOpView::StealChords { stepper, direction, except_chord: spare_chord },
    )
}

/// What each edit's arm decides on a configuration whose active Profile
/// exists.
#[verifier::opaque]
pub open spec fn plan_arm(c: ConfigView, edit: Edit) -> ArmView {
    let p = active_of(c);
    match edit {
        Edit::SetBinding { input, layer, binding } => {
            let c1 = match binding@.action {
                ActionView::Step { stepper, direction } => steal(
                    c, stepper, direction, Some((c.active_profile, layer, input)), None),
                _ => c,
            };
            let p1 = active_of(c1);
            plain(with_active(c1, with_layer_bindings(p1, layer, layer_bindings(p1, layer).insert(input, binding@))))
        },
        Edit::ClearBinding { input, layer } => {
            if !layer_bindings(p, layer).dom().contains(input) {
                ArmView::Rejected(CommandErrorView::NotFound)
            } else {
                let p1 = with_layer_bindings(p, layer, layer_bindings(p, layer).remove(input));
                plain(with_active(c, with_layer_deep(p1, layer, layer_deep(p, layer).remove(input))))
            }
        },
        Edit::SetModeKeyRole { role } => plain(with_active(c, ProfileView { mode_key_role: role, ..p })),
        Edit::CreateProfile { name } => {
            if c.profiles.dom().contains(name@) {
                ArmView::Rejected(CommandErrorView::AlreadyExists)
            } else {
                plain(ConfigView { profiles: c.profiles.insert(name@, empty_profile()), ..c })
            }
        },
        Edit::DeleteProfile { name } => {
            if name@ == c.active_profile {
                invalid("cannot delete the active Profile"@)
            } else if referenced(c, ActionQueryView::Targets(name@), false) {
                invalid(profile_referenced_message(name@))
            } else if !c.profiles.dom().contains(name@) {
                ArmView::Rejected(CommandErrorView::NotFound)
            } else {
                plain(ConfigView { profiles: c.profiles.remove(name@), ..c })
            }
        },
        Edit::RenameProfile { old_name, new_name } => {
            if !c.profiles.dom().contains(old_name@) {
                ArmView::Rejected(CommandErrorView::NotFound)
            } else if old_name@ != new_name@ && c.profiles.dom().contains(new_name@) {
                ArmView::Rejected(CommandErrorView::AlreadyExists)
            } else {
                let c1 = ConfigView {
                    profiles: c.profiles.remove(old_name@).insert(new_name@, c.profiles[old_name@]),
                    active_profile: if c.active_profile == old_name@ { new_name@ } else { c.active_profile },
                    ..c
                };
                plain(apply_op_all(c1, ProfileOpView::Retarget { old: old_name@, new: new_name@ }))
            }
        },
        Edit::SwitchProfile { name } => {
            if !c.profiles.dom().contains(name@) {
                ArmView::Rejected(CommandErrorView::NotFound)
            } else {
                ArmView::Planned(
                    ConfigView { active_profile: name@, ..c },
                    seq![
                        EffectView::TearDown(TeardownReason::ProfileSwitch),
                        EffectView::RepublishActuation,
                        EffectView::AssertStatusLeds,
                        EffectView::AnnounceProfileChange(name@),
                    ],
                    None,
                )
            }
        },
        Edit::SetActuationPoint { input, actuation, release } => ArmView::Planned(
            with_active(c, ProfileView {
                actuation_overrides: p.actuation_overrides.insert(input, ActuationPoint { actuation, release }),
                ..p
            }),
            seq![EffectView::RepublishActuation],
            None,
        ),
        Edit::ClearActuationPoint { input } => ArmView::Planned(
            with_active(c, ProfileView { actuation_overrides: p.actuation_overrides.remove(input), ..p }),
            seq![EffectView::RepublishActuation],
            None,
        ),
        Edit::SetDefaultActuation { actuation, release } => ArmView::Planned(
            with_active(c, ProfileView { default_actuation: ActuationPoint { actuation, release }, ..p }),
            seq![EffectView::RepublishActuation],
            None,
        ),
        Edit::SetDefaultDeepActuation { actuation, release } => plain(
            with_active(c, ProfileView { default_deep_actuation: Some(ActuationPoint { actuation, release }), ..p }),
        ),
        Edit::ResetActuationPoints => ArmView::Planned(
            with_active(c, ProfileView { actuation_overrides: Map::empty(), ..p }),
            seq![EffectView::RepublishActuation],
            None,
        ),
        Edit::SetForceDigital { force } => ArmView::Planned(
            ConfigView { force_digital: force, ..c },
            seq![EffectView::SignalCaptureMode(force)],
            None,
        ),
        Edit::CreateMacro { name, steps } => {
            if is_blank(name@) {
                invalid("Macro name can't be empty"@)
            } else {
                let id = fresh_id(slug(name@), c.macros.dom());
                ArmView::Planned(
                    ConfigView { macros: c.macros.insert(id, MacroDefView { name: name@, steps: steps@ }), ..c },
                    Seq::empty(),
                    Some(CreatedIdView::Macro(id)),
                )
            }
        },
        Edit::RenameMacro { macro_id, new_name } => {
            if is_blank(new_name@) {
                invalid("Macro name can't be empty"@)
            } else if !c.macros.dom().contains(macro_id@) {
                ArmView::Rejected(CommandErrorView::NotFound)
            } else {
                plain(ConfigView {
                    macros: c.macros.insert(macro_id@, MacroDefView { name: new_name@, steps: c.macros[macro_id@].steps }),
                    ..c
                })
            }
        },
        Edit::DeleteMacro { macro_id } => {
            if referenced(c, ActionQueryView::UsesMacro(macro_id@), true) {
                invalid(macro_referenced_message(macro_id@))
            } else if !c.macros.dom().contains(macro_id@) {
                ArmView::Rejected(CommandErrorView::NotFound)
            } else {
                plain(ConfigView { macros: c.macros.remove(macro_id@), ..c })
            }
        },
        Edit::SetMacroSteps { macro_id, steps } => {
            if !c.macros.dom().contains(macro_id@) {
                ArmView::Rejected(CommandErrorView::NotFound)
            } else {
                plain(ConfigView {
                    macros: c.macros.insert(macro_id@, MacroDefView { name: c.macros[macro_id@].name, steps: steps@ }),
                    ..c
                })
            }
        },
        Edit::CreateStepper { name, items } => {
            if is_blank(name@) {
                invalid("Stepper name can't be empty"@)
            } else {
                let id = fresh_id(slug(name@), c.steppers.dom());
                ArmView::Planned(
                    ConfigView { steppers: c.steppers.insert(id, StepperDefView { name: name@, items: items@ }), ..c },
                    Seq::empty(),
                    Some(CreatedIdView::Stepper(id)),
                )
            }
        },
        Edit::RenameStepper { stepper_id, new_name } => {
            if is_blank(new_name@) {
                invalid("Stepper name can't be empty"@)
            } else if !c.steppers.dom().contains(stepper_id@) {
                ArmView::Rejected(CommandErrorView::NotFound)
            } else {
                plain(ConfigView {
                    steppers: c.steppers.insert(stepper_id@, StepperDefView { name: new_name@, items: c.steppers[stepper_id@].items }),
                    ..c
                })
            }
        },
        Edit::DeleteStepper { stepper_id } => {
            if referenced(c, ActionQueryView::UsesStepper(stepper_id@), true) {
                invalid(stepper_referenced_message(stepper_id@))
            } else if !c.steppers.dom().contains(stepper_id@) {
                ArmView::Rejected(CommandErrorView::NotFound)
            } else {
                ArmView::Planned(
                    ConfigView { steppers: c.steppers.remove(stepper_id@), ..c },
                    seq![EffectView::ReconcileStepperCursor(stepper_id@)],
                    None,
                )
            }
        },
        Edit::SetStepperItems { stepper_id, items } => {
            if !c.steppers.dom().contains(stepper_id@) {
                ArmView::Rejected(CommandErrorView::NotFound)
            } else {
                ArmView::Planned(
                    ConfigView {
                        steppers: c.steppers.insert(stepper_id@, StepperDefView { name: c.steppers[stepper_id@].name, items: items@ }),
                        ..c
                    },
                    seq![EffectView::ReconcileStepperCursor(stepper_id@)],
                    None,
                )
            }
        },
        Edit::SetChordBinding { inputs, layer, binding } => {
            let key = chord_key_of(inputs@);
            let c1 = match binding@.action {
                ActionView::Step { stepper, direction } => steal(
                    c, stepper, direction, None, Some((c.active_profile, layer, key))),
                _ => c,
            };
            let p1 = active_of(c1);
            plain(with_active(c1, with_layer_chords(p1, layer, layer_chords(p1, layer).insert(key, binding@))))
        },
        Edit::ClearChordBinding { inputs, layer } => {
            let key = chord_key_of(inputs@);
            if !layer_chords(p, layer).dom().contains(key) {
                ArmView::Rejected(CommandErrorView::NotFound)
            } else {
                plain(with_active(c, with_layer_chords(p, layer, layer_chords(p, layer).remove(key))))
            }
        },
        Edit::SetAxisAssignment { input, layer, target } => {
            let p1 = with_layer_bindings(p, layer, layer_bindings(p, layer).remove(input));
            let p2 = with_layer_deep(p1, layer, layer_deep(p, layer).remove(input));
            let p3 = with_layer_chords(p2, layer, drop_chords_with(layer_chords(p, layer), input));
            let p4 = with_layer_axes(p3, layer, layer_axes(p, layer).insert(input, target));
            ArmView::Planned(with_active(c, p4), seq![EffectView::RecomputeAxes { layer }], None)
        },
        Edit::ClearAxisAssignment { input, layer } => {
            if !layer_axes(p, layer).dom().contains(input) {
                ArmView::Rejected(CommandErrorView::NotFound)
            } else {
                ArmView::Planned(
                    with_active(c, with_layer_axes(p, layer, layer_axes(p, layer).remove(input))),
                    seq![EffectView::ForgetAxisContribution(input), EffectView::RecomputeAxes { layer }],
                    None,
                )
            }
        },
        Edit::SetStatusLeds { orange, green, blue } => ArmView::Planned(
            with_active(c, ProfileView { status_leds: StatusLeds { orange, green, blue }, ..p }),
            seq![EffectView::AssertStatusLeds],
            None,
        ),
        Edit::SetDeepStage { input, layer, binding } => plain(
            with_active(c, with_layer_deep(p, layer, layer_deep(p, layer).insert(input, binding@))),
        ),
        Edit::ClearDeepStage { input, layer } => {
            if !layer_deep(p, layer).dom().contains(input) {
                ArmView::Rejected(CommandErrorView::NotFound)
            } else {
                plain(with_active(c, with_layer_deep(p, layer, layer_deep(p, layer).remove(input))))
            }
        },
        Edit::SetDeepActuation { input, actuation, release } => plain(
            with_active(c, ProfileView {
                deep_stages: p.deep_stages.insert(
                    input,
                    DeepStageConfig { actuation: ActuationPoint { actuation, release }, mode: stage_or_fresh(p, input).mode },
                ),
                ..p
            }),
        ),
        Edit::SetStagingMode { input, mode } => plain(
            with_active(c, ProfileView {
                deep_stages: p.deep_stages.insert(
                    input,
                    DeepStageConfig { actuation: stage_or_fresh(p, input).actuation, mode },
                ),
                ..p
            }),
        ),
    }
}

/// The views of an optional minted id.
pub open spec fn created_view(c: Option<CreatedId>) -> Option<CreatedIdView> {
    match c {
        Some(id) => Some(id@),
        None => None,
    }
}

/// What an arm's exec result must be for the arm's decision `a`.
pub open spec fn arm_agrees(a: ArmView, r: Result<(Config, Vec<Effect>, Option<CreatedId>), CommandError>) -> bool {
    match a {
        ArmView::Rejected(ev) => r matches Err(e) && e@ == ev,
        ArmView::Planned(n, effs, created) => r matches Ok((next, es, cr)) && next@ == n && effect_views(es@) == effs
            && created_view(cr) == created,
    }
}

/// An arm's result: the planned configuration with its own effects and
/// minted id, or the rejection.
pub type ArmResult = Result<(Config, Vec<Effect>, Option<CreatedId>), CommandError>;

fn active_copy(c: &Config) -> (r: Profile)
    requires
        has_active_profile(c@),
    ensures
        r@ == active_of(c@),
{
    match c.active_profile() {
        Some(p) => p.duplicate(),
        None => Profile::empty(),
    }
}

fn put_active(c: &mut Config, p: Profile)
    ensures
        final(c)@ == with_active(old(c)@, p@),
{
    let name = c.active_profile.clone();
    c.profiles.insert(name, p);
}

fn bindings_mut(p: &mut Profile, layer: Layer) -> (r: &mut AssocMap<Input, Binding>)
    ensures
        r@ == layer_bindings(old(p)@, layer),
        final(p)@ == with_layer_bindings(old(p)@, layer, final(r)@),
{
    match layer {
        Layer::Base => &mut p.base,
        Layer::Held => &mut p.held,
    }
}

fn one(e: Effect) -> (r: Vec<Effect>)
    ensures
        effect_views(r@) == seq![e@],
{
    let mut v: Vec<Effect> = Vec::new();
    v.push(e);
    assert(effect_views(v@) =~= seq![e@]);
    v
}

fn push_effect(v: &mut Vec<Effect>, e: Effect)
    ensures
        effect_views(final(v)@) == effect_views(old(v)@).push(e@),
{
    let ghost ev = e@;
    v.push(e);
    assert(effect_views(v@) =~= effect_views(old(v)@).push(ev));
}

fn no_effects() -> (r: Vec<Effect>)
    ensures
        effect_views(r@) == Seq::<EffectView>::empty(),
{
    let v: Vec<Effect> = Vec::new();
    assert(effect_views(v@) =~= Seq::<EffectView>::empty());
    v
}

fn chords_mut(p: &mut Profile, layer: Layer) -> (r: &mut AssocMap<ChordKey, Binding>)
    ensures
        r@ == layer_chords(old(p)@, layer),
        final(p)@ == with_layer_chords(old(p)@, layer, final(r)@),
{
    match layer {
        Layer::Base => &mut p.chords_base,
        Layer::Held => &mut p.chords_held,
    }
}

fn deep_mut(p: &mut Profile, layer: Layer) -> (r: &mut AssocMap<Input, Binding>)
    ensures
        r@ == layer_deep(old(p)@, layer),
        final(p)@ == with_layer_deep(old(p)@, layer, final(r)@),
{
    match layer {
        Layer::Base => &mut p.deep_base,
        Layer::Held => &mut p.deep_held,
    }
}

fn axes_mut(p: &mut Profile, layer: Layer) -> (r: &mut AssocMap<Input, AxisTarget>)
    ensures
        r@ == layer_axes(old(p)@, layer),
        final(p)@ == with_layer_axes(old(p)@, layer, final(r)@),
{
    match layer {
        Layer::Base => &mut p.axis_base,
        Layer::Held => &mut p.axis_held,
    }
}

fn arm_set_binding(config: &Config, input: Input, layer: Layer, binding: Binding) -> (r: ArmResult)
    requires
        has_active_profile(config@),
    ensures
        arm_agrees(plan_arm(config@, Edit::SetBinding { input, layer, binding }), r),
{
    reveal(plan_arm);
    let mut next = config.duplicate();
    if let Action::Step { stepper, direction } = &binding.action {
        let ap = next.active_profile.clone();
        take_stepper_direction_elsewhere(&mut next, stepper, *direction, Some((ap.as_str(), layer, input)));
        take_stepper_direction_elsewhere_from_chords(&mut next, stepper, *direction, None);
    }
    let ghost c1 = next@;
    let mut p = active_copy(&next);
    bindings_mut(&mut p, layer).insert(input, binding);
    put_active(&mut next, p);
    Ok((next, no_effects(), None))
}

fn arm_clear_binding(config: &Config, input: Input, layer: Layer) -> (r: ArmResult)
    requires
        has_active_profile(config@),
    ensures
        arm_agrees(plan_arm(config@, Edit::ClearBinding { input, layer }), r),
{
    reveal(plan_arm);
    let mut p = active_copy(config);
    if bindings_mut(&mut p, layer).remove(&input).is_none() {
        return Err(CommandError::NotFound);
    }
    let mut next = config.duplicate();
    put_active(&mut next, p);
    let ghost n1 = next@;
    drop_orphaned_deep_binding(&mut next, layer, input);
    proof {
        let c = config@;
        let q = with_layer_deep(p@, layer, layer_deep(p@, layer).remove(input));
        assert(active_of(n1) == p@);
        assert(next@.profiles =~= c.profiles.insert(c.active_profile, q));
    }
    Ok((next, no_effects(), None))
}

fn arm_set_chord_binding(config: &Config, inputs: Vec<Input>, layer: Layer, binding: Binding) -> (r: ArmResult)
    requires
        has_active_profile(config@),
    ensures
        arm_agrees(plan_arm(config@, Edit::SetChordBinding { inputs, layer, binding }), r),
{
    reveal(plan_arm);
    let key = ChordKey::new(inputs);
    let mut next = config.duplicate();
    if let Action::Step { stepper, direction } = &binding.action {
        let ap = next.active_profile.clone();
        take_stepper_direction_elsewhere(&mut next, stepper, *direction, None);
        take_stepper_direction_elsewhere_from_chords(&mut next, stepper, *direction, Some((ap.as_str(), layer, &key)));
    }
    let mut p = active_copy(&next);
    chords_mut(&mut p, layer).insert(key, binding);
    put_active(&mut next, p);
    Ok((next, no_effects(), None))
}

fn arm_clear_chord_binding(config: &Config, inputs: Vec<Input>, layer: Layer) -> (r: ArmResult)
    requires
        has_active_profile(config@),
    ensures
        arm_agrees(plan_arm(config@, Edit::ClearChordBinding { inputs, layer }), r),
{
    reveal(plan_arm);
    let key = ChordKey::new(inputs);
    let mut p = active_copy(config);
    if chords_mut(&mut p, layer).remove(&key).is_none() {
        return Err(CommandError::NotFound);
    }
    let mut next = config.duplicate();
    put_active(&mut next, p);
    Ok((next, no_effects(), None))
}

fn arm_set_axis(config: &Config, input: Input, layer: Layer, target: AxisTarget) -> (r: ArmResult)
    requires
        has_active_profile(config@),
    ensures
        arm_agrees(plan_arm(config@, Edit::SetAxisAssignment { input, layer, target }), r),
{
    reveal(plan_arm);
    let mut p0 = active_copy(config);
    bindings_mut(&mut p0, layer).remove(&input);
    let mut next = config.duplicate();
    put_active(&mut next, p0);
    let ghost n1 = next@;
    drop_orphaned_deep_binding(&mut next, layer, input);
    proof {
        assert(active_of(n1) == p0@);
        assert(active_of(next@) == with_layer_deep(p0@, layer, layer_deep(p0@, layer).remove(input)));
    }
    let mut p = active_copy(&next);
    let kept = drop_chords_with_exec(p.chords(layer), input);
    *chords_mut(&mut p, layer) = kept;
    axes_mut(&mut p, layer).insert(input, target);
    put_active(&mut next, p);
    proof {
        let c = config@;
        assert(next@.profiles =~= c.profiles.insert(c.active_profile, p@));
    }
    Ok((next, one(Effect::RecomputeAxes { layer }), None))
}

fn arm_clear_axis(config: &Config, input: Input, layer: Layer) -> (r: ArmResult)
    requires
        has_active_profile(config@),
    ensures
        arm_agrees(plan_arm(config@, Edit::ClearAxisAssignment { input, layer }), r),
{
    reveal(plan_arm);
    let mut p = active_copy(config);
    if axes_mut(&mut p, layer).remove(&input).is_none() {
        return Err(CommandError::NotFound);
    }
    let mut next = config.duplicate();
    put_active(&mut next, p);
    let mut effects = one(Effect::ForgetAxisContribution(input));
    push_effect(&mut effects, Effect::RecomputeAxes { layer });
    assert(effect_views(effects@) =~= seq![EffectView::ForgetAxisContribution(input), EffectView::RecomputeAxes { layer }]);
    Ok((next, effects, None))
}

fn arm_set_deep(config: &Config, input: Input, layer: Layer, binding: Binding) -> (r: ArmResult)
    requires
        has_active_profile(config@),
    ensures
        arm_agrees(plan_arm(config@, Edit::SetDeepStage { input, layer, binding }), r),
{
    reveal(plan_arm);
    let mut p = active_copy(config);
    deep_mut(&mut p, layer).insert(input, binding);
    let mut next = config.duplicate();
    put_active(&mut next, p);
    Ok((next, no_effects(), None))
}

fn arm_clear_deep(config: &Config, input: Input, layer: Layer) -> (r: ArmResult)
    requires
        has_active_profile(config@),
    ensures
        arm_agrees(plan_arm(config@, Edit::ClearDeepStage { input, layer }), r),
{
    reveal(plan_arm);
    let mut p = active_copy(config);
    if deep_mut(&mut p, layer).remove(&input).is_none() {
        return Err(CommandError::NotFound);
    }
    let mut next = config.duplicate();
    put_active(&mut next, p);
    Ok((next, no_effects(), None))
}

fn invalid_request(m: &str) -> (r: CommandError)
    ensures
        r@ == CommandErrorView::InvalidRequest(m@),
{
    CommandError::InvalidRequest(String::from_str(m))
}

fn arm_set_mode_key_role(config: &Config, role: ModeKeyRole) -> (r: ArmResult)
    requires
        has_active_profile(config@),
    ensures
        arm_agrees(plan_arm(config@, Edit::SetModeKeyRole { role }), r),
{
    reveal(plan_arm);
    let mut p = active_copy(config);
    p.mode_key_role = role;
    let mut next = config.duplicate();
    put_active(&mut next, p);
    Ok((next, no_effects(), None))
}

fn arm_create_profile(config: &Config, name: String) -> (r: ArmResult)
    requires
        has_active_profile(config@),
    ensures
        arm_agrees(plan_arm(config@, Edit::CreateProfile { name }), r),
{
    reveal(plan_arm);
    if config.profiles.contains_key(&name) {
        return Err(CommandError::AlreadyExists);
    }
    let mut next = config.duplicate();
    next.profiles.insert(name, Profile::empty());
    Ok((next, no_effects(), None))
}

fn arm_delete_profile(config: &Config, name: String) -> (r: ArmResult)
    requires
        has_active_profile(config@),
    ensures
        arm_agrees(plan_arm(config@, Edit::DeleteProfile { name }), r),
{
    reveal(plan_arm);
    if name == config.active_profile {
        return Err(invalid_request("cannot delete the active Profile"));
    }
    if profile_switch_references(config, name.as_str()) {
        let m = String::from_str("Profile ").concat(debug_text(name.as_str()).as_str()).concat(
            " is still referenced by a Profile Switch Binding",
        );
        return Err(CommandError::InvalidRequest(m));
    }
    let mut next = config.duplicate();
    if next.profiles.remove(&name).is_none() {
        return Err(CommandError::NotFound);
    }
    Ok((next, no_effects(), None))
}

fn arm_rename_profile(config: &Config, old_name: String, new_name: String) -> (r: ArmResult)
    requires
        has_active_profile(config@),
    ensures
        arm_agrees(plan_arm(config@, Edit::RenameProfile { old_name, new_name }), r),
{
    reveal(plan_arm);
    if !config.profiles.contains_key(&old_name) {
        return Err(CommandError::NotFound);
    }
    if old_name != new_name && config.profiles.contains_key(&new_name) {
        return Err(CommandError::AlreadyExists);
    }
    let mut next = config.duplicate();
    let profile = match next.profiles.remove(&old_name) {
        Some(p) => p,
        None => Profile::empty(),
    };
    next.profiles.insert(new_name.clone(), profile);
    if next.active_profile == old_name {
        next.active_profile = new_name.clone();
    }
    cascade_rename_profile_switch_targets(&mut next, old_name.as_str(), new_name.as_str());
    Ok((next, no_effects(), None))
}

fn arm_switch_profile(config: &Config, name: String) -> (r: ArmResult)
    requires
        has_active_profile(config@),
    ensures
        arm_agrees(plan_arm(config@, Edit::SwitchProfile { name }), r),
{
    reveal(plan_arm);
    if !config.profiles.contains_key(&name) {
        return Err(CommandError::NotFound);
    }
    let mut next = config.duplicate();
    next.active_profile = name.clone();
    let mut effects = one(Effect::TearDown(TeardownReason::ProfileSwitch));
    push_effect(&mut effects, Effect::RepublishActuation);
    push_effect(&mut effects, Effect::AssertStatusLeds);
    let ghost nv = name@;
    push_effect(&mut effects, Effect::AnnounceProfileChange(name));
    assert(effect_views(effects@) =~= seq![
        EffectView::TearDown(TeardownReason::ProfileSwitch),
        EffectView::RepublishActuation,
        EffectView::AssertStatusLeds,
        EffectView::AnnounceProfileChange(nv),
    ]);
    Ok((next, effects, None))
}

fn arm_set_status_leds(config: &Config, orange: bool, green: bool, blue: bool) -> (r: ArmResult)
    requires
        has_active_profile(config@),
    ensures
        arm_agrees(plan_arm(config@, Edit::SetStatusLeds { orange, green, blue }), r),
{
    reveal(plan_arm);
    let mut p = active_copy(config);
    p.status_leds = StatusLeds { orange, green, blue };
    let mut next = config.duplicate();
    put_active(&mut next, p);
    Ok((next, one(Effect::AssertStatusLeds), None))
}

fn arm_actuation(config: &Config, edit: Edit) -> (r: ArmResult)
    requires
        has_active_profile(config@),
        edit is SetActuationPoint || edit is ClearActuationPoint || edit is SetDefaultActuation
            || edit is SetDefaultDeepActuation || edit is ResetActuationPoints || edit is SetDeepActuation
            || edit is SetStagingMode,
    ensures
        arm_agrees(plan_arm(config@, edit), r),
{
    reveal(plan_arm);
    let mut p = active_copy(config);
    let republish = match edit {
        Edit::SetActuationPoint { input, actuation, release } => {
            p.actuation_overrides.insert(input, ActuationPoint { actuation, release });
            true
        },
        Edit::ClearActuationPoint { input } => {
            p.actuation_overrides.remove(&input);
            true
        },
        Edit::SetDefaultActuation { actuation, release } => {
            p.default_actuation = ActuationPoint { actuation, release };
            true
        },
        Edit::SetDefaultDeepActuation { actuation, release } => {
            p.default_deep_actuation = Some(ActuationPoint { actuation, release });
            false
        },
        Edit::ResetActuationPoints => {
            p.actuation_overrides.clear();
            true
        },
        Edit::SetDeepActuation { input, actuation, release } => {
            let cur = match p.deep_stages.get(&input) {
                Some(cfg) => *cfg,
                None => DeepStageConfig::fresh(),
            };
            p.deep_stages.insert(input, DeepStageConfig { actuation: ActuationPoint { actuation, release }, mode: cur.mode });
            false
        },
        Edit::SetStagingMode { input, mode } => {
            let cur = match p.deep_stages.get(&input) {
                Some(cfg) => *cfg,
                None => DeepStageConfig::fresh(),
            };
            p.deep_stages.insert(input, DeepStageConfig { actuation: cur.actuation, mode });
            false
        },
        _ => false,
    };
    let mut next = config.duplicate();
    put_active(&mut next, p);
    let effects = if republish { one(Effect::RepublishActuation) } else { no_effects() };
    Ok((next, effects, None))
}

#[verifier::rlimit(40)]
fn arm_create_macro(config: &Config, name: String, steps: Vec<MacroStepDto>) -> (r: ArmResult)
    requires
        has_active_profile(config@),
    ensures
        arm_agrees(plan_arm(config@, Edit::CreateMacro { name, steps }), r),
{
    reveal(plan_arm);
    if blank(name.as_str()) {
        return Err(invalid_request("Macro name can't be empty"));
    }
    let mut next = config.duplicate();
    let id: MacroId = unique_id(&next.macros, name.as_str());
    let created = id.key_clone();
    next.macros.insert(id, MacroDef { name, steps });
    Ok((next, no_effects(), Some(CreatedId::Macro(created))))
}

fn arm_rename_macro(config: &Config, macro_id: MacroId, new_name: String) -> (r: ArmResult)
    requires
        has_active_profile(config@),
    ensures
        arm_agrees(plan_arm(config@, Edit::RenameMacro { macro_id, new_name }), r),
{
    reveal(plan_arm);
    if blank(new_name.as_str()) {
        return Err(invalid_request("Macro name can't be empty"));
    }
    let steps = match config.macros.get(&macro_id) {
        Some(def) => def.value_clone().steps,
        None => {
            return Err(CommandError::NotFound);
        },
    };
    let mut next = config.duplicate();
    next.macros.insert(macro_id, MacroDef { name: new_name, steps });
    Ok((next, no_effects(), None))
}

fn arm_delete_macro(config: &Config, macro_id: MacroId) -> (r: ArmResult)
    requires
        has_active_profile(config@),
    ensures
        arm_agrees(plan_arm(config@, Edit::DeleteMacro { macro_id }), r),
{
    reveal(plan_arm);
    if macro_references(config, &macro_id) {
        let m = String::from_str("MacroId(").concat(debug_text(macro_id.as_str()).as_str()).concat(
            ") is still referenced by a Macro Binding",
        );
        return Err(CommandError::InvalidRequest(m));
    }
    let mut next = config.duplicate();
    if next.macros.remove(&macro_id).is_none() {
        return Err(CommandError::NotFound);
    }
    Ok((next, no_effects(), None))
}

fn arm_set_macro_steps(config: &Config, macro_id: MacroId, steps: Vec<MacroStepDto>) -> (r: ArmResult)
    requires
        has_active_profile(config@),
    ensures
        arm_agrees(plan_arm(config@, Edit::SetMacroSteps { macro_id, steps }), r),
{
    reveal(plan_arm);
    let name = match config.macros.get(&macro_id) {
        Some(def) => def.name.clone(),
        None => {
            return Err(CommandError::NotFound);
        },
    };
    let mut next = config.duplicate();
    next.macros.insert(macro_id, MacroDef { name, steps });
    Ok((next, no_effects(), None))
}

#[verifier::rlimit(40)]
fn arm_create_stepper(config: &Config, name: String, items: Vec<StepperItem>) -> (r: ArmResult)
    requires
        has_active_profile(config@),
    ensures
        arm_agrees(plan_arm(config@, Edit::CreateStepper { name, items }), r),
{
    reveal(plan_arm);
    if blank(name.as_str()) {
        return Err(invalid_request("Stepper name can't be empty"));
    }
    let mut next = config.duplicate();
    let id: StepperId = unique_id(&next.steppers, name.as_str());
    let created = id.key_clone();
    next.steppers.insert(id, StepperDef { name, items });
    Ok((next, no_effects(), Some(CreatedId::Stepper(created))))
}

fn arm_rename_stepper(config: &Config, stepper_id: StepperId, new_name: String) -> (r: ArmResult)
    requires
        has_active_profile(config@),
    ensures
        arm_agrees(plan_arm(config@, Edit::RenameStepper { stepper_id, new_name }), r),
{
    reveal(plan_arm);
    if blank(new_name.as_str()) {
        return Err(invalid_request("Stepper name can't be empty"));
    }
    let items = match config.steppers.get(&stepper_id) {
        Some(def) => def.value_clone().items,
        None => {
            return Err(CommandError::NotFound);
        },
    };
    let mut next = config.duplicate();
    next.steppers.insert(stepper_id, StepperDef { name: new_name, items });
    Ok((next, no_effects(), None))
}

fn arm_delete_stepper(config: &Config, stepper_id: StepperId) -> (r: ArmResult)
    requires
        has_active_profile(config@),
    ensures
        arm_agrees(plan_arm(config@, Edit::DeleteStepper { stepper_id }), r),
{
    reveal(plan_arm);
    if stepper_references(config, &stepper_id) {
        let m = String::from_str("StepperId(").concat(debug_text(stepper_id.as_str()).as_str()).concat(
            ") is still referenced by a Step Binding",
        );
        return Err(CommandError::InvalidRequest(m));
    }
    let mut next = config.duplicate();
    if next.steppers.remove(&stepper_id).is_none() {
        return Err(CommandError::NotFound);
    }
    Ok((next, one(Effect::ReconcileStepperCursor(stepper_id)), None))
}

fn arm_set_stepper_items(config: &Config, stepper_id: StepperId, items: Vec<StepperItem>) -> (r: ArmResult)
    requires
        has_active_profile(config@),
    ensures
        arm_agrees(plan_arm(config@, Edit::SetStepperItems { stepper_id, items }), r),
{
    reveal(plan_arm);
    let name = match config.steppers.get(&stepper_id) {
        Some(def) => def.name.clone(),
        None => {
            return Err(CommandError::NotFound);
        },
    };
    let effect = Effect::ReconcileStepperCursor(stepper_id.key_clone());
    let mut next = config.duplicate();
    next.steppers.insert(stepper_id, StepperDef { name, items });
    Ok((next, one(effect), None))
}

/// What `plan` returns for `edit` on `c`: the arm's rejection; else, when
/// the planned configuration meets every structural rule, that configuration
/// with the teardown effects its diff implies followed by the arm's own
/// effects and the minted id; else an invalid request naming a rule it
/// breaks, the one validation reports first (see `validation_reports`).
pub open spec fn plan_holds(c: ConfigView, edit: Edit, r: Result<(Config, Outcome), CommandError>) -> bool {
    match plan_arm(c, edit) {
        ArmView::Rejected(ev) => r matches Err(e) && e@ == ev,
        ArmView::Planned(n, arm_effects, created) => {
            if config_valid(n) {
                r matches Ok((next, out)) && next@ == n && created_view(out.created) == created && exists|td: Seq<EffectView>|
                    teardown_effects(c, n, td) && effect_views(out.effects@) == td + arm_effects
            } else {
                r matches Err(e) && exists|ce: ConfigError|
                    violates(n, ce) && validation_reports(n, ce) && e@ == CommandErrorView::InvalidRequest(error_message(ce))
            }
        },
    }
}

/// Applies `edit` to a copy of `config`, checks the result against the
/// structural rules, and returns the new configuration by value with the
/// effects to run — the teardown effects the change implies first, then the
/// edit's own. `config` itself is never touched.
pub fn plan(config: &Config, edit: Edit) -> (r: Result<(Config, Outcome), CommandError>)
    requires
        has_active_profile(config@),
    ensures
        plan_holds(config@, edit, r),
{
    let ghost e = edit;
    let arm = plan_arm_exec(config, edit);
    finish_plan(config, Ghost(e), arm)
}

fn plan_arm_exec(config: &Config, edit: Edit) -> (r: ArmResult)
    requires
        has_active_profile(config@),
    ensures
        arm_agrees(plan_arm(config@, edit), r),
{
    let ghost e = edit;
    match edit {
        Edit::SetBinding { input, layer, binding } => {
            assert(e == Edit::SetBinding { input, layer, binding });
            arm_set_binding(config, input, layer, binding)
        },
        Edit::ClearBinding { input, layer } => {
            assert(e == Edit::ClearBinding { input, layer });
            arm_clear_binding(config, input, layer)
        },
        Edit::SetModeKeyRole { role } => {
            assert(e == Edit::SetModeKeyRole { role });
            arm_set_mode_key_role(config, role)
        },
        Edit::CreateProfile { name } => {
            assert(e == Edit::CreateProfile { name });
            arm_create_profile(config, name)
        },
        Edit::DeleteProfile { name } => {
            assert(e == Edit::DeleteProfile { name });
            arm_delete_profile(config, name)
        },
        Edit::RenameProfile { old_name, new_name } => {
            assert(e == Edit::RenameProfile { old_name, new_name });
            arm_rename_profile(config, old_name, new_name)
        },
        Edit::SwitchProfile { name } => {
            assert(e == Edit::SwitchProfile { name });
            arm_switch_profile(config, name)
        },
        Edit::SetActuationPoint { input, actuation, release } => {
            assert(e == Edit::SetActuationPoint { input, actuation, release });
            arm_actuation(config, Edit::SetActuationPoint { input, actuation, release })
        },
        Edit::ClearActuationPoint { input } => {
            assert(e == Edit::ClearActuationPoint { input });
            arm_actuation(config, Edit::ClearActuationPoint { input })
        },
        Edit::SetDefaultActuation { actuation, release } => {
            assert(e == Edit::SetDefaultActuation { actuation, release });
            arm_actuation(config, Edit::SetDefaultActuation { actuation, release })
        },
        Edit::SetDefaultDeepActuation { actuation, release } => {
            assert(e == Edit::SetDefaultDeepActuation { actuation, release });
            arm_actuation(config, Edit::SetDefaultDeepActuation { actuation, release })
        },
        Edit::ResetActuationPoints => {
            assert(e == Edit::ResetActuationPoints);
            arm_actuation(config, Edit::ResetActuationPoints)
        },
        Edit::SetForceDigital { force } => {
            assert(e == Edit::SetForceDigital { force });
            reveal(plan_arm);
            let mut next = config.duplicate();
            next.force_digital = force;
            Ok((next, one(Effect::SignalCaptureMode(force)), None))
        },
        Edit::CreateMacro { name, steps } => {
            assert(e == Edit::CreateMacro { name, steps });
            arm_create_macro(config, name, steps)
        },
        Edit::RenameMacro { macro_id, new_name } => {
            assert(e == Edit::RenameMacro { macro_id, new_name });
            arm_rename_macro(config, macro_id, new_name)
        },
        Edit::DeleteMacro { macro_id } => {
            assert(e == Edit::DeleteMacro { macro_id });
            arm_delete_macro(config, macro_id)
        },
        Edit::SetMacroSteps { macro_id, steps } => {
            assert(e == Edit::SetMacroSteps { macro_id, steps });
            arm_set_macro_steps(config, macro_id, steps)
        },
        Edit::CreateStepper { name, items } => {
            assert(e == Edit::CreateStepper { name, items });
            arm_create_stepper(config, name, items)
        },
        Edit::RenameStepper { stepper_id, new_name } => {
            assert(e == Edit::RenameStepper { stepper_id, new_name });
            arm_rename_stepper(config, stepper_id, new_name)
        },
        Edit::DeleteStepper { stepper_id } => {
            assert(e == Edit::DeleteStepper { stepper_id });
            arm_delete_stepper(config, stepper_id)
        },
        Edit::SetStepperItems { stepper_id, items } => {
            assert(e == Edit::SetStepperItems { stepper_id, items });
            arm_set_stepper_items(config, stepper_id, items)
        },
        Edit::SetChordBinding { inputs, layer, binding } => {
            assert(e == Edit::SetChordBinding { inputs, layer, binding });
            arm_set_chord_binding(config, inputs, layer, binding)
        },
        Edit::ClearChordBinding { inputs, layer } => {
            assert(e == Edit::ClearChordBinding { inputs, layer });
            arm_clear_chord_binding(config, inputs, layer)
        },
        Edit::SetAxisAssignment { input, layer, target } => {
            assert(e == Edit::SetAxisAssignment { input, layer, target });
            arm_set_axis(config, input, layer, target)
        },
        Edit::ClearAxisAssignment { input, layer } => {
            assert(e == Edit::ClearAxisAssignment { input, layer });
            arm_clear_axis(config, input, layer)
        },
        Edit::SetStatusLeds { orange, green, blue } => {
            assert(e == Edit::SetStatusLeds { orange, green, blue });
            arm_set_status_leds(config, orange, green, blue)
        },
        Edit::SetDeepStage { input, layer, binding } => {
            assert(e == Edit::SetDeepStage { input, layer, binding });
            arm_set_deep(config, input, layer, binding)
        },
        Edit::ClearDeepStage { input, layer } => {
            assert(e == Edit::ClearDeepStage { input, layer });
            arm_clear_deep(config, input, layer)
        },
        Edit::SetDeepActuation { input, actuation, release } => {
            assert(e == Edit::SetDeepActuation { input, actuation, release });
            arm_actuation(config, Edit::SetDeepActuation { input, actuation, release })
        },
        Edit::SetStagingMode { input, mode } => {
            assert(e == Edit::SetStagingMode { input, mode });
            arm_actuation(config, Edit::SetStagingMode { input, mode })
        },    }
}

fn finish_plan(config: &Config, e: Ghost<Edit>, arm: ArmResult) -> (r: Result<(Config, Outcome), CommandError>)
    requires
        has_active_profile(config@),
        arm_agrees(plan_arm(config@, e@), arm),
    ensures
        plan_holds(config@, e@, r),
{
    let (next, arm_effects, created) = match arm {
        Err(err) => {
            return Err(err);
        },
        Ok(planned) => planned,
    };
    let mut effects = reconcile_teardowns(config, &next);
    let ghost td = effect_views(effects@);
    let mut i: usize = 0;
    while i < arm_effects.len()
        invariant
            i <= arm_effects@.len(),
            effect_views(effects@) == td + effect_views(arm_effects@).subrange(0, i as int),
        decreases arm_effects@.len() - i,
    {
        let e = duplicate_effect(&arm_effects[i]);
        push_effect(&mut effects, e);
        assert(effect_views(effects@) =~= td + effect_views(arm_effects@).subrange(0, i + 1));
        i = i + 1;
    }
    assert(effect_views(arm_effects@).subrange(0, arm_effects@.len() as int) =~= effect_views(arm_effects@));
    match validate(&next) {
        Err(ce) => Err(CommandError::from_config_error(ce)),
        Ok(()) => Ok((next, Outcome { effects, created })),
    }
}

fn duplicate_effect(e: &Effect) -> (r: Effect)
    ensures
        r@ == e@,
{
    match e {
        Effect::RepublishActuation => Effect::RepublishActuation,
        Effect::RecomputeAxes { layer } => Effect::RecomputeAxes { layer: *layer },
        Effect::ForgetAxisContribution(i) => Effect::ForgetAxisContribution(*i),
        Effect::SignalCaptureMode(b) => Effect::SignalCaptureMode(*b),
        Effect::StopToggle(i) => Effect::StopToggle(*i),
        Effect::TearDown(r) => Effect::TearDown(*r),
        Effect::StopStage(i) => Effect::StopStage(*i),
        Effect::StopChord(k) => Effect::StopChord(k.duplicate()),
        Effect::ReconcileStepperCursor(s) => Effect::ReconcileStepperCursor(s.key_clone()),
        Effect::AnnounceProfileChange(n) => Effect::AnnounceProfileChange(n.clone()),
        Effect::AssertStatusLeds => Effect::AssertStatusLeds,
    }
}

} // verus!
