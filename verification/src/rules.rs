//! The structural rules every stored configuration satisfies, and the
//! validation that finds a broken one.

use vstd::prelude::*;
use crate::amap::{AssocMap, MapKey};
use crate::config::{
    ActionView, Action, ActuationPoint, Binding, BindingView, ChordKey, Config, ConfigView,
    DeepStageConfig, Profile, ProfileView, TriggerMode, has_active_profile, layer_axes,
    layer_bindings, layer_chords, layer_deep,
};
use crate::input::{Input, Layer, gamepad_button_code, is_gamepad_button, is_grid, input_is_grid};

verus! {

/// A whitespace character in the sense of `char::is_whitespace` (Unicode
/// White_Space).
pub open spec fn is_white(c: char) -> bool {
    ('\u{9}' <= c && c <= '\u{d}') || c == ' ' || c == '\u{85}' || c == '\u{a0}' || c == '\u{1680}'
        || ('\u{2000}' <= c && c <= '\u{200a}') || c == '\u{2028}' || c == '\u{2029}' || c
        == '\u{202f}' || c == '\u{205f}' || c == '\u{3000}'
}

/// A name that is empty or whitespace only.
pub open spec fn is_blank(s: Seq<char>) -> bool {
    forall|i: int| 0 <= i < s.len() ==> is_white(#[trigger] s[i])
}

fn char_is_white(c: char) -> (r: bool)
    ensures
        r == is_white(c),
{
    ('\u{9}' <= c && c <= '\u{d}') || c == ' ' || c == '\u{85}' || c == '\u{a0}' || c == '\u{1680}'
        || ('\u{2000}' <= c && c <= '\u{200a}') || c == '\u{2028}' || c == '\u{2029}' || c
        == '\u{202f}' || c == '\u{205f}' || c == '\u{3000}'
}

/// Whether `s` is empty or whitespace only.
pub fn blank(s: &str) -> (r: bool)
    ensures
        r == is_blank(s@),
{
    let n = s.unicode_len();
    let mut i: usize = 0;
    while i < n
        invariant
            n == s@.len(),
            i <= n,
            forall|j: int| 0 <= j < i ==> is_white(#[trigger] s@[j]),
        decreases n - i,
    {
        if !char_is_white(s.get_char(i)) {
            return false;
        }
        i = i + 1;
    }
    true
}

/// A broken structural rule.
#[derive(Clone, Copy, Debug, PartialEq, Eq, Structural)]
pub enum ConfigError {
    NoActiveProfile,
    BlankProfileName,
    ProfileSwitchNotFireOnce,
    ProfileSwitchUnknownTarget,
    AnalogRepeatOffGrid,
    UnknownMacro,
    UnknownStepper,
    UnknownGamepadButton,
    BindingOnAxisInput,
    ChordTooSmall,
    ChordProfileSwitch,
    ChordAnalogRepeat,
    ChordMemberOnAxis,
    ChordMemberDualStage,
    ChordOverlap,
    AxisOffGrid,
    DeepWithoutPrimary,
    DeepWithoutConfig,
    DeepUnderAnalogRepeat,
    OverrideOffGrid,
    OverrideReleaseNotBelow,
    DefaultReleaseNotBelow,
    DefaultDeepReleaseNotBelow,
    DeepStageOffGrid,
    DeepStageReleaseNotBelow,
    DeepBandOverlapsPrimary,
}

/// The message a broken rule is reported with.
pub open spec fn error_message(e: ConfigError) -> Seq<char> {
    match e {
        ConfigError::NoActiveProfile => "active_profile names no Profile"@,
        ConfigError::BlankProfileName => "a Profile has an empty or whitespace-only name"@,
        ConfigError::ProfileSwitchNotFireOnce => "a profile_switch Binding must use the fire_once trigger"@,
        ConfigError::ProfileSwitchUnknownTarget => "a profile_switch Binding names no existing Profile"@,
        ConfigError::AnalogRepeatOffGrid => "the analog_repeat trigger needs a grid Input"@,
        ConfigError::UnknownMacro => "a Macro Binding names no Macro library entry"@,
        ConfigError::UnknownStepper => "a Step Binding names no Stepper library entry"@,
        ConfigError::UnknownGamepadButton => "a controller_button Binding names no gamepad button"@,
        ConfigError::BindingOnAxisInput => "a Binding sits on an Input with an Axis assignment"@,
        ConfigError::ChordTooSmall => "a Chord has fewer than two members"@,
        ConfigError::ChordProfileSwitch => "a Chord's Action cannot be profile_switch"@,
        ConfigError::ChordAnalogRepeat => "a Chord's trigger cannot be analog_repeat"@,
        ConfigError::ChordMemberOnAxis => "a Chord member has an Axis assignment"@,
        ConfigError::ChordMemberDualStage => "a Chord member carries a deep Binding"@,
        ConfigError::ChordOverlap => "a Chord's member set is a subset or superset of another Chord's"@,
        ConfigError::AxisOffGrid => "only Grid Inputs can carry an Axis assignment"@,
        ConfigError::DeepWithoutPrimary => "a deep Binding has no primary Binding on its Layer"@,
        ConfigError::DeepWithoutConfig => "a deep Binding has no deep stage config"@,
        ConfigError::DeepUnderAnalogRepeat => "a deep Binding sits under an analog_repeat primary"@,
        ConfigError::OverrideOffGrid => "an actuation override sits on a non-grid Input"@,
        ConfigError::OverrideReleaseNotBelow => "an actuation override has its release point at or above its actuation point"@,
        ConfigError::DefaultReleaseNotBelow => "the default actuation has its release point at or above its actuation point"@,
        ConfigError::DefaultDeepReleaseNotBelow => "the default deep actuation has its release point at or above its actuation point"@,
        ConfigError::DeepStageOffGrid => "a deep stage config sits on a non-grid Input"@,
        ConfigError::DeepStageReleaseNotBelow => "a deep stage has its release point at or above its actuation point"@,
        ConfigError::DeepBandOverlapsPrimary => "a deep stage's release point is not above its primary actuation point"@,
    }
}

impl ConfigError {
    /// The message this broken rule is reported with.
    pub fn message(&self) -> (r: String)
        ensures
            r@ == error_message(*self),
    {
        let s: &str = match self {
            ConfigError::NoActiveProfile => "active_profile names no Profile",
            ConfigError::BlankProfileName => "a Profile has an empty or whitespace-only name",
            ConfigError::ProfileSwitchNotFireOnce => "a profile_switch Binding must use the fire_once trigger",
            ConfigError::ProfileSwitchUnknownTarget => "a profile_switch Binding names no existing Profile",
            ConfigError::AnalogRepeatOffGrid => "the analog_repeat trigger needs a grid Input",
            ConfigError::UnknownMacro => "a Macro Binding names no Macro library entry",
            ConfigError::UnknownStepper => "a Step Binding names no Stepper library entry",
            ConfigError::UnknownGamepadButton => "a controller_button Binding names no gamepad button",
            ConfigError::BindingOnAxisInput => "a Binding sits on an Input with an Axis assignment",
            ConfigError::ChordTooSmall => "a Chord has fewer than two members",
            ConfigError::ChordProfileSwitch => "a Chord's Action cannot be profile_switch",
            ConfigError::ChordAnalogRepeat => "a Chord's trigger cannot be analog_repeat",
            ConfigError::ChordMemberOnAxis => "a Chord member has an Axis assignment",
            ConfigError::ChordMemberDualStage => "a Chord member carries a deep Binding",
            ConfigError::ChordOverlap => "a Chord's member set is a subset or superset of another Chord's",
            ConfigError::AxisOffGrid => "only Grid Inputs can carry an Axis assignment",
            ConfigError::DeepWithoutPrimary => "a deep Binding has no primary Binding on its Layer",
            ConfigError::DeepWithoutConfig => "a deep Binding has no deep stage config",
            ConfigError::DeepUnderAnalogRepeat => "a deep Binding sits under an analog_repeat primary",
            ConfigError::OverrideOffGrid => "an actuation override sits on a non-grid Input",
            ConfigError::OverrideReleaseNotBelow => "an actuation override has its release point at or above its actuation point",
            ConfigError::DefaultReleaseNotBelow => "the default actuation has its release point at or above its actuation point",
            ConfigError::DefaultDeepReleaseNotBelow => "the default deep actuation has its release point at or above its actuation point",
            ConfigError::DeepStageOffGrid => "a deep stage config sits on a non-grid Input",
            ConfigError::DeepStageReleaseNotBelow => "a deep stage has its release point at or above its actuation point",
            ConfigError::DeepBandOverlapsPrimary => "a deep stage's release point is not above its primary actuation point",
        };
        String::from_str(s)
    }
}

/// The rules one library reference of a Binding must meet.
pub open spec fn reference_violates(c: ConfigView, b: BindingView, e: ConfigError) -> bool {
    match e {
        ConfigError::UnknownMacro => b.action matches ActionView::Macro { macro_id } && !c.macros.dom().contains(macro_id),
        ConfigError::UnknownStepper => b.action matches ActionView::Step { stepper, .. } && !c.steppers.dom().contains(stepper),
        ConfigError::UnknownGamepadButton => b.action matches ActionView::ControllerButton { button } && !gamepad_button_code(button),
        _ => false,
    }
}

/// The rules a primary Binding of `p` on `layer` for `i` must meet.
pub open spec fn primary_violates(c: ConfigView, p: ProfileView, layer: Layer, i: Input, b: BindingView, e: ConfigError) -> bool {
    match e {
        ConfigError::ProfileSwitchNotFireOnce => b.action is ProfileSwitch && b.trigger != TriggerMode::FireOnce,
        ConfigError::ProfileSwitchUnknownTarget => b.action matches ActionView::ProfileSwitch { target } && !c.profiles.dom().contains(target),
        ConfigError::AnalogRepeatOffGrid => b.trigger == TriggerMode::AnalogRepeat && !is_grid(i),
        ConfigError::BindingOnAxisInput => layer_axes(p, layer).dom().contains(i),
        _ => reference_violates(c, b, e),
    }
}

/// The rules a deep Binding of `p` on `layer` for `i` must meet.
pub open spec fn deep_violates(c: ConfigView, p: ProfileView, layer: Layer, i: Input, b: BindingView, e: ConfigError) -> bool {
    match e {
        ConfigError::ProfileSwitchNotFireOnce => b.action is ProfileSwitch && b.trigger != TriggerMode::FireOnce,
        ConfigError::ProfileSwitchUnknownTarget => b.action matches ActionView::ProfileSwitch { target } && !c.profiles.dom().contains(target),
        ConfigError::AnalogRepeatOffGrid => b.trigger == TriggerMode::AnalogRepeat && !is_grid(i),
        ConfigError::DeepWithoutPrimary => !layer_bindings(p, layer).dom().contains(i),
        ConfigError::DeepWithoutConfig => !p.deep_stages.dom().contains(i),
        ConfigError::DeepUnderAnalogRepeat => layer_bindings(p, layer).dom().contains(i)
            && layer_bindings(p, layer)[i].trigger == TriggerMode::AnalogRepeat,
        _ => reference_violates(c, b, e),
    }
}

/// Two member sets, one inside the other.
pub open spec fn nested(a: Seq<Input>, b: Seq<Input>) -> bool {
    a.to_set().subset_of(b.to_set()) || b.to_set().subset_of(a.to_set())
}

/// The rules a Chord Binding of `p` on `layer` with members `k` must meet.
pub open spec fn chord_violates(c: ConfigView, p: ProfileView, layer: Layer, k: Seq<Input>, b: BindingView, e: ConfigError) -> bool {
    match e {
        ConfigError::ChordTooSmall => k.len() < 2,
        ConfigError::ChordProfileSwitch => b.action is ProfileSwitch,
        ConfigError::ChordAnalogRepeat => b.trigger == TriggerMode::AnalogRepeat,
        ConfigError::ChordMemberOnAxis => exists|m: Input| k.contains(m) && layer_axes(p, layer).dom().contains(m),
        ConfigError::ChordMemberDualStage => exists|m: Input| k.contains(m) && layer_deep(p, layer).dom().contains(m),
        ConfigError::ChordOverlap => exists|k2: Seq<Input>|
            #[trigger] layer_chords(p, layer).dom().contains(k2) && k2 != k && nested(k, k2),
        _ => reference_violates(c, b, e),
    }
}

/// The primary Actuation point a grid key resolves to: its override, else
/// the Profile default.
pub open spec fn resolved_actuation(p: ProfileView, i: Input) -> ActuationPoint {
    if p.actuation_overrides.dom().contains(i) {
        p.actuation_overrides[i]
    } else {
        p.default_actuation
    }
}

/// The rules a deep stage config of `p` for `i` must meet.
pub open spec fn stage_violates(p: ProfileView, i: Input, cfg: DeepStageConfig, e: ConfigError) -> bool {
    match e {
        ConfigError::DeepStageOffGrid => !is_grid(i),
        ConfigError::DeepStageReleaseNotBelow => cfg.actuation.release >= cfg.actuation.actuation,
        ConfigError::DeepBandOverlapsPrimary => cfg.actuation.release <= resolved_actuation(p, i).actuation,
        _ => false,
    }
}

/// The rules an actuation override for `i` must meet.
pub open spec fn override_violates(i: Input, a: ActuationPoint, e: ConfigError) -> bool {
    match e {
        ConfigError::OverrideOffGrid => !is_grid(i),
        ConfigError::OverrideReleaseNotBelow => a.release >= a.actuation,
        _ => false,
    }
}

/// The rules a Profile's own scalar fields must meet.
pub open spec fn scalar_violates(name: Seq<char>, p: ProfileView, e: ConfigError) -> bool {
    match e {
        ConfigError::BlankProfileName => is_blank(name),
        ConfigError::DefaultReleaseNotBelow => p.default_actuation.release >= p.default_actuation.actuation,
        ConfigError::DefaultDeepReleaseNotBelow => p.default_deep_actuation matches Some(a) && a.release >= a.actuation,
        _ => false,
    }
}

/// Profile `name` breaks rule `e` somewhere.
pub open spec fn profile_violates(c: ConfigView, name: Seq<char>, p: ProfileView, e: ConfigError) -> bool {
    ||| scalar_violates(name, p, e)
    ||| exists|layer: Layer, i: Input|
        #[trigger] layer_bindings(p, layer).dom().contains(i) && primary_violates(c, p, layer, i, layer_bindings(p, layer)[i], e)
    ||| exists|layer: Layer, i: Input|
        #[trigger] layer_deep(p, layer).dom().contains(i) && deep_violates(c, p, layer, i, layer_deep(p, layer)[i], e)
    ||| exists|layer: Layer, k: Seq<Input>|
        #[trigger] layer_chords(p, layer).dom().contains(k) && chord_violates(c, p, layer, k, layer_chords(p, layer)[k], e)
    ||| exists|layer: Layer, i: Input|
        #[trigger] layer_axes(p, layer).dom().contains(i) && e == ConfigError::AxisOffGrid && !is_grid(i)
    ||| exists|i: Input|
        #[trigger] p.actuation_overrides.dom().contains(i) && override_violates(i, p.actuation_overrides[i], e)
    ||| exists|i: Input| #[trigger] p.deep_stages.dom().contains(i) && stage_violates(p, i, p.deep_stages[i], e)
}

/// The configuration breaks rule `e`.
pub open spec fn violates(c: ConfigView, e: ConfigError) -> bool {
    ||| (e == ConfigError::NoActiveProfile && !has_active_profile(c))
    ||| exists|name: Seq<char>| #[trigger] c.profiles.dom().contains(name) && profile_violates(c, name, c.profiles[name], e)
}

/// The configuration meets every structural rule.
pub open spec fn config_valid(c: ConfigView) -> bool {
    forall|e: ConfigError| !#[trigger] violates(c, e)
}

/// The first rule a Binding's library reference breaks, in checking order.
pub open spec fn reference_first(c: ConfigView, b: BindingView) -> Option<ConfigError> {
    match b.action {
        ActionView::Macro { macro_id } => if c.macros.dom().contains(macro_id) { None } else { Some(ConfigError::UnknownMacro) },
        ActionView::Step { stepper, .. } => if c.steppers.dom().contains(stepper) { None } else { Some(ConfigError::UnknownStepper) },
        ActionView::ControllerButton { button } => if gamepad_button_code(button) { None } else { Some(ConfigError::UnknownGamepadButton) },
        _ => None,
    }
}

/// The first rule a primary Binding breaks, in checking order: a Profile
/// switch's trigger, then its target, then analog repeat off the grid, then an
/// Axis on the same Input, then the library reference.
pub open spec fn primary_first(c: ConfigView, p: ProfileView, layer: Layer, i: Input, b: BindingView) -> Option<ConfigError> {
    if b.action is ProfileSwitch && b.trigger != TriggerMode::FireOnce {
        Some(ConfigError::ProfileSwitchNotFireOnce)
    } else if b.action matches ActionView::ProfileSwitch { target } && !c.profiles.dom().contains(target) {
        Some(ConfigError::ProfileSwitchUnknownTarget)
    } else if b.trigger == TriggerMode::AnalogRepeat && !is_grid(i) {
        Some(ConfigError::AnalogRepeatOffGrid)
    } else if layer_axes(p, layer).dom().contains(i) {
        Some(ConfigError::BindingOnAxisInput)
    } else {
        reference_first(c, b)
    }
}

/// The first rule a deep Binding breaks, in checking order: a Profile
/// switch's trigger, then its target, then analog repeat off the grid, then a
/// missing primary, then an analog repeat primary, then a missing deep stage
/// config, then the library reference.
pub open spec fn deep_first(c: ConfigView, p: ProfileView, layer: Layer, i: Input, b: BindingView) -> Option<ConfigError> {
    if b.action is ProfileSwitch && b.trigger != TriggerMode::FireOnce {
        Some(ConfigError::ProfileSwitchNotFireOnce)
    } else if b.action matches ActionView::ProfileSwitch { target } && !c.profiles.dom().contains(target) {
        Some(ConfigError::ProfileSwitchUnknownTarget)
    } else if b.trigger == TriggerMode::AnalogRepeat && !is_grid(i) {
        Some(ConfigError::AnalogRepeatOffGrid)
    } else if !layer_bindings(p, layer).dom().contains(i) {
        Some(ConfigError::DeepWithoutPrimary)
    } else if layer_bindings(p, layer)[i].trigger == TriggerMode::AnalogRepeat {
        Some(ConfigError::DeepUnderAnalogRepeat)
    } else if !p.deep_stages.dom().contains(i) {
        Some(ConfigError::DeepWithoutConfig)
    } else {
        reference_first(c, b)
    }
}

/// The first rule a Chord Binding breaks, in checking order: its size, a
/// Profile switch, analog repeat, a member with an Axis, a member with a deep
/// Binding, an overlap with another Chord, then the library reference.
pub open spec fn chord_first(c: ConfigView, p: ProfileView, layer: Layer, k: Seq<Input>, b: BindingView) -> Option<ConfigError> {
    if k.len() < 2 {
        Some(ConfigError::ChordTooSmall)
    } else if b.action is ProfileSwitch {
        Some(ConfigError::ChordProfileSwitch)
    } else if b.trigger == TriggerMode::AnalogRepeat {
        Some(ConfigError::ChordAnalogRepeat)
    } else if exists|m: Input| k.contains(m) && layer_axes(p, layer).dom().contains(m) {
        Some(ConfigError::ChordMemberOnAxis)
    } else if exists|m: Input| k.contains(m) && layer_deep(p, layer).dom().contains(m) {
        Some(ConfigError::ChordMemberDualStage)
    } else if exists|k2: Seq<Input>| #[trigger] layer_chords(p, layer).dom().contains(k2) && k2 != k && nested(k, k2) {
        Some(ConfigError::ChordOverlap)
    } else {
        reference_first(c, b)
    }
}

/// The first rule an actuation override for `i` breaks: the grid, then the
/// band.
pub open spec fn override_first(i: Input, a: ActuationPoint) -> Option<ConfigError> {
    if !is_grid(i) {
        Some(ConfigError::OverrideOffGrid)
    } else if a.release >= a.actuation {
        Some(ConfigError::OverrideReleaseNotBelow)
    } else {
        None
    }
}

/// The first rule a deep stage config of `p` for `i` breaks: the grid, then
/// its own band, then the gap above the primary actuation point.
pub open spec fn stage_first(p: ProfileView, i: Input, cfg: DeepStageConfig) -> Option<ConfigError> {
    if !is_grid(i) {
        Some(ConfigError::DeepStageOffGrid)
    } else if cfg.actuation.release >= cfg.actuation.actuation {
        Some(ConfigError::DeepStageReleaseNotBelow)
    } else if cfg.actuation.release <= resolved_actuation(p, i).actuation {
        Some(ConfigError::DeepBandOverlapsPrimary)
    } else {
        None
    }
}

/// The first rule a Profile's own fields break: its name, then the default
/// actuation, then the default deep actuation.
pub open spec fn scalar_first(name: Seq<char>, p: ProfileView) -> Option<ConfigError> {
    if is_blank(name) {
        Some(ConfigError::BlankProfileName)
    } else if p.default_actuation.release >= p.default_actuation.actuation {
        Some(ConfigError::DefaultReleaseNotBelow)
    } else if p.default_deep_actuation matches Some(a) && a.release >= a.actuation {
        Some(ConfigError::DefaultDeepReleaseNotBelow)
    } else {
        None
    }
}

/// No primary Binding of `p` on `layer` breaks a rule.
pub open spec fn primary_clean(c: ConfigView, p: ProfileView, layer: Layer) -> bool {
    forall|i: Input| #[trigger] layer_bindings(p, layer).dom().contains(i) ==> primary_first(c, p, layer, i, layer_bindings(p, layer)[i]) is None
}

/// Some primary Binding of `p` on `layer` breaks `e` first.
pub open spec fn primary_reports(c: ConfigView, p: ProfileView, layer: Layer, e: ConfigError) -> bool {
    exists|i: Input| #[trigger] layer_bindings(p, layer).dom().contains(i) && primary_first(c, p, layer, i, layer_bindings(p, layer)[i]) == Some(e)
}

/// No deep Binding of `p` on `layer` breaks a rule.
pub open spec fn deep_clean(c: ConfigView, p: ProfileView, layer: Layer) -> bool {
    forall|i: Input| #[trigger] layer_deep(p, layer).dom().contains(i) ==> deep_first(c, p, layer, i, layer_deep(p, layer)[i]) is None
}

/// Some deep Binding of `p` on `layer` breaks `e` first.
pub open spec fn deep_reports(c: ConfigView, p: ProfileView, layer: Layer, e: ConfigError) -> bool {
    exists|i: Input| #[trigger] layer_deep(p, layer).dom().contains(i) && deep_first(c, p, layer, i, layer_deep(p, layer)[i]) == Some(e)
}

/// No Chord Binding of `p` on `layer` breaks a rule.
pub open spec fn chords_clean(c: ConfigView, p: ProfileView, layer: Layer) -> bool {
    forall|k: Seq<Input>| #[trigger] layer_chords(p, layer).dom().contains(k) ==> chord_first(c, p, layer, k, layer_chords(p, layer)[k]) is None
}

/// Some Chord Binding of `p` on `layer` breaks `e` first.
pub open spec fn chords_report(c: ConfigView, p: ProfileView, layer: Layer, e: ConfigError) -> bool {
    exists|k: Seq<Input>| #[trigger] layer_chords(p, layer).dom().contains(k) && chord_first(c, p, layer, k, layer_chords(p, layer)[k]) == Some(e)
}

/// Every Axis assignment of `p` on `layer` sits on a grid Input.
pub open spec fn axes_clean(p: ProfileView, layer: Layer) -> bool {
    forall|i: Input| #[trigger] layer_axes(p, layer).dom().contains(i) ==> is_grid(i)
}

/// No actuation override of `p` breaks a rule.
pub open spec fn overrides_clean(p: ProfileView) -> bool {
    forall|i: Input| #[trigger] p.actuation_overrides.dom().contains(i) ==> override_first(i, p.actuation_overrides[i]) is None
}

/// Some actuation override of `p` breaks `e` first.
pub open spec fn overrides_report(p: ProfileView, e: ConfigError) -> bool {
    exists|i: Input| #[trigger] p.actuation_overrides.dom().contains(i) && override_first(i, p.actuation_overrides[i]) == Some(e)
}

/// Some deep stage config of `p` breaks `e` first.
pub open spec fn stages_report(p: ProfileView, e: ConfigError) -> bool {
    exists|i: Input| #[trigger] p.deep_stages.dom().contains(i) && stage_first(p, i, p.deep_stages[i]) == Some(e)
}

/// Profile `name` is reported as breaking `e`: the checks run in a fixed
/// order of kinds (the Profile's own fields, primary Bindings on the Base then
/// the Held Layer, deep Bindings likewise, Chords likewise, Axis assignments,
/// actuation overrides, deep stage configs), and the first kind with a broken
/// entry reports that entry's first broken rule. Which of several broken
/// entries of that kind is reported is left open: it follows storage order.
pub open spec fn profile_reports(c: ConfigView, name: Seq<char>, p: ProfileView, e: ConfigError) -> bool {
    match scalar_first(name, p) {
        Some(x) => e == x,
        None => if !primary_clean(c, p, Layer::Base) {
            primary_reports(c, p, Layer::Base, e)
        } else if !primary_clean(c, p, Layer::Held) {
            primary_reports(c, p, Layer::Held, e)
        } else if !deep_clean(c, p, Layer::Base) {
            deep_reports(c, p, Layer::Base, e)
        } else if !deep_clean(c, p, Layer::Held) {
            deep_reports(c, p, Layer::Held, e)
        } else if !chords_clean(c, p, Layer::Base) {
            chords_report(c, p, Layer::Base, e)
        } else if !chords_clean(c, p, Layer::Held) {
            chords_report(c, p, Layer::Held, e)
        } else if !axes_clean(p, Layer::Base) || !axes_clean(p, Layer::Held) {
            e == ConfigError::AxisOffGrid
        } else if !overrides_clean(p) {
            overrides_report(p, e)
        } else {
            stages_report(p, e)
        },
    }
}

/// Validation of `c` may report `e`: a missing active Profile comes before
/// everything else; otherwise `e` is what some Profile reports. Which of
/// several broken Profiles is reported is left open: it follows storage
/// order.
pub open spec fn validation_reports(c: ConfigView, e: ConfigError) -> bool {
    if !has_active_profile(c) {
        e == ConfigError::NoActiveProfile
    } else {
        exists|name: Seq<char>| #[trigger] c.profiles.dom().contains(name) && profile_reports(c, name, c.profiles[name], e)
    }
}

fn check_reference(c: &Config, b: &Binding) -> (r: Option<ConfigError>)
    ensures
        r matches Some(e) ==> reference_violates(c@, b@, e),
        r is None ==> forall|e: ConfigError| !reference_violates(c@, b@, e),
        r == reference_first(c@, b@),
{
    match &b.action {
        Action::Macro { macro_id } => {
            if !c.macros.contains_key(macro_id) {
                return Some(ConfigError::UnknownMacro);
            }
        },
        Action::Step { stepper, .. } => {
            if !c.steppers.contains_key(stepper) {
                return Some(ConfigError::UnknownStepper);
            }
        },
        Action::ControllerButton { button } => {
            if !is_gamepad_button(*button) {
                return Some(ConfigError::UnknownGamepadButton);
            }
        },
        _ => {},
    }
    None
}

fn check_primary(c: &Config, p: &Profile, layer: Layer, i: Input, b: &Binding) -> (r: Option<ConfigError>)
    ensures
        r matches Some(e) ==> primary_violates(c@, p@, layer, i, b@, e),
        r is None ==> forall|e: ConfigError| !primary_violates(c@, p@, layer, i, b@, e),
        r == primary_first(c@, p@, layer, i, b@),
{
    if let Action::ProfileSwitch { target } = &b.action {
        if b.trigger != TriggerMode::FireOnce {
            return Some(ConfigError::ProfileSwitchNotFireOnce);
        }
        if !c.profiles.contains_key(target) {
            return Some(ConfigError::ProfileSwitchUnknownTarget);
        }
    }
    if b.trigger == TriggerMode::AnalogRepeat && !input_is_grid(i) {
        return Some(ConfigError::AnalogRepeatOffGrid);
    }
    if p.axis_layer(layer).contains_key(&i) {
        return Some(ConfigError::BindingOnAxisInput);
    }
    check_reference(c, b)
}

fn check_deep(c: &Config, p: &Profile, layer: Layer, i: Input, b: &Binding) -> (r: Option<ConfigError>)
    ensures
        r matches Some(e) ==> deep_violates(c@, p@, layer, i, b@, e),
        r is None ==> forall|e: ConfigError| !deep_violates(c@, p@, layer, i, b@, e),
        r == deep_first(c@, p@, layer, i, b@),
{
    if let Action::ProfileSwitch { target } = &b.action {
        if b.trigger != TriggerMode::FireOnce {
            return Some(ConfigError::ProfileSwitchNotFireOnce);
        }
        if !c.profiles.contains_key(target) {
            return Some(ConfigError::ProfileSwitchUnknownTarget);
        }
    }
    if b.trigger == TriggerMode::AnalogRepeat && !input_is_grid(i) {
        return Some(ConfigError::AnalogRepeatOffGrid);
    }
    match p.layer(layer).get(&i) {
        None => {
            return Some(ConfigError::DeepWithoutPrimary);
        },
        Some(primary) => {
            if primary.trigger == TriggerMode::AnalogRepeat {
                return Some(ConfigError::DeepUnderAnalogRepeat);
            }
        },
    }
    if !p.deep_stages.contains_key(&i) {
        return Some(ConfigError::DeepWithoutConfig);
    }
    check_reference(c, b)
}

/// Whether every member of `a` is a member of `b`.
fn members_within(a: &Vec<Input>, b: &Vec<Input>) -> (r: bool)
    ensures
        r == a@.to_set().subset_of(b@.to_set()),
{
    let mut i: usize = 0;
    while i < a.len()
        invariant
            i <= a@.len(),
            forall|j: int| 0 <= j < i ==> b@.contains(#[trigger] a@[j]),
        decreases a@.len() - i,
    {
        let x = a[i];
        let mut found = false;
        let mut j: usize = 0;
        while j < b.len()
            invariant
                j <= b@.len(),
                found == exists|q: int| 0 <= q < j && b@[q] == x,
            decreases b@.len() - j,
        {
            if b[j] == x {
                found = true;
            }
            j = j + 1;
        }
        if !found {
            assert(!a@.to_set().subset_of(b@.to_set())) by {
                assert(a@.to_set().contains(a@[i as int]));
            }
            return false;
        }
        i = i + 1;
    }
    assert forall|x: Input| a@.to_set().contains(x) implies b@.to_set().contains(x) by {
        let j = choose|j: int| 0 <= j < a@.len() && a@[j] == x;
        assert(b@.contains(a@[j]));
    }
    true
}

/// Whether some member of `k` is a key of `m`.
fn some_member_in<V: crate::amap::MapValue>(k: &Vec<Input>, m: &AssocMap<Input, V>) -> (r: bool)
    ensures
        r == exists|x: Input| k@.contains(x) && m@.dom().contains(x),
{
    let mut i: usize = 0;
    while i < k.len()
        invariant
            i <= k@.len(),
            forall|j: int| 0 <= j < i ==> !m@.dom().contains(#[trigger] k@[j]),
        decreases k@.len() - i,
    {
        if m.contains_key(&k[i]) {
            assert(k@.contains(k@[i as int]));
            return true;
        }
        i = i + 1;
    }
    assert forall|x: Input| k@.contains(x) implies !m@.dom().contains(x) by {
        let j = choose|j: int| 0 <= j < k@.len() && k@[j] == x;
    }
    false
}

fn check_chord(c: &Config, p: &Profile, layer: Layer, k: &ChordKey, b: &Binding) -> (r: Option<ConfigError>)
    ensures
        r matches Some(e) ==> chord_violates(c@, p@, layer, k@, b@, e),
        r is None ==> forall|e: ConfigError| !chord_violates(c@, p@, layer, k@, b@, e),
        r == chord_first(c@, p@, layer, k@, b@),
{
    let members = k.members();
    if members.len() < 2 {
        return Some(ConfigError::ChordTooSmall);
    }
    if let Action::ProfileSwitch { .. } = &b.action {
        return Some(ConfigError::ChordProfileSwitch);
    }
    if b.trigger == TriggerMode::AnalogRepeat {
        return Some(ConfigError::ChordAnalogRepeat);
    }
    if some_member_in(members, p.axis_layer(layer)) {
        return Some(ConfigError::ChordMemberOnAxis);
    }
    if some_member_in(members, p.deep_layer(layer)) {
        return Some(ConfigError::ChordMemberDualStage);
    }
    let chords = p.chords(layer);
    let n = chords.len();
    let mut j: usize = 0;
    while j < n
        invariant
            n == chords.key_seq().len(),
            j <= n,
            chords@ == layer_chords(p@, layer),
            members@ == k@,
            k@.len() >= 2,
            !(b@.action is ProfileSwitch),
            b@.trigger != TriggerMode::AnalogRepeat,
            !exists|m: Input| k@.contains(m) && layer_axes(p@, layer).dom().contains(m),
            !exists|m: Input| k@.contains(m) && layer_deep(p@, layer).dom().contains(m),
            forall|x: Seq<Input>| #[trigger] chords@.dom().contains(x) <==> chords.key_seq().contains(x),
            forall|q: int| 0 <= q < j ==> !(chords.key_seq()[q] != k@ && nested(k@, #[trigger] chords.key_seq()[q])),
        decreases n - j,
    {
        let other = chords.key_at(j);
        let om = other.members();
        if !other.key_eq(k) && (members_within(members, om) || members_within(om, members)) {
            proof {
                assert(layer_chords(p@, layer).dom().contains(other@) && other@ != k@ && nested(k@, other@));
            }
            return Some(ConfigError::ChordOverlap);
        }
        j = j + 1;
    }
    proof {
        assert forall|k2: Seq<Input>| #[trigger] layer_chords(p@, layer).dom().contains(k2) implies !(k2 != k@ && nested(k@, k2)) by {
            let q = choose|q: int| 0 <= q < chords.key_seq().len() && chords.key_seq()[q] == k2;
        }
    }
    check_reference(c, b)
}

fn scan_primary(c: &Config, p: &Profile, layer: Layer) -> (r: Option<ConfigError>)
    ensures
        r matches Some(e) ==> exists|i: Input|
            #[trigger] layer_bindings(p@, layer).dom().contains(i) && primary_violates(c@, p@, layer, i, layer_bindings(p@, layer)[i], e),
        r is None ==> forall|i: Input, e: ConfigError|
            layer_bindings(p@, layer).dom().contains(i) ==> !#[trigger] primary_violates(c@, p@, layer, i, layer_bindings(p@, layer)[i], e),
        r matches Some(e) ==> primary_reports(c@, p@, layer, e),
        r is None ==> primary_clean(c@, p@, layer),
{
    let m = p.layer(layer);
    let n = m.len();
    let mut j: usize = 0;
    while j < n
        invariant
            n == m.key_seq().len(),
            j <= n,
            m@ == layer_bindings(p@, layer),
            forall|x: Input| #[trigger] m@.dom().contains(x) <==> m.key_seq().contains(x),
            forall|q: int, e: ConfigError| 0 <= q < j ==> !#[trigger] primary_violates(c@, p@, layer, m.key_seq()[q], m@[m.key_seq()[q]], e),
            forall|q: int| 0 <= q < j ==> (#[trigger] primary_first(c@, p@, layer, m.key_seq()[q], m@[m.key_seq()[q]])) is None,
        decreases n - j,
    {
        let i = *m.key_at(j);
        if let Some(e) = check_primary(c, p, layer, i, m.value_at(j)) {
            return Some(e);
        }
        j = j + 1;
    }
    proof {
        assert forall|i: Input| #[trigger] layer_bindings(p@, layer).dom().contains(i) implies primary_first(c@, p@, layer, i, layer_bindings(p@, layer)[i]) is None by {
            let q = choose|q: int| 0 <= q < m.key_seq().len() && m.key_seq()[q] == i;
            assert(primary_first(c@, p@, layer, m.key_seq()[q], m@[m.key_seq()[q]]) is None);
        }
        assert forall|i: Input, e: ConfigError| layer_bindings(p@, layer).dom().contains(i) implies !#[trigger] primary_violates(c@, p@, layer, i, layer_bindings(p@, layer)[i], e) by {
            let q = choose|q: int| 0 <= q < m.key_seq().len() && m.key_seq()[q] == i;
        }
    }
    None
}

fn scan_deep(c: &Config, p: &Profile, layer: Layer) -> (r: Option<ConfigError>)
    ensures
        r matches Some(e) ==> exists|i: Input|
            #[trigger] layer_deep(p@, layer).dom().contains(i) && deep_violates(c@, p@, layer, i, layer_deep(p@, layer)[i], e),
        r is None ==> forall|i: Input, e: ConfigError|
            layer_deep(p@, layer).dom().contains(i) ==> !#[trigger] deep_violates(c@, p@, layer, i, layer_deep(p@, layer)[i], e),
        r matches Some(e) ==> deep_reports(c@, p@, layer, e),
        r is None ==> deep_clean(c@, p@, layer),
{
    let m = p.deep_layer(layer);
    let n = m.len();
    let mut j: usize = 0;
    while j < n
        invariant
            n == m.key_seq().len(),
            j <= n,
            m@ == layer_deep(p@, layer),
            forall|x: Input| #[trigger] m@.dom().contains(x) <==> m.key_seq().contains(x),
            forall|q: int, e: ConfigError| 0 <= q < j ==> !#[trigger] deep_violates(c@, p@, layer, m.key_seq()[q], m@[m.key_seq()[q]], e),
            forall|q: int| 0 <= q < j ==> (#[trigger] deep_first(c@, p@, layer, m.key_seq()[q], m@[m.key_seq()[q]])) is None,
        decreases n - j,
    {
        let i = *m.key_at(j);
        if let Some(e) = check_deep(c, p, layer, i, m.value_at(j)) {
            return Some(e);
        }
        j = j + 1;
    }
    proof {
        assert forall|i: Input| #[trigger] layer_deep(p@, layer).dom().contains(i) implies deep_first(c@, p@, layer, i, layer_deep(p@, layer)[i]) is None by {
            let q = choose|q: int| 0 <= q < m.key_seq().len() && m.key_seq()[q] == i;
            assert(deep_first(c@, p@, layer, m.key_seq()[q], m@[m.key_seq()[q]]) is None);
        }
        assert forall|i: Input, e: ConfigError| layer_deep(p@, layer).dom().contains(i) implies !#[trigger] deep_violates(c@, p@, layer, i, layer_deep(p@, layer)[i], e) by {
            let q = choose|q: int| 0 <= q < m.key_seq().len() && m.key_seq()[q] == i;
        }
    }
    None
}

fn scan_chords(c: &Config, p: &Profile, layer: Layer) -> (r: Option<ConfigError>)
    ensures
        r matches Some(e) ==> exists|k: Seq<Input>|
            #[trigger] layer_chords(p@, layer).dom().contains(k) && chord_violates(c@, p@, layer, k, layer_chords(p@, layer)[k], e),
        r is None ==> forall|k: Seq<Input>, e: ConfigError|
            layer_chords(p@, layer).dom().contains(k) ==> !#[trigger] chord_violates(c@, p@, layer, k, layer_chords(p@, layer)[k], e),
        r matches Some(e) ==> chords_report(c@, p@, layer, e),
        r is None ==> chords_clean(c@, p@, layer),
{
    let m = p.chords(layer);
    let n = m.len();
    let mut j: usize = 0;
    while j < n
        invariant
            n == m.key_seq().len(),
            j <= n,
            m@ == layer_chords(p@, layer),
            forall|x: Seq<Input>| #[trigger] m@.dom().contains(x) <==> m.key_seq().contains(x),
            forall|q: int, e: ConfigError| 0 <= q < j ==> !#[trigger] chord_violates(c@, p@, layer, m.key_seq()[q], m@[m.key_seq()[q]], e),
            forall|q: int| 0 <= q < j ==> (#[trigger] chord_first(c@, p@, layer, m.key_seq()[q], m@[m.key_seq()[q]])) is None,
        decreases n - j,
    {
        if let Some(e) = check_chord(c, p, layer, m.key_at(j), m.value_at(j)) {
            return Some(e);
        }
        j = j + 1;
    }
    proof {
        assert forall|k: Seq<Input>| #[trigger] layer_chords(p@, layer).dom().contains(k) implies chord_first(c@, p@, layer, k, layer_chords(p@, layer)[k]) is None by {
            let q = choose|q: int| 0 <= q < m.key_seq().len() && m.key_seq()[q] == k;
            assert(chord_first(c@, p@, layer, m.key_seq()[q], m@[m.key_seq()[q]]) is None);
        }
        assert forall|k: Seq<Input>, e: ConfigError| layer_chords(p@, layer).dom().contains(k) implies !#[trigger] chord_violates(c@, p@, layer, k, layer_chords(p@, layer)[k], e) by {
            let q = choose|q: int| 0 <= q < m.key_seq().len() && m.key_seq()[q] == k;
        }
    }
    None
}

fn scan_axes(p: &Profile, layer: Layer) -> (r: bool)
    ensures
        r == forall|i: Input| #[trigger] layer_axes(p@, layer).dom().contains(i) ==> is_grid(i),
{
    let m = p.axis_layer(layer);
    let n = m.len();
    let mut j: usize = 0;
    while j < n
        invariant
            n == m.key_seq().len(),
            j <= n,
            m@ == layer_axes(p@, layer),
            forall|x: Input| #[trigger] m@.dom().contains(x) <==> m.key_seq().contains(x),
            forall|q: int| 0 <= q < j ==> is_grid(#[trigger] m.key_seq()[q]),
        decreases n - j,
    {
        if !input_is_grid(*m.key_at(j)) {
            return false;
        }
        j = j + 1;
    }
    proof {
        assert forall|i: Input| #[trigger] layer_axes(p@, layer).dom().contains(i) implies is_grid(i) by {
            let q = choose|q: int| 0 <= q < m.key_seq().len() && m.key_seq()[q] == i;
        }
    }
    true
}

fn resolved_actuation_of(p: &Profile, i: Input) -> (r: ActuationPoint)
    ensures
        r == resolved_actuation(p@, i),
{
    match p.actuation_overrides.get(&i) {
        Some(a) => *a,
        None => p.default_actuation,
    }
}

fn scan_overrides(p: &Profile) -> (r: Option<ConfigError>)
    ensures
        r matches Some(e) ==> exists|i: Input|
            #[trigger] p@.actuation_overrides.dom().contains(i) && override_violates(i, p@.actuation_overrides[i], e),
        r is None ==> forall|i: Input, e: ConfigError|
            p@.actuation_overrides.dom().contains(i) ==> !#[trigger] override_violates(i, p@.actuation_overrides[i], e),
        r matches Some(e) ==> overrides_report(p@, e),
        r is None ==> overrides_clean(p@),
{
    let m = &p.actuation_overrides;
    let n = m.len();
    let mut j: usize = 0;
    while j < n
        invariant
            n == m.key_seq().len(),
            j <= n,
            m@ == p@.actuation_overrides,
            forall|x: Input| #[trigger] m@.dom().contains(x) <==> m.key_seq().contains(x),
            forall|q: int, e: ConfigError| 0 <= q < j ==> !#[trigger] override_violates(m.key_seq()[q], m@[m.key_seq()[q]], e),
            forall|q: int| 0 <= q < j ==> (#[trigger] override_first(m.key_seq()[q], m@[m.key_seq()[q]])) is None,
        decreases n - j,
    {
        let i = *m.key_at(j);
        let a = *m.value_at(j);
        if !input_is_grid(i) {
            return Some(ConfigError::OverrideOffGrid);
        }
        if a.release >= a.actuation {
            return Some(ConfigError::OverrideReleaseNotBelow);
        }
        j = j + 1;
    }
    proof {
        assert forall|i: Input| #[trigger] p@.actuation_overrides.dom().contains(i) implies override_first(i, p@.actuation_overrides[i]) is None by {
            let q = choose|q: int| 0 <= q < m.key_seq().len() && m.key_seq()[q] == i;
            assert(override_first(m.key_seq()[q], m@[m.key_seq()[q]]) is None);
        }
        assert forall|i: Input, e: ConfigError| p@.actuation_overrides.dom().contains(i) implies !#[trigger] override_violates(i, p@.actuation_overrides[i], e) by {
            let q = choose|q: int| 0 <= q < m.key_seq().len() && m.key_seq()[q] == i;
        }
    }
    None
}

fn scan_stages(p: &Profile) -> (r: Option<ConfigError>)
    ensures
        r matches Some(e) ==> exists|i: Input|
            #[trigger] p@.deep_stages.dom().contains(i) && stage_violates(p@, i, p@.deep_stages[i], e),
        r is None ==> forall|i: Input, e: ConfigError|
            p@.deep_stages.dom().contains(i) ==> !#[trigger] stage_violates(p@, i, p@.deep_stages[i], e),
        r matches Some(e) ==> stages_report(p@, e),
{
    let m = &p.deep_stages;
    let n = m.len();
    let mut j: usize = 0;
    while j < n
        invariant
            n == m.key_seq().len(),
            j <= n,
            m@ == p@.deep_stages,
            forall|x: Input| #[trigger] m@.dom().contains(x) <==> m.key_seq().contains(x),
            forall|q: int, e: ConfigError| 0 <= q < j ==> !#[trigger] stage_violates(p@, m.key_seq()[q], m@[m.key_seq()[q]], e),
        decreases n - j,
    {
        let i = *m.key_at(j);
        let cfg = *m.value_at(j);
        if !input_is_grid(i) {
            return Some(ConfigError::DeepStageOffGrid);
        }
        if cfg.actuation.release >= cfg.actuation.actuation {
            return Some(ConfigError::DeepStageReleaseNotBelow);
        }
        if cfg.actuation.release <= resolved_actuation_of(p, i).actuation {
            return Some(ConfigError::DeepBandOverlapsPrimary);
        }
        j = j + 1;
    }
    proof {
        assert forall|i: Input, e: ConfigError| p@.deep_stages.dom().contains(i) implies !#[trigger] stage_violates(p@, i, p@.deep_stages[i], e) by {
            let q = choose|q: int| 0 <= q < m.key_seq().len() && m.key_seq()[q] == i;
        }
    }
    None
}

fn check_profile(c: &Config, name: &String, p: &Profile) -> (r: Option<ConfigError>)
    ensures
        r matches Some(e) ==> profile_violates(c@, name@, p@, e),
        r is None ==> forall|e: ConfigError| !profile_violates(c@, name@, p@, e),
        r matches Some(e) ==> profile_reports(c@, name@, p@, e),
{
    if blank(name.as_str()) {
        return Some(ConfigError::BlankProfileName);
    }
    if p.default_actuation.release >= p.default_actuation.actuation {
        return Some(ConfigError::DefaultReleaseNotBelow);
    }
    if let Some(a) = p.default_deep_actuation {
        if a.release >= a.actuation {
            return Some(ConfigError::DefaultDeepReleaseNotBelow);
        }
    }
    if let Some(e) = scan_primary(c, p, Layer::Base) {
        return Some(e);
    }
    if let Some(e) = scan_primary(c, p, Layer::Held) {
        return Some(e);
    }
    if let Some(e) = scan_deep(c, p, Layer::Base) {
        return Some(e);
    }
    if let Some(e) = scan_deep(c, p, Layer::Held) {
        return Some(e);
    }
    if let Some(e) = scan_chords(c, p, Layer::Base) {
        return Some(e);
    }
    if let Some(e) = scan_chords(c, p, Layer::Held) {
        return Some(e);
    }
    if !scan_axes(p, Layer::Base) || !scan_axes(p, Layer::Held) {
        return Some(ConfigError::AxisOffGrid);
    }
    if let Some(e) = scan_overrides(p) {
        return Some(e);
    }
    if let Some(e) = scan_stages(p) {
        return Some(e);
    }
    proof {
        assert forall|e: ConfigError| !profile_violates(c@, name@, p@, e) by {
            assert forall|layer: Layer, i: Input| #[trigger] layer_bindings(p@, layer).dom().contains(i) implies !primary_violates(c@, p@, layer, i, layer_bindings(p@, layer)[i], e) by {
                match layer { Layer::Base => {}, Layer::Held => {} }
            }
            assert forall|layer: Layer, i: Input| #[trigger] layer_deep(p@, layer).dom().contains(i) implies !deep_violates(c@, p@, layer, i, layer_deep(p@, layer)[i], e) by {
                match layer { Layer::Base => {}, Layer::Held => {} }
            }
            assert forall|layer: Layer, k: Seq<Input>| #[trigger] layer_chords(p@, layer).dom().contains(k) implies !chord_violates(c@, p@, layer, k, layer_chords(p@, layer)[k], e) by {
                match layer { Layer::Base => {}, Layer::Held => {} }
            }
            assert forall|layer: Layer, i: Input| #[trigger] layer_axes(p@, layer).dom().contains(i) implies is_grid(i) by {
                match layer { Layer::Base => {}, Layer::Held => {} }
            }
        }
    }
    None
}

/// Checks every structural rule: `Ok` exactly when the configuration meets
/// them all, else one rule it breaks.
pub fn validate(c: &Config) -> (r: Result<(), ConfigError>)
    ensures
        r is Ok <==> config_valid(c@),
        r matches Err(e) ==> violates(c@, e),
        r matches Err(e) ==> validation_reports(c@, e),
{
    if c.active_profile().is_none() {
        assert(violates(c@, ConfigError::NoActiveProfile));
        return Err(ConfigError::NoActiveProfile);
    }
    let profiles = &c.profiles;
    let n = profiles.len();
    let mut j: usize = 0;
    while j < n
        invariant
            n == profiles.key_seq().len(),
            j <= n,
            profiles@ == c@.profiles,
            has_active_profile(c@),
            forall|x: Seq<char>| #[trigger] profiles@.dom().contains(x) <==> profiles.key_seq().contains(x),
            forall|q: int, e: ConfigError| 0 <= q < j ==> !#[trigger] profile_violates(c@, profiles.key_seq()[q], profiles@[profiles.key_seq()[q]], e),
        decreases n - j,
    {
        if let Some(e) = check_profile(c, profiles.key_at(j), profiles.value_at(j)) {
            proof {
                let name = profiles.key_seq()[j as int];
                assert(c@.profiles.dom().contains(name));
                assert(violates(c@, e));
                assert(has_active_profile(c@));
                assert(profile_reports(c@, name, c@.profiles[name], e));
            }
            return Err(e);
        }
        j = j + 1;
    }
    proof {
        assert forall|e: ConfigError| !#[trigger] violates(c@, e) by {
            assert forall|name: Seq<char>| #[trigger] c@.profiles.dom().contains(name) implies !profile_violates(c@, name, c@.profiles[name], e) by {
                let q = choose|q: int| 0 <= q < profiles.key_seq().len() && profiles.key_seq()[q] == name;
            }
        }
    }
    Ok(())
}


/// A configuration that meets every structural rule, spelled out: its active
/// Profile exists; every Profile has a non-blank name and release points
/// below actuation points by default; every primary and deep Binding that is
/// a Profile Switch fires once and targets an existing Profile; analog
/// repeat sits on grid keys only; library references resolve and controller
/// buttons are gamepad buttons; no primary Binding shares its Input with an
/// Axis assignment; every deep Binding has a non-analog-repeat primary and a
/// deep stage config; every Chord has two or more members, is neither a
/// Profile Switch nor analog repeat, has no member with an Axis or a deep
/// Binding, and nests in no other Chord; Axis assignments, overrides and
/// deep stage configs sit on grid keys with release below actuation, and a
/// deep stage releases above its primary actuation point.
pub proof fn a_valid_configuration_keeps_every_rule(c: ConfigView)
    requires
        config_valid(c),
    ensures
        has_active_profile(c),
        forall|name: Seq<char>| #[trigger] c.profiles.dom().contains(name) ==> {
            let p = c.profiles[name];
            &&& !is_blank(name)
            &&& p.default_actuation.release < p.default_actuation.actuation
            &&& p.default_deep_actuation matches Some(a) ==> a.release < a.actuation
        },
        forall|name: Seq<char>, layer: Layer, i: Input|
            c.profiles.dom().contains(name) && #[trigger] layer_bindings(c.profiles[name], layer).dom().contains(i) ==> {
                let p = c.profiles[name];
                let b = layer_bindings(p, layer)[i];
                &&& b.action is ProfileSwitch ==> b.trigger == TriggerMode::FireOnce
                &&& b.action matches ActionView::ProfileSwitch { target } ==> c.profiles.dom().contains(target)
                &&& b.trigger == TriggerMode::AnalogRepeat ==> is_grid(i)
                &&& !layer_axes(p, layer).dom().contains(i)
                &&& b.action matches ActionView::Macro { macro_id } ==> c.macros.dom().contains(macro_id)
                &&& b.action matches ActionView::Step { stepper, .. } ==> c.steppers.dom().contains(stepper)
                &&& b.action matches ActionView::ControllerButton { button } ==> gamepad_button_code(button)
            },
        forall|name: Seq<char>, layer: Layer, i: Input|
            c.profiles.dom().contains(name) && #[trigger] layer_deep(c.profiles[name], layer).dom().contains(i) ==> {
                let p = c.profiles[name];
                let b = layer_deep(p, layer)[i];
                &&& b.action is ProfileSwitch ==> b.trigger == TriggerMode::FireOnce
                &&& b.action matches ActionView::ProfileSwitch { target } ==> c.profiles.dom().contains(target)
                &&& b.trigger == TriggerMode::AnalogRepeat ==> is_grid(i)
                &&& layer_bindings(p, layer).dom().contains(i)
                &&& layer_bindings(p, layer)[i].trigger != TriggerMode::AnalogRepeat
                &&& p.deep_stages.dom().contains(i)
                &&& b.action matches ActionView::Macro { macro_id } ==> c.macros.dom().contains(macro_id)
                &&& b.action matches ActionView::Step { stepper, .. } ==> c.steppers.dom().contains(stepper)
            },
        forall|name: Seq<char>, layer: Layer, k: Seq<Input>|
            c.profiles.dom().contains(name) && #[trigger] layer_chords(c.profiles[name], layer).dom().contains(k) ==> {
                let p = c.profiles[name];
                let b = layer_chords(p, layer)[k];
                &&& k.len() >= 2
                &&& !(b.action is ProfileSwitch)
                &&& b.trigger != TriggerMode::AnalogRepeat
                &&& forall|m: Input| k.contains(m) ==> !layer_axes(p, layer).dom().contains(m) && !layer_deep(p, layer).dom().contains(m)
                &&& forall|k2: Seq<Input>| #[trigger] layer_chords(p, layer).dom().contains(k2) && k2 != k ==> !nested(k, k2)
                &&& b.action matches ActionView::Macro { macro_id } ==> c.macros.dom().contains(macro_id)
                &&& b.action matches ActionView::Step { stepper, .. } ==> c.steppers.dom().contains(stepper)
            },
        forall|name: Seq<char>, layer: Layer, i: Input|
            c.profiles.dom().contains(name) && #[trigger] layer_axes(c.profiles[name], layer).dom().contains(i) ==> is_grid(i),
        forall|name: Seq<char>, i: Input|
            c.profiles.dom().contains(name) && #[trigger] c.profiles[name].actuation_overrides.dom().contains(i) ==> is_grid(i)
                && c.profiles[name].actuation_overrides[i].release < c.profiles[name].actuation_overrides[i].actuation,
        forall|name: Seq<char>, i: Input|
            c.profiles.dom().contains(name) && #[trigger] c.profiles[name].deep_stages.dom().contains(i) ==> {
                let p = c.profiles[name];
                let cfg = p.deep_stages[i];
                &&& is_grid(i)
                &&& cfg.actuation.release < cfg.actuation.actuation
                &&& cfg.actuation.release > resolved_actuation(p, i).actuation
            },
{
    assert(!violates(c, ConfigError::NoActiveProfile));
    assert forall|name: Seq<char>| #[trigger] c.profiles.dom().contains(name) implies {
        let p = c.profiles[name];
        &&& !is_blank(name)
        &&& p.default_actuation.release < p.default_actuation.actuation
        &&& p.default_deep_actuation matches Some(a) ==> a.release < a.actuation
    } by {
        assert(!violates(c, ConfigError::BlankProfileName));
        assert(!violates(c, ConfigError::DefaultReleaseNotBelow));
        assert(!violates(c, ConfigError::DefaultDeepReleaseNotBelow));
    }
    assert forall|name: Seq<char>, layer: Layer, i: Input|
        c.profiles.dom().contains(name) && #[trigger] layer_bindings(c.profiles[name], layer).dom().contains(i) implies {
            let p = c.profiles[name];
            let b = layer_bindings(p, layer)[i];
            &&& b.action is ProfileSwitch ==> b.trigger == TriggerMode::FireOnce
            &&& b.action matches ActionView::ProfileSwitch { target } ==> c.profiles.dom().contains(target)
            &&& b.trigger == TriggerMode::AnalogRepeat ==> is_grid(i)
            &&& !layer_axes(p, layer).dom().contains(i)
            &&& b.action matches ActionView::Macro { macro_id } ==> c.macros.dom().contains(macro_id)
            &&& b.action matches ActionView::Step { stepper, .. } ==> c.steppers.dom().contains(stepper)
            &&& b.action matches ActionView::ControllerButton { button } ==> gamepad_button_code(button)
        } by {
        let p = c.profiles[name];
        let b = layer_bindings(p, layer)[i];
        assert(!profile_violates(c, name, p, ConfigError::ProfileSwitchNotFireOnce)) by { assert(!violates(c, ConfigError::ProfileSwitchNotFireOnce)); }
        assert(!profile_violates(c, name, p, ConfigError::ProfileSwitchUnknownTarget)) by { assert(!violates(c, ConfigError::ProfileSwitchUnknownTarget)); }
        assert(!profile_violates(c, name, p, ConfigError::AnalogRepeatOffGrid)) by { assert(!violates(c, ConfigError::AnalogRepeatOffGrid)); }
        assert(!profile_violates(c, name, p, ConfigError::BindingOnAxisInput)) by { assert(!violates(c, ConfigError::BindingOnAxisInput)); }
        assert(!profile_violates(c, name, p, ConfigError::UnknownMacro)) by { assert(!violates(c, ConfigError::UnknownMacro)); }
        assert(!profile_violates(c, name, p, ConfigError::UnknownStepper)) by { assert(!violates(c, ConfigError::UnknownStepper)); }
        assert(!profile_violates(c, name, p, ConfigError::UnknownGamepadButton)) by { assert(!violates(c, ConfigError::UnknownGamepadButton)); }
        assert(!primary_violates(c, p, layer, i, b, ConfigError::ProfileSwitchNotFireOnce));
        assert(!primary_violates(c, p, layer, i, b, ConfigError::ProfileSwitchUnknownTarget));
        assert(!primary_violates(c, p, layer, i, b, ConfigError::AnalogRepeatOffGrid));
        assert(!primary_violates(c, p, layer, i, b, ConfigError::BindingOnAxisInput));
        assert(!primary_violates(c, p, layer, i, b, ConfigError::UnknownMacro));
        assert(!primary_violates(c, p, layer, i, b, ConfigError::UnknownStepper));
        assert(!primary_violates(c, p, layer, i, b, ConfigError::UnknownGamepadButton));
    }
    assert forall|name: Seq<char>, layer: Layer, i: Input|
        c.profiles.dom().contains(name) && #[trigger] layer_deep(c.profiles[name], layer).dom().contains(i) implies {
            let p = c.profiles[name];
            let b = layer_deep(p, layer)[i];
            &&& b.action is ProfileSwitch ==> b.trigger == TriggerMode::FireOnce
            &&& b.action matches ActionView::ProfileSwitch { target } ==> c.profiles.dom().contains(target)
            &&& b.trigger == TriggerMode::AnalogRepeat ==> is_grid(i)
            &&& layer_bindings(p, layer).dom().contains(i)
            &&& layer_bindings(p, layer)[i].trigger != TriggerMode::AnalogRepeat
            &&& p.deep_stages.dom().contains(i)
            &&& b.action matches ActionView::Macro { macro_id } ==> c.macros.dom().contains(macro_id)
            &&& b.action matches ActionView::Step { stepper, .. } ==> c.steppers.dom().contains(stepper)
        } by {
        let p = c.profiles[name];
        let b = layer_deep(p, layer)[i];
        assert(!profile_violates(c, name, p, ConfigError::ProfileSwitchNotFireOnce)) by { assert(!violates(c, ConfigError::ProfileSwitchNotFireOnce)); }
        assert(!profile_violates(c, name, p, ConfigError::ProfileSwitchUnknownTarget)) by { assert(!violates(c, ConfigError::ProfileSwitchUnknownTarget)); }
        assert(!profile_violates(c, name, p, ConfigError::AnalogRepeatOffGrid)) by { assert(!violates(c, ConfigError::AnalogRepeatOffGrid)); }
        assert(!profile_violates(c, name, p, ConfigError::DeepWithoutPrimary)) by { assert(!violates(c, ConfigError::DeepWithoutPrimary)); }
        assert(!profile_violates(c, name, p, ConfigError::DeepUnderAnalogRepeat)) by { assert(!violates(c, ConfigError::DeepUnderAnalogRepeat)); }
        assert(!profile_violates(c, name, p, ConfigError::DeepWithoutConfig)) by { assert(!violates(c, ConfigError::DeepWithoutConfig)); }
        assert(!profile_violates(c, name, p, ConfigError::UnknownMacro)) by { assert(!violates(c, ConfigError::UnknownMacro)); }
        assert(!profile_violates(c, name, p, ConfigError::UnknownStepper)) by { assert(!violates(c, ConfigError::UnknownStepper)); }
        assert(!deep_violates(c, p, layer, i, b, ConfigError::ProfileSwitchNotFireOnce));
        assert(!deep_violates(c, p, layer, i, b, ConfigError::ProfileSwitchUnknownTarget));
        assert(!deep_violates(c, p, layer, i, b, ConfigError::AnalogRepeatOffGrid));
        assert(!deep_violates(c, p, layer, i, b, ConfigError::DeepWithoutPrimary));
        assert(!deep_violates(c, p, layer, i, b, ConfigError::DeepUnderAnalogRepeat));
        assert(!deep_violates(c, p, layer, i, b, ConfigError::DeepWithoutConfig));
        assert(!deep_violates(c, p, layer, i, b, ConfigError::UnknownMacro));
        assert(!deep_violates(c, p, layer, i, b, ConfigError::UnknownStepper));
    }
    assert forall|name: Seq<char>, layer: Layer, k: Seq<Input>|
        c.profiles.dom().contains(name) && #[trigger] layer_chords(c.profiles[name], layer).dom().contains(k) implies {
            let p = c.profiles[name];
            let b = layer_chords(p, layer)[k];
            &&& k.len() >= 2
            &&& !(b.action is ProfileSwitch)
            &&& b.trigger != TriggerMode::AnalogRepeat
            &&& forall|m: Input| k.contains(m) ==> !layer_axes(p, layer).dom().contains(m) && !layer_deep(p, layer).dom().contains(m)
            &&& forall|k2: Seq<Input>| #[trigger] layer_chords(p, layer).dom().contains(k2) && k2 != k ==> !nested(k, k2)
            &&& b.action matches ActionView::Macro { macro_id } ==> c.macros.dom().contains(macro_id)
            &&& b.action matches ActionView::Step { stepper, .. } ==> c.steppers.dom().contains(stepper)
        } by {
        let p = c.profiles[name];
        let b = layer_chords(p, layer)[k];
        assert(!profile_violates(c, name, p, ConfigError::ChordTooSmall)) by { assert(!violates(c, ConfigError::ChordTooSmall)); }
        assert(!profile_violates(c, name, p, ConfigError::ChordProfileSwitch)) by { assert(!violates(c, ConfigError::ChordProfileSwitch)); }
        assert(!profile_violates(c, name, p, ConfigError::ChordAnalogRepeat)) by { assert(!violates(c, ConfigError::ChordAnalogRepeat)); }
        assert(!profile_violates(c, name, p, ConfigError::ChordMemberOnAxis)) by { assert(!violates(c, ConfigError::ChordMemberOnAxis)); }
        assert(!profile_violates(c, name, p, ConfigError::ChordMemberDualStage)) by { assert(!violates(c, ConfigError::ChordMemberDualStage)); }
        assert(!profile_violates(c, name, p, ConfigError::ChordOverlap)) by { assert(!violates(c, ConfigError::ChordOverlap)); }
        assert(!profile_violates(c, name, p, ConfigError::UnknownMacro)) by { assert(!violates(c, ConfigError::UnknownMacro)); }
        assert(!profile_violates(c, name, p, ConfigError::UnknownStepper)) by { assert(!violates(c, ConfigError::UnknownStepper)); }
        assert(!chord_violates(c, p, layer, k, b, ConfigError::ChordTooSmall));
        assert(!chord_violates(c, p, layer, k, b, ConfigError::ChordProfileSwitch));
        assert(!chord_violates(c, p, layer, k, b, ConfigError::ChordAnalogRepeat));
        assert(!chord_violates(c, p, layer, k, b, ConfigError::ChordMemberOnAxis));
        assert(!chord_violates(c, p, layer, k, b, ConfigError::ChordMemberDualStage));
        assert(!chord_violates(c, p, layer, k, b, ConfigError::ChordOverlap));
        assert(!chord_violates(c, p, layer, k, b, ConfigError::UnknownMacro));
        assert(!chord_violates(c, p, layer, k, b, ConfigError::UnknownStepper));
    }
    assert forall|name: Seq<char>, layer: Layer, i: Input|
        c.profiles.dom().contains(name) && #[trigger] layer_axes(c.profiles[name], layer).dom().contains(i) implies is_grid(i) by {
        assert(!profile_violates(c, name, c.profiles[name], ConfigError::AxisOffGrid)) by { assert(!violates(c, ConfigError::AxisOffGrid)); }
    }
    assert forall|name: Seq<char>, i: Input|
        c.profiles.dom().contains(name) && #[trigger] c.profiles[name].actuation_overrides.dom().contains(i) implies is_grid(i)
            && c.profiles[name].actuation_overrides[i].release < c.profiles[name].actuation_overrides[i].actuation by {
        let p = c.profiles[name];
        assert(!profile_violates(c, name, p, ConfigError::OverrideOffGrid)) by { assert(!violates(c, ConfigError::OverrideOffGrid)); }
        assert(!profile_violates(c, name, p, ConfigError::OverrideReleaseNotBelow)) by { assert(!violates(c, ConfigError::OverrideReleaseNotBelow)); }
        assert(!override_violates(i, p.actuation_overrides[i], ConfigError::OverrideOffGrid));
        assert(!override_violates(i, p.actuation_overrides[i], ConfigError::OverrideReleaseNotBelow));
    }
    assert forall|name: Seq<char>, i: Input|
        c.profiles.dom().contains(name) && #[trigger] c.profiles[name].deep_stages.dom().contains(i) implies {
            let p = c.profiles[name];
            let cfg = p.deep_stages[i];
            &&& is_grid(i)
            &&& cfg.actuation.release < cfg.actuation.actuation
            &&& cfg.actuation.release > resolved_actuation(p, i).actuation
        } by {
        let p = c.profiles[name];
        assert(!profile_violates(c, name, p, ConfigError::DeepStageOffGrid)) by { assert(!violates(c, ConfigError::DeepStageOffGrid)); }
        assert(!profile_violates(c, name, p, ConfigError::DeepStageReleaseNotBelow)) by { assert(!violates(c, ConfigError::DeepStageReleaseNotBelow)); }
        assert(!profile_violates(c, name, p, ConfigError::DeepBandOverlapsPrimary)) by { assert(!violates(c, ConfigError::DeepBandOverlapsPrimary)); }
        assert(!stage_violates(p, i, p.deep_stages[i], ConfigError::DeepStageOffGrid));
        assert(!stage_violates(p, i, p.deep_stages[i], ConfigError::DeepStageReleaseNotBelow));
        assert(!stage_violates(p, i, p.deep_stages[i], ConfigError::DeepBandOverlapsPrimary));
    }
}

} // verus!
