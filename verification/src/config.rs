//! The stored configuration: Profiles of Bindings, Chords, deep stages and
//! Axis assignments, plus the shared Macro and Stepper libraries — each type
//! with its mathematical view.

use vstd::prelude::*;
use crate::amap::{AssocMap, MapKey, MapValue};
use crate::input::{Input, Layer, input_lt, input_less};

verus! {

/// The key code of a keyboard key or gamepad button (the evdev `KEY_*` /
/// `BTN_*` number).
pub type KeyCode = u16;

/// Which modifiers a Keypress holds around its key.
#[derive(Clone, Copy, Debug, PartialEq, Eq, Hash, Structural)]
pub struct Modifiers {
    pub ctrl: bool,
    pub shift: bool,
    pub alt: bool,
    pub super_key: bool,
}

impl Modifiers {
    /// No modifier held.
    pub fn none() -> (r: Modifiers)
        ensures
            r == no_modifiers(),
    {
        Modifiers { ctrl: false, shift: false, alt: false, super_key: false }
    }
}

/// No modifier held.
pub open spec fn no_modifiers() -> Modifiers {
    Modifiers { ctrl: false, shift: false, alt: false, super_key: false }
}

/// How a Binding fires.
#[derive(Clone, Copy, Debug, PartialEq, Eq, Hash, Structural)]
pub enum TriggerMode {
    FireOnce,
    HoldToRepeat,
    Toggle,
    AnalogRepeat,
}

/// Which way a Step Action moves a Stepper's cursor.
#[derive(Clone, Copy, Debug, PartialEq, Eq, Hash, Structural)]
pub enum StepDirection {
    Forward,
    Backward,
}

/// What the Mode key does on a Profile.
#[derive(Clone, Copy, Debug, PartialEq, Eq, Hash, Structural)]
pub enum ModeKeyRole {
    LayerSwitch,
    Bound,
}

/// A dual-stage key's Staging mode.
#[derive(Clone, Copy, Debug, PartialEq, Eq, Hash, Structural)]
pub enum StagingMode {
    Handoff,
    NoReturn,
    QuickSkip,
}

/// The analog output an Axis-assigned grid key drives.
#[derive(Clone, Copy, Debug, PartialEq, Eq, Hash, Structural)]
pub enum AxisTarget {
    LeftTrigger,
    RightTrigger,
    Throttle,
    Gas,
    Brake,
    LeftStickXPositive,
    LeftStickXNegative,
    LeftStickYPositive,
    LeftStickYNegative,
    RightStickXPositive,
    RightStickXNegative,
    RightStickYPositive,
    RightStickYNegative,
    RudderPositive,
    RudderNegative,
    WheelPositive,
    WheelNegative,
}

/// A key's Actuation and Release points on the 0-255 Depth scale.
#[derive(Clone, Copy, Debug, PartialEq, Eq, Hash, Structural)]
pub struct ActuationPoint {
    pub actuation: u8,
    pub release: u8,
}

/// A dual-stage key's deep Actuation/Release pair and Staging mode.
#[derive(Clone, Copy, Debug, PartialEq, Eq, Hash, Structural)]
pub struct DeepStageConfig {
    pub actuation: ActuationPoint,
    pub mode: StagingMode,
}

/// The three Status LED channels.
#[derive(Clone, Copy, Debug, PartialEq, Eq, Hash, Structural)]
pub struct StatusLeds {
    pub orange: bool,
    pub green: bool,
    pub blue: bool,
}

/// One authored step of a Macro: a key edge or a pause in milliseconds.
#[derive(Clone, Copy, Debug, PartialEq, Eq, Hash, Structural)]
pub enum MacroStepDto {
    KeyDown(KeyCode),
    KeyUp(KeyCode),
    Delay(u64),
}

/// One item of a Stepper list.
#[derive(Clone, Copy, Debug, PartialEq, Eq, Hash, Structural)]
pub enum StepperItem {
    Key { key: KeyCode, modifiers: Modifiers },
    ControllerButton { button: KeyCode },
}

/// The frozen identity of a Macro library entry.
#[derive(Clone, Debug, PartialEq, Eq, Hash)]
pub struct MacroId(pub String);

/// The frozen identity of a Stepper library entry.
#[derive(Clone, Debug, PartialEq, Eq, Hash)]
pub struct StepperId(pub String);

/// What a Binding does when it fires.
#[derive(Clone, Debug, PartialEq, Eq)]
pub enum Action {
    Keypress { modifiers: Modifiers, key: KeyCode },
    Macro { macro_id: MacroId },
    ProfileSwitch { target: String },
    Step { stepper: StepperId, direction: StepDirection },
    ControllerButton { button: KeyCode },
}

/// A trigger mode paired with an Action.
#[derive(Clone, Debug, PartialEq, Eq)]
pub struct Binding {
    pub trigger: TriggerMode,
    pub action: Action,
}

/// A Macro library entry.
#[derive(Clone, Debug, PartialEq, Eq)]
pub struct MacroDef {
    pub name: String,
    pub steps: Vec<MacroStepDto>,
}

/// A Stepper library entry.
#[derive(Clone, Debug, PartialEq, Eq)]
pub struct StepperDef {
    pub name: String,
    pub items: Vec<StepperItem>,
}

/// A Chord's member set, kept sorted ascending with no repeats.
#[derive(Debug, PartialEq, Eq, Hash)]
pub struct ChordKey {
    members: Vec<Input>,
}

/// The view of an Action.
pub enum ActionView {
    Keypress { modifiers: Modifiers, key: KeyCode },
    Macro { macro_id: Seq<char> },
    ProfileSwitch { target: Seq<char> },
    Step { stepper: Seq<char>, direction: StepDirection },
    ControllerButton { button: KeyCode },
}

/// The view of a Binding.
pub struct BindingView {
    pub trigger: TriggerMode,
    pub action: ActionView,
}

/// The view of a Macro library entry.
pub struct MacroDefView {
    pub name: Seq<char>,
    pub steps: Seq<MacroStepDto>,
}

/// The view of a Stepper library entry.
pub struct StepperDefView {
    pub name: Seq<char>,
    pub items: Seq<StepperItem>,
}

impl View for MacroId {
    type V = Seq<char>;

    open spec fn view(&self) -> Seq<char> {
        self.0@
    }
}

impl View for StepperId {
    type V = Seq<char>;

    open spec fn view(&self) -> Seq<char> {
        self.0@
    }
}

impl View for Action {
    type V = ActionView;

    open spec fn view(&self) -> ActionView {
        match self {
            Action::Keypress { modifiers, key } => ActionView::Keypress { modifiers: *modifiers, key: *key },
            Action::Macro { macro_id } => ActionView::Macro { macro_id: macro_id@ },
            Action::ProfileSwitch { target } => ActionView::ProfileSwitch { target: target@ },
            Action::Step { stepper, direction } => ActionView::Step { stepper: stepper@, direction: *direction },
            Action::ControllerButton { button } => ActionView::ControllerButton { button: *button },
        }
    }
}

impl View for Binding {
    type V = BindingView;

    open spec fn view(&self) -> BindingView {
        BindingView { trigger: self.trigger, action: self.action@ }
    }
}

impl View for MacroDef {
    type V = MacroDefView;

    open spec fn view(&self) -> MacroDefView {
        MacroDefView { name: self.name@, steps: self.steps@ }
    }
}

impl View for StepperDef {
    type V = StepperDefView;

    open spec fn view(&self) -> StepperDefView {
        StepperDefView { name: self.name@, items: self.items@ }
    }
}

impl View for ActuationPoint {
    type V = ActuationPoint;

    open spec fn view(&self) -> ActuationPoint {
        *self
    }
}

impl View for DeepStageConfig {
    type V = DeepStageConfig;

    open spec fn view(&self) -> DeepStageConfig {
        *self
    }
}

impl View for AxisTarget {
    type V = AxisTarget;

    open spec fn view(&self) -> AxisTarget {
        *self
    }
}

/// The Chord key of a list of Inputs: its member set, ascending.
pub open spec fn chord_key_of(inputs: Seq<Input>) -> Seq<Input> {
    choose|s: Seq<Input>| strictly_sorted(s) && s.to_set() == inputs.to_set()
}

/// A sequence of Inputs in strictly ascending order.
pub open spec fn strictly_sorted(s: Seq<Input>) -> bool {
    forall|i: int, j: int| 0 <= i < j < s.len() ==> input_lt(s[i], s[j])
}

impl ChordKey {
    #[verifier::type_invariant]
    closed spec fn sorted(self) -> bool {
        strictly_sorted(self.members@)
    }

    /// The members, ascending.
    pub closed spec fn member_seq(&self) -> Seq<Input> {
        self.members@
    }

    /// The member set of `inputs` as a Chord key: sorted ascending, repeats
    /// dropped.
    pub fn new(inputs: Vec<Input>) -> (r: ChordKey)
        ensures
            r@.to_set() == inputs@.to_set(),
            strictly_sorted(r@),
            r@ == chord_key_of(inputs@),
    {
        let mut members: Vec<Input> = Vec::new();
        let mut i: usize = 0;
        while i < inputs.len()
            invariant
                i <= inputs@.len(),
                strictly_sorted(members@),
                members@.to_set() == inputs@.subrange(0, i as int).to_set(),
            decreases inputs@.len() - i,
        {
            let x = inputs[i];
            let ghost old_members = members@;
            // Find the insertion point.
            let mut p: usize = 0;
            while p < members.len() && input_less(members[p], x)
                invariant
                    p <= members@.len(),
                    members@ == old_members,
                    forall|q: int| 0 <= q < p ==> input_lt(members@[q], x),
                decreases members@.len() - p,
            {
                p = p + 1;
            }
            if p < members.len() && members[p] == x {
                proof {
                    assert(inputs@.subrange(0, i as int + 1) == inputs@.subrange(0, i as int).push(x));
                    assert(members@.contains(x));
                    inputs@.subrange(0, i as int).lemma_push_to_set_commute(x);
                    assert(members@.to_set() =~= members@.to_set().insert(x));
                }
            } else {
                proof {
                    if p < old_members.len() {
                        crate::input::lemma_input_lt_total(old_members[p as int], x);
                        assert forall|q: int| p <= q < old_members.len() implies input_lt(x, old_members[q]) by {
                            if q > p {
                                crate::input::lemma_input_lt_transitive(x, old_members[p as int], old_members[q]);
                            }
                        }
                    }
                }
                members.insert(p, x);
                proof {
                    let m = members@;
                    assert forall|a: int, b: int| 0 <= a < b < m.len() implies input_lt(m[a], m[b]) by {
                        if a < p && b == p {
                        } else if a < p && b > p {
                            assert(m[b] == old_members[b - 1]);
                            crate::input::lemma_input_lt_transitive(m[a], x, m[b]);
                        } else if a == p && b > p {
                            assert(m[b] == old_members[b - 1]);
                        } else if a > p {
                            assert(m[a] == old_members[a - 1] && m[b] == old_members[b - 1]);
                        } else {
                            assert(m[a] == old_members[a] && m[b] == old_members[b]);
                        }
                    }
                    assert(inputs@.subrange(0, i as int + 1) == inputs@.subrange(0, i as int).push(x));
                    assert forall|y: Input| m.to_set().contains(y) <==> old_members.to_set().insert(x).contains(y) by {
                        if m.contains(y) {
                            let k = choose|k: int| 0 <= k < m.len() && m[k] == y;
                            if k < p {
                                assert(old_members[k] == y);
                            } else if k > p {
                                assert(old_members[k - 1] == y);
                            }
                        }
                        if old_members.contains(y) {
                            let k = choose|k: int| 0 <= k < old_members.len() && old_members[k] == y;
                            if k < p {
                                assert(m[k] == y);
                            } else {
                                assert(m[k + 1] == y);
                            }
                        }
                        if y == x {
                            assert(m[p as int] == x);
                        }
                    }
                    assert(m.to_set() =~= old_members.to_set().insert(x));
                    inputs@.subrange(0, i as int).lemma_push_to_set_commute(x);
                }
            }
            i = i + 1;
        }
        assert(inputs@.subrange(0, inputs@.len() as int) == inputs@);
        proof {
            let c = chord_key_of(inputs@);
            assert(strictly_sorted(c) && c.to_set() == inputs@.to_set());
            crate::sorted::lemma_sorted_unique(members@, c);
        }
        ChordKey { members }
    }

    /// The members, ascending.
    pub fn members(&self) -> (r: &Vec<Input>)
        ensures
            r@ == self@,
            strictly_sorted(r@),
    {
        proof {
            use_type_invariant(self);
        }
        &self.members
    }
}

impl ChordKey {
    /// A copy with the same members.
    pub fn duplicate(&self) -> (r: ChordKey)
        ensures
            r@ == self@,
    {
        proof {
            use_type_invariant(self);
        }
        let mut out: Vec<Input> = Vec::new();
        let mut i: usize = 0;
        while i < self.members.len()
            invariant
                i <= self.members@.len(),
                out@ == self.members@.subrange(0, i as int),
            decreases self.members@.len() - i,
        {
            out.push(self.members[i]);
            i = i + 1;
        }
        assert(out@ =~= self.members@);
        ChordKey { members: out }
    }
}

impl Clone for ChordKey {
    fn clone(&self) -> (r: Self)
        ensures
            r@ == self@,
    {
        self.duplicate()
    }
}

impl View for ChordKey {
    type V = Seq<Input>;

    open spec fn view(&self) -> Seq<Input> {
        self.member_seq()
    }
}

impl MapKey for Input {
    fn key_eq(&self, other: &Self) -> (r: bool) {
        *self == *other
    }

    fn key_clone(&self) -> (r: Self) {
        *self
    }
}

impl MapKey for String {
    fn key_eq(&self, other: &Self) -> (r: bool) {
        *self == *other
    }

    fn key_clone(&self) -> (r: Self) {
        self.clone()
    }
}

impl MapKey for MacroId {
    fn key_eq(&self, other: &Self) -> (r: bool) {
        self.0 == other.0
    }

    fn key_clone(&self) -> (r: Self) {
        MacroId(self.0.clone())
    }
}

impl MapKey for StepperId {
    fn key_eq(&self, other: &Self) -> (r: bool) {
        self.0 == other.0
    }

    fn key_clone(&self) -> (r: Self) {
        StepperId(self.0.clone())
    }
}

impl MapKey for ChordKey {
    fn key_eq(&self, other: &Self) -> (r: bool) {
        let a = self.members();
        let b = other.members();
        if a.len() != b.len() {
            return false;
        }
        let mut i: usize = 0;
        while i < a.len()
            invariant
                a@ == self@,
                b@ == other@,
                a@.len() == b@.len(),
                i <= a@.len(),
                forall|j: int| 0 <= j < i ==> a@[j] == b@[j],
            decreases a@.len() - i,
        {
            if a[i] != b[i] {
                return false;
            }
            i = i + 1;
        }
        assert(a@ =~= b@);
        true
    }

    fn key_clone(&self) -> (r: Self) {
        self.duplicate()
    }
}

impl MapValue for ActuationPoint {
    fn value_clone(&self) -> (r: Self) {
        *self
    }
}

impl MapValue for DeepStageConfig {
    fn value_clone(&self) -> (r: Self) {
        *self
    }
}

impl MapValue for AxisTarget {
    fn value_clone(&self) -> (r: Self) {
        *self
    }
}

impl MacroId {
    /// The id spelled by `id`.
    pub fn new(id: &str) -> (r: MacroId)
        ensures
            r@ == id@,
    {
        MacroId(String::from_str(id))
    }

    /// The id's text.
    pub fn as_str(&self) -> (r: &str)
        ensures
            r@ == self@,
    {
        self.0.as_str()
    }
}

impl StepperId {
    /// The id spelled by `id`.
    pub fn new(id: &str) -> (r: StepperId)
        ensures
            r@ == id@,
    {
        StepperId(String::from_str(id))
    }

    /// The id's text.
    pub fn as_str(&self) -> (r: &str)
        ensures
            r@ == self@,
    {
        self.0.as_str()
    }
}

impl Action {
    /// A copy with the same view.
    pub fn duplicate(&self) -> (r: Action)
        ensures
            r@ == self@,
    {
        match self {
            Action::Keypress { modifiers, key } => Action::Keypress { modifiers: *modifiers, key: *key },
            Action::Macro { macro_id } => Action::Macro { macro_id: macro_id.key_clone() },
            Action::ProfileSwitch { target } => Action::ProfileSwitch { target: target.clone() },
            Action::Step { stepper, direction } => Action::Step { stepper: stepper.key_clone(), direction: *direction },
            Action::ControllerButton { button } => Action::ControllerButton { button: *button },
        }
    }

    /// Whether two Actions have the same view.
    pub fn same_as(&self, other: &Action) -> (r: bool)
        ensures
            r == (self@ == other@),
    {
        match (self, other) {
            (Action::Keypress { modifiers: m1, key: k1 }, Action::Keypress { modifiers: m2, key: k2 }) => {
                *m1 == *m2 && *k1 == *k2
            },
            (Action::Macro { macro_id: a }, Action::Macro { macro_id: b }) => a.key_eq(b),
            (Action::ProfileSwitch { target: a }, Action::ProfileSwitch { target: b }) => *a == *b,
            (Action::Step { stepper: s1, direction: d1 }, Action::Step { stepper: s2, direction: d2 }) => {
                s1.key_eq(s2) && *d1 == *d2
            },
            (Action::ControllerButton { button: a }, Action::ControllerButton { button: b }) => *a == *b,
            _ => false,
        }
    }
}

impl Binding {
    /// Whether two Bindings have the same view.
    pub fn same_as(&self, other: &Binding) -> (r: bool)
        ensures
            r == (self@ == other@),
    {
        self.trigger == other.trigger && self.action.same_as(&other.action)
    }
}

impl MapValue for Binding {
    fn value_clone(&self) -> (r: Self) {
        Binding { trigger: self.trigger, action: self.action.duplicate() }
    }
}

fn copy_vec<T: Copy>(v: &Vec<T>) -> (r: Vec<T>)
    ensures
        r@ == v@,
{
    let mut out: Vec<T> = Vec::new();
    let mut i: usize = 0;
    while i < v.len()
        invariant
            i <= v@.len(),
            out@ == v@.subrange(0, i as int),
        decreases v@.len() - i,
    {
        out.push(v[i]);
        i = i + 1;
    }
    assert(out@ =~= v@);
    out
}

impl MapValue for MacroDef {
    fn value_clone(&self) -> (r: Self) {
        MacroDef { name: self.name.clone(), steps: copy_vec(&self.steps) }
    }
}

impl MapValue for StepperDef {
    fn value_clone(&self) -> (r: Self) {
        StepperDef { name: self.name.clone(), items: copy_vec(&self.items) }
    }
}

/// An RGB colour.
#[derive(Clone, Copy, Debug, PartialEq, Eq, Hash, Structural)]
pub struct Colour {
    pub r: u8,
    pub g: u8,
    pub b: u8,
}

/// A hardware lighting effect with fixed parameters.
#[derive(Clone, Copy, Debug, PartialEq, Eq, Hash, Structural)]
pub enum FixedEffect {
    Static { colour: Colour },
}

/// What a Profile shows on the device's backlight.
#[derive(Clone, Copy, Debug, PartialEq, Eq, Hash, Structural)]
pub enum LightingAssignment {
    Off,
    FixedEffect { effect: FixedEffect },
}

/// One named Profile: its Bindings on both Layers, Chords, deep stages, Axis
/// assignments, Actuation points, Status LEDs, backlight and Mode key role.
#[derive(Debug, PartialEq)]
pub struct Profile {
    pub base: AssocMap<Input, Binding>,
    pub held: AssocMap<Input, Binding>,
    pub chords_base: AssocMap<ChordKey, Binding>,
    pub chords_held: AssocMap<ChordKey, Binding>,
    pub deep_base: AssocMap<Input, Binding>,
    pub deep_held: AssocMap<Input, Binding>,
    pub axis_base: AssocMap<Input, AxisTarget>,
    pub axis_held: AssocMap<Input, AxisTarget>,
    pub deep_stages: AssocMap<Input, DeepStageConfig>,
    pub actuation_overrides: AssocMap<Input, ActuationPoint>,
    pub default_actuation: ActuationPoint,
    pub default_deep_actuation: Option<ActuationPoint>,
    pub status_leds: StatusLeds,
    pub lighting: LightingAssignment,
    pub brightness: u8,
    pub mode_key_role: ModeKeyRole,
}

/// The view of a Profile.
pub struct ProfileView {
    pub base: Map<Input, BindingView>,
    pub held: Map<Input, BindingView>,
    pub chords_base: Map<Seq<Input>, BindingView>,
    pub chords_held: Map<Seq<Input>, BindingView>,
    pub deep_base: Map<Input, BindingView>,
    pub deep_held: Map<Input, BindingView>,
    pub axis_base: Map<Input, AxisTarget>,
    pub axis_held: Map<Input, AxisTarget>,
    pub deep_stages: Map<Input, DeepStageConfig>,
    pub actuation_overrides: Map<Input, ActuationPoint>,
    pub default_actuation: ActuationPoint,
    pub default_deep_actuation: Option<ActuationPoint>,
    pub status_leds: StatusLeds,
    pub lighting: LightingAssignment,
    pub brightness: u8,
    pub mode_key_role: ModeKeyRole,
}

impl View for Profile {
    type V = ProfileView;

    open spec fn view(&self) -> ProfileView {
        ProfileView {
            base: self.base@,
            held: self.held@,
            chords_base: self.chords_base@,
            chords_held: self.chords_held@,
            deep_base: self.deep_base@,
            deep_held: self.deep_held@,
            axis_base: self.axis_base@,
            axis_held: self.axis_held@,
            deep_stages: self.deep_stages@,
            actuation_overrides: self.actuation_overrides@,
            default_actuation: self.default_actuation,
            default_deep_actuation: self.default_deep_actuation,
            status_leds: self.status_leds,
            lighting: self.lighting,
            brightness: self.brightness,
            mode_key_role: self.mode_key_role,
        }
    }
}

/// The Actuation/Release pair a Profile starts with.
pub open spec fn seed_actuation() -> ActuationPoint {
    ActuationPoint { actuation: 128, release: 112 }
}

/// The deep Actuation/Release pair a fresh deep-stage config starts with.
pub open spec fn seed_deep_actuation() -> ActuationPoint {
    ActuationPoint { actuation: 128, release: 112 }
}

/// A fresh deep-stage config: the seed deep pair, Handoff mode.
pub open spec fn default_deep_stage() -> DeepStageConfig {
    DeepStageConfig { actuation: seed_deep_actuation(), mode: StagingMode::Handoff }
}

/// A fresh Profile: every map empty, the seed Actuation pair, no default
/// deep pair, every LED and the backlight off at zero brightness, the Mode
/// key switching Layers.
pub open spec fn empty_profile() -> ProfileView {
    ProfileView {
        base: Map::empty(),
        held: Map::empty(),
        chords_base: Map::empty(),
        chords_held: Map::empty(),
        deep_base: Map::empty(),
        deep_held: Map::empty(),
        axis_base: Map::empty(),
        axis_held: Map::empty(),
        deep_stages: Map::empty(),
        actuation_overrides: Map::empty(),
        default_actuation: seed_actuation(),
        default_deep_actuation: None,
        status_leds: StatusLeds { orange: false, green: false, blue: false },
        lighting: LightingAssignment::Off,
        brightness: 0,
        mode_key_role: ModeKeyRole::LayerSwitch,
    }
}

impl DeepStageConfig {
    /// A fresh deep-stage config.
    pub fn fresh() -> (r: DeepStageConfig)
        ensures
            r == default_deep_stage(),
    {
        DeepStageConfig {
            actuation: ActuationPoint { actuation: 128, release: 112 },
            mode: StagingMode::Handoff,
        }
    }
}

impl Profile {
    /// A fresh Profile.
    pub fn empty() -> (r: Profile)
        ensures
            r@ == empty_profile(),
    {
        Profile {
            base: AssocMap::new(),
            held: AssocMap::new(),
            chords_base: AssocMap::new(),
            chords_held: AssocMap::new(),
            deep_base: AssocMap::new(),
            deep_held: AssocMap::new(),
            axis_base: AssocMap::new(),
            axis_held: AssocMap::new(),
            deep_stages: AssocMap::new(),
            actuation_overrides: AssocMap::new(),
            default_actuation: ActuationPoint { actuation: 128, release: 112 },
            default_deep_actuation: None,
            status_leds: StatusLeds { orange: false, green: false, blue: false },
            lighting: LightingAssignment::Off,
            brightness: 0,
            mode_key_role: ModeKeyRole::LayerSwitch,
        }
    }

    /// The primary Bindings on `layer`.
    pub fn layer(&self, layer: Layer) -> (r: &AssocMap<Input, Binding>)
        ensures
            r@ == layer_bindings(self@, layer),
    {
        match layer {
            Layer::Base => &self.base,
            Layer::Held => &self.held,
        }
    }

    /// The Chord Bindings on `layer`.
    pub fn chords(&self, layer: Layer) -> (r: &AssocMap<ChordKey, Binding>)
        ensures
            r@ == layer_chords(self@, layer),
    {
        match layer {
            Layer::Base => &self.chords_base,
            Layer::Held => &self.chords_held,
        }
    }

    /// The deep Bindings on `layer`.
    pub fn deep_layer(&self, layer: Layer) -> (r: &AssocMap<Input, Binding>)
        ensures
            r@ == layer_deep(self@, layer),
    {
        match layer {
            Layer::Base => &self.deep_base,
            Layer::Held => &self.deep_held,
        }
    }

    /// The Axis assignments on `layer`.
    pub fn axis_layer(&self, layer: Layer) -> (r: &AssocMap<Input, AxisTarget>)
        ensures
            r@ == layer_axes(self@, layer),
    {
        match layer {
            Layer::Base => &self.axis_base,
            Layer::Held => &self.axis_held,
        }
    }

    /// A copy with the same view.
    pub fn duplicate(&self) -> (r: Profile)
        ensures
            r@ == self@,
    {
        Profile {
            base: self.base.duplicate(),
            held: self.held.duplicate(),
            chords_base: self.chords_base.duplicate(),
            chords_held: self.chords_held.duplicate(),
            deep_base: self.deep_base.duplicate(),
            deep_held: self.deep_held.duplicate(),
            axis_base: self.axis_base.duplicate(),
            axis_held: self.axis_held.duplicate(),
            deep_stages: self.deep_stages.duplicate(),
            actuation_overrides: self.actuation_overrides.duplicate(),
            default_actuation: self.default_actuation,
            default_deep_actuation: self.default_deep_actuation,
            status_leds: self.status_leds,
            lighting: self.lighting,
            brightness: self.brightness,
            mode_key_role: self.mode_key_role,
        }
    }
}

impl MapValue for Profile {
    fn value_clone(&self) -> (r: Self) {
        self.duplicate()
    }
}

/// The primary Bindings of a Profile on a Layer.
pub open spec fn layer_bindings(p: ProfileView, layer: Layer) -> Map<Input, BindingView> {
    match layer {
        Layer::Base => p.base,
        Layer::Held => p.held,
    }
}

/// The Chord Bindings of a Profile on a Layer.
pub open spec fn layer_chords(p: ProfileView, layer: Layer) -> Map<Seq<Input>, BindingView> {
    match layer {
        Layer::Base => p.chords_base,
        Layer::Held => p.chords_held,
    }
}

/// The deep Bindings of a Profile on a Layer.
pub open spec fn layer_deep(p: ProfileView, layer: Layer) -> Map<Input, BindingView> {
    match layer {
        Layer::Base => p.deep_base,
        Layer::Held => p.deep_held,
    }
}

/// The Axis assignments of a Profile on a Layer.
pub open spec fn layer_axes(p: ProfileView, layer: Layer) -> Map<Input, AxisTarget> {
    match layer {
        Layer::Base => p.axis_base,
        Layer::Held => p.axis_held,
    }
}

/// The Profile with its primary Bindings on `layer` replaced.
pub open spec fn with_layer_bindings(p: ProfileView, layer: Layer, m: Map<Input, BindingView>) -> ProfileView {
    match layer {
        Layer::Base => ProfileView { base: m, ..p },
        Layer::Held => ProfileView { held: m, ..p },
    }
}

/// The Profile with its Chord Bindings on `layer` replaced.
pub open spec fn with_layer_chords(p: ProfileView, layer: Layer, m: Map<Seq<Input>, BindingView>) -> ProfileView {
    match layer {
        Layer::Base => ProfileView { chords_base: m, ..p },
        Layer::Held => ProfileView { chords_held: m, ..p },
    }
}

/// The Profile with its deep Bindings on `layer` replaced.
pub open spec fn with_layer_deep(p: ProfileView, layer: Layer, m: Map<Input, BindingView>) -> ProfileView {
    match layer {
        Layer::Base => ProfileView { deep_base: m, ..p },
        Layer::Held => ProfileView { deep_held: m, ..p },
    }
}

/// The Profile with its Axis assignments on `layer` replaced.
pub open spec fn with_layer_axes(p: ProfileView, layer: Layer, m: Map<Input, AxisTarget>) -> ProfileView {
    match layer {
        Layer::Base => ProfileView { axis_base: m, ..p },
        Layer::Held => ProfileView { axis_held: m, ..p },
    }
}

/// The name of the Profile every fresh configuration starts with.
pub const DEFAULT_PROFILE_NAME: &'static str = "Default";

/// The whole stored configuration.
#[derive(Debug, PartialEq)]
pub struct Config {
    pub profiles: AssocMap<String, Profile>,
    pub active_profile: String,
    pub force_digital: bool,
    pub macros: AssocMap<MacroId, MacroDef>,
    pub steppers: AssocMap<StepperId, StepperDef>,
}

/// The view of the whole configuration.
pub struct ConfigView {
    pub profiles: Map<Seq<char>, ProfileView>,
    pub active_profile: Seq<char>,
    pub force_digital: bool,
    pub macros: Map<Seq<char>, MacroDefView>,
    pub steppers: Map<Seq<char>, StepperDefView>,
}

impl View for Config {
    type V = ConfigView;

    open spec fn view(&self) -> ConfigView {
        ConfigView {
            profiles: self.profiles@,
            active_profile: self.active_profile@,
            force_digital: self.force_digital,
            macros: self.macros@,
            steppers: self.steppers@,
        }
    }
}

/// The configuration a first start writes: one empty Profile named
/// `DEFAULT_PROFILE_NAME`, active, Digital capture not forced, empty
/// libraries.
pub open spec fn seed_config() -> ConfigView {
    ConfigView {
        profiles: Map::empty().insert(DEFAULT_PROFILE_NAME@, empty_profile()),
        active_profile: DEFAULT_PROFILE_NAME@,
        force_digital: false,
        macros: Map::empty(),
        steppers: Map::empty(),
    }
}

/// The active Profile names a real Profile.
pub open spec fn has_active_profile(c: ConfigView) -> bool {
    c.profiles.dom().contains(c.active_profile)
}

/// The active Profile.
pub open spec fn active_of(c: ConfigView) -> ProfileView {
    c.profiles[c.active_profile]
}

impl Config {
    /// The configuration a first start writes.
    pub fn seed() -> (r: Config)
        ensures
            r@ == seed_config(),
    {
        let mut profiles: AssocMap<String, Profile> = AssocMap::new();
        profiles.insert(String::from_str(DEFAULT_PROFILE_NAME), Profile::empty());
        Config {
            profiles,
            active_profile: String::from_str(DEFAULT_PROFILE_NAME),
            force_digital: false,
            macros: AssocMap::new(),
            steppers: AssocMap::new(),
        }
    }

    /// A copy with the same view.
    pub fn duplicate(&self) -> (r: Config)
        ensures
            r@ == self@,
    {
        Config {
            profiles: self.profiles.duplicate(),
            active_profile: self.active_profile.clone(),
            force_digital: self.force_digital,
            macros: self.macros.duplicate(),
            steppers: self.steppers.duplicate(),
        }
    }

    /// The active Profile, if `active_profile` names one.
    pub fn active_profile(&self) -> (r: Option<&Profile>)
        ensures
            r is Some <==> has_active_profile(self@),
            r is Some ==> r->0@ == active_of(self@),
    {
        self.profiles.get(&self.active_profile)
    }
}

} // verus!
