//! The Action compiler: a Binding's Action becomes one flat sequence of key
//! edges and pauses, and the classifier that recognises a single held key in
//! such a sequence.

use vstd::prelude::*;
use std::collections::HashSet;
use vstd::std_specs::iter::IteratorSpec;
use crate::amap::AssocMap;
use crate::config::{
    Action, ActionView, KeyCode, MacroDef, MacroDefView, MacroId, MacroStepDto, Modifiers,
    StepperItem,
};

verus! {

/// One step of a compiled Action: a key edge or a pause in milliseconds.
#[derive(Clone, Copy, Debug, PartialEq, Eq, Structural)]
pub enum MacroStep {
    KeyDown(KeyCode),
    KeyUp(KeyCode),
    Delay(u64),
}

/// The dwell between the edges of a compiled controller-button press, in
/// milliseconds.
pub const CONTROLLER_BUTTON_DIGITAL_PULSE_HOLD_MS: u64 = 35;

/// The dwell spliced between the edges of a one-shot keyboard press, in
/// milliseconds.
pub const FIRE_ONCE_KEY_DWELL_MS: u64 = 40;

/// The shortest lap a looping Toggle may run, in milliseconds.
pub const MIN_TOGGLE_LAP_MS: u64 = 20;

/// The key codes of the left Ctrl, Shift, Alt and Meta keys, in that order
/// (evdev `KEY_LEFTCTRL`, `KEY_LEFTSHIFT`, `KEY_LEFTALT`, `KEY_LEFTMETA`).
pub open spec fn modifier_order() -> Seq<KeyCode> {
    seq![29u16, 42u16, 56u16, 125u16]
}

/// evdev's codes for the left Ctrl, Shift, Alt and Meta keys.
#[verifier::external_body]
fn modifier_key_codes() -> (r: [KeyCode; 4])
    ensures
        r@ == modifier_order(),
{
    [
        evdev::KeyCode::KEY_LEFTCTRL.code(),
        evdev::KeyCode::KEY_LEFTSHIFT.code(),
        evdev::KeyCode::KEY_LEFTALT.code(),
        evdev::KeyCode::KEY_LEFTMETA.code(),
    ]
}

/// The modifier codes a chord presses, in ctrl/shift/alt/super order.
pub open spec fn modifier_seq(m: Modifiers) -> Seq<KeyCode> {
    (if m.ctrl { seq![modifier_order()[0]] } else { Seq::empty() })
        + (if m.shift { seq![modifier_order()[1]] } else { Seq::empty() })
        + (if m.alt { seq![modifier_order()[2]] } else { Seq::empty() })
        + (if m.super_key { seq![modifier_order()[3]] } else { Seq::empty() })
}

/// A `KeyDown` for each code, in order.
pub open spec fn downs(codes: Seq<KeyCode>) -> Seq<MacroStep> {
    codes.map_values(|c: KeyCode| MacroStep::KeyDown(c))
}

/// A `KeyUp` for each code, in reverse order.
pub open spec fn ups_reversed(codes: Seq<KeyCode>) -> Seq<MacroStep> {
    codes.reverse().map_values(|c: KeyCode| MacroStep::KeyUp(c))
}

/// A modified key press: each modifier down, the key down and up, each
/// modifier up in reverse.
pub open spec fn keypress_spec(m: Modifiers, key: KeyCode) -> Seq<MacroStep> {
    downs(modifier_seq(m)) + seq![MacroStep::KeyDown(key), MacroStep::KeyUp(key)] + ups_reversed(modifier_seq(m))
}

/// The down-only prefix of a modified key press.
pub open spec fn held_key_down_spec(m: Modifiers, key: KeyCode) -> Seq<MacroStep> {
    downs(modifier_seq(m)).push(MacroStep::KeyDown(key))
}

/// A modified key press with the one-shot dwell between the key's edges.
pub open spec fn fire_once_spec(m: Modifiers, key: KeyCode) -> Seq<MacroStep> {
    downs(modifier_seq(m)) + seq![
        MacroStep::KeyDown(key),
        MacroStep::Delay(FIRE_ONCE_KEY_DWELL_MS),
        MacroStep::KeyUp(key),
    ] + ups_reversed(modifier_seq(m))
}

/// A controller-button press: down, the pulse dwell, up.
pub open spec fn controller_button_spec(button: KeyCode) -> Seq<MacroStep> {
    seq![
        MacroStep::KeyDown(button),
        MacroStep::Delay(CONTROLLER_BUTTON_DIGITAL_PULSE_HOLD_MS),
        MacroStep::KeyUp(button),
    ]
}

/// `steps` is the held-key shape of `(m, key)`: its key press, alone or
/// followed by one pause.
pub open spec fn held_key_shape(steps: Seq<MacroStep>, m: Modifiers, key: KeyCode) -> bool {
    steps == keypress_spec(m, key) || exists|d: u64| steps == keypress_spec(m, key).push(MacroStep::Delay(d))
}

/// A Macro's authored step as a compiled step.
pub open spec fn step_of(s: MacroStepDto) -> MacroStep {
    match s {
        MacroStepDto::KeyDown(k) => MacroStep::KeyDown(k),
        MacroStepDto::KeyUp(k) => MacroStep::KeyUp(k),
        MacroStepDto::Delay(ms) => MacroStep::Delay(ms),
    }
}

/// What an Action compiles to; a Macro Action resolves through `macros`.
pub open spec fn compile_spec(a: ActionView, macros: Map<Seq<char>, MacroDefView>) -> Seq<MacroStep> {
    match a {
        ActionView::Keypress { modifiers, key } => keypress_spec(modifiers, key),
        ActionView::Macro { macro_id } => macros[macro_id].steps.map_values(|s: MacroStepDto| step_of(s)),
        ActionView::ControllerButton { button } => controller_button_spec(button),
        _ => Seq::empty(),
    }
}

/// What a Stepper item compiles to.
pub open spec fn stepper_item_spec(item: StepperItem) -> Seq<MacroStep> {
    match item {
        StepperItem::Key { key, modifiers } => keypress_spec(modifiers, key),
        StepperItem::ControllerButton { button } => controller_button_spec(button),
    }
}

/// The modifier codes a chord presses, in ctrl/shift/alt/super order.
fn modifier_codes(modifiers: Modifiers) -> (r: Vec<KeyCode>)
    ensures
        r@ == modifier_seq(modifiers),
{
    let order = modifier_key_codes();
    let mut codes: Vec<KeyCode> = Vec::new();
    if modifiers.ctrl {
        codes.push(order[0]);
    }
    if modifiers.shift {
        codes.push(order[1]);
    }
    if modifiers.alt {
        codes.push(order[2]);
    }
    if modifiers.super_key {
        codes.push(order[3]);
    }
    assert(codes@ =~= modifier_seq(modifiers));
    codes
}

fn push_downs(steps: &mut Vec<MacroStep>, codes: &Vec<KeyCode>)
    ensures
        final(steps)@ == old(steps)@ + downs(codes@),
{
    let ghost start = steps@;
    let mut i: usize = 0;
    while i < codes.len()
        invariant
            i <= codes@.len(),
            steps@ == start + downs(codes@.subrange(0, i as int)),
        decreases codes@.len() - i,
    {
        steps.push(MacroStep::KeyDown(codes[i]));
        assert(steps@ =~= start + downs(codes@.subrange(0, i + 1)));
        i = i + 1;
    }
    assert(codes@.subrange(0, codes@.len() as int) =~= codes@);
}

fn push_ups_reversed(steps: &mut Vec<MacroStep>, codes: &Vec<KeyCode>)
    ensures
        final(steps)@ == old(steps)@ + ups_reversed(codes@),
{
    let ghost start = steps@;
    let mut i: usize = codes.len();
    while i > 0
        invariant
            i <= codes@.len(),
            steps@ == start + ups_reversed(codes@.subrange(i as int, codes@.len() as int)),
        decreases i,
    {
        i = i - 1;
        steps.push(MacroStep::KeyUp(codes[i]));
        assert(steps@ =~= start + ups_reversed(codes@.subrange(i as int, codes@.len() as int)));
    }
    assert(codes@.subrange(0, codes@.len() as int) =~= codes@);
}

/// The down-only prefix of a modified single-key press: each modifier then
/// the key, all `KeyDown`.
pub fn held_key_down_steps(modifiers: Modifiers, key: KeyCode) -> (r: Vec<MacroStep>)
    ensures
        r@ == held_key_down_spec(modifiers, key),
{
    let mods = modifier_codes(modifiers);
    let mut steps: Vec<MacroStep> = Vec::new();
    push_downs(&mut steps, &mods);
    steps.push(MacroStep::KeyDown(key));
    assert(steps@ =~= held_key_down_spec(modifiers, key));
    steps
}

/// The canned key press: each modifier down, the key down and up, each
/// modifier up in reverse.
pub fn keypress_steps(modifiers: Modifiers, key: KeyCode) -> (r: Vec<MacroStep>)
    ensures
        r@ == keypress_spec(modifiers, key),
{
    let mods = modifier_codes(modifiers);
    let mut steps: Vec<MacroStep> = Vec::new();
    push_downs(&mut steps, &mods);
    steps.push(MacroStep::KeyDown(key));
    steps.push(MacroStep::KeyUp(key));
    push_ups_reversed(&mut steps, &mods);
    assert(steps@ =~= keypress_spec(modifiers, key));
    steps
}

/// `keypress_steps` with the one-shot dwell spliced between the key's edges.
pub fn fire_once_key_steps(modifiers: Modifiers, key: KeyCode) -> (r: Vec<MacroStep>)
    ensures
        r@ == fire_once_spec(modifiers, key),
{
    let mods = modifier_codes(modifiers);
    let mut steps: Vec<MacroStep> = Vec::new();
    push_downs(&mut steps, &mods);
    steps.push(MacroStep::KeyDown(key));
    steps.push(MacroStep::Delay(FIRE_ONCE_KEY_DWELL_MS));
    steps.push(MacroStep::KeyUp(key));
    push_ups_reversed(&mut steps, &mods);
    assert(steps@ =~= fire_once_spec(modifiers, key));
    steps
}

/// The down, dwell, up triple of one controller-button press.
pub fn controller_button_steps(button: KeyCode) -> (r: Vec<MacroStep>)
    ensures
        r@ == controller_button_spec(button),
{
    let mut steps: Vec<MacroStep> = Vec::new();
    steps.push(MacroStep::KeyDown(button));
    steps.push(MacroStep::Delay(CONTROLLER_BUTTON_DIGITAL_PULSE_HOLD_MS));
    steps.push(MacroStep::KeyUp(button));
    assert(steps@ =~= controller_button_spec(button));
    steps
}

/// Compiles a Binding's Action into the flat step sequence the executor
/// runs. A Macro Action's steps come from its library entry, which must
/// exist; Profile Switch and Step Actions never reach here.
pub fn compile(action: &Action, macros: &AssocMap<MacroId, MacroDef>) -> (r: Vec<MacroStep>)
    requires
        !(action is ProfileSwitch),
        !(action is Step),
        action matches Action::Macro { macro_id } ==> macros@.dom().contains(macro_id@),
    ensures
        r@ == compile_spec(action@, macros@),
{
    match action {
        Action::Keypress { modifiers, key } => keypress_steps(*modifiers, *key),
        Action::Macro { macro_id } => {
            let mut out: Vec<MacroStep> = Vec::new();
            match macros.get(macro_id) {
                Some(def) => {
                    let mut i: usize = 0;
                    while i < def.steps.len()
                        invariant
                            i <= def.steps@.len(),
                            out@ == def.steps@.subrange(0, i as int).map_values(|s: MacroStepDto| step_of(s)),
                        decreases def.steps@.len() - i,
                    {
                        let step = match def.steps[i] {
                            MacroStepDto::KeyDown(k) => MacroStep::KeyDown(k),
                            MacroStepDto::KeyUp(k) => MacroStep::KeyUp(k),
                            MacroStepDto::Delay(ms) => MacroStep::Delay(ms),
                        };
                        out.push(step);
                        assert(out@ =~= def.steps@.subrange(0, i + 1).map_values(|s: MacroStepDto| step_of(s)));
                        i = i + 1;
                    }
                    assert(def.steps@.subrange(0, def.steps@.len() as int) =~= def.steps@);
                },
                None => {},
            }
            out
        },
        Action::ControllerButton { button } => controller_button_steps(*button),
        Action::ProfileSwitch { .. } => Vec::new(),
        Action::Step { .. } => Vec::new(),
    }
}

/// Compiles one selected Stepper item: a key item is a canned key press, a
/// controller-button item the dwell triple.
pub fn compile_stepper_item(item: StepperItem) -> (r: Vec<MacroStep>)
    ensures
        r@ == stepper_item_spec(item),
{
    match item {
        StepperItem::Key { key, modifiers } => keypress_steps(modifiers, key),
        StepperItem::ControllerButton { button } => controller_button_steps(button),
    }
}

/// The Toggle lap target: the live kernel repeat period, floored at
/// `MIN_TOGGLE_LAP_MS`.
pub fn combine_toggle_lap_target(kernel_period_ms: u64) -> (r: u64)
    ensures
        r == if kernel_period_ms >= MIN_TOGGLE_LAP_MS { kernel_period_ms } else { MIN_TOGGLE_LAP_MS },
{
    if kernel_period_ms >= MIN_TOGGLE_LAP_MS {
        kernel_period_ms
    } else {
        MIN_TOGGLE_LAP_MS
    }
}

/// The keys a firing holds after one step: a key edge that reached the
/// device adds or drops its key; a withheld edge or a pause changes nothing.
pub open spec fn held_after(held: Set<KeyCode>, step: MacroStep, applied: bool) -> Set<KeyCode> {
    if !applied {
        held
    } else {
        match step {
            MacroStep::KeyDown(k) => held.insert(k),
            MacroStep::KeyUp(k) => held.remove(k),
            MacroStep::Delay(_) => held,
        }
    }
}

/// The keys a firing currently holds down at the device — what a stop or a
/// physical release must force-release. Mirrors what reached the device,
/// not what the steps intended.
pub struct HeldKeys {
    keys: HashSet<KeyCode>,
}

impl View for HeldKeys {
    type V = Set<KeyCode>;

    closed spec fn view(&self) -> Set<KeyCode> {
        self.keys@
    }
}

impl HeldKeys {
    /// Nothing held.
    pub fn new() -> (r: HeldKeys)
        ensures
            r@ == Set::<KeyCode>::empty(),
    {
        HeldKeys { keys: HashSet::new() }
    }

    /// Whether `key` is held.
    pub fn contains(&self, key: KeyCode) -> (r: bool)
        ensures
            r == self@.contains(key),
    {
        broadcast use vstd::std_specs::hash::group_hash_axioms;
        self.keys.contains(&key)
    }

    /// The number of keys held.
    pub fn len(&self) -> (r: usize)
        ensures
            r == self@.len(),
    {
        broadcast use vstd::std_specs::hash::group_hash_axioms;
        self.keys.len()
    }

    /// Records one step's write: `applied` says whether it reached the
    /// device.
    pub fn record(&mut self, step: MacroStep, applied: bool)
        ensures
            final(self)@ == held_after(old(self)@, step, applied),
    {
        broadcast use vstd::std_specs::hash::group_hash_axioms;
        if !applied {
            return;
        }
        match step {
            MacroStep::KeyDown(k) => {
                self.keys.insert(k);
            },
            MacroStep::KeyUp(k) => {
                self.keys.remove(&k);
            },
            MacroStep::Delay(_) => {},
        }
    }

    /// Hands back every held key, each once, and forgets them all.
    pub fn drain(&mut self) -> (r: Vec<KeyCode>)
        ensures
            final(self)@ == Set::<KeyCode>::empty(),
            r@.no_duplicates(),
            r@.to_set() == old(self)@,
    {
        broadcast use vstd::std_specs::hash::group_hash_axioms;
        let ghost all = IteratorSpec::remaining(&self.keys.iter()).unref();
        let mut out: Vec<KeyCode> = Vec::new();
        for k in it: self.keys.iter()
            invariant
                all == it.seq().unref(),
                out@ == all.take(it.index() as int),
            ensures
                out@ == all,
        {
            out.push(*k);
            proof {
                assert(out@ =~= all.take(it.index() + 1));
            }
        }
        self.keys.clear();
        out
    }
}

/// How long a looping Toggle still waits after a lap whose steps took
/// `elapsed`, so that a lap never runs shorter than `target` (both in the
/// same unit): nothing once the lap already took that long.
pub fn lap_padding(elapsed: u64, target: u64) -> (r: Option<u64>)
    ensures
        r == if elapsed < target { Some((target - elapsed) as u64) } else { None::<u64> },
{
    if elapsed < target {
        Some(target - elapsed)
    } else {
        None
    }
}

proof fn lemma_modifier_seq(m: Modifiers)
    ensures
        modifier_seq(m).len() <= 4,
        modifier_seq(m).contains(29u16) == m.ctrl,
        modifier_seq(m).contains(42u16) == m.shift,
        modifier_seq(m).contains(56u16) == m.alt,
        modifier_seq(m).contains(125u16) == m.super_key,
{
    let s = modifier_seq(m);
    let c = if m.ctrl { seq![29u16] } else { Seq::<u16>::empty() };
    let sh = if m.shift { seq![42u16] } else { Seq::<u16>::empty() };
    let a = if m.alt { seq![56u16] } else { Seq::<u16>::empty() };
    let su = if m.super_key { seq![125u16] } else { Seq::<u16>::empty() };
    assert(s =~= c + sh + a + su);
    assert forall|x: u16| s.contains(x) <==> (c.contains(x) || sh.contains(x) || a.contains(x) || su.contains(x)) by {
        if s.contains(x) {
            let i = choose|i: int| 0 <= i < s.len() && s[i] == x;
            let l1 = c.len();
            let l2 = l1 + sh.len();
            let l3 = l2 + a.len();
            if i < l1 {
                assert(c[i] == x);
            } else if i < l2 {
                assert(sh[i - l1] == x);
            } else if i < l3 {
                assert(a[i - l2] == x);
            } else {
                assert(su[i - l3] == x);
            }
        }
        if c.contains(x) {
            assert(s[0] == x);
        }
        if sh.contains(x) {
            assert(s[c.len() as int] == x);
        }
        if a.contains(x) {
            assert(s[(c.len() + sh.len()) as int] == x);
        }
        if su.contains(x) {
            assert(s[(c.len() + sh.len() + a.len()) as int] == x);
        }
    }
    if m.ctrl {
        assert(c[0] == 29u16);
    }
    if m.shift {
        assert(sh[0] == 42u16);
    }
    if m.alt {
        assert(a[0] == 56u16);
    }
    if m.super_key {
        assert(su[0] == 125u16);
    }
}

proof fn lemma_keypress_shape(m: Modifiers, key: KeyCode)
    ensures
        keypress_spec(m, key).len() == 2 * modifier_seq(m).len() + 2,
        forall|i: int| 0 <= i < modifier_seq(m).len() ==> keypress_spec(m, key)[i] == MacroStep::KeyDown(#[trigger] modifier_seq(m)[i]),
        keypress_spec(m, key)[modifier_seq(m).len() as int] == MacroStep::KeyDown(key),
        keypress_spec(m, key)[modifier_seq(m).len() as int + 1] == MacroStep::KeyUp(key),
        keypress_spec(m, key).last() is KeyUp,
{
    let ms = modifier_seq(m);
    let ks = keypress_spec(m, key);
    let a = ms.len();
    assert(ks.len() == 2 * a + 2);
    assert forall|i: int| 0 <= i < a implies ks[i] == MacroStep::KeyDown(#[trigger] ms[i]) by {
        assert(downs(ms)[i] == MacroStep::KeyDown(ms[i]));
    }
    if a > 0 {
        assert(ks.last() == ups_reversed(ms)[a - 1]);
        assert(ms.reverse()[a - 1] == ms[0]);
    }
}

fn core_length(steps: &Vec<MacroStep>) -> (r: Option<usize>)
    ensures
        r matches Some(c) ==> c <= steps@.len() && (c == steps@.len() || (c + 1 == steps@.len() && steps@.last() is Delay))
            && forall|m: Modifiers, k: KeyCode| held_key_shape(steps@, m, k) ==> steps@.subrange(0, c as int) == keypress_spec(m, k),
        r is None ==> forall|m: Modifiers, k: KeyCode| !held_key_shape(steps@, m, k),
{
    let n = steps.len();
    let mut core_len = n;
    if n > 0 {
        if let MacroStep::Delay(_) = steps[n - 1] {
            if n >= 2 {
                if let MacroStep::Delay(_) = steps[n - 2] {
                    proof {
                        assert forall|m: Modifiers, k: KeyCode| !held_key_shape(steps@, m, k) by {
                            lemma_keypress_shape(m, k);
                            if exists|d: u64| steps@ == keypress_spec(m, k).push(MacroStep::Delay(d)) {
                                let d = choose|d: u64| steps@ == keypress_spec(m, k).push(MacroStep::Delay(d));
                                assert(steps@[n - 2] == keypress_spec(m, k).last());
                            }
                        }
                    }
                    return None;
                }
            }
            core_len = n - 1;
        }
    }
    proof {
        assert forall|m: Modifiers, k: KeyCode| held_key_shape(steps@, m, k) implies steps@.subrange(0, core_len as int) == keypress_spec(m, k) by {
            lemma_keypress_shape(m, k);
            if steps@ == keypress_spec(m, k) {
                assert(steps@.subrange(0, core_len as int) =~= steps@);
            } else {
                let d = choose|d: u64| steps@ == keypress_spec(m, k).push(MacroStep::Delay(d));
                assert(steps@.subrange(0, core_len as int) =~= keypress_spec(m, k));
            }
        }
    }
    Some(core_len)
}

fn leading_down_codes(steps: &Vec<MacroStep>, h: usize) -> (r: Option<Vec<KeyCode>>)
    requires
        h <= steps@.len(),
    ensures
        r matches Some(v) ==> v@.len() == h && forall|j: int| 0 <= j < h ==> steps@[j] == MacroStep::KeyDown(#[trigger] v@[j]),
        r is None ==> exists|j: int| 0 <= j < h && !(#[trigger] steps@[j] is KeyDown),
{
    let mut down_codes: Vec<KeyCode> = Vec::new();
    let mut i: usize = 0;
    while i < h
        invariant
            h <= steps@.len(),
            i <= h,
            down_codes@.len() == i,
            forall|j: int| 0 <= j < i ==> steps@[j] == MacroStep::KeyDown(#[trigger] down_codes@[j]),
        decreases h - i,
    {
        match steps[i] {
            MacroStep::KeyDown(k) => {
                down_codes.push(k);
            },
            _ => {
                assert(!(steps@[i as int] is KeyDown));
                return None;
            },
        }
        i = i + 1;
    }
    Some(down_codes)
}

fn modifiers_of(codes: &Vec<KeyCode>, len: usize) -> (r: Modifiers)
    requires
        len <= codes@.len(),
    ensures
        r.ctrl == codes@.subrange(0, len as int).contains(29u16),
        r.shift == codes@.subrange(0, len as int).contains(42u16),
        r.alt == codes@.subrange(0, len as int).contains(56u16),
        r.super_key == codes@.subrange(0, len as int).contains(125u16),
{
    let order = modifier_key_codes();
    let mut m = Modifiers::none();
    let mut j: usize = 0;
    while j < len
        invariant
            len <= codes@.len(),
            order@ == modifier_order(),
            j <= len,
            m.ctrl == codes@.subrange(0, j as int).contains(29u16),
            m.shift == codes@.subrange(0, j as int).contains(42u16),
            m.alt == codes@.subrange(0, j as int).contains(56u16),
            m.super_key == codes@.subrange(0, j as int).contains(125u16),
        decreases len - j,
    {
        let c = codes[j];
        if c == order[0] {
            m.ctrl = true;
        }
        if c == order[1] {
            m.shift = true;
        }
        if c == order[2] {
            m.alt = true;
        }
        if c == order[3] {
            m.super_key = true;
        }
        proof {
            crate::sorted::lemma_prefix_step(codes@, j as int);
        }
        j = j + 1;
    }
    m
}

fn steps_prefix_equal(a: &Vec<MacroStep>, b: &Vec<MacroStep>, n: usize) -> (r: bool)
    requires
        n <= a@.len(),
        n <= b@.len(),
    ensures
        r == (a@.subrange(0, n as int) == b@.subrange(0, n as int)),
{
    let mut q: usize = 0;
    while q < n
        invariant
            n <= a@.len(),
            n <= b@.len(),
            q <= n,
            forall|t: int| 0 <= t < q ==> a@[t] == b@[t],
        decreases n - q,
    {
        if a[q] != b[q] {
            assert(a@.subrange(0, n as int)[q as int] != b@.subrange(0, n as int)[q as int]);
            return false;
        }
        q = q + 1;
    }
    assert(a@.subrange(0, n as int) =~= b@.subrange(0, n as int));
    true
}

/// When `steps` opens with `h` key-down edges carrying `codes`, any held-key
/// shape it has is that of the modifiers among the first `h - 1` codes and
/// the `h`-th code as key.
proof fn lemma_shape_determined(
    steps: Seq<MacroStep>,
    core_len: nat,
    codes: Seq<KeyCode>,
    m: Modifiers,
    key: KeyCode,
)
    requires
        core_len <= steps.len(),
        core_len >= 2,
        core_len % 2 == 0,
        codes.len() == core_len / 2,
        forall|j: int| 0 <= j < core_len / 2 ==> steps[j] == MacroStep::KeyDown(#[trigger] codes[j]),
        key == codes[core_len / 2 - 1],
        m.ctrl == codes.subrange(0, core_len / 2 - 1).contains(29u16),
        m.shift == codes.subrange(0, core_len / 2 - 1).contains(42u16),
        m.alt == codes.subrange(0, core_len / 2 - 1).contains(56u16),
        m.super_key == codes.subrange(0, core_len / 2 - 1).contains(125u16),
        forall|m2: Modifiers, k2: KeyCode| held_key_shape(steps, m2, k2) ==> steps.subrange(0, core_len as int) == keypress_spec(m2, k2),
    ensures
        forall|m2: Modifiers, k2: KeyCode| held_key_shape(steps, m2, k2) ==> m2 == m && k2 == key,
{
    let h: int = (core_len / 2) as int;
    let prefix = codes.subrange(0, h - 1);
    assert forall|m2: Modifiers, k2: KeyCode| held_key_shape(steps, m2, k2) implies m2 == m && k2 == key by {
        let core = steps.subrange(0, core_len as int);
        assert(core == keypress_spec(m2, k2));
        lemma_keypress_shape(m2, k2);
        lemma_modifier_seq(m2);
        let ms = modifier_seq(m2);
        assert(h == ms.len() + 1);
        assert(core[h - 1] == steps[h - 1]);
        assert(steps[h - 1] == MacroStep::KeyDown(codes[h - 1]));
        assert forall|q: int| 0 <= q < ms.len() implies prefix[q] == ms[q] by {
            assert(core[q] == steps[q]);
            assert(steps[q] == MacroStep::KeyDown(codes[q]));
        }
        assert(prefix =~= ms);
    }
}

/// `Some((mods, key))` exactly when `steps` is the shape a single held
/// keyboard key produces: the key press of `(mods, key)` — each modifier
/// down in ctrl/shift/alt/super order, the key down and up, the modifiers up
/// in reverse — alone or followed by one pause.
pub fn single_held_key(steps: &Vec<MacroStep>) -> (r: Option<(Modifiers, KeyCode)>)
    ensures
        r matches Some((m, k)) ==> held_key_shape(steps@, m, k),
        r is None ==> forall|m: Modifiers, k: KeyCode| !held_key_shape(steps@, m, k),
{
    let core_len = match core_length(steps) {
        Some(c) => c,
        None => {
            return None;
        },
    };
    let ghost core = steps@.subrange(0, core_len as int);
    if core_len < 2 || core_len % 2 != 0 {
        proof {
            assert forall|m: Modifiers, k: KeyCode| !held_key_shape(steps@, m, k) by {
                lemma_keypress_shape(m, k);
            }
        }
        return None;
    }
    let h = core_len / 2;
    let down_codes = match leading_down_codes(steps, h) {
        Some(v) => v,
        None => {
            proof {
                assert forall|m: Modifiers, k: KeyCode| !held_key_shape(steps@, m, k) by {
                    lemma_keypress_shape(m, k);
                    if held_key_shape(steps@, m, k) {
                        let ms = modifier_seq(m);
                        let j = choose|j: int| 0 <= j < h && !(#[trigger] steps@[j] is KeyDown);
                        assert(core[j] == steps@[j]);
                        if j < ms.len() {
                            assert(core[j] == MacroStep::KeyDown(ms[j]));
                        }
                    }
                }
            }
            return None;
        },
    };
    let key = down_codes[h - 1];
    let m = modifiers_of(&down_codes, h - 1);
    proof {
        lemma_shape_determined(steps@, core_len as nat, down_codes@, m, key);
    }
    let expected = keypress_steps(m, key);
    if expected.len() != core_len {
        return None;
    }
    if !steps_prefix_equal(&expected, steps, core_len) {
        proof {
            assert(expected@.subrange(0, core_len as int) =~= expected@);
        }
        return None;
    }
    proof {
        assert(expected@.subrange(0, core_len as int) =~= expected@);
        if core_len < steps@.len() {
            let d = match steps@.last() { MacroStep::Delay(d) => d, _ => 0 };
            assert(steps@ =~= core.push(MacroStep::Delay(d)));
        } else {
            assert(steps@ =~= core);
        }
    }
    Some((m, key))
}

/// A canned key press is recognised as the single held key it presses, and
/// as no other.
pub proof fn a_keypress_is_its_own_held_key(m: Modifiers, key: KeyCode, m2: Modifiers, k2: KeyCode)
    ensures
        held_key_shape(keypress_spec(m, key), m, key),
        held_key_shape(keypress_spec(m, key), m2, k2) ==> m2 == m && k2 == key,
{
    let ks = keypress_spec(m, key);
    if held_key_shape(ks, m2, k2) {
        lemma_keypress_shape(m, key);
        lemma_keypress_shape(m2, k2);
        lemma_modifier_seq(m);
        lemma_modifier_seq(m2);
        let ms = modifier_seq(m);
        let ms2 = modifier_seq(m2);
        if ks == keypress_spec(m2, k2) {
            assert(ms.len() == ms2.len());
            assert(ks[ms.len() as int] == MacroStep::KeyDown(key));
            assert forall|q: int| 0 <= q < ms.len() implies ms[q] == ms2[q] by {
                assert(ks[q] == MacroStep::KeyDown(ms[q]));
                assert(ks[q] == MacroStep::KeyDown(ms2[q]));
            }
            assert(ms =~= ms2);
        } else {
            let d = choose|d: u64| ks == keypress_spec(m2, k2).push(MacroStep::Delay(d));
            assert(ks.last() == MacroStep::Delay(d));
        }
    }
}

/// A one-shot key press, with its dwell between the key's edges, is never
/// taken for a single held key.
pub proof fn a_fire_once_press_is_no_held_key(m: Modifiers, key: KeyCode, m2: Modifiers, k2: KeyCode)
    ensures
        !held_key_shape(fire_once_spec(m, key), m2, k2),
{
    let fs = fire_once_spec(m, key);
    let ms = modifier_seq(m);
    lemma_keypress_shape(m2, k2);
    assert(fs.len() == 2 * ms.len() + 3);
    if exists|d: u64| fs == keypress_spec(m2, k2).push(MacroStep::Delay(d)) {
        let d = choose|d: u64| fs == keypress_spec(m2, k2).push(MacroStep::Delay(d));
        if ms.len() > 0 {
            assert(fs.last() == ups_reversed(ms)[ms.len() - 1]);
        } else {
            assert(fs.last() == MacroStep::KeyUp(key));
        }
    }
}

/// A controller-button press is never taken for a single held key.
pub proof fn a_controller_press_is_no_held_key(button: KeyCode, m2: Modifiers, k2: KeyCode)
    ensures
        !held_key_shape(controller_button_spec(button), m2, k2),
{
    let cs = controller_button_spec(button);
    lemma_keypress_shape(m2, k2);
    if exists|d: u64| cs == keypress_spec(m2, k2).push(MacroStep::Delay(d)) {
        let d = choose|d: u64| cs == keypress_spec(m2, k2).push(MacroStep::Delay(d));
        assert(modifier_seq(m2).len() == 0);
        assert(cs[1] == keypress_spec(m2, k2)[1]);
    }
}

/// The keys held after every step of `steps` reached the device, starting
/// from `held`.
pub open spec fn held_after_steps(held: Set<KeyCode>, steps: Seq<MacroStep>) -> Set<KeyCode>
    decreases steps.len(),
{
    if steps.len() == 0 {
        held
    } else {
        held_after(held_after_steps(held, steps.drop_last()), steps.last(), true)
    }
}

proof fn lemma_held_after_concat(held: Set<KeyCode>, a: Seq<MacroStep>, b: Seq<MacroStep>)
    ensures
        held_after_steps(held, a + b) == held_after_steps(held_after_steps(held, a), b),
    decreases b.len(),
{
    if b.len() == 0 {
        assert(a + b =~= a);
    } else {
        assert((a + b).drop_last() =~= a + b.drop_last());
        assert((a + b).last() == b.last());
        lemma_held_after_concat(held, a, b.drop_last());
    }
}

proof fn lemma_held_after_downs(held: Set<KeyCode>, codes: Seq<KeyCode>)
    ensures
        held_after_steps(held, downs(codes)) == held + codes.to_set(),
    decreases codes.len(),
{
    if codes.len() == 0 {
        assert(downs(codes) =~= Seq::<MacroStep>::empty());
        assert(held + codes.to_set() =~= held);
    } else {
        let rest = codes.drop_last();
        assert(downs(codes).drop_last() =~= downs(rest));
        lemma_held_after_downs(held, rest);
        assert forall|x: KeyCode| codes.to_set().contains(x) <==> (rest.to_set().contains(x) || x == codes.last()) by {
            if codes.contains(x) {
                let j = choose|j: int| 0 <= j < codes.len() && codes[j] == x;
                if j < rest.len() {
                    assert(rest[j] == x);
                }
            }
            if rest.contains(x) {
                let j = choose|j: int| 0 <= j < rest.len() && rest[j] == x;
                assert(codes[j] == x);
            }
            if x == codes.last() {
                assert(codes[codes.len() - 1] == x);
            }
        }
        assert(held_after_steps(held, downs(codes)) =~= held + codes.to_set());
    }
}

proof fn lemma_held_after_ups(held: Set<KeyCode>, codes: Seq<KeyCode>)
    ensures
        held_after_steps(held, ups_reversed(codes)) == held - codes.to_set(),
    decreases codes.len(),
{
    if codes.len() == 0 {
        assert(ups_reversed(codes) =~= Seq::<MacroStep>::empty());
        assert(held - codes.to_set() =~= held);
    } else {
        let rest = codes.drop_first();
        assert(ups_reversed(codes).drop_last() =~= ups_reversed(rest));
        assert(ups_reversed(codes).last() == MacroStep::KeyUp(codes[0]));
        lemma_held_after_ups(held, rest);
        assert forall|x: KeyCode| codes.to_set().contains(x) <==> (rest.to_set().contains(x) || x == codes[0]) by {
            if codes.contains(x) {
                let j = choose|j: int| 0 <= j < codes.len() && codes[j] == x;
                if j > 0 {
                    assert(rest[j - 1] == x);
                }
            }
            if rest.contains(x) {
                let j = choose|j: int| 0 <= j < rest.len() && rest[j] == x;
                assert(codes[j + 1] == x);
            }
            if x == codes[0] {
                assert(codes.contains(x));
            }
        }
        assert(held_after_steps(held, ups_reversed(codes)) =~= held - codes.to_set());
    }
}

/// A canned key press, a one-shot press and a controller-button press each
/// release everything they press: run from nothing held with every write
/// reaching the device, they leave nothing held — there is nothing left for
/// a later force-release to do.
pub proof fn a_balanced_press_leaves_nothing_held(m: Modifiers, key: KeyCode, button: KeyCode)
    ensures
        held_after_steps(Set::empty(), keypress_spec(m, key)) == Set::<KeyCode>::empty(),
        held_after_steps(Set::empty(), fire_once_spec(m, key)) == Set::<KeyCode>::empty(),
        held_after_steps(Set::empty(), controller_button_spec(button)) == Set::<KeyCode>::empty(),
{
    let ms = modifier_seq(m);
    let empty = Set::<KeyCode>::empty();
    lemma_held_after_downs(empty, ms);
    let pressed = empty + ms.to_set();
    let mid = seq![MacroStep::KeyDown(key), MacroStep::KeyUp(key)];
    let mid_once = seq![MacroStep::KeyDown(key), MacroStep::Delay(FIRE_ONCE_KEY_DWELL_MS), MacroStep::KeyUp(key)];
    assert(mid.drop_last() =~= seq![MacroStep::KeyDown(key)]);
    assert(seq![MacroStep::KeyDown(key)].drop_last() =~= Seq::<MacroStep>::empty());
    assert(mid_once.drop_last() =~= seq![MacroStep::KeyDown(key), MacroStep::Delay(FIRE_ONCE_KEY_DWELL_MS)]);
    assert(seq![MacroStep::KeyDown(key), MacroStep::Delay(FIRE_ONCE_KEY_DWELL_MS)].drop_last() =~= seq![MacroStep::KeyDown(key)]);
    let after_key = pressed.insert(key).remove(key);
    assert(held_after_steps(pressed, mid) == after_key) by {
        reveal_with_fuel(held_after_steps, 3);
    }
    assert(held_after_steps(pressed, mid_once) == after_key) by {
        reveal_with_fuel(held_after_steps, 4);
    }
    lemma_held_after_ups(after_key, ms);
    assert(after_key - ms.to_set() =~= empty);
    lemma_held_after_concat(empty, downs(ms), mid);
    lemma_held_after_concat(empty, downs(ms) + mid, ups_reversed(ms));
    lemma_held_after_concat(empty, downs(ms), mid_once);
    lemma_held_after_concat(empty, downs(ms) + mid_once, ups_reversed(ms));
    let cs = controller_button_spec(button);
    assert(cs.drop_last() =~= seq![MacroStep::KeyDown(button), MacroStep::Delay(CONTROLLER_BUTTON_DIGITAL_PULSE_HOLD_MS)]);
    assert(held_after_steps(empty, cs) =~= empty) by {
        reveal_with_fuel(held_after_steps, 4);
    }
}

/// The chosen modifiers' codes, ascending: Ctrl 29, Shift 42, Alt 56,
/// Meta 125.
proof fn lemma_modifier_seq_ascending(m: Modifiers)
    ensures
        modifier_seq(m).len() == (if m.ctrl { 1int } else { 0 }) + (if m.shift { 1int } else { 0 }) + (if m.alt { 1int } else { 0 })
            + (if m.super_key { 1int } else { 0 }),
        forall|j: int, k: int| 0 <= j < k < modifier_seq(m).len() ==> modifier_seq(m)[j] < modifier_seq(m)[k],
        forall|j: int| 0 <= j < modifier_seq(m).len() ==> {
            let c = #[trigger] modifier_seq(m)[j];
            c == 29 || c == 42 || c == 56 || c == 125
        },
        modifier_seq(m).contains(29u16) == m.ctrl,
        modifier_seq(m).contains(42u16) == m.shift,
        modifier_seq(m).contains(56u16) == m.alt,
        modifier_seq(m).contains(125u16) == m.super_key,
{
    lemma_modifier_seq(m);
    if m.ctrl && m.shift && m.alt && m.super_key {
        assert(modifier_seq(m) =~= seq![29u16, 42u16, 56u16, 125u16]);
    }
    if m.ctrl && m.shift && m.alt && !m.super_key {
        assert(modifier_seq(m) =~= seq![29u16, 42u16, 56u16]);
    }
    if m.ctrl && m.shift && !m.alt && m.super_key {
        assert(modifier_seq(m) =~= seq![29u16, 42u16, 125u16]);
    }
    if m.ctrl && m.shift && !m.alt && !m.super_key {
        assert(modifier_seq(m) =~= seq![29u16, 42u16]);
    }
    if m.ctrl && !m.shift && m.alt && m.super_key {
        assert(modifier_seq(m) =~= seq![29u16, 56u16, 125u16]);
    }
    if m.ctrl && !m.shift && m.alt && !m.super_key {
        assert(modifier_seq(m) =~= seq![29u16, 56u16]);
    }
    if m.ctrl && !m.shift && !m.alt && m.super_key {
        assert(modifier_seq(m) =~= seq![29u16, 125u16]);
    }
    if m.ctrl && !m.shift && !m.alt && !m.super_key {
        assert(modifier_seq(m) =~= seq![29u16]);
    }
    if !m.ctrl && m.shift && m.alt && m.super_key {
        assert(modifier_seq(m) =~= seq![42u16, 56u16, 125u16]);
    }
    if !m.ctrl && m.shift && m.alt && !m.super_key {
        assert(modifier_seq(m) =~= seq![42u16, 56u16]);
    }
    if !m.ctrl && m.shift && !m.alt && m.super_key {
        assert(modifier_seq(m) =~= seq![42u16, 125u16]);
    }
    if !m.ctrl && m.shift && !m.alt && !m.super_key {
        assert(modifier_seq(m) =~= seq![42u16]);
    }
    if !m.ctrl && !m.shift && m.alt && m.super_key {
        assert(modifier_seq(m) =~= seq![56u16, 125u16]);
    }
    if !m.ctrl && !m.shift && m.alt && !m.super_key {
        assert(modifier_seq(m) =~= seq![56u16]);
    }
    if !m.ctrl && !m.shift && !m.alt && m.super_key {
        assert(modifier_seq(m) =~= seq![125u16]);
    }
    if !m.ctrl && !m.shift && !m.alt && !m.super_key {
        assert(modifier_seq(m) =~= Seq::<KeyCode>::empty());
    }
}

/// The modifier count of `m`.
pub open spec fn modifier_count(m: Modifiers) -> int {
    (if m.ctrl { 1int } else { 0 }) + (if m.shift { 1int } else { 0 }) + (if m.alt { 1int } else { 0 })
        + (if m.super_key { 1int } else { 0 })
}

proof fn lemma_press_prefix(m: Modifiers, key: KeyCode)
    ensures
        ({
            let ks = keypress_spec(m, key);
            let n = modifier_seq(m).len() as int;
            &&& forall|j: int| 0 <= j < n ==> ((#[trigger] ks[j]) is KeyDown && (ks[j]->KeyDown_0 == 29
                || ks[j]->KeyDown_0 == 42 || ks[j]->KeyDown_0 == 56 || ks[j]->KeyDown_0 == 125))
            &&& forall|j: int, k: int| 0 <= j < k < n ==> (#[trigger] ks[j])->KeyDown_0 < (#[trigger] ks[k])->KeyDown_0
            &&& forall|c: u16| ks.subrange(0, n).contains(MacroStep::KeyDown(c)) <==> modifier_seq(m).contains(c)
        }),
{
    lemma_modifier_seq_ascending(m);
    lemma_keypress_shape(m, key);
    let ms = modifier_seq(m);
    let ks = keypress_spec(m, key);
    let n = ms.len() as int;
    assert forall|j: int, k: int| 0 <= j < k < n implies (#[trigger] ks[j])->KeyDown_0 < (#[trigger] ks[k])->KeyDown_0 by {
        assert(ks[j] == MacroStep::KeyDown(ms[j]));
        assert(ks[k] == MacroStep::KeyDown(ms[k]));
    }
    assert forall|j: int| 0 <= j < n implies ((#[trigger] ks[j]) is KeyDown && (ks[j]->KeyDown_0 == 29
        || ks[j]->KeyDown_0 == 42 || ks[j]->KeyDown_0 == 56 || ks[j]->KeyDown_0 == 125)) by {
        assert(ks[j] == MacroStep::KeyDown(ms[j]));
    }
    assert forall|c: u16| ks.subrange(0, n).contains(MacroStep::KeyDown(c)) <==> ms.contains(c) by {
        if ks.subrange(0, n).contains(MacroStep::KeyDown(c)) {
            let j = choose|j: int| 0 <= j < n && ks.subrange(0, n)[j] == MacroStep::KeyDown(c);
            assert(ks[j] == MacroStep::KeyDown(ms[j]));
        }
        if ms.contains(c) {
            let j = choose|j: int| 0 <= j < ms.len() && ms[j] == c;
            assert(ks[j] == MacroStep::KeyDown(ms[j]));
            assert(ks.subrange(0, n)[j] == MacroStep::KeyDown(c));
        }
    }
}

proof fn lemma_press_suffix(m: Modifiers, key: KeyCode)
    ensures
        ({
            let ks = keypress_spec(m, key);
            let n = modifier_seq(m).len() as int;
            forall|j: int| n + 2 <= j < 2 * n + 2 ==> (#[trigger] ks[j]) == MacroStep::KeyUp(ks[2 * n + 1 - j]->KeyDown_0)
        }),
{
    lemma_keypress_shape(m, key);
    let ms = modifier_seq(m);
    let ks = keypress_spec(m, key);
    let n = ms.len() as int;
    assert forall|j: int| n + 2 <= j < 2 * n + 2 implies (#[trigger] ks[j]) == MacroStep::KeyUp(ks[2 * n + 1 - j]->KeyDown_0) by {
        assert(ks[j] == ups_reversed(ms)[j - n - 2]);
        assert(ks[2 * n + 1 - j] == MacroStep::KeyDown(ms[2 * n + 1 - j]));
    }
}

proof fn lemma_fire_once_vs_keypress(m: Modifiers, key: KeyCode)
    ensures
        ({
            let fs = fire_once_spec(m, key);
            let ks = keypress_spec(m, key);
            let n = modifier_seq(m).len() as int;
            &&& fs.len() == 2 * n + 3
            &&& fs.subrange(0, n + 1) == ks.subrange(0, n + 1)
            &&& fs[n + 1] == MacroStep::Delay(FIRE_ONCE_KEY_DWELL_MS)
            &&& fs.subrange(n + 2, 2 * n + 3) == ks.subrange(n + 1, 2 * n + 2)
        }),
{
    let fs = fire_once_spec(m, key);
    let ks = keypress_spec(m, key);
    let n = modifier_seq(m).len() as int;
    assert(fs.subrange(0, n + 1) =~= ks.subrange(0, n + 1));
    assert(fs.subrange(n + 2, 2 * n + 3) =~= ks.subrange(n + 1, 2 * n + 2));
}

/// A canned key press holds its chosen modifiers around the key: first a
/// press of each chosen modifier — Ctrl (29), Shift (42), Alt (56), Meta
/// (125), in that order and nothing else — then the key pressed and
/// released, then the modifiers released in the reverse order of their
/// presses. A one-shot press is the same with the one-shot dwell between the
/// key's edges.
pub proof fn a_press_wraps_its_key_in_its_modifiers(m: Modifiers, key: KeyCode)
    ensures
        ({
            let ks = keypress_spec(m, key);
            let n = modifier_count(m);
            &&& ks.len() == 2 * n + 2
            &&& ks[n] == MacroStep::KeyDown(key)
            &&& ks[n + 1] == MacroStep::KeyUp(key)
            &&& forall|j: int| 0 <= j < n ==> ((#[trigger] ks[j]) is KeyDown && (ks[j]->KeyDown_0 == 29
                || ks[j]->KeyDown_0 == 42 || ks[j]->KeyDown_0 == 56 || ks[j]->KeyDown_0 == 125))
            &&& forall|j: int, k: int| 0 <= j < k < n ==> (#[trigger] ks[j])->KeyDown_0 < (#[trigger] ks[k])->KeyDown_0
            &&& forall|j: int| n + 2 <= j < 2 * n + 2 ==> (#[trigger] ks[j]) == MacroStep::KeyUp(ks[2 * n + 1 - j]->KeyDown_0)
            &&& m.ctrl <==> ks.subrange(0, n).contains(MacroStep::KeyDown(29))
            &&& m.shift <==> ks.subrange(0, n).contains(MacroStep::KeyDown(42))
            &&& m.alt <==> ks.subrange(0, n).contains(MacroStep::KeyDown(56))
            &&& m.super_key <==> ks.subrange(0, n).contains(MacroStep::KeyDown(125))
        }),
        ({
            let fs = fire_once_spec(m, key);
            let ks = keypress_spec(m, key);
            let n = modifier_count(m);
            &&& fs.len() == 2 * n + 3
            &&& fs.subrange(0, n + 1) == ks.subrange(0, n + 1)
            &&& fs[n + 1] == MacroStep::Delay(FIRE_ONCE_KEY_DWELL_MS)
            &&& fs.subrange(n + 2, 2 * n + 3) == ks.subrange(n + 1, 2 * n + 2)
        }),
{
    lemma_modifier_seq_ascending(m);
    lemma_keypress_shape(m, key);
    lemma_press_prefix(m, key);
    lemma_press_suffix(m, key);
    lemma_fire_once_vs_keypress(m, key);
}

/// An Action compiles to the steps it names: a key press to its canned
/// press, a Macro to its library entry's authored steps one for one in
/// order, a controller button to the button down, the pulse dwell and the
/// button up; a Profile Switch or a Step compiles to nothing.
pub proof fn an_action_compiles_to_what_it_names(a: ActionView, macros: Map<Seq<char>, MacroDefView>)
    ensures
        a matches ActionView::Keypress { modifiers, key } ==> compile_spec(a, macros) == keypress_spec(modifiers, key),
        a matches ActionView::ControllerButton { button } ==> compile_spec(a, macros) == seq![
            MacroStep::KeyDown(button),
            MacroStep::Delay(CONTROLLER_BUTTON_DIGITAL_PULSE_HOLD_MS),
            MacroStep::KeyUp(button),
        ],
        a matches ActionView::Macro { macro_id } ==> {
            let authored = macros[macro_id].steps;
            let steps = compile_spec(a, macros);
            &&& steps.len() == authored.len()
            &&& forall|j: int| 0 <= j < authored.len() ==> match #[trigger] authored[j] {
                MacroStepDto::KeyDown(k) => steps[j] == MacroStep::KeyDown(k),
                MacroStepDto::KeyUp(k) => steps[j] == MacroStep::KeyUp(k),
                MacroStepDto::Delay(ms) => steps[j] == MacroStep::Delay(ms),
            }
        },
        (a is ProfileSwitch || a is Step) ==> compile_spec(a, macros).len() == 0,
{
}

/// A Stepper item compiles as the matching Action would: a key item to its
/// canned press, a controller-button item to the button's pulse.
pub proof fn a_stepper_item_compiles_like_its_action(item: StepperItem, macros: Map<Seq<char>, MacroDefView>)
    ensures
        item matches StepperItem::Key { key, modifiers } ==> stepper_item_spec(item)
            == compile_spec(ActionView::Keypress { modifiers, key }, macros),
        item matches StepperItem::ControllerButton { button } ==> stepper_item_spec(item)
            == compile_spec(ActionView::ControllerButton { button }, macros),
{
}

} // verus!
