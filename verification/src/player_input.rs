use vstd::prelude::*;
use crate::analog::{deadzone_applied, length_squared, UNIT};
use crate::control::{accumulated, contribution, control_step, Control, ControlState};
use crate::input_source::{InputKind, InputSource};
use crate::pair::{lemma_pair_within_unit, pair_composed, DeadzoneShape, Pair, PairState};
use crate::traits::{ControlKind, DefaultPairKind, InputProvider, StickKind};

verus! {

/// The four controls that make up a pair, each by its index.
#[derive(Debug, Clone, Copy, PartialEq, Eq, Hash, Structural)]
pub struct PairControls {
    pub left: usize,
    pub right: usize,
    pub up: usize,
    pub down: usize,
}

/// A configuration for a [`PlayerInput`].
#[derive(Debug, PartialEq, Eq)]
pub struct InputConfig {
    /// What input sources should be used for each control: entry `i` lists
    /// the sources of control `i`. A control without an entry has none.
    pub control_mapping: Vec<Vec<InputSource>>,
    /// The deadzone for controls and pairs, in fixed-point units.
    pub deadzone: u32,
    /// The deadzone shape for pairs.
    pub deadzone_shape: DeadzoneShape,
}

impl Default for InputConfig {
    /// A configuration without any mapping, with a deadzone of one half
    /// and a circular deadzone for pairs.
    fn default() -> (config: InputConfig)
        ensures
            config.control_mapping@.len() == 0,
            config.deadzone == UNIT / 2,
            config.deadzone_shape == DeadzoneShape::Circle,
    {
        InputConfig {
            control_mapping: Vec::new(),
            deadzone: UNIT / 2,
            deadzone_shape: DeadzoneShape::Circle,
        }
    }
}

impl Clone for InputConfig {
    /// A copy with the same mapping, deadzone and deadzone shape.
    fn clone(&self) -> (copy: InputConfig)
        ensures
            rows(copy.control_mapping) == rows(self.control_mapping),
            copy.deadzone == self.deadzone,
            copy.deadzone_shape == self.deadzone_shape,
    {
        let mut control_mapping: Vec<Vec<InputSource>> = Vec::new();
        let mut i: usize = 0;
        while i < self.control_mapping.len()
            invariant
                i <= self.control_mapping.len(),
                control_mapping@.len() == i,
                forall|k: int|
                    0 <= k < i ==> (#[trigger] control_mapping@[k])@ == self.control_mapping@[k]@,
            decreases self.control_mapping.len() - i,
        {
            let sources = &self.control_mapping[i];
            let mut row: Vec<InputSource> = Vec::new();
            let mut j: usize = 0;
            while j < sources.len()
                invariant
                    j <= sources.len(),
                    row@ == sources@.take(j as int),
                decreases sources.len() - j,
            {
                row.push(sources[j]);
                j = j + 1;
            }
            control_mapping.push(row);
            i = i + 1;
        }
        InputConfig {
            control_mapping,
            deadzone: self.deadzone,
            deadzone_shape: self.deadzone_shape,
        }
    }
}

impl InputConfig {
    /// Maps a control to the given sources, in place of any it had. The
    /// other controls keep theirs.
    pub fn map<C: ControlKind>(&mut self, kind: C, sources: Vec<InputSource>)
        ensures
            sources_of(rows(final(self).control_mapping), kind.position() as int) == sources@,
            forall|i: int|
                i != kind.position() ==> sources_of(rows(final(self).control_mapping), i)
                    == sources_of(rows(old(self).control_mapping), i),
            final(self).control_mapping@.len() == if old(self).control_mapping@.len()
                > kind.position() {
                old(self).control_mapping@.len()
            } else {
                (kind.position() + 1) as nat
            },
            final(self).deadzone == old(self).deadzone,
            final(self).deadzone_shape == old(self).deadzone_shape,
    {
        let i = kind.index();
        let ghost before = rows(self.control_mapping);
        while self.control_mapping.len() <= i
            invariant
                i == kind.position(),
                self.deadzone == old(self).deadzone,
                self.deadzone_shape == old(self).deadzone_shape,
                before == rows(old(self).control_mapping),
                before.len() <= self.control_mapping@.len(),
                self.control_mapping@.len() == before.len() || self.control_mapping@.len() <= i + 1,
                forall|k: int|
                    #![auto]
                    0 <= k < self.control_mapping@.len() ==> self.control_mapping@[k]@
                        =~= sources_of(before, k),
            decreases i + 1 - self.control_mapping.len(),
        {
            self.control_mapping.push(Vec::new());
        }
        self.control_mapping.set(i, sources);
    }
}

/// The rows of a table, each as a sequence.
pub open spec fn rows<T>(table: Vec<Vec<T>>) -> Seq<Seq<T>> {
    Seq::new(table@.len(), |i: int| table@[i]@)
}

/// The sources mapped to control `i`: none where the mapping has no entry
/// for it.
pub open spec fn sources_of(mapping: Seq<Seq<InputSource>>, i: int) -> Seq<InputSource> {
    if 0 <= i < mapping.len() {
        mapping[i]
    } else {
        Seq::empty()
    }
}

/// The samples taken for control `i`: none where there is no row for it.
pub open spec fn samples_of(samples: Seq<Seq<u32>>, i: int) -> Seq<u32> {
    if 0 <= i < samples.len() {
        samples[i]
    } else {
        Seq::empty()
    }
}

/// Source `j` of control `i` belongs to a device of the given kind and its
/// sample lies strictly above the deadzone.
pub open spec fn source_exceeds(
    mapping: Seq<Seq<InputSource>>,
    samples: Seq<Seq<u32>>,
    deadzone: u32,
    kind: InputKind,
    i: int,
    j: int,
) -> bool {
    &&& 0 <= i < mapping.len()
    &&& 0 <= j < mapping[i].len()
    &&& mapping[i][j].spec_kind() == kind
    &&& i < samples.len()
    &&& j < samples[i].len()
    &&& samples[i][j] > deadzone
}

/// Some mapped source of the given kind is in use this frame.
pub open spec fn device_used(
    mapping: Seq<Seq<InputSource>>,
    samples: Seq<Seq<u32>>,
    deadzone: u32,
    kind: InputKind,
) -> bool {
    exists|i: int, j: int| source_exceeds(mapping, samples, deadzone, kind, i, j)
}

/// The active device after a frame: the keyboard where it is in use, else
/// the gamepad where that is in use, else the device of the frame before.
pub open spec fn arbitrated(
    mapping: Seq<Seq<InputSource>>,
    samples: Seq<Seq<u32>>,
    deadzone: u32,
    current: InputKind,
) -> InputKind {
    if device_used(mapping, samples, deadzone, InputKind::Keyboard) {
        InputKind::Keyboard
    } else if device_used(mapping, samples, deadzone, InputKind::Gamepad) {
        InputKind::Gamepad
    } else {
        current
    }
}

/// Every control after one frame with the given active device.
pub open spec fn controls_stepped(
    controls: Seq<ControlState>,
    mapping: Seq<Seq<InputSource>>,
    samples: Seq<Seq<u32>>,
    deadzone: u32,
    kind: InputKind,
) -> Seq<ControlState> {
    Seq::new(
        controls.len(),
        |i: int|
            control_step(
                controls[i],
                sources_of(mapping, i),
                samples_of(samples, i),
                deadzone,
                kind,
            ),
    )
}

/// The pair that the controls named by `wiring` make up.
pub open spec fn pair_from(
    wiring: PairControls,
    controls: Seq<ControlState>,
    deadzone: u32,
    shape: DeadzoneShape,
) -> PairState {
    pair_composed(
        controls[wiring.left as int].raw_value,
        controls[wiring.right as int].raw_value,
        controls[wiring.up as int].raw_value,
        controls[wiring.down as int].raw_value,
        deadzone,
        shape,
    )
}

/// Every pair, derived from the given controls.
pub open spec fn pairs_composed(
    topology: Seq<PairControls>,
    controls: Seq<ControlState>,
    deadzone: u32,
    shape: DeadzoneShape,
) -> Seq<PairState> {
    Seq::new(topology.len(), |p: int| pair_from(topology[p], controls, deadzone, shape))
}

/// Every pair of the topology names four of the first `control_count`
/// controls.
pub open spec fn topology_fits(topology: Seq<PairControls>, control_count: nat) -> bool {
    forall|p: int|
        0 <= p < topology.len() ==> {
            &&& (#[trigger] topology[p]).left < control_count
            &&& topology[p].right < control_count
            &&& topology[p].up < control_count
            &&& topology[p].down < control_count
        }
}

/// What a [`PlayerInput`] holds.
pub struct PlayerInputState {
    pub mapping: Seq<Seq<InputSource>>,
    pub deadzone: u32,
    pub deadzone_shape: DeadzoneShape,
    pub topology: Seq<PairControls>,
    pub gamepad: Option<usize>,
    pub controls: Seq<ControlState>,
    pub pairs: Seq<PairState>,
    pub active_input_kind: InputKind,
}

impl PlayerInputState {
    /// There is one pair per entry of the topology, and each entry names
    /// controls that exist.
    pub open spec fn wf(self) -> bool {
        &&& self.pairs.len() == self.topology.len()
        &&& topology_fits(self.topology, self.controls.len())
    }

    /// The state is well-formed, every control lies within full deflection
    /// and reports its raw value where that reaches the deadzone and zero
    /// otherwise, and every pair is what its four controls make up.
    pub open spec fn coherent(self) -> bool {
        &&& self.wf()
        &&& forall|i: int|
            0 <= i < self.controls.len() ==> {
                &&& (#[trigger] self.controls[i]).raw_value <= UNIT
                &&& self.controls[i].value == deadzone_applied(
                    self.controls[i].raw_value,
                    self.deadzone,
                )
            }
        &&& forall|p: int|
            0 <= p < self.pairs.len() ==> #[trigger] self.pairs[p] == pair_from(
                self.topology[p],
                self.controls,
                self.deadzone,
                self.deadzone_shape,
            )
    }

    /// The state after one frame in which the sources reported `samples`:
    /// the active device is settled first, then every control is updated
    /// with it, then every pair is derived from the updated controls.
    pub open spec fn step(self, samples: Seq<Seq<u32>>) -> PlayerInputState {
        let kind = arbitrated(self.mapping, samples, self.deadzone, self.active_input_kind);
        let controls = controls_stepped(
            self.controls,
            self.mapping,
            samples,
            self.deadzone,
            kind,
        );
        PlayerInputState {
            controls,
            pairs: pairs_composed(self.topology, controls, self.deadzone, self.deadzone_shape),
            active_input_kind: kind,
            ..self
        }
    }
}

/// What a provider reports for every mapped source, laid out as the mapping
/// is.
pub open spec fn sampled<I: InputProvider>(
    provider: I,
    mapping: Seq<Seq<InputSource>>,
    gamepad: Option<usize>,
) -> Seq<Seq<u32>> {
    Seq::new(
        mapping.len(),
        |i: int| Seq::new(mapping[i].len(), |j: int| provider.reading(mapping[i][j], gamepad)),
    )
}

/// A frame keeps the configuration, the number of controls and of pairs,
/// and so the well-formedness of the state.
pub proof fn lemma_step_keeps_shape(state: PlayerInputState, samples: Seq<Seq<u32>>)
    requires
        state.wf(),
    ensures
        state.step(samples).wf(),
        state.step(samples).controls.len() == state.controls.len(),
        state.step(samples).pairs.len() == state.pairs.len(),
        state.step(samples).mapping == state.mapping,
        state.step(samples).topology == state.topology,
        state.step(samples).deadzone == state.deadzone,
        state.step(samples).deadzone_shape == state.deadzone_shape,
        state.step(samples).gamepad == state.gamepad,
{
}

/// After every frame the state is coherent: the controls carry this
/// frame's deadzone, and the pairs follow this frame's controls.
pub proof fn lemma_step_coherent(state: PlayerInputState, samples: Seq<Seq<u32>>)
    requires
        state.wf(),
    ensures
        state.step(samples).coherent(),
{
}

/// A control with no mapped sources reports zero after every frame,
/// whatever the sources of other controls report.
pub proof fn lemma_unmapped_control_at_rest(
    state: PlayerInputState,
    samples: Seq<Seq<u32>>,
    i: int,
)
    requires
        0 <= i < state.controls.len(),
        sources_of(state.mapping, i).len() == 0,
    ensures
        state.step(samples).controls[i].raw_value == 0,
        state.step(samples).controls[i].value == 0,
{
}

/// The keyboard has priority: where a keyboard source and a gamepad source
/// both lie above the deadzone in one frame, the keyboard is the active
/// device after it, and no gamepad source adds to any control in that
/// frame.
pub proof fn lemma_keyboard_priority(state: PlayerInputState, samples: Seq<Seq<u32>>)
    requires
        device_used(state.mapping, samples, state.deadzone, InputKind::Keyboard),
    ensures
        state.step(samples).active_input_kind == InputKind::Keyboard,
        forall|i: int|
            0 <= i < state.controls.len() ==> (#[trigger] state.step(samples).controls[i]).raw_value
                == accumulated(
                sources_of(state.mapping, i),
                samples_of(samples, i),
                InputKind::Keyboard,
            ),
        forall|i: int, j: int|
            0 <= j < sources_of(state.mapping, i).len() && sources_of(
                state.mapping,
                i,
            )[j].spec_kind() == InputKind::Gamepad ==> #[trigger] contribution(
                sources_of(state.mapping, i),
                samples_of(samples, i),
                InputKind::Keyboard,
                j,
            ) == 0,
{
}

/// Without any source above the deadzone the active device stays what it
/// was; with a gamepad source above it and no keyboard source, it becomes
/// the gamepad.
pub proof fn lemma_active_device(state: PlayerInputState, samples: Seq<Seq<u32>>)
    requires
        !device_used(state.mapping, samples, state.deadzone, InputKind::Keyboard),
    ensures
        device_used(state.mapping, samples, state.deadzone, InputKind::Gamepad) ==> state.step(
            samples,
        ).active_input_kind == InputKind::Gamepad,
        !device_used(state.mapping, samples, state.deadzone, InputKind::Gamepad) ==> state.step(
            samples,
        ).active_input_kind == state.active_input_kind,
{
}

/// A sample that equals the deadzone does not make its device the active
/// one, though a raw value that equals the deadzone is reported.
pub proof fn lemma_arbitration_is_strict(
    mapping: Seq<Seq<InputSource>>,
    samples: Seq<Seq<u32>>,
    deadzone: u32,
    kind: InputKind,
)
    requires
        forall|i: int, j: int|
            0 <= i < samples.len() && 0 <= j < samples[i].len() ==> #[trigger] samples[i][j]
                <= deadzone,
    ensures
        !device_used(mapping, samples, deadzone, kind),
{
}

/// Two frames on the same samples: the second leaves the active device,
/// every raw and reported value and every pair as the first left them, and
/// no control reports an edge after it.
pub proof fn lemma_update_idempotent(state: PlayerInputState, samples: Seq<Seq<u32>>)
    requires
        state.wf(),
    ensures
        ({
            let first = state.step(samples);
            let second = first.step(samples);
            &&& second.active_input_kind == first.active_input_kind
            &&& second.controls.len() == first.controls.len()
            &&& forall|i: int|
                0 <= i < first.controls.len() ==> {
                    &&& (#[trigger] second.controls[i]).raw_value == first.controls[i].raw_value
                    &&& second.controls[i].value == first.controls[i].value
                    &&& !second.controls[i].pressed()
                    &&& !second.controls[i].released()
                }
            &&& second.pairs == first.pairs
        }),
{
}

/// After a frame every pair is what its four controls make up in that same
/// frame, and neither of its vectors is longer than full deflection.
pub proof fn lemma_pairs_follow_controls(state: PlayerInputState, samples: Seq<Seq<u32>>, p: int)
    requires
        state.wf(),
        0 <= p < state.pairs.len(),
    ensures
        ({
            let after = state.step(samples);
            let pair = after.pairs[p];
            &&& pair == pair_from(
                state.topology[p],
                after.controls,
                state.deadzone,
                state.deadzone_shape,
            )
            &&& length_squared(pair.raw_value.0, pair.raw_value.1) <= UNIT * UNIT
            &&& length_squared(pair.value.0, pair.value.1) <= UNIT * UNIT
        }),
{
    let after = state.step(samples);
    let wiring = state.topology[p];
    lemma_pair_within_unit(
        after.controls[wiring.left as int].raw_value,
        after.controls[wiring.right as int].raw_value,
        after.controls[wiring.up as int].raw_value,
        after.controls[wiring.down as int].raw_value,
        state.deadzone,
        state.deadzone_shape,
    );
}

/// Source `b` of control `a` comes before source `j` of control `i`.
spec fn before(a: int, b: int, i: int, j: int) -> bool {
    a < i || (a == i && b < j)
}

/// Some source that comes before source `j` of control `i` is in use.
spec fn used_before(
    mapping: Seq<Seq<InputSource>>,
    samples: Seq<Seq<u32>>,
    deadzone: u32,
    kind: InputKind,
    i: int,
    j: int,
) -> bool {
    exists|a: int, b: int|
        before(a, b, i, j) && #[trigger] source_exceeds(mapping, samples, deadzone, kind, a, b)
}

/// Looking at one more source of a control adds that source to what has
/// been seen.
proof fn lemma_used_before_next(
    mapping: Seq<Seq<InputSource>>,
    samples: Seq<Seq<u32>>,
    deadzone: u32,
    kind: InputKind,
    i: int,
    j: int,
)
    ensures
        used_before(mapping, samples, deadzone, kind, i, j + 1) == (used_before(
            mapping,
            samples,
            deadzone,
            kind,
            i,
            j,
        ) || source_exceeds(mapping, samples, deadzone, kind, i, j)),
{
}

/// Past the last source of a control, what has been seen is what has been
/// seen at the start of the next control.
proof fn lemma_used_before_row_end(
    mapping: Seq<Seq<InputSource>>,
    samples: Seq<Seq<u32>>,
    deadzone: u32,
    kind: InputKind,
    i: int,
    j: int,
)
    requires
        0 <= i < mapping.len(),
        j >= mapping[i].len(),
    ensures
        used_before(mapping, samples, deadzone, kind, i + 1, 0) == used_before(
            mapping,
            samples,
            deadzone,
            kind,
            i,
            j,
        ),
{
}

/// Past the last control, everything has been seen.
proof fn lemma_used_before_end(
    mapping: Seq<Seq<InputSource>>,
    samples: Seq<Seq<u32>>,
    deadzone: u32,
    kind: InputKind,
    i: int,
)
    requires
        i >= mapping.len(),
    ensures
        used_before(mapping, samples, deadzone, kind, i, 0) == device_used(
            mapping,
            samples,
            deadzone,
            kind,
        ),
{
}

/// Settles the active device for a frame. The keyboard is settled on as
/// soon as one of its sources is found in use.
pub fn arbitrate(
    mapping: &Vec<Vec<InputSource>>,
    samples: &Vec<Vec<u32>>,
    deadzone: u32,
    current: InputKind,
) -> (kind: InputKind)
    ensures
        kind == arbitrated(rows(*mapping), rows(*samples), deadzone, current),
{
    let ghost m = rows(*mapping);
    let ghost s = rows(*samples);
    let mut gamepad_used = false;
    let mut i: usize = 0;
    while i < mapping.len()
        invariant
            i <= mapping.len(),
            m == rows(*mapping),
            s == rows(*samples),
            !used_before(m, s, deadzone, InputKind::Keyboard, i as int, 0),
            gamepad_used == used_before(m, s, deadzone, InputKind::Gamepad, i as int, 0),
        decreases mapping.len() - i,
    {
        let sources = &mapping[i];
        let mut j: usize = 0;
        while j < sources.len()
            invariant
                i < mapping.len(),
                j <= sources.len(),
                sources@ == m[i as int],
                m == rows(*mapping),
                s == rows(*samples),
                !used_before(m, s, deadzone, InputKind::Keyboard, i as int, j as int),
                gamepad_used == used_before(m, s, deadzone, InputKind::Gamepad, i as int, j as int),
            decreases sources.len() - j,
        {
            proof {
                lemma_used_before_next(m, s, deadzone, InputKind::Keyboard, i as int, j as int);
                lemma_used_before_next(m, s, deadzone, InputKind::Gamepad, i as int, j as int);
            }
            if i < samples.len() && j < samples[i].len() && samples[i][j] > deadzone {
                match sources[j].kind() {
                    InputKind::Keyboard => {
                        assert(source_exceeds(
                            m,
                            s,
                            deadzone,
                            InputKind::Keyboard,
                            i as int,
                            j as int,
                        ));
                        return InputKind::Keyboard;
                    },
                    InputKind::Gamepad => {
                        gamepad_used = true;
                    },
                }
            }
            j = j + 1;
        }
        proof {
            lemma_used_before_row_end(m, s, deadzone, InputKind::Keyboard, i as int, j as int);
            lemma_used_before_row_end(m, s, deadzone, InputKind::Gamepad, i as int, j as int);
        }
        i = i + 1;
    }
    proof {
        lemma_used_before_end(m, s, deadzone, InputKind::Keyboard, i as int);
        lemma_used_before_end(m, s, deadzone, InputKind::Gamepad, i as int);
    }
    if gamepad_used {
        InputKind::Gamepad
    } else {
        current
    }
}

/// The states of a list of controls.
pub open spec fn control_states(controls: Seq<Control>) -> Seq<ControlState> {
    Seq::new(controls.len(), |i: int| controls[i]@)
}

/// The states of a list of pairs.
pub open spec fn pair_states(pairs: Seq<Pair>) -> Seq<PairState> {
    Seq::new(pairs.len(), |p: int| pairs[p]@)
}

/// The indices of the four controls that a pair kind is wired to.
pub open spec fn wired<C: ControlKind, P: StickKind<C>>(kind: P) -> PairControls {
    PairControls {
        left: kind.wiring().0.position(),
        right: kind.wiring().1.position(),
        up: kind.wiring().2.position(),
        down: kind.wiring().3.position(),
    }
}

/// The wiring of every pair kind, in the order of the kinds.
pub open spec fn declared_topology<C: ControlKind, P: StickKind<C>>() -> Seq<PairControls> {
    Seq::new(P::count() as nat, |q: int| wired::<C, P>(P::kind_at(q as usize)))
}

/// Tracks the controls and pairs of one player.
#[derive(Debug)]
pub struct PlayerInput<C: ControlKind, P: StickKind<C> = DefaultPairKind> {
    config: InputConfig,
    control_kinds: Vec<C>,
    pair_kinds: Vec<P>,
    topology: Vec<PairControls>,
    gamepad: Option<usize>,
    controls: Vec<Control>,
    pairs: Vec<Pair>,
    active_input_kind: InputKind,
}

impl<C: ControlKind, P: StickKind<C>> View for PlayerInput<C, P> {
    type V = PlayerInputState;

    closed spec fn view(&self) -> PlayerInputState {
        PlayerInputState {
            mapping: rows(self.config.control_mapping),
            deadzone: self.config.deadzone,
            deadzone_shape: self.config.deadzone_shape,
            topology: self.topology@,
            gamepad: self.gamepad,
            controls: control_states(self.controls@),
            pairs: pair_states(self.pairs@),
            active_input_kind: self.active_input_kind,
        }
    }
}

impl<C: ControlKind, P: StickKind<C>> PlayerInput<C, P> {
    #[verifier::type_invariant]
    spec fn consistent(self) -> bool {
        &&& self.controls@.len() == C::count()
        &&& self.pairs@.len() == self.topology@.len()
        &&& self.topology@ == declared_topology::<C, P>()
        &&& topology_fits(self.topology@, self.controls@.len())
    }

    /// Creates the input state of one player: one control per control
    /// kind and one pair per pair kind, all at rest, with the keyboard as
    /// the active device and no gamepad assigned.
    pub fn new(config: InputConfig) -> (input: PlayerInput<C, P>)
        ensures
            input@.coherent(),
            input@.mapping == rows(config.control_mapping),
            input@.deadzone == config.deadzone,
            input@.deadzone_shape == config.deadzone_shape,
            input@.topology == declared_topology::<C, P>(),
            input@.gamepad == None::<usize>,
            input@.controls == Seq::new(C::count() as nat, |i: int| ControlState::at_rest()),
            input@.pairs == Seq::new(P::count() as nat, |p: int| PairState::at_rest()),
            input@.active_input_kind == InputKind::Keyboard,
    {
        let control_kinds = C::all();
        let pair_kinds = P::all();
        let mut controls: Vec<Control> = Vec::new();
        let mut i: usize = 0;
        while i < control_kinds.len()
            invariant
                i <= control_kinds.len(),
                controls@.len() == i,
                forall|k: int| 0 <= k < i ==> (#[trigger] controls@[k])@ == ControlState::at_rest(),
            decreases control_kinds.len() - i,
        {
            controls.push(Control::new());
            i = i + 1;
        }
        let mut topology: Vec<PairControls> = Vec::new();
        let mut pairs: Vec<Pair> = Vec::new();
        let mut p: usize = 0;
        while p < pair_kinds.len()
            invariant
                p <= pair_kinds.len(),
                pair_kinds@.len() == P::count(),
                forall|k: int|
                    0 <= k < pair_kinds@.len() ==> #[trigger] pair_kinds@[k] == P::kind_at(
                        k as usize,
                    ) && pair_kinds@[k].declared(),
                pairs@.len() == p,
                topology@.len() == p,
                forall|k: int| 0 <= k < p ==> (#[trigger] pairs@[k])@ == PairState::at_rest(),
                forall|k: int|
                    0 <= k < p ==> #[trigger] topology@[k] == wired::<C, P>(P::kind_at(k as usize)),
                topology_fits(topology@, C::count() as nat),
            decreases pair_kinds.len() - p,
        {
            let kind = pair_kinds[p];
            let ends = kind.controls();
            let wiring = PairControls {
                left: ends.0.index(),
                right: ends.1.index(),
                up: ends.2.index(),
                down: ends.3.index(),
            };
            topology.push(wiring);
            pairs.push(Pair::new());
            p = p + 1;
        }
        assert(topology@ =~= declared_topology::<C, P>());
        proof {
            lemma_pair_within_unit(0, 0, 0, 0, config.deadzone, config.deadzone_shape);
        }
        PlayerInput {
            config,
            control_kinds,
            pair_kinds,
            topology,
            gamepad: None,
            controls,
            pairs,
            active_input_kind: InputKind::Keyboard,
        }
    }

    /// Returns the settings of this player.
    pub fn config(&self) -> (config: &InputConfig)
        ensures
            rows(config.control_mapping) == self@.mapping,
            config.deadzone == self@.deadzone,
            config.deadzone_shape == self@.deadzone_shape,
    {
        &self.config
    }

    /// Returns the most recently used device.
    pub fn active_input_kind(&self) -> (kind: InputKind)
        ensures
            kind == self@.active_input_kind,
    {
        self.active_input_kind
    }

    /// Returns the gamepad assigned to this player, if any.
    pub fn gamepad(&self) -> (gamepad: Option<usize>)
        ensures
            gamepad == self@.gamepad,
    {
        self.gamepad
    }

    /// Assigns (or unsets) a gamepad for this player.
    pub fn set_gamepad(&mut self, gamepad: Option<usize>)
        ensures
            final(self)@ == (PlayerInputState { gamepad, ..old(self)@ }),
    {
        proof {
            use_type_invariant(&*self);
        }
        self.gamepad = gamepad;
    }

    /// Returns a reference to the control of the given kind.
    pub fn control(&self, kind: C) -> (control: &Control)
        ensures
            kind.position() < self@.controls.len(),
            control@ == self@.controls[kind.position() as int],
    {
        proof {
            use_type_invariant(self);
        }
        let i = kind.index();
        &self.controls[i]
    }

    /// Returns a reference to the pair of the given kind. It is wired to
    /// the controls of that kind.
    pub fn pair(&self, kind: P) -> (pair: &Pair)
        requires
            kind.declared(),
        ensures
            kind.position() < self@.pairs.len(),
            pair@ == self@.pairs[kind.position() as int],
            self@.topology[kind.position() as int] == wired::<C, P>(kind),
            self@.wf(),
    {
        proof {
            use_type_invariant(self);
        }
        let i = kind.index();
        &self.pairs[i]
    }

    /// Takes one sample per mapped source from the provider, laid out as
    /// the control mapping is.
    pub fn sample<I: InputProvider>(&self, provider: &I) -> (samples: Vec<Vec<u32>>)
        ensures
            rows(samples) == sampled(*provider, self@.mapping, self@.gamepad),
    {
        let ghost m = rows(self.config.control_mapping);
        let ghost want = sampled(*provider, m, self.gamepad);
        let mut samples: Vec<Vec<u32>> = Vec::new();
        let mut i: usize = 0;
        while i < self.config.control_mapping.len()
            invariant
                i <= self.config.control_mapping.len(),
                m == rows(self.config.control_mapping),
                want == sampled(*provider, m, self.gamepad),
                samples@.len() == i,
                forall|a: int| 0 <= a < i ==> (#[trigger] samples@[a])@ == want[a],
            decreases self.config.control_mapping.len() - i,
        {
            let sources = &self.config.control_mapping[i];
            let mut row: Vec<u32> = Vec::new();
            let mut j: usize = 0;
            while j < sources.len()
                invariant
                    i < self.config.control_mapping.len(),
                    m == rows(self.config.control_mapping),
                    sources@ == m[i as int],
                    j <= sources.len(),
                    want == sampled(*provider, m, self.gamepad),
                    row@.len() == j,
                    forall|b: int| 0 <= b < j ==> #[trigger] row@[b] == want[i as int][b],
                decreases sources.len() - j,
            {
                let r = provider.raw_value(sources[j], self.gamepad);
                row.push(r);
                j = j + 1;
            }
            samples.push(row);
            i = i + 1;
        }
        samples
    }

    /// Settles the active device for this frame: the keyboard where one of
    /// its mapped sources lies above the deadzone, else the gamepad where
    /// one of its sources does, else the device of the frame before.
    fn update_active_input_kind(&mut self, samples: &Vec<Vec<u32>>)
        ensures
            final(self)@ == (PlayerInputState {
                active_input_kind: arbitrated(
                    old(self)@.mapping,
                    rows(*samples),
                    old(self)@.deadzone,
                    old(self)@.active_input_kind,
                ),
                ..old(self)@
            }),
    {
        proof {
            use_type_invariant(&*self);
        }
        let kind = arbitrate(
            &self.config.control_mapping,
            samples,
            self.config.deadzone,
            self.active_input_kind,
        );
        self.active_input_kind = kind;
    }

    /// Updates every control with the samples of its sources, under the
    /// active device as it stands.
    fn update_controls(&mut self, samples: &Vec<Vec<u32>>)
        ensures
            final(self)@ == (PlayerInputState {
                controls: controls_stepped(
                    old(self)@.controls,
                    old(self)@.mapping,
                    rows(*samples),
                    old(self)@.deadzone,
                    old(self)@.active_input_kind,
                ),
                ..old(self)@
            }),
    {
        proof {
            use_type_invariant(&*self);
        }
        let ghost before = self@;
        let ghost want = controls_stepped(
            before.controls,
            before.mapping,
            rows(*samples),
            before.deadzone,
            before.active_input_kind,
        );
        let no_sources: Vec<InputSource> = Vec::new();
        let no_samples: Vec<u32> = Vec::new();
        let mut next: Vec<Control> = Vec::new();
        let mut i: usize = 0;
        while i < self.controls.len()
            invariant
                i <= self.controls.len(),
                self@ == before,
                no_sources@ == Seq::<InputSource>::empty(),
                no_samples@ == Seq::<u32>::empty(),
                want == controls_stepped(
                    before.controls,
                    before.mapping,
                    rows(*samples),
                    before.deadzone,
                    before.active_input_kind,
                ),
                next@.len() == i,
                forall|k: int| 0 <= k < i ==> (#[trigger] next@[k])@ == want[k],
            decreases self.controls.len() - i,
        {
            let mut control = self.controls[i];
            let sources = if i < self.config.control_mapping.len() {
                &self.config.control_mapping[i]
            } else {
                &no_sources
            };
            let row = if i < samples.len() {
                &samples[i]
            } else {
                &no_samples
            };
            control.update(sources, row, self.config.deadzone, self.active_input_kind);
            next.push(control);
            i = i + 1;
        }
        self.controls = next;
        assert(self@.controls =~= want);
    }

    /// Derives every pair from its four controls as they stand.
    fn update_sticks(&mut self)
        ensures
            final(self)@ == (PlayerInputState {
                pairs: pairs_composed(
                    old(self)@.topology,
                    old(self)@.controls,
                    old(self)@.deadzone,
                    old(self)@.deadzone_shape,
                ),
                ..old(self)@
            }),
    {
        proof {
            use_type_invariant(&*self);
        }
        let ghost before = self@;
        let ghost want = pairs_composed(
            before.topology,
            before.controls,
            before.deadzone,
            before.deadzone_shape,
        );
        let mut next: Vec<Pair> = Vec::new();
        let mut p: usize = 0;
        while p < self.topology.len()
            invariant
                p <= self.topology.len(),
                self@ == before,
                self.pairs@.len() == self.topology@.len(),
                topology_fits(self.topology@, self.controls@.len()),
                want == pairs_composed(
                    before.topology,
                    before.controls,
                    before.deadzone,
                    before.deadzone_shape,
                ),
                next@.len() == p,
                forall|k: int| 0 <= k < p ==> (#[trigger] next@[k])@ == want[k],
            decreases self.topology.len() - p,
        {
            let wiring = self.topology[p];
            let mut pair = self.pairs[p];
            pair.update(
                &self.controls[wiring.left],
                &self.controls[wiring.right],
                &self.controls[wiring.up],
                &self.controls[wiring.down],
                self.config.deadzone,
                self.config.deadzone_shape,
            );
            next.push(pair);
            p = p + 1;
        }
        self.pairs = next;
        assert(self@.pairs =~= want);
    }

    /// Runs one frame on samples already taken: `samples[i][j]` is what
    /// source `j` of control `i` reports. A source without a sample counts
    /// as at rest.
    pub fn update_from_samples(&mut self, samples: &Vec<Vec<u32>>)
        ensures
            final(self)@ == old(self)@.step(rows(*samples)),
            final(self)@.coherent(),
    {
        proof {
            use_type_invariant(&*self);
            lemma_step_coherent(self@, rows(*samples));
        }
        self.update_active_input_kind(samples);
        self.update_controls(samples);
        self.update_sticks();
    }

    /// Updates the input state with data from the backend: samples every
    /// mapped source once, then runs one frame on the samples.
    pub fn update<I: InputProvider>(&mut self, provider: &I)
        ensures
            final(self)@ == old(self)@.step(
                sampled(*provider, old(self)@.mapping, old(self)@.gamepad),
            ),
            final(self)@.coherent(),
    {
        let samples = self.sample(provider);
        self.update_from_samples(&samples);
    }
}

} // verus!
