use vstd::prelude::*;
use crate::analog::{apply_deadzone, clamp_to_unit, deadzone_applied, UNIT};
use crate::input_source::{InputKind, InputSource};

verus! {

/// What a control holds after a frame: the clamped sum of its sources, that
/// sum with the deadzone applied, and the reported value of the frame
/// before.
pub struct ControlState {
    pub raw_value: u32,
    pub value: u32,
    pub previous_value: u32,
}

impl ControlState {
    /// A control that has never been updated.
    pub open spec fn at_rest() -> ControlState {
        ControlState { raw_value: 0, value: 0, previous_value: 0 }
    }

    /// The control is held.
    pub open spec fn down(self) -> bool {
        self.value > 0
    }

    /// The control went from rest to being held in the last update.
    pub open spec fn pressed(self) -> bool {
        self.value > 0 && self.previous_value == 0
    }

    /// The control went from being held to rest in the last update.
    pub open spec fn released(self) -> bool {
        self.value == 0 && self.previous_value > 0
    }
}

/// The sample of source `j`, where that source belongs to the active device
/// and a sample was taken for it; zero otherwise.
pub open spec fn contribution(
    sources: Seq<InputSource>,
    samples: Seq<u32>,
    kind: InputKind,
    j: int,
) -> nat {
    if 0 <= j < sources.len() && j < samples.len() && sources[j].spec_kind() == kind {
        samples[j] as nat
    } else {
        0
    }
}

/// The contributions of the first `n` sources, added up.
pub open spec fn active_sum(
    sources: Seq<InputSource>,
    samples: Seq<u32>,
    kind: InputKind,
    n: nat,
) -> nat
    decreases n,
{
    if n == 0 {
        0
    } else {
        active_sum(sources, samples, kind, (n - 1) as nat) + contribution(
            sources,
            samples,
            kind,
            n - 1,
        )
    }
}

/// The raw value of a control: what its sources of the active device
/// report, added up and cut off at full deflection.
pub open spec fn accumulated(sources: Seq<InputSource>, samples: Seq<u32>, kind: InputKind) -> u32 {
    clamp_to_unit(active_sum(sources, samples, kind, sources.len()))
}

/// One frame of a control.
pub open spec fn control_step(
    before: ControlState,
    sources: Seq<InputSource>,
    samples: Seq<u32>,
    deadzone: u32,
    kind: InputKind,
) -> ControlState {
    let raw = accumulated(sources, samples, kind);
    ControlState {
        raw_value: raw,
        value: deadzone_applied(raw, deadzone),
        previous_value: before.value,
    }
}

/// Adding sources never lowers the sum.
pub proof fn lemma_active_sum_grows(
    sources: Seq<InputSource>,
    samples: Seq<u32>,
    kind: InputKind,
    n: nat,
    m: nat,
)
    requires
        n <= m,
    ensures
        active_sum(sources, samples, kind, n) <= active_sum(sources, samples, kind, m),
    decreases m,
{
    if n < m {
        lemma_active_sum_grows(sources, samples, kind, n, (m - 1) as nat);
    }
}

/// Two sources of a control both count: the sum holds at least what the two
/// contribute, so the raw value is full deflection where they reach it
/// together, and never more.
pub proof fn lemma_two_sources_add_up(
    sources: Seq<InputSource>,
    samples: Seq<u32>,
    kind: InputKind,
    j: int,
    k: int,
)
    requires
        0 <= j < k < sources.len(),
    ensures
        active_sum(sources, samples, kind, sources.len()) >= contribution(sources, samples, kind, j)
            + contribution(sources, samples, kind, k),
        contribution(sources, samples, kind, j) + contribution(sources, samples, kind, k) >= UNIT
            ==> accumulated(sources, samples, kind) == UNIT,
{
    lemma_active_sum_grows(sources, samples, kind, (j + 1) as nat, k as nat);
    lemma_active_sum_grows(sources, samples, kind, (k + 1) as nat, sources.len());
}

/// A control without sources is at rest after every frame, whatever was
/// sampled.
pub proof fn lemma_no_sources_at_rest(
    before: ControlState,
    samples: Seq<u32>,
    deadzone: u32,
    kind: InputKind,
)
    ensures
        control_step(before, Seq::empty(), samples, deadzone, kind).raw_value == 0,
        control_step(before, Seq::empty(), samples, deadzone, kind).value == 0,
{
}

/// The raw value never exceeds full deflection, and the reported value is
/// the raw value or zero.
pub proof fn lemma_control_within_unit(
    before: ControlState,
    sources: Seq<InputSource>,
    samples: Seq<u32>,
    deadzone: u32,
    kind: InputKind,
)
    ensures
        ({
            let after = control_step(before, sources, samples, deadzone, kind);
            &&& after.raw_value <= UNIT
            &&& after.value == if after.raw_value >= deadzone { after.raw_value } else { 0 }
            &&& after.previous_value == before.value
        }),
{
}

/// The deadzone is inclusive: a raw value that equals it is reported.
pub proof fn lemma_deadzone_inclusive(
    before: ControlState,
    sources: Seq<InputSource>,
    samples: Seq<u32>,
    deadzone: u32,
    kind: InputKind,
)
    requires
        control_step(before, sources, samples, deadzone, kind).raw_value == deadzone,
    ensures
        control_step(before, sources, samples, deadzone, kind).value == deadzone,
{
}

/// A control reports `pressed` exactly in the frame that takes it from rest
/// to being held, and `released` exactly in the frame that takes it back.
pub proof fn lemma_edges(
    before: ControlState,
    sources: Seq<InputSource>,
    samples: Seq<u32>,
    deadzone: u32,
    kind: InputKind,
)
    ensures
        ({
            let after = control_step(before, sources, samples, deadzone, kind);
            &&& after.pressed() <==> before.value == 0 && after.value > 0
            &&& after.released() <==> before.value > 0 && after.value == 0
            &&& after.down() <==> after.value > 0
        }),
{
}

/// A frame repeated on the same samples leaves the values as they are and
/// reports no edge: the edge was consumed by the first frame.
pub proof fn lemma_repeated_frame(
    before: ControlState,
    sources: Seq<InputSource>,
    samples: Seq<u32>,
    deadzone: u32,
    kind: InputKind,
)
    ensures
        ({
            let first = control_step(before, sources, samples, deadzone, kind);
            let second = control_step(first, sources, samples, deadzone, kind);
            &&& second.raw_value == first.raw_value
            &&& second.value == first.value
            &&& !second.pressed()
            &&& !second.released()
        }),
{
}

/// A source of the inactive device adds nothing to a control.
pub proof fn lemma_inactive_source_silent(
    sources: Seq<InputSource>,
    samples: Seq<u32>,
    kind: InputKind,
    j: int,
)
    requires
        0 <= j < sources.len(),
        sources[j].spec_kind() != kind,
    ensures
        contribution(sources, samples, kind, j) == 0,
{
}

/// Input data for an in-game control.
#[derive(Debug, Clone, Copy, PartialEq, Eq)]
pub struct Control {
    raw_value: u32,
    value: u32,
    previous_value: u32,
}

impl View for Control {
    type V = ControlState;

    closed spec fn view(&self) -> ControlState {
        ControlState {
            raw_value: self.raw_value,
            value: self.value,
            previous_value: self.previous_value,
        }
    }
}

impl Control {
    #[verifier::type_invariant]
    spec fn within_unit(self) -> bool {
        self.raw_value <= UNIT && self.value <= UNIT && self.previous_value <= UNIT
    }

    /// A control at rest.
    pub fn new() -> (control: Control)
        ensures
            control@ == ControlState::at_rest(),
    {
        Control { raw_value: 0, value: 0, previous_value: 0 }
    }

    /// Runs one frame: remembers the reported value, adds up the samples of
    /// the sources that belong to the active device, and applies the
    /// deadzone. `samples[j]` is what source `j` reports; a source without
    /// a sample counts as at rest.
    pub fn update(
        &mut self,
        sources: &Vec<InputSource>,
        samples: &Vec<u32>,
        deadzone: u32,
        active_input_kind: InputKind,
    )
        ensures
            final(self)@ == control_step(
                old(self)@,
                sources@,
                samples@,
                deadzone,
                active_input_kind,
            ),
            final(self)@.raw_value <= UNIT,
    {
        proof {
            use_type_invariant(&*self);
        }
        let mut total: u64 = 0;
        let mut j: usize = 0;
        while j < sources.len() && total < UNIT as u64
            invariant
                j <= sources.len(),
                total == active_sum(sources@, samples@, active_input_kind, j as nat),
            decreases sources.len() - j,
        {
            if j < samples.len() && sources[j].kind() == active_input_kind {
                total = total + samples[j] as u64;
            }
            j = j + 1;
        }
        proof {
            lemma_active_sum_grows(
                sources@,
                samples@,
                active_input_kind,
                j as nat,
                sources@.len(),
            );
        }
        let raw: u32 = if total >= UNIT as u64 {
            UNIT
        } else {
            total as u32
        };
        let value = apply_deadzone(raw, deadzone);
        *self = Control { raw_value: raw, value, previous_value: self.value };
    }

    /// Returns the value of the control without deadzone applied.
    pub fn raw_value(&self) -> (r: u32)
        ensures
            r == self@.raw_value,
            r <= UNIT,
    {
        proof {
            use_type_invariant(self);
        }
        self.raw_value
    }

    /// Returns the value of the control with deadzone applied.
    pub fn value(&self) -> (r: u32)
        ensures
            r == self@.value,
            r <= UNIT,
    {
        proof {
            use_type_invariant(self);
        }
        self.value
    }

    /// Returns true if the control is currently held down.
    pub fn down(&self) -> (r: bool)
        ensures
            r == self@.down(),
    {
        self.value > 0
    }

    /// Returns true if the control started being held down this frame.
    pub fn pressed(&self) -> (r: bool)
        ensures
            r == self@.pressed(),
    {
        self.value > 0 && self.previous_value == 0
    }

    /// Returns true if the control stopped being held down this frame.
    pub fn released(&self) -> (r: bool)
        ensures
            r == self@.released(),
    {
        self.value == 0 && self.previous_value > 0
    }
}

impl Default for Control {
    fn default() -> (control: Control)
        ensures
            control@ == ControlState::at_rest(),
    {
        Control::new()
    }
}

} // verus!
