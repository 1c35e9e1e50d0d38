use vstd::prelude::*;
use crate::input_source::InputSource;

verus! {

/// Implemented by the type that names a game's controls.
///
/// The kinds are a closed list: `count` of them, `kind_at(i)` at position
/// `i`, and `position` is the place of a kind in that list.
pub trait ControlKind: Sized + Copy {
    /// The number of control kinds.
    spec fn count() -> usize;

    /// The kind at a position below `count`.
    spec fn kind_at(i: usize) -> Self;

    /// The position of this kind.
    spec fn position(&self) -> usize;

    /// Returns all of the distinct control kinds, in order.
    fn all() -> (kinds: Vec<Self>)
        ensures
            kinds@.len() == Self::count(),
            forall|i: int| 0 <= i < kinds@.len() ==> #[trigger] kinds@[i] == Self::kind_at(i as usize),
    ;

    /// Returns the position of this kind among all kinds.
    fn index(&self) -> (i: usize)
        ensures
            i == self.position(),
            i < Self::count(),
            Self::kind_at(i) == *self,
    ;
}

/// Implemented by the type that names a game's pairs. Each pair kind is
/// wired to four control kinds.
///
/// A value of the type need not be one of the kinds: `declared` tells. Only
/// a declared kind has a position and a wiring.
pub trait StickKind<C: ControlKind>: Sized + Copy {
    /// The number of pair kinds.
    spec fn count() -> usize;

    /// The kind at a position below `count`.
    spec fn kind_at(i: usize) -> Self;

    /// Whether this value is one of the kinds.
    spec fn declared(&self) -> bool;

    /// The position of this kind.
    spec fn position(&self) -> usize;

    /// The controls of this kind, in the order left, right, up, down.
    spec fn wiring(&self) -> (C, C, C, C);

    /// Returns all of the distinct pair kinds, in order.
    fn all() -> (kinds: Vec<Self>)
        ensures
            kinds@.len() == Self::count(),
            forall|i: int|
                0 <= i < kinds@.len() ==> #[trigger] kinds@[i] == Self::kind_at(i as usize)
                    && kinds@[i].declared(),
    ;

    /// Returns the position of this kind among all kinds.
    fn index(&self) -> (i: usize)
        requires
            self.declared(),
        ensures
            i == self.position(),
            i < Self::count(),
            Self::kind_at(i) == *self,
    ;

    /// Returns the controls that this kind encapsulates (in the order
    /// left, right, up, and down).
    fn controls(&self) -> (c: (C, C, C, C))
        requires
            self.declared(),
        ensures
            c == self.wiring(),
    ;
}

/// The pair kind of a game without pairs, and the one a `PlayerInput` has
/// unless another is named. It declares no kind: its one value only fills
/// the type's place, and has neither a position nor a wiring.
#[derive(Debug, Clone, Copy, PartialEq, Eq, Hash)]
pub struct DefaultPairKind;

impl<C: ControlKind> StickKind<C> for DefaultPairKind {
    open spec fn count() -> usize {
        0
    }

    open spec fn kind_at(i: usize) -> Self {
        DefaultPairKind
    }

    open spec fn declared(&self) -> bool {
        false
    }

    open spec fn position(&self) -> usize {
        0
    }

    open spec fn wiring(&self) -> (C, C, C, C) {
        arbitrary()
    }

    fn all() -> (kinds: Vec<Self>) {
        Vec::new()
    }

    /// Never called: no value of this type is a declared kind.
    fn index(&self) -> (i: usize) {
        unreached()
    }

    /// Never called: no value of this type is a declared kind.
    fn controls(&self) -> (c: (C, C, C, C)) {
        unreached()
    }
}

/// Converts the state of a backend (such as a game framework) into the
/// samples that the library works on.
///
/// A provider is a snapshot: within a frame it reports the same value for
/// the same source however often it is asked. `reading` is that value.
pub trait InputProvider {
    /// What the snapshot holds for a source, read with the given gamepad.
    spec fn reading(&self, source: InputSource, gamepad: Option<usize>) -> u32;

    /// Gets the current raw analog value of an input source with the given
    /// gamepad, in fixed-point units.
    fn raw_value(&self, source: InputSource, gamepad: Option<usize>) -> (r: u32)
        ensures
            r == self.reading(source, gamepad),
    ;
}

} // verus!
