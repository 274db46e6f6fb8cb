use vstd::prelude::*;

verus! {

/// What can go wrong while building dice or resolving an action.
#[derive(Clone, Copy, Debug, PartialEq, Eq, Structural)]
pub enum RollError {
    /// A die specification with no dice or with fewer than two sides.
    InvalidDice,
    /// An action that declares no dice at all.
    EmptyDiceSpec,
    /// A total that lies below every threshold of an action.
    NoMatchingThreshold,
}

} // verus!
