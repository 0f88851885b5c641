use vstd::prelude::*;

verus! {

/// The type of cadence detected in an agent's output stream.
#[derive(Debug, Clone, PartialEq, Eq, Hash, Structural)]
pub enum CadenceType {
    /// Strong resolution: the task is fully complete (V→I, both chords in root position).
    PerfectAuthentic,
    /// Gentle resolution: the task winds down gracefully (IV→I, the "Amen" cadence).
    Plagal,
    /// Unexpected resolution: the task pivoted to something new (V→vi instead of V→I).
    Deceptive,
    /// Suspension: the task is incomplete and awaits resolution (ending on V).
    Half,
}

} // verus!
