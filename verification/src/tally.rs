use vstd::prelude::*;
use crate::cadence::CadenceType;

verus! {

/// The mathematical profile of one agent: how often each kind of cadence
/// was observed, and how many observations were made in all.
pub struct CadenceTally {
    pub perfect_authentic: nat,
    pub plagal: nat,
    pub deceptive: nat,
    pub half: nat,
    pub total: nat,
}

impl CadenceTally {
    /// The profile of an agent that was never observed.
    pub open spec fn empty() -> CadenceTally {
        CadenceTally { perfect_authentic: 0, plagal: 0, deceptive: 0, half: 0, total: 0 }
    }

    /// How many observations of the given kind of cadence the profile holds.
    pub open spec fn count(self, cadence_type: CadenceType) -> nat {
        match cadence_type {
            CadenceType::PerfectAuthentic => self.perfect_authentic,
            CadenceType::Plagal => self.plagal,
            CadenceType::Deceptive => self.deceptive,
            CadenceType::Half => self.half,
        }
    }

    /// The sum of the counts of the four kinds of cadence.
    pub open spec fn sum_of_counts(self) -> nat {
        self.perfect_authentic + self.plagal + self.deceptive + self.half
    }

    /// The total agrees with the per-kind counts.
    pub open spec fn is_consistent(self) -> bool {
        self.total == self.sum_of_counts()
    }

    /// The profile after one more observation of `cadence_type`.
    pub open spec fn observe(self, cadence_type: CadenceType) -> CadenceTally {
        match cadence_type {
            CadenceType::PerfectAuthentic => CadenceTally {
                perfect_authentic: self.perfect_authentic + 1,
                total: self.total + 1,
                ..self
            },
            CadenceType::Plagal => CadenceTally { plagal: self.plagal + 1, total: self.total + 1, ..self },
            CadenceType::Deceptive => CadenceTally {
                deceptive: self.deceptive + 1,
                total: self.total + 1,
                ..self
            },
            CadenceType::Half => CadenceTally { half: self.half + 1, total: self.total + 1, ..self },
        }
    }

    /// The first of `PerfectAuthentic`, `Plagal`, `Deceptive`, `Half` whose count
    /// is the largest.
    pub open spec fn dominant(self) -> CadenceType {
        let pa = self.perfect_authentic;
        let pl = self.plagal;
        let de = self.deceptive;
        let ha = self.half;
        if pa >= pl && pa >= de && pa >= ha {
            CadenceType::PerfectAuthentic
        } else if pl >= de && pl >= ha {
            CadenceType::Plagal
        } else if de >= ha {
            CadenceType::Deceptive
        } else {
            CadenceType::Half
        }
    }

    /// `cadence_type` was observed, and no kind of cadence was observed more often.
    pub open spec fn is_dominant(self, cadence_type: CadenceType) -> bool {
        &&& self.count(cadence_type) > 0
        &&& forall|other: CadenceType| #[trigger] self.count(other) <= self.count(cadence_type)
    }
}

} // verus!
