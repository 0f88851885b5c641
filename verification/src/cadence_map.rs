use vstd::prelude::*;
use crate::cadence::CadenceType;
use crate::tally::CadenceTally;

verus! {

/// The counts of one agent as the executable map stores them.
#[derive(Clone, Copy)]
struct Counts {
    perfect_authentic: usize,
    plagal: usize,
    deceptive: usize,
    half: usize,
    total: usize,
}

impl View for Counts {
    type V = CadenceTally;

    closed spec fn view(&self) -> CadenceTally {
        CadenceTally {
            perfect_authentic: self.perfect_authentic as nat,
            plagal: self.plagal as nat,
            deceptive: self.deceptive as nat,
            half: self.half as nat,
            total: self.total as nat,
        }
    }
}

impl Counts {
    fn zero() -> (counts: Counts)
        ensures
            counts@ == CadenceTally::empty(),
    {
        Counts { perfect_authentic: 0, plagal: 0, deceptive: 0, half: 0, total: 0 }
    }

    /// Adds one observation of `cadence_type`.
    fn observe(&mut self, cadence_type: &CadenceType)
        requires
            old(self)@.is_consistent(),
            old(self)@.total < usize::MAX,
        ensures
            final(self)@ == old(self)@.observe(*cadence_type),
            final(self)@.is_consistent(),
    {
        match cadence_type {
            CadenceType::PerfectAuthentic => self.perfect_authentic = self.perfect_authentic + 1,
            CadenceType::Plagal => self.plagal = self.plagal + 1,
            CadenceType::Deceptive => self.deceptive = self.deceptive + 1,
            CadenceType::Half => self.half = self.half + 1,
        }
        self.total = self.total + 1;
    }

    /// How many observations of `cadence_type` these counts hold.
    fn count(&self, cadence_type: &CadenceType) -> (n: usize)
        ensures
            n == self@.count(*cadence_type),
    {
        match cadence_type {
            CadenceType::PerfectAuthentic => self.perfect_authentic,
            CadenceType::Plagal => self.plagal,
            CadenceType::Deceptive => self.deceptive,
            CadenceType::Half => self.half,
        }
    }
}

/// The profile of `agent` in `profiles`; an agent never observed has the empty profile.
pub open spec fn profile_of(profiles: Map<Seq<char>, CadenceTally>, agent: Seq<char>) -> CadenceTally {
    if profiles.contains_key(agent) {
        profiles[agent]
    } else {
        CadenceTally::empty()
    }
}

/// `profiles` after one more observation of `cadence_type` for `agent`.
pub open spec fn with_observation(
    profiles: Map<Seq<char>, CadenceTally>,
    agent: Seq<char>,
    cadence_type: CadenceType,
) -> Map<Seq<char>, CadenceTally> {
    profiles.insert(agent, profile_of(profiles, agent).observe(cadence_type))
}

/// Maps agents to their typical cadence patterns.
///
/// Tracks which cadence types each agent tends to produce, building a profile
/// over time that can be used for prediction and analysis. Agent `agent_ids[i]`
/// has the counts `tallies[i]`.
pub struct CadenceMap {
    agent_ids: Vec<String>,
    tallies: Vec<Counts>,
}

impl View for CadenceMap {
    type V = Map<Seq<char>, CadenceTally>;

    /// Each observed agent, by its id, with its profile.
    closed spec fn view(&self) -> Map<Seq<char>, CadenceTally> {
        Map::new(
            |agent: Seq<char>| self.has_slot(agent),
            |agent: Seq<char>| self.tallies@[self.slot_of(agent)]@,
        )
    }
}

impl CadenceMap {
    spec fn has_slot(&self, agent: Seq<char>) -> bool {
        exists|i: int| 0 <= i < self.agent_ids@.len() && #[trigger] self.agent_ids@[i]@ == agent
    }

    spec fn slot_of(&self, agent: Seq<char>) -> int {
        choose|i: int| 0 <= i < self.agent_ids@.len() && #[trigger] self.agent_ids@[i]@ == agent
    }

    /// Well-formedness: one slot per agent, and each agent's total agrees with its
    /// per-kind counts and is positive.
    pub closed spec fn inv(&self) -> bool {
        &&& self.agent_ids@.len() == self.tallies@.len()
        &&& forall|i: int, j: int|
            0 <= i < j < self.agent_ids@.len() ==> #[trigger] self.agent_ids@[i]@
                != #[trigger] self.agent_ids@[j]@
        &&& forall|i: int|
            0 <= i < self.tallies@.len() ==> {
                &&& (#[trigger] self.tallies@[i])@.is_consistent()
                &&& self.tallies@[i]@.total > 0
            }
    }

    /// How many observations were recorded for `agent`.
    pub open spec fn observations(&self, agent: Seq<char>) -> nat {
        profile_of(self@, agent).total
    }

    /// How many observations of `cadence_type` were recorded for `agent`.
    pub open spec fn count_of(&self, agent: Seq<char>, cadence_type: CadenceType) -> nat {
        profile_of(self@, agent).count(cadence_type)
    }

    proof fn lemma_slot_unique(&self, j: int)
        requires
            self.inv(),
            0 <= j < self.agent_ids@.len(),
        ensures
            self.has_slot(self.agent_ids@[j]@),
            self.slot_of(self.agent_ids@[j]@) == j,
    {
        let agent = self.agent_ids@[j]@;
        assert(self.has_slot(agent));
        let i = self.slot_of(agent);
        if i != j {
            if i < j {
                assert(self.agent_ids@[i]@ != self.agent_ids@[j]@);
            } else {
                assert(self.agent_ids@[j]@ != self.agent_ids@[i]@);
            }
        }
    }

    proof fn lemma_view_at(&self, j: int)
        requires
            self.inv(),
            0 <= j < self.agent_ids@.len(),
        ensures
            self@.contains_key(self.agent_ids@[j]@),
            self@[self.agent_ids@[j]@] == self.tallies@[j]@,
    {
        self.lemma_slot_unique(j);
    }

    proof fn lemma_view_valid(&self, agent: Seq<char>)
        requires
            self.inv(),
        ensures
            profile_of(self@, agent).is_consistent(),
            self@.contains_key(agent) <==> profile_of(self@, agent).total > 0,
    {
        if self@.contains_key(agent) {
            let j = self.slot_of(agent);
            self.lemma_view_at(j);
        }
    }

    /// Create an empty cadence map.
    pub fn new() -> (map: CadenceMap)
        ensures
            map.inv(),
            map@ == Map::<Seq<char>, CadenceTally>::empty(),
    {
        let map = CadenceMap { agent_ids: Vec::new(), tallies: Vec::new() };
        assert(map@ =~= Map::<Seq<char>, CadenceTally>::empty());
        map
    }

    /// The slot of `agent_id`, if it was observed.
    fn find(&self, agent_id: &str) -> (slot: Option<usize>)
        requires
            self.inv(),
        ensures
            match slot {
                Some(i) => i < self.agent_ids@.len() && self.agent_ids@[i as int]@ == agent_id@,
                None => !self.has_slot(agent_id@),
            },
    {
        let key: String = agent_id.to_owned();
        let mut i: usize = 0;
        while i < self.agent_ids.len()
            invariant
                i <= self.agent_ids@.len(),
                key@ == agent_id@,
                forall|j: int| 0 <= j < i ==> self.agent_ids@[j]@ != agent_id@,
            decreases self.agent_ids@.len() - i,
        {
            if self.agent_ids[i] == key {
                return Some(i);
            }
            i = i + 1;
        }
        None
    }

    /// Record a cadence observation for an agent.
    pub fn record(&mut self, agent_id: &str, cadence_type: CadenceType)
        requires
            old(self).inv(),
            old(self).observations(agent_id@) < usize::MAX,
        ensures
            final(self).inv(),
            final(self)@ == with_observation(old(self)@, agent_id@, cadence_type),
    {
        proof {
            self.lemma_view_valid(agent_id@);
        }
        match self.find(agent_id) {
            Some(i) => {
                proof {
                    self.lemma_view_at(i as int);
                }
                let mut counts = self.tallies[i];
                counts.observe(&cadence_type);
                let ghost before = *self;
                self.tallies.set(i, counts);
                proof {
                    assert(self.inv());
                    assert forall|agent: Seq<char>| #[trigger] self.has_slot(agent) implies self.slot_of(agent)
                        == before.slot_of(agent) by {
                        let j = choose|j: int| 0 <= j < self.agent_ids@.len() && #[trigger] self.agent_ids@[j]@ == agent;
                        self.lemma_slot_unique(j);
                        before.lemma_slot_unique(j);
                    }
                    assert(self@ =~= with_observation(before@, agent_id@, cadence_type));
                }
            },
            None => {
                let mut counts = Counts::zero();
                counts.observe(&cadence_type);
                let ghost before = *self;
                self.agent_ids.push(agent_id.to_owned());
                self.tallies.push(counts);
                proof {
                    let n = before.agent_ids@.len() as int;
                    assert(self.agent_ids@[n]@ == agent_id@);
                    assert(self.inv());
                    self.lemma_view_at(n);
                    assert forall|agent: Seq<char>| #[trigger] self@.contains_key(agent) == with_observation(before@, agent_id@, cadence_type).contains_key(agent) by {
                        if agent != agent_id@ {
                            if self.has_slot(agent) {
                                let j = choose|j: int| 0 <= j < self.agent_ids@.len() && #[trigger] self.agent_ids@[j]@ == agent;
                                assert(before.agent_ids@[j]@ == agent);
                                assert(before.has_slot(agent));
                            }
                            if before.has_slot(agent) {
                                let j = choose|j: int| 0 <= j < before.agent_ids@.len() && #[trigger] before.agent_ids@[j]@ == agent;
                                assert(self.agent_ids@[j]@ == agent);
                                assert(self.has_slot(agent));
                            }
                        }
                    }
                    assert forall|agent: Seq<char>| #[trigger] self@.contains_key(agent) && agent != agent_id@
                        implies self@[agent] == before@[agent] by {
                        let j = choose|j: int| 0 <= j < self.agent_ids@.len() && #[trigger] self.agent_ids@[j]@ == agent;
                        assert(j < n);
                        assert(before.agent_ids@[j]@ == agent);
                        self.lemma_view_at(j);
                        before.lemma_view_at(j);
                    }
                    assert(self@ =~= with_observation(before@, agent_id@, cadence_type));
                }
            },
        }
    }

    /// Get the count of observations for an agent (zero for an agent never observed).
    pub fn observation_count(&self, agent_id: &str) -> (count: usize)
        requires
            self.inv(),
        ensures
            count == self.observations(agent_id@),
    {
        match self.find(agent_id) {
            Some(i) => {
                proof {
                    self.lemma_view_at(i as int);
                }
                self.tallies[i].total
            },
            None => 0,
        }
    }

    /// Get how many observations of one cadence type were recorded for an agent
    /// (zero for an agent never observed).
    pub fn cadence_count(&self, agent_id: &str, cadence_type: &CadenceType) -> (count: usize)
        requires
            self.inv(),
        ensures
            count == self.count_of(agent_id@, *cadence_type),
    {
        match self.find(agent_id) {
            Some(i) => {
                proof {
                    self.lemma_view_at(i as int);
                }
                self.tallies[i].count(cadence_type)
            },
            None => 0,
        }
    }

    /// Get the most common cadence type for an agent: `None` for an agent never
    /// observed, else a type observed at least as often as every other; on a tie,
    /// the first of them in declaration order, so the answer depends only on the
    /// agent's own counts.
    pub fn dominant_cadence(&self, agent_id: &str) -> (dominant: Option<&CadenceType>)
        requires
            self.inv(),
        ensures
            dominant is None <==> !self@.contains_key(agent_id@),
            dominant matches Some(t) ==> self@[agent_id@].is_dominant(*t),
            dominant matches Some(t) ==> *t == self@[agent_id@].dominant(),
    {
        match self.find(agent_id) {
            None => None,
            Some(i) => {
                proof {
                    self.lemma_view_at(i as int);
                }
                let counts = self.tallies[i];
                let mut best: &CadenceType = &CadenceType::PerfectAuthentic;
                let mut best_count: usize = counts.perfect_authentic;
                if counts.plagal > best_count {
                    best = &CadenceType::Plagal;
                    best_count = counts.plagal;
                }
                if counts.deceptive > best_count {
                    best = &CadenceType::Deceptive;
                    best_count = counts.deceptive;
                }
                if counts.half > best_count {
                    best = &CadenceType::Half;
                    best_count = counts.half;
                }
                proof {
                    let tally = counts@;
                    assert(best_count == tally.count(*best));
                    assert(*best == tally.dominant());
                    assert(tally.count(CadenceType::PerfectAuthentic) <= best_count);
                    assert(tally.count(CadenceType::Plagal) <= best_count);
                    assert(tally.count(CadenceType::Deceptive) <= best_count);
                    assert(tally.count(CadenceType::Half) <= best_count);
                    assert forall|other: CadenceType| #[trigger] tally.count(other) <= tally.count(*best) by {
                        match other {
                            CadenceType::PerfectAuthentic => {},
                            CadenceType::Plagal => {},
                            CadenceType::Deceptive => {},
                            CadenceType::Half => {},
                        }
                    }
                }
                Some(best)
            },
        }
    }

    /// Get all agents tracked by this map, each once.
    pub fn agents(&self) -> (agents: Vec<&str>)
        requires
            self.inv(),
        ensures
            forall|i: int| 0 <= i < agents@.len() ==> self@.contains_key(#[trigger] agents@[i]@),
            forall|agent: Seq<char>|
                #[trigger] self@.contains_key(agent) ==> exists|i: int|
                    0 <= i < agents@.len() && #[trigger] agents@[i]@ == agent,
            forall|i: int, j: int|
                0 <= i < j < agents@.len() ==> #[trigger] agents@[i]@ != #[trigger] agents@[j]@,
    {
        let mut agents: Vec<&str> = Vec::new();
        let mut i: usize = 0;
        while i < self.agent_ids.len()
            invariant
                self.inv(),
                i <= self.agent_ids@.len(),
                agents@.len() == i,
                forall|j: int| 0 <= j < i ==> #[trigger] agents@[j]@ == self.agent_ids@[j]@,
            decreases self.agent_ids@.len() - i,
        {
            agents.push(self.agent_ids[i].as_str());
            i = i + 1;
        }
        proof {
            assert forall|i: int| 0 <= i < agents@.len() implies self@.contains_key(#[trigger] agents@[i]@) by {
                self.lemma_view_at(i);
            }
            assert forall|agent: Seq<char>| #[trigger] self@.contains_key(agent) implies exists|i: int|
                0 <= i < agents@.len() && #[trigger] agents@[i]@ == agent by {
                let j = choose|j: int| 0 <= j < self.agent_ids@.len() && #[trigger] self.agent_ids@[j]@ == agent;
                assert(agents@[j]@ == agent);
            }
            assert forall|i: int, j: int| 0 <= i < j < agents@.len() implies #[trigger] agents@[i]@
                != #[trigger] agents@[j]@ by {
                assert(self.agent_ids@[i]@ != self.agent_ids@[j]@);
            }
        }
        agents
    }
}

impl Default for CadenceMap {
    fn default() -> (map: CadenceMap)
        ensures
            map.inv(),
            map@ == Map::<Seq<char>, CadenceTally>::empty(),
    {
        CadenceMap::new()
    }
}

/// Recording one observation of `cadence_type` for `agent` adds one to that agent's
/// total and to its count of that type, and changes nothing else: no other count of
/// the agent, no other agent (nor its dominant cadence), and no agent but `agent`
/// joins the map.
pub proof fn law_record_adds_exactly_one_observation(
    profiles: Map<Seq<char>, CadenceTally>,
    agent: Seq<char>,
    cadence_type: CadenceType,
    other_agent: Seq<char>,
    other_type: CadenceType,
)
    ensures
        ({
            let after = with_observation(profiles, agent, cadence_type);
            &&& profile_of(after, agent).total == profile_of(profiles, agent).total + 1
            &&& profile_of(after, agent).count(cadence_type) == profile_of(profiles, agent).count(cadence_type) + 1
            &&& other_type != cadence_type ==> profile_of(after, agent).count(other_type) == profile_of(profiles, agent).count(other_type)
            &&& other_agent != agent ==> profile_of(after, other_agent) == profile_of(profiles, other_agent)
            &&& other_agent != agent ==> profile_of(after, other_agent).dominant() == profile_of(profiles, other_agent).dominant()
            &&& after.dom() == profiles.dom().insert(agent)
        }),
{
    let after = with_observation(profiles, agent, cadence_type);
    assert(after.dom() =~= profiles.dom().insert(agent));
}

/// Observing once more the cadence that dominates a profile keeps it dominant.
pub proof fn law_dominant_cadence_is_reinforced(tally: CadenceTally, cadence_type: CadenceType)
    requires
        tally.is_dominant(cadence_type),
    ensures
        tally.observe(cadence_type).is_dominant(cadence_type),
{
    let after = tally.observe(cadence_type);
    assert forall|other: CadenceType| #[trigger] after.count(other) <= after.count(cadence_type) by {
        assert(tally.count(other) <= tally.count(cadence_type));
        match other {
            CadenceType::PerfectAuthentic => {},
            CadenceType::Plagal => {},
            CadenceType::Deceptive => {},
            CadenceType::Half => {},
        }
        match cadence_type {
            CadenceType::PerfectAuthentic => {},
            CadenceType::Plagal => {},
            CadenceType::Deceptive => {},
            CadenceType::Half => {},
        }
    }
}

/// Every agent's observation count is the sum of its counts of the four cadence types.
pub proof fn law_observations_are_sum_of_counts(map: &CadenceMap, agent: Seq<char>)
    requires
        map.inv(),
    ensures
        map.observations(agent) == map.count_of(agent, CadenceType::PerfectAuthentic)
            + map.count_of(agent, CadenceType::Plagal) + map.count_of(agent, CadenceType::Deceptive)
            + map.count_of(agent, CadenceType::Half),
{
    map.lemma_view_valid(agent);
}

/// No cadence type was observed for an agent more often than the agent was observed.
pub proof fn law_count_at_most_observations(map: &CadenceMap, agent: Seq<char>, cadence_type: CadenceType)
    requires
        map.inv(),
    ensures
        map.count_of(agent, cadence_type) <= map.observations(agent),
{
    map.lemma_view_valid(agent);
}

/// An agent is tracked by the map exactly when it has at least one observation.
pub proof fn law_tracked_iff_observed(map: &CadenceMap, agent: Seq<char>)
    requires
        map.inv(),
    ensures
        map@.contains_key(agent) <==> map.observations(agent) > 0,
{
    map.lemma_view_valid(agent);
}

} // verus!
