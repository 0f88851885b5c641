# ternary_cadence

Cadence detection for agent outputs, with a verified core.

- `src/cadence.rs` — the four kinds of cadence.
- `src/tally.rs` — the mathematical profile of one agent (`CadenceTally`).
- `src/cadence_map.rs` — `CadenceMap`, which records per agent how often each
  cadence was observed; its contracts are stated over a map from agent ids to
  profiles, and the laws that relate its operations are proof functions there.
- `src/signals.rs` — the sliding window and the text tests the detector applies.
- `app/lib.rs` — the detector, `AgentOutput`, `Cadence`, and the frequency and
  cosine-similarity statistics of a map: all of these work on floating-point
  confidences, which the verified library does not hold.

Notes on the map and its interface:

- `CadenceMap` keeps its agents in a vector of distinct ids beside a vector of
  their counts, searched linearly. Verus gives `HashMap` no usable key model for
  `String` keys, so a hash map keyed by agent id could not carry these contracts;
  the cost is a lookup linear in the number of agents.
- `CadenceMap::record` takes the agent id as `&str`; a caller holding a `String`
  passes `&id`.
- `frequency` and `similarity` are methods of the trait `CadenceMapStats` in
  `app/`; import it to call them on a map.
- On a tie, `dominant_cadence` returns the first tied type in declaration order
  (`PerfectAuthentic`, `Plagal`, `Deceptive`, `Half`), so its answer for an agent
  depends only on that agent's counts.
