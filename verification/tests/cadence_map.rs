use ternary_cadence::{CadenceMap, CadenceType};

#[test]
fn test_cadence_map_tracks_agents() {
    let mut map = CadenceMap::new();

    map.record("agent-a", CadenceType::PerfectAuthentic);
    map.record("agent-a", CadenceType::PerfectAuthentic);
    map.record("agent-a", CadenceType::Plagal);
    map.record("agent-b", CadenceType::Deceptive);
    map.record("agent-b", CadenceType::Half);

    assert_eq!(map.dominant_cadence("agent-a"), Some(&CadenceType::PerfectAuthentic));
    assert_eq!(map.observation_count("agent-a"), 3);
    assert_eq!(map.observation_count("agent-b"), 2);
    assert_eq!(map.observation_count("agent-c"), 0);
}

#[test]
fn test_cadence_map_agents_list() {
    let mut map = CadenceMap::new();
    map.record("alpha", CadenceType::Half);
    map.record("beta", CadenceType::Plagal);

    let agents = map.agents();
    assert_eq!(agents.len(), 2);
    assert!(agents.contains(&"alpha"));
    assert!(agents.contains(&"beta"));
}

#[test]
fn new_map_tracks_nobody() {
    let map = CadenceMap::new();
    assert!(map.agents().is_empty());
    assert_eq!(map.observation_count("anyone"), 0);
    assert_eq!(map.dominant_cadence("anyone"), None);
    assert_eq!(map.cadence_count("anyone", &CadenceType::Half), 0);
}

#[test]
fn default_map_is_empty() {
    let map = CadenceMap::default();
    assert!(map.agents().is_empty());
    assert_eq!(map.observation_count("agent-a"), 0);
}

#[test]
fn cadence_counts_follow_records() {
    let mut map = CadenceMap::new();
    map.record("agent-a", CadenceType::PerfectAuthentic);
    map.record("agent-a", CadenceType::PerfectAuthentic);
    map.record("agent-a", CadenceType::Half);

    assert_eq!(map.cadence_count("agent-a", &CadenceType::PerfectAuthentic), 2);
    assert_eq!(map.cadence_count("agent-a", &CadenceType::Half), 1);
    assert_eq!(map.cadence_count("agent-a", &CadenceType::Deceptive), 0);
    assert_eq!(map.cadence_count("agent-a", &CadenceType::Plagal), 0);
    assert_eq!(map.cadence_count("agent-b", &CadenceType::Half), 0);
}

#[test]
fn observations_are_sum_of_counts() {
    let mut map = CadenceMap::new();
    map.record("x", CadenceType::Plagal);
    map.record("x", CadenceType::Deceptive);
    map.record("x", CadenceType::Deceptive);
    map.record("x", CadenceType::Half);
    let sum = map.cadence_count("x", &CadenceType::PerfectAuthentic)
        + map.cadence_count("x", &CadenceType::Plagal)
        + map.cadence_count("x", &CadenceType::Deceptive)
        + map.cadence_count("x", &CadenceType::Half);
    assert_eq!(map.observation_count("x"), 4);
    assert_eq!(sum, 4);
}

#[test]
fn record_changes_only_that_agent() {
    let mut map = CadenceMap::new();
    map.record("a", CadenceType::Half);
    map.record("b", CadenceType::Plagal);
    map.record("a", CadenceType::Deceptive);
    assert_eq!(map.observation_count("a"), 2);
    assert_eq!(map.observation_count("b"), 1);
    assert_eq!(map.cadence_count("b", &CadenceType::Plagal), 1);
    assert_eq!(map.cadence_count("b", &CadenceType::Deceptive), 0);
    assert_eq!(map.cadence_count("a", &CadenceType::Half), 1);
    assert_eq!(map.cadence_count("a", &CadenceType::Deceptive), 1);
    assert_eq!(map.agents().len(), 2);
}

#[test]
fn dominant_cadence_of_each_kind() {
    let mut map = CadenceMap::new();
    map.record("p", CadenceType::Plagal);
    map.record("d", CadenceType::Deceptive);
    map.record("d", CadenceType::Deceptive);
    map.record("d", CadenceType::Half);
    map.record("h", CadenceType::PerfectAuthentic);
    map.record("h", CadenceType::Half);
    map.record("h", CadenceType::Half);
    assert_eq!(map.dominant_cadence("p"), Some(&CadenceType::Plagal));
    assert_eq!(map.dominant_cadence("d"), Some(&CadenceType::Deceptive));
    assert_eq!(map.dominant_cadence("h"), Some(&CadenceType::Half));
    assert_eq!(map.dominant_cadence("nobody"), None);
}

#[test]
fn dominant_cadence_on_a_tie_is_a_most_frequent_type() {
    let mut map = CadenceMap::new();
    map.record("t", CadenceType::Half);
    map.record("t", CadenceType::Plagal);
    let dominant = map.dominant_cadence("t").cloned();
    assert!(dominant == Some(CadenceType::Half) || dominant == Some(CadenceType::Plagal));
}

#[test]
fn dominant_cadence_is_reinforced() {
    let mut map = CadenceMap::new();
    map.record("r", CadenceType::Deceptive);
    map.record("r", CadenceType::Deceptive);
    map.record("r", CadenceType::Plagal);
    assert_eq!(map.dominant_cadence("r"), Some(&CadenceType::Deceptive));
    map.record("r", CadenceType::Deceptive);
    assert_eq!(map.dominant_cadence("r"), Some(&CadenceType::Deceptive));
}

#[test]
fn agents_are_listed_once_and_ids_are_exact() {
    let mut map = CadenceMap::new();
    map.record("alpha", CadenceType::Half);
    map.record("alpha", CadenceType::Half);
    map.record("Alpha", CadenceType::Half);
    map.record("alpha ", CadenceType::Half);
    let mut agents = map.agents();
    agents.sort();
    assert_eq!(agents, vec!["Alpha", "alpha", "alpha "]);
    assert_eq!(map.observation_count("alpha"), 2);
    assert_eq!(map.observation_count("Alpha"), 1);
}

#[test]
fn tracked_exactly_when_observed() {
    let mut map = CadenceMap::new();
    map.record("seen", CadenceType::PerfectAuthentic);
    for agent in ["seen", "unseen"] {
        let listed = map.agents().contains(&agent);
        assert_eq!(listed, map.observation_count(agent) > 0);
    }
}

#[test]
fn unicode_agent_ids() {
    let mut map = CadenceMap::new();
    map.record("agënt-ü", CadenceType::Plagal);
    assert_eq!(map.observation_count("agënt-ü"), 1);
    assert_eq!(map.observation_count("agent-u"), 0);
    assert_eq!(map.agents(), vec!["agënt-ü"]);
}

#[test]
fn dominant_cadence_tie_goes_to_the_first_type_and_is_stable() {
    let mut map = CadenceMap::new();
    map.record("t", CadenceType::Half);
    map.record("t", CadenceType::Plagal);
    assert_eq!(map.dominant_cadence("t"), Some(&CadenceType::Plagal));
    map.record("other", CadenceType::Half);
    map.record("another", CadenceType::Deceptive);
    assert_eq!(map.dominant_cadence("t"), Some(&CadenceType::Plagal));
    map.record("t", CadenceType::PerfectAuthentic);
    map.record("t", CadenceType::PerfectAuthentic);
    assert_eq!(map.dominant_cadence("t"), Some(&CadenceType::PerfectAuthentic));
}
