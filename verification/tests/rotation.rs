use edge_gateway::rotation::{
    index_for, next_upstream, select_sequence, ConfigError, RotationCursor, UpstreamSet,
};

fn servers(names: &[&str]) -> Vec<String> {
    names.iter().map(|s| s.to_string()).collect()
}

#[test]
fn round_robin_sequence_from_fresh_cursor() {
    let set = UpstreamSet::new(servers(&["a", "b", "c"])).unwrap();
    let mut cursor = RotationCursor::new();
    let mut picked = Vec::new();
    for _ in 0..7 {
        picked.push(next_upstream(&set, &mut cursor).clone());
    }
    assert_eq!(picked, vec!["a", "b", "c", "a", "b", "c", "a"]);
}

#[test]
fn round_robin_sequence_from_offset() {
    // The schedule starts from whatever offset the cursor already held.
    let set = UpstreamSet::new(servers(&["a", "b", "c"])).unwrap();
    let mut cursor = RotationCursor::starting_at(2);
    let mut picked = Vec::new();
    for _ in 0..4 {
        picked.push(next_upstream(&set, &mut cursor).clone());
    }
    assert_eq!(picked, vec!["c", "a", "b", "c"]);
}

#[test]
fn acquisitions_are_distinct_and_cover_all_slots() {
    // Five selections against three upstreams: slots 0,1,2,0,1 — the
    // pre-increment values 0..4 reduced mod 3, no value acquired twice.
    let set = UpstreamSet::new(servers(&["a", "b", "c"])).unwrap();
    let mut cursor = RotationCursor::new();
    let picks = select_sequence(&set, &mut cursor, 5);
    assert_eq!(picks, vec![0, 1, 2, 0, 1]);
}

#[test]
fn cursor_wraps_at_top_of_range() {
    let mut cursor = RotationCursor::starting_at(usize::MAX);
    assert_eq!(cursor.acquire(), usize::MAX);
    assert_eq!(cursor.acquire(), 0);
    assert_eq!(cursor.acquire(), 1);
}

#[test]
fn empty_upstream_set_is_a_config_error() {
    let r = UpstreamSet::new(Vec::new());
    assert_eq!(r.err(), Some(ConfigError::EmptyUpstreamSet));
}

#[test]
fn index_for_reduces_modulo_set_size() {
    assert_eq!(index_for(0, 4), 0);
    assert_eq!(index_for(7, 4), 3);
    assert_eq!(index_for(8, 4), 0);
}
