use numa_core::topology::{cpus_from_mask, from_entries, retain_active, NodeCpus, TopologyMap};

fn entry(node: usize, cpus: Vec<usize>) -> NodeCpus {
    NodeCpus { node, cpus }
}

#[test]
fn from_entries_accepts_two_disjoint_nodes() {
    let entries = vec![entry(0, vec![0, 1, 2, 3]), entry(1, vec![4, 5, 6, 7])];
    let map = from_entries(entries).expect("well-formed topology data");
    assert_eq!(map.total(), 8);
}

#[test]
fn from_entries_accepts_empty_data() {
    let map = from_entries(Vec::new()).expect("an empty topology is well formed");
    assert_eq!(map.total(), 0);
}

#[test]
fn from_entries_rejects_shared_processor() {
    let entries = vec![entry(0, vec![0, 1, 2]), entry(1, vec![2, 3])];
    assert!(from_entries(entries).is_none());
}

#[test]
fn from_entries_rejects_unsorted_nodes() {
    let entries = vec![entry(1, vec![0, 1]), entry(0, vec![2, 3])];
    assert!(from_entries(entries).is_none());
}

#[test]
fn from_entries_rejects_repeated_node() {
    let entries = vec![entry(0, vec![0, 1]), entry(0, vec![2, 3])];
    assert!(from_entries(entries).is_none());
}

#[test]
fn from_entries_rejects_node_without_processors() {
    let entries = vec![entry(0, vec![0, 1]), entry(1, Vec::new())];
    assert!(from_entries(entries).is_none());
}

#[test]
fn from_entries_rejects_unsorted_processors() {
    let entries = vec![entry(0, vec![1, 0])];
    assert!(from_entries(entries).is_none());
}

#[test]
fn retain_active_drops_idle_nodes() {
    let entries = vec![
        entry(0, Vec::new()),
        entry(1, vec![0, 1]),
        entry(2, Vec::new()),
        entry(3, vec![2]),
    ];
    let active = retain_active(entries);
    assert_eq!(active.len(), 2);
    assert_eq!(active[0].node, 1);
    assert_eq!(active[0].cpus, vec![0, 1]);
    assert_eq!(active[1].node, 3);
    assert_eq!(active[1].cpus, vec![2]);
}

#[test]
fn retain_active_keeps_everything_active() {
    let entries = vec![entry(0, vec![0]), entry(1, vec![1])];
    let active = retain_active(entries);
    assert_eq!(active.len(), 2);
}

#[test]
fn cpus_from_mask_collects_set_bits() {
    let mask = vec![true, false, false, true, true, false];
    assert_eq!(cpus_from_mask(&mask), vec![0, 3, 4]);
}

#[test]
fn cpus_from_mask_of_clear_mask_is_empty() {
    let mask = vec![false, false, false];
    assert_eq!(cpus_from_mask(&mask), Vec::<usize>::new());
}

#[test]
fn empty_topology_has_no_processors() {
    let map = TopologyMap::empty();
    assert_eq!(map.total(), 0);
}
