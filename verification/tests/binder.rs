use numa_core::binder::{bind_thread, group_affinity_for, processor_id, PROCESSOR_NUMBER};
use numa_core::topology::{from_entries, NodeCpus, TopologyMap};

fn two_node_host() -> TopologyMap {
    let entries = vec![
        NodeCpus { node: 0, cpus: vec![0, 1, 2, 3] },
        NodeCpus { node: 1, cpus: vec![4, 5, 6, 7] },
    ];
    from_entries(entries).expect("well-formed topology data")
}

#[test]
fn bind_picks_second_node_for_slot_five() {
    let map = two_node_host();
    let b = bind_thread(&map, 5).expect("topology is non-empty");
    assert_eq!(b.node, 1);
    assert_eq!(b.cpu, 5);
}

#[test]
fn bind_wraps_identifier_modulo_total() {
    let map = two_node_host();
    let b = bind_thread(&map, 13).expect("topology is non-empty");
    assert_eq!(b.node, 1);
    assert_eq!(b.cpu, 5);
}

#[test]
fn bind_congruent_identifiers_agree() {
    let map = two_node_host();
    let b1 = bind_thread(&map, 2).expect("topology is non-empty");
    let b2 = bind_thread(&map, 10).expect("topology is non-empty");
    assert_eq!(b1, b2);
    assert_eq!(b1.node, 0);
}

#[test]
fn bind_first_slot_lands_on_first_node() {
    let map = two_node_host();
    let b = bind_thread(&map, 0).expect("topology is non-empty");
    assert_eq!(b.node, 0);
    assert_eq!(b.cpu, 0);
}

#[test]
fn bind_walks_sparse_processor_identifiers() {
    let entries = vec![
        NodeCpus { node: 3, cpus: vec![10, 20] },
        NodeCpus { node: 7, cpus: vec![30] },
    ];
    let map = from_entries(entries).expect("well-formed topology data");
    let b = bind_thread(&map, 2).expect("topology is non-empty");
    assert_eq!(b.node, 7);
    assert_eq!(b.cpu, 30);
}

#[test]
fn bind_on_empty_topology_is_a_no_op() {
    let map = TopologyMap::empty();
    assert!(bind_thread(&map, 0).is_none());
    assert!(bind_thread(&map, 12345).is_none());
}

#[test]
fn group_affinity_selects_one_processor() {
    let a = group_affinity_for(70);
    assert_eq!(a.Group, 1);
    assert_eq!(a.Mask, 1u64 << 6);
    assert_eq!(a.Reserved, [0u16; 3]);
}

#[test]
fn group_affinity_of_first_processor() {
    let a = group_affinity_for(0);
    assert_eq!(a.Group, 0);
    assert_eq!(a.Mask, 1);
}

#[test]
fn processor_id_spans_groups() {
    let p = PROCESSOR_NUMBER { Group: 1, Number: 2, Reserved: 0 };
    assert_eq!(processor_id(&p), 66);
    let q = PROCESSOR_NUMBER { Group: 0, Number: 0, Reserved: 0 };
    assert_eq!(processor_id(&q), 0);
}
