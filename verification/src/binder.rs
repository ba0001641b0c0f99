//! Choosing the NUMA node an identifier binds to.
//!
//! An identifier is reduced modulo the processor total and the nodes are
//! walked in map order, skipping one node's processors at a time, until the
//! slot falls inside a node. Issuing the actual scheduling and allocation
//! preferences to the platform is the caller's side of the bargain; this
//! module only decides the target.

use vstd::prelude::*;

use crate::topology::{cpus_total, NodeCpus, TopologyMap};

verus! {

/// Number of logical processors one platform processor-group can hold.
pub const MAXIMUM_PROC_PER_GROUP: usize = 64;

/// The target a thread identifier was mapped to: the chosen node and the
/// processor within it that the identifier's slot falls on.
#[derive(Clone, Copy, Debug, PartialEq, Eq, Structural)]
pub struct Binding {
    /// Identifier of the chosen NUMA node.
    pub node: usize,
    /// Identifier of the chosen logical processor on that node.
    pub cpu: usize,
}

/// The node and processor selected for `slot`, walking the nodes in map
/// order and skipping one node's processors at a time.
pub open spec fn slot_binding(s: Seq<NodeCpus>, slot: nat) -> Binding
    recommends
        slot < cpus_total(s),
    decreases s.len(),
{
    if s.len() == 0 {
        Binding { node: 0, cpu: 0 }
    } else if slot < s[0].cpus@.len() {
        Binding { node: s[0].node, cpu: s[0].cpus@[slot as int] }
    } else {
        slot_binding(s.skip(1), (slot - s[0].cpus@.len()) as nat)
    }
}

/// Maps an arbitrary identifier onto one NUMA node. Returns `None` exactly
/// when the topology is empty (no NUMA support: binding degrades to a
/// no-op); otherwise the identifier is reduced modulo the processor total
/// and the node whose range the slot falls in is chosen.
pub fn bind_thread(map: &TopologyMap, id: usize) -> (r: Option<Binding>)
    requires
        map.wf(),
    ensures
        cpus_total(map.nodes@) == 0 ==> r is None,
        cpus_total(map.nodes@) > 0 ==> r == Some(
            slot_binding(map.nodes@, (id as nat) % cpus_total(map.nodes@)),
        ),
{
    let ghost s = map.nodes@;
    let total = map.total();
    if total == 0 {
        return None;
    }
    let slot = id % total;
    let mut k: usize = 0;
    let mut remaining: usize = slot;
    proof {
        assert(s.skip(0) =~= s);
    }
    while k < map.nodes.len()
        invariant
            map.wf(),
            s == map.nodes@,
            0 <= k <= s.len(),
            (remaining as nat) < cpus_total(s.skip(k as int)),
            cpus_total(s) > 0,
            slot_binding(s, (id as nat) % cpus_total(s)) == slot_binding(
                s.skip(k as int),
                remaining as nat,
            ),
        decreases s.len() - k,
    {
        proof {
            assert(s.skip(k as int)[0] == s[k as int]);
            assert(s.skip(k as int).skip(1) =~= s.skip(k as int + 1));
        }
        let node_len = map.nodes[k].cpus.len();
        if remaining < node_len {
            return Some(
                Binding { node: map.nodes[k].node, cpu: map.nodes[k].cpus[remaining] },
            );
        }
        remaining = remaining - node_len;
        k = k + 1;
    }
    proof {
        assert(s.skip(s.len() as int) =~= Seq::<NodeCpus>::empty());
    }
    None
}

/// Identifiers that agree modulo the processor total are mapped to the same
/// node (and the same processor within it).
pub proof fn lemma_bind_deterministic(map: TopologyMap, i1: usize, i2: usize)
    requires
        map.wf(),
        cpus_total(map.nodes@) > 0,
        (i1 as nat) % cpus_total(map.nodes@) == (i2 as nat) % cpus_total(map.nodes@),
    ensures
        slot_binding(map.nodes@, (i1 as nat) % cpus_total(map.nodes@)) == slot_binding(
            map.nodes@,
            (i2 as nat) % cpus_total(map.nodes@),
        ),
{
}

/// The binding chosen for an in-range slot is coherent with the topology:
/// the chosen processor is one of the chosen node's own processors. Together
/// with the replica lookup's contract this means a thread bound to a node
/// and running on the processor it was bound to reads that node's replica.
pub proof fn lemma_slot_binding_in_node(s: Seq<NodeCpus>, slot: nat)
    requires
        slot < cpus_total(s),
    ensures
        exists|k: int|
            0 <= k < s.len() && (#[trigger] s[k]).node == slot_binding(s, slot).node
                && s[k].cpus@.contains(slot_binding(s, slot).cpu),
    decreases s.len(),
{
    if s.len() == 0 {
        assert(false);
    } else if slot < s[0].cpus@.len() {
        assert(s[0].cpus@.contains(s[0].cpus@[slot as int]));
        assert(s[0].node == slot_binding(s, slot).node && s[0].cpus@.contains(
            slot_binding(s, slot).cpu,
        ));
    } else {
        lemma_slot_binding_in_node(s.skip(1), (slot - s[0].cpus@.len()) as nat);
        let k = choose|k: int|
            0 <= k < s.skip(1).len() && (#[trigger] s.skip(1)[k]).node == slot_binding(
                s.skip(1),
                (slot - s[0].cpus@.len()) as nat,
            ).node && s.skip(1)[k].cpus@.contains(
                slot_binding(s.skip(1), (slot - s[0].cpus@.len()) as nat).cpu,
            );
        assert(s[k + 1] == s.skip(1)[k]);
        assert(s[k + 1].node == slot_binding(s, slot).node && s[k + 1].cpus@.contains(
            slot_binding(s, slot).cpu,
        ));
    }
}

/// A processor-group affinity mask: the group a processor belongs to and the
/// single-bit mask that selects the processor within the group.
#[derive(Clone, Copy, Debug, PartialEq, Eq)]
#[allow(non_camel_case_types)]
#[allow(non_snake_case)]
pub struct GROUP_AFFINITY {
    /// Bit mask over the processors of the group.
    pub Mask: u64,
    /// Index of the processor group.
    pub Group: u16,
    /// Padding, always zero.
    pub Reserved: [u16; 3],
}

/// A logical processor named by its group and its index within the group.
#[derive(Clone, Copy, Debug, PartialEq, Eq, Structural)]
#[allow(non_camel_case_types)]
#[allow(non_snake_case)]
pub struct PROCESSOR_NUMBER {
    /// Index of the processor group.
    pub Group: u16,
    /// Index of the processor within its group.
    pub Number: u8,
    /// Padding, always zero.
    pub Reserved: u8,
}

/// The process-wide identifier of a processor named by group and in-group
/// index: groups partition the identifier space in blocks of
/// `MAXIMUM_PROC_PER_GROUP`.
pub fn processor_id(p: &PROCESSOR_NUMBER) -> (r: usize)
    ensures
        r == p.Group as int * MAXIMUM_PROC_PER_GROUP + p.Number as int,
{
    (p.Group as usize) * MAXIMUM_PROC_PER_GROUP + (p.Number as usize)
}

/// The group affinity that restricts a thread to the one processor `cpu`:
/// the group holding `cpu` and a mask with exactly the in-group bit set.
pub fn group_affinity_for(cpu: usize) -> (r: GROUP_AFFINITY)
    requires
        cpu / MAXIMUM_PROC_PER_GROUP <= u16::MAX,
    ensures
        r.Group as int == cpu / MAXIMUM_PROC_PER_GROUP,
        r.Mask == 1u64 << ((cpu % MAXIMUM_PROC_PER_GROUP) as u64),
        forall|i: int| 0 <= i < 3 ==> r.Reserved[i] == 0,
{
    let group = (cpu / MAXIMUM_PROC_PER_GROUP) as u16;
    let bit = (cpu % MAXIMUM_PROC_PER_GROUP) as u64;
    GROUP_AFFINITY { Mask: 1u64 << bit, Group: group, Reserved: [0u16, 0u16, 0u16] }
}

} // verus!
