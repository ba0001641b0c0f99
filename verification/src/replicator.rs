//! Per-node replication: one instance of a value per NUMA node, with lookup
//! of the replica local to the processor a thread is running on.
//!
//! The replicas live in an owned arena indexed by node construction order and
//! only ever leave it as shared borrows, so the replicator keeps exclusive
//! ownership of every instance for its whole lifetime and tears all of them
//! down together when it is dropped.

use vstd::prelude::*;

use crate::topology::{lemma_nodes_disjoint, NodeCpus, TopologyMap};

verus! {

/// Marker for value types that may be replicated per NUMA node.
///
/// Implementing `NumaValue` asserts that a fully constructed value tolerates
/// being read concurrently through shared references from many threads at
/// once; the replicator offers no mutable access, so nothing more is asked.
pub trait NumaValue {}

/// Index `k` names a node of `s` that has `cpu` among its processors.
pub open spec fn owns_cpu(s: Seq<NodeCpus>, k: int, cpu: usize) -> bool {
    0 <= k < s.len() && s[k].cpus@.contains(cpu)
}

/// How many replicas a topology calls for: one per node, or a single one
/// when no NUMA topology is known.
pub open spec fn replica_count(map: TopologyMap) -> nat {
    if map.nodes@.len() == 0 {
        1
    } else {
        map.nodes@.len()
    }
}

/// The replica index serving a thread running on `cpu`: the position of the
/// node owning `cpu` in map order, or the first replica when the processor
/// maps to no known node.
pub fn replica_index(map: &TopologyMap, cpu: usize) -> (i: usize)
    requires
        map.wf(),
    ensures
        i < replica_count(*map),
        forall|k: int| owns_cpu(map.nodes@, k, cpu) ==> i == k,
        (forall|k: int| !owns_cpu(map.nodes@, k, cpu)) ==> i == 0,
{
    let ghost s = map.nodes@;
    let mut i: usize = 0;
    while i < map.nodes.len()
        invariant
            map.wf(),
            s == map.nodes@,
            0 <= i <= s.len(),
            forall|k: int| 0 <= k < i ==> !owns_cpu(s, k, cpu),
        decreases s.len() - i,
    {
        if crate::topology::vec_contains(&map.nodes[i].cpus, cpu) {
            proof {
                assert(owns_cpu(s, i as int, cpu));
                assert forall|k: int| owns_cpu(s, k, cpu) implies i == k by {
                    if k != i {
                        lemma_nodes_disjoint(*map, i as int, k, cpu);
                    }
                }
            }
            return i;
        }
        i = i + 1;
    }
    0
}

/// One owned instance of `T` per NUMA node, created together at construction
/// and torn down together when the replicator is dropped.
pub struct NumaReplicator<T: NumaValue> {
    map: TopologyMap,
    replicas: Vec<T>,
}

impl<T: NumaValue> View for NumaReplicator<T> {
    type V = Seq<T>;

    /// The replicas in node construction order.
    closed spec fn view(&self) -> Seq<T> {
        self.replicas@
    }
}

impl<T: NumaValue> NumaReplicator<T> {
    /// The topology the replicator was built against.
    pub closed spec fn topology(self) -> TopologyMap {
        self.map
    }

    /// A replicator is valid when its topology is and it holds exactly one
    /// replica per node (a single one for an empty topology).
    pub open spec fn wf(self) -> bool {
        &&& self.topology().wf()
        &&& self@.len() == replica_count(self.topology())
    }

    /// Builds one replica per node of `map` by running `factory` once for
    /// each; on an empty topology a single replica is built instead. Every
    /// replica is a separate product of `factory`, never a copy of another.
    pub fn new<F: Fn() -> T>(map: TopologyMap, factory: F) -> (r: Self)
        requires
            map.wf(),
            call_requires(factory, ()),
        ensures
            r.wf(),
            r.topology() == map,
            r@.len() == replica_count(map),
            forall|i: int| 0 <= i < r@.len() ==> call_ensures(factory, (), #[trigger] r@[i]),
    {
        let n = map.nodes.len();
        let mut replicas: Vec<T> = Vec::new();
        if n == 0 {
            replicas.push(factory());
        } else {
            let mut i: usize = 0;
            while i < n
                invariant
                    call_requires(factory, ()),
                    0 <= i <= n,
                    replicas@.len() == i,
                    forall|k: int|
                        0 <= k < i ==> call_ensures(factory, (), #[trigger] replicas@[k]),
                decreases n - i,
            {
                replicas.push(factory());
                i = i + 1;
            }
        }
        NumaReplicator { map, replicas }
    }

    /// The replica local to a thread running on processor `cpu`: the one
    /// built for the node owning `cpu`, or the first replica when the
    /// processor maps to no known node.
    pub fn get(&self, cpu: usize) -> (r: &T)
        requires
            self.wf(),
        ensures
            forall|k: int| owns_cpu(self.topology().nodes@, k, cpu) ==> r == self@[k],
            (forall|k: int| !owns_cpu(self.topology().nodes@, k, cpu)) ==> r == self@[0],
    {
        let i = replica_index(&self.map, cpu);
        &self.replicas[i]
    }

    /// All replicas in node construction order. The result is wholly pinned
    /// by the replicator's state, so repeated calls return the same
    /// sequence.
    pub fn get_all(&self) -> (r: Vec<&T>)
        requires
            self.wf(),
        ensures
            r@.len() == self@.len(),
            forall|i: int| 0 <= i < r@.len() ==> r@[i] == self@[i],
    {
        let mut out: Vec<&T> = Vec::new();
        let mut i: usize = 0;
        while i < self.replicas.len()
            invariant
                0 <= i <= self.replicas@.len(),
                out@.len() == i,
                forall|k: int| 0 <= k < i ==> out@[k] == self.replicas@[k],
            decreases self.replicas@.len() - i,
        {
            out.push(&self.replicas[i]);
            i = i + 1;
        }
        out
    }
}

/// On an empty topology the replicator degrades to a single replica, and
/// every lookup falls back to it whatever processor the caller runs on.
pub proof fn lemma_degraded_single_replica<T: NumaValue>(r: NumaReplicator<T>, cpu: usize)
    requires
        r.wf(),
        r.topology().nodes@.len() == 0,
    ensures
        r@.len() == 1,
        forall|k: int| !owns_cpu(r.topology().nodes@, k, cpu),
{
}

/// Any two sequences meeting the contract of `get_all` against the same
/// replicator are equal: the set of replicas handed out never varies
/// between calls.
pub proof fn lemma_get_all_deterministic<T: NumaValue>(
    r: NumaReplicator<T>,
    a: Seq<T>,
    b: Seq<T>,
)
    requires
        a.len() == r@.len(),
        forall|i: int| 0 <= i < a.len() ==> a[i] == r@[i],
        b.len() == r@.len(),
        forall|i: int| 0 <= i < b.len() ==> b[i] == r@[i],
    ensures
        a == b,
{
    assert(a =~= b);
}

} // verus!
