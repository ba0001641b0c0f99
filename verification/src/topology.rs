//! The topology model: which logical processors sit on which NUMA node.
//!
//! Discovery itself (querying the platform) happens outside this crate; what
//! arrives here is plain data, validated once and then carried around as an
//! immutable `TopologyMap`.

use vstd::prelude::*;

verus! {

/// One NUMA node together with the logical processors attached to it.
#[derive(Clone)]
pub struct NodeCpus {
    /// Platform-assigned node identifier.
    pub node: usize,
    /// Identifiers of the logical processors attached to this node.
    pub cpus: Vec<usize>,
}

/// Mapping from NUMA nodes to their attached logical processors, held in
/// strictly increasing node order. An empty map means the host reported no
/// NUMA topology and every consumer degrades to single-node behaviour.
#[derive(Clone)]
pub struct TopologyMap {
    pub nodes: Vec<NodeCpus>,
}

/// The identifiers appear in strictly increasing order (hence without
/// repetition).
pub open spec fn strictly_increasing(s: Seq<usize>) -> bool {
    forall|i: int, j: int| 0 <= i < j < s.len() ==> s[i] < s[j]
}

/// No processor identifier occurs in both sequences.
pub open spec fn disjoint_cpus(a: Seq<usize>, b: Seq<usize>) -> bool {
    forall|c: usize| a.contains(c) ==> !b.contains(c)
}

/// Processor sets of distinct nodes never share an identifier.
pub open spec fn pairwise_disjoint(s: Seq<NodeCpus>) -> bool {
    forall|i: int, j: int| 0 <= i < j < s.len() ==> disjoint_cpus(s[i].cpus@, s[j].cpus@)
}

/// Node identifiers appear in strictly increasing order.
pub open spec fn nodes_increasing(s: Seq<NodeCpus>) -> bool {
    forall|i: int, j: int| 0 <= i < j < s.len() ==> s[i].node < s[j].node
}

/// Total number of logical processors over all nodes.
pub open spec fn cpus_total(s: Seq<NodeCpus>) -> nat
    decreases s.len(),
{
    if s.len() == 0 {
        0
    } else {
        s[0].cpus@.len() + cpus_total(s.skip(1))
    }
}

/// Well-formed topology data: every node has at least one processor, listed
/// in strictly increasing order; node identifiers strictly increase;
/// processor sets are pairwise disjoint; and the processor total fits in a
/// machine word.
pub open spec fn entries_ok(s: Seq<NodeCpus>) -> bool {
    &&& forall|i: int| 0 <= i < s.len() ==> (#[trigger] s[i]).cpus@.len() > 0
    &&& forall|i: int| 0 <= i < s.len() ==> strictly_increasing((#[trigger] s[i]).cpus@)
    &&& nodes_increasing(s)
    &&& pairwise_disjoint(s)
    &&& cpus_total(s) <= usize::MAX
}

impl TopologyMap {
    /// A valid map is exactly one whose node entries are well formed.
    pub open spec fn wf(self) -> bool {
        entries_ok(self.nodes@)
    }

    /// The topology of a host that reports no NUMA nodes.
    pub fn empty() -> (r: TopologyMap)
        ensures
            r.wf(),
            r.nodes@.len() == 0,
    {
        TopologyMap { nodes: Vec::new() }
    }

    /// Total number of logical processors over all nodes.
    pub fn total(&self) -> (t: usize)
        requires
            self.wf(),
        ensures
            t as nat == cpus_total(self.nodes@),
    {
        let ghost s = self.nodes@;
        let mut acc: usize = 0;
        let mut i: usize = 0;
        proof {
            assert(s.skip(0) =~= s);
        }
        while i < self.nodes.len()
            invariant
                self.wf(),
                s == self.nodes@,
                0 <= i <= s.len(),
                acc as nat + cpus_total(s.skip(i as int)) == cpus_total(s),
            decreases s.len() - i,
        {
            proof {
                assert(s.skip(i as int)[0] == s[i as int]);
                assert(s.skip(i as int).skip(1) =~= s.skip(i as int + 1));
            }
            acc = acc + self.nodes[i].cpus.len();
            i = i + 1;
        }
        proof {
            assert(s.skip(s.len() as int) =~= Seq::<NodeCpus>::empty());
        }
        acc
    }
}

/// Whether `x` occurs in `v`.
pub(crate) fn vec_contains(v: &Vec<usize>, x: usize) -> (r: bool)
    ensures
        r == v@.contains(x),
{
    let mut i: usize = 0;
    while i < v.len()
        invariant
            0 <= i <= v@.len(),
            forall|k: int| 0 <= k < i ==> v@[k] != x,
        decreases v@.len() - i,
    {
        if v[i] == x {
            proof {
                assert(v@[i as int] == x);
            }
            return true;
        }
        i = i + 1;
    }
    false
}

/// Whether `v` is non-empty and strictly increasing.
fn cpus_ok(v: &Vec<usize>) -> (r: bool)
    ensures
        r == (v@.len() > 0 && strictly_increasing(v@)),
{
    if v.len() == 0 {
        return false;
    }
    let mut i: usize = 1;
    while i < v.len()
        invariant
            1 <= i <= v@.len(),
            forall|p: int, q: int| 0 <= p < q < i ==> v@[p] < v@[q],
        decreases v@.len() - i,
    {
        if v[i - 1] >= v[i] {
            proof {
                assert(!(v@[i - 1] < v@[i as int]));
            }
            return false;
        }
        i = i + 1;
    }
    true
}

/// Whether the node identifiers of `entries` are strictly increasing.
fn nodes_sorted(entries: &Vec<NodeCpus>) -> (r: bool)
    ensures
        r == nodes_increasing(entries@),
{
    if entries.len() == 0 {
        return true;
    }
    let mut i: usize = 1;
    while i < entries.len()
        invariant
            1 <= i <= entries@.len(),
            forall|p: int, q: int| 0 <= p < q < i ==> entries@[p].node < entries@[q].node,
        decreases entries@.len() - i,
    {
        if entries[i - 1].node >= entries[i].node {
            proof {
                assert(!(entries@[i - 1].node < entries@[i as int].node));
            }
            return false;
        }
        i = i + 1;
    }
    true
}

/// Whether `a` and `b` share no element.
fn seqs_disjoint(a: &Vec<usize>, b: &Vec<usize>) -> (r: bool)
    ensures
        r == disjoint_cpus(a@, b@),
{
    let mut i: usize = 0;
    while i < a.len()
        invariant
            0 <= i <= a@.len(),
            forall|k: int| 0 <= k < i ==> !b@.contains(#[trigger] a@[k]),
        decreases a@.len() - i,
    {
        if vec_contains(b, a[i]) {
            proof {
                assert(a@.contains(a@[i as int]));
            }
            return false;
        }
        i = i + 1;
    }
    proof {
        assert forall|c: usize| a@.contains(c) implies !b@.contains(c) by {
            let k = choose|k: int| 0 <= k < a@.len() && a@[k] == c;
            assert(!b@.contains(a@[k]));
        }
    }
    true
}

/// Whether the processor sets of `entries` are pairwise disjoint.
fn pairwise_ok(entries: &Vec<NodeCpus>) -> (r: bool)
    ensures
        r == pairwise_disjoint(entries@),
{
    let mut i: usize = 0;
    while i < entries.len()
        invariant
            0 <= i <= entries@.len(),
            forall|p: int, q: int|
                0 <= p < q < entries@.len() && p < i ==> disjoint_cpus(
                    (#[trigger] entries@[p]).cpus@,
                    (#[trigger] entries@[q]).cpus@,
                ),
        decreases entries@.len() - i,
    {
        let mut j: usize = i + 1;
        while j < entries.len()
            invariant
                0 <= i < entries@.len(),
                i < j <= entries@.len(),
                forall|p: int, q: int|
                    0 <= p < q < entries@.len() && p < i ==> disjoint_cpus(
                        (#[trigger] entries@[p]).cpus@,
                        (#[trigger] entries@[q]).cpus@,
                    ),
                forall|q: int|
                    i < q < j ==> disjoint_cpus(
                        entries@[i as int].cpus@,
                        (#[trigger] entries@[q]).cpus@,
                    ),
            decreases entries@.len() - j,
        {
            if !seqs_disjoint(&entries[i].cpus, &entries[j].cpus) {
                return false;
            }
            j = j + 1;
        }
        i = i + 1;
    }
    true
}

/// Validates raw topology data and turns it into a `TopologyMap`. Succeeds
/// exactly on well-formed data (see `entries_ok`) and returns the entries
/// unchanged.
pub fn from_entries(entries: Vec<NodeCpus>) -> (r: Option<TopologyMap>)
    ensures
        (r is Some) == entries_ok(entries@),
        r is Some ==> (r->Some_0).nodes@ == entries@ && (r->Some_0).wf(),
{
    let ghost s = entries@;
    let n = entries.len();
    let mut i: usize = 0;
    while i < n
        invariant
            n == s.len(),
            s == entries@,
            0 <= i <= n,
            forall|k: int|
                0 <= k < i ==> (#[trigger] s[k]).cpus@.len() > 0 && strictly_increasing(
                    s[k].cpus@,
                ),
        decreases n - i,
    {
        if !cpus_ok(&entries[i].cpus) {
            return None;
        }
        i = i + 1;
    }
    if !nodes_sorted(&entries) {
        return None;
    }
    if !pairwise_ok(&entries) {
        return None;
    }
    let mut total: usize = 0;
    let mut k: usize = 0;
    proof {
        assert(s.skip(0) =~= s);
    }
    while k < n
        invariant
            n == s.len(),
            s == entries@,
            0 <= k <= n,
            total as nat + cpus_total(s.skip(k as int)) == cpus_total(s),
        decreases n - k,
    {
        proof {
            assert(s.skip(k as int)[0] == s[k as int]);
            assert(s.skip(k as int).skip(1) =~= s.skip(k as int + 1));
        }
        let len_k = entries[k].cpus.len();
        if len_k > usize::MAX - total {
            proof {
                assert(cpus_total(s) >= total as nat + len_k as nat);
            }
            return None;
        }
        total = total + len_k;
        k = k + 1;
    }
    proof {
        assert(s.skip(s.len() as int) =~= Seq::<NodeCpus>::empty());
    }
    Some(TopologyMap { nodes: entries })
}

/// The subsequence of `s` made of the nodes with at least one processor, in
/// the order of `s`.
pub open spec fn active_entries(s: Seq<NodeCpus>) -> Seq<NodeCpus>
    decreases s.len(),
{
    if s.len() == 0 {
        Seq::empty()
    } else {
        let rest = active_entries(s.drop_last());
        if s.last().cpus@.len() > 0 {
            rest.push(s.last())
        } else {
            rest
        }
    }
}

/// Drops the nodes that have no active processor, keeping the rest in order.
pub fn retain_active(entries: Vec<NodeCpus>) -> (r: Vec<NodeCpus>)
    ensures
        r@ == active_entries(entries@),
{
    let ghost s = entries@;
    let n = entries.len();
    let mut rest = entries;
    let mut out: Vec<NodeCpus> = Vec::new();
    let mut i: usize = 0;
    proof {
        assert(s.take(0) =~= Seq::<NodeCpus>::empty());
        assert(s.skip(0) =~= s);
    }
    while rest.len() > 0
        invariant
            n == s.len(),
            0 <= i <= s.len(),
            rest@ == s.skip(i as int),
            out@ == active_entries(s.take(i as int)),
        decreases rest@.len(),
    {
        proof {
            assert(s.skip(i as int)[0] == s[i as int]);
        }
        let e = rest.remove(0);
        proof {
            assert(rest@ =~= s.skip(i as int + 1));
            assert(s.take(i as int + 1).drop_last() =~= s.take(i as int));
            assert(s.take(i as int + 1).last() == s[i as int]);
        }
        if e.cpus.len() > 0 {
            out.push(e);
        }
        i = i + 1;
    }
    proof {
        assert(s.take(s.len() as int) =~= s);
    }
    out
}

/// The processor identifiers whose bit is set in `mask`, in increasing order.
/// The result is pinned by its membership together with its strict order.
pub fn cpus_from_mask(mask: &Vec<bool>) -> (r: Vec<usize>)
    ensures
        strictly_increasing(r@),
        forall|c: usize| r@.contains(c) <==> c < mask@.len() && mask@[c as int],
{
    let mut out: Vec<usize> = Vec::new();
    let mut i: usize = 0;
    while i < mask.len()
        invariant
            0 <= i <= mask@.len(),
            forall|p: int, q: int| 0 <= p < q < out@.len() ==> out@[p] < out@[q],
            forall|p: int| 0 <= p < out@.len() ==> (#[trigger] out@[p]) < i,
            forall|c: usize| out@.contains(c) <==> c < i && mask@[c as int],
        decreases mask@.len() - i,
    {
        if mask[i] {
            proof {
                assert forall|c: usize| out@.push(i).contains(c) <==> out@.contains(c) || c
                    == i by {
                    vstd::seq_lib::lemma_seq_contains_after_push(out@, i, c);
                }
            }
            out.push(i);
        } else {
            proof {
                assert forall|c: usize| out@.contains(c) implies c != i by {
                    let k = choose|k: int| 0 <= k < out@.len() && out@[k] == c;
                    assert(out@[k] < i);
                }
            }
        }
        i = i + 1;
    }
    out
}

/// Processor sets of two distinct nodes of a well-formed map never share a
/// processor identifier, whichever way round the nodes are taken.
pub proof fn lemma_nodes_disjoint(map: TopologyMap, i: int, j: int, cpu: usize)
    requires
        map.wf(),
        0 <= i < map.nodes@.len(),
        0 <= j < map.nodes@.len(),
        i != j,
        map.nodes@[i].cpus@.contains(cpu),
    ensures
        !map.nodes@[j].cpus@.contains(cpu),
{
    if i < j {
        assert(disjoint_cpus(map.nodes@[i].cpus@, map.nodes@[j].cpus@));
    } else {
        assert(disjoint_cpus(map.nodes@[j].cpus@, map.nodes@[i].cpus@));
    }
}

} // verus!
