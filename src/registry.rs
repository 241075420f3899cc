//! The probe registry: which probes exist, their nodes, and each node's mode.
use vstd::prelude::*;
use crate::report::Mode;

verus! {

/// A node of a probe and the mode it reports in.
#[derive(Debug)]
pub struct NodeDef {
    pub id: String,
    pub mode: Mode,
}

/// A probe and its ordered nodes.
#[derive(Debug)]
pub struct ProbeDef {
    pub id: String,
    pub nodes: Vec<NodeDef>,
}

/// The registered probes, in order. Where an identifier occurs twice, the
/// first occurrence is the one that counts.
#[derive(Debug)]
pub struct Registry {
    pub probes: Vec<ProbeDef>,
}

/// Mode of the first node named `n` in `nodes`.
pub open spec fn mode_in(nodes: Seq<NodeDef>, n: Seq<char>) -> Option<Mode>
    decreases nodes.len(),
{
    if nodes.len() == 0 {
        None
    } else if nodes[0].id@ == n {
        Some(nodes[0].mode)
    } else {
        mode_in(nodes.drop_first(), n)
    }
}

/// Nodes of the first probe named `p` in `probes`.
pub open spec fn nodes_in(probes: Seq<ProbeDef>, p: Seq<char>) -> Option<Seq<NodeDef>>
    decreases probes.len(),
{
    if probes.len() == 0 {
        None
    } else if probes[0].id@ == p {
        Some(probes[0].nodes@)
    } else {
        nodes_in(probes.drop_first(), p)
    }
}

impl Registry {
    /// Whether a probe named `p` is registered.
    pub open spec fn has_probe(&self, p: Seq<char>) -> bool {
        nodes_in(self.probes@, p) is Some
    }

    /// Mode of node `n` of probe `p`, if both are registered.
    pub open spec fn mode_of(&self, p: Seq<char>, n: Seq<char>) -> Option<Mode> {
        match nodes_in(self.probes@, p) {
            Some(nodes) => mode_in(nodes, n),
            None => None,
        }
    }

    /// Index of the first probe named `probe_id`.
    fn find_probe(&self, probe_id: &String) -> (r: Option<usize>)
        ensures
            match r {
                Some(i) => i < self.probes@.len() && nodes_in(self.probes@, probe_id@) == Some(
                    self.probes@[i as int].nodes@,
                ),
                None => nodes_in(self.probes@, probe_id@) is None,
            },
    {
        let mut i: usize = 0;
        assert(self.probes@.subrange(0, self.probes@.len() as int) =~= self.probes@);
        while i < self.probes.len()
            invariant
                i <= self.probes@.len(),
                nodes_in(self.probes@, probe_id@) == nodes_in(
                    self.probes@.subrange(i as int, self.probes@.len() as int),
                    probe_id@,
                ),
            decreases self.probes@.len() - i,
        {
            let ghost rest = self.probes@.subrange(i as int, self.probes@.len() as int);
            assert(rest.drop_first() =~= self.probes@.subrange(
                i + 1,
                self.probes@.len() as int,
            ));
            assert(rest[0] == self.probes@[i as int]);
            if self.probes[i].id == *probe_id {
                return Some(i);
            }
            i = i + 1;
        }
        None
    }

    /// Whether a probe named `probe_id` is registered.
    pub fn contains_probe(&self, probe_id: &String) -> (r: bool)
        ensures
            r == self.has_probe(probe_id@),
    {
        self.find_probe(probe_id).is_some()
    }

    /// Mode of node `node_id` of probe `probe_id`, if both are registered.
    pub fn find_node(&self, probe_id: &String, node_id: &String) -> (r: Option<Mode>)
        ensures
            r == self.mode_of(probe_id@, node_id@),
    {
        match self.find_probe(probe_id) {
            None => None,
            Some(pi) => {
                let nodes = &self.probes[pi].nodes;
                assert(self.mode_of(probe_id@, node_id@) == mode_in(nodes@, node_id@));
                let mut i: usize = 0;
                assert(nodes@.subrange(0, nodes@.len() as int) =~= nodes@);
                while i < nodes.len()
                    invariant
                        i <= nodes@.len(),
                        self.mode_of(probe_id@, node_id@) == mode_in(nodes@, node_id@),
                        mode_in(nodes@, node_id@) == mode_in(
                            nodes@.subrange(i as int, nodes@.len() as int),
                            node_id@,
                        ),
                    decreases nodes@.len() - i,
                {
                    let ghost rest = nodes@.subrange(i as int, nodes@.len() as int);
                    assert(rest.drop_first() =~= nodes@.subrange(i + 1, nodes@.len() as int));
                    assert(rest[0] == nodes@[i as int]);
                    if nodes[i].id == *node_id {
                        return Some(nodes[i].mode);
                    }
                    i = i + 1;
                }
                None
            },
        }
    }
}

} // verus!
