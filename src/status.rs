//! Derived statuses: of a probe, from its nodes, and of the whole system,
//! from the probes that are not disabled.
use vstd::prelude::*;
use crate::registry::{NodeDef, ProbeDef};
use crate::report::{status_word, worst_of, Status};
use crate::store::{node_status_in, ReplicaKey, ReplicaState, Store};

verus! {

/// Worst status over nodes `nodes` of probe `p`; healthy when there are none.
pub open spec fn nodes_status(
    m: Map<ReplicaKey, ReplicaState>,
    p: Seq<char>,
    nodes: Seq<NodeDef>,
    cpu_limit: i64,
    ram_limit: i64,
) -> Status
    decreases nodes.len(),
{
    if nodes.len() == 0 {
        Status::Healthy
    } else {
        worst_of(
            nodes_status(m, p, nodes.drop_last(), cpu_limit, ram_limit),
            node_status_in(m, p, nodes.last().id@, cpu_limit, ram_limit),
        )
    }
}

/// Worst status over the probes of `probes` that are not in `disabled`;
/// healthy when there are none.
pub open spec fn enabled_status(
    m: Map<ReplicaKey, ReplicaState>,
    probes: Seq<ProbeDef>,
    disabled: Set<Seq<char>>,
    cpu_limit: i64,
    ram_limit: i64,
) -> Status
    decreases probes.len(),
{
    if probes.len() == 0 {
        Status::Healthy
    } else {
        worst_of(
            enabled_status(m, probes.drop_last(), disabled, cpu_limit, ram_limit),
            if disabled.contains(probes.last().id@) {
                Status::Healthy
            } else {
                nodes_status(m, probes.last().id@, probes.last().nodes@, cpu_limit, ram_limit)
            },
        )
    }
}

impl Store {
    /// Status of the whole system: the worst status among enabled probes.
    pub open spec fn overall(&self) -> Status {
        enabled_status(
            self.replica_map(),
            self.registry_view().probes@,
            self.disabled_set(),
            self.cpu_limit(),
            self.ram_limit(),
        )
    }

    /// Status of `probe`: the worst status among its nodes.
    pub fn probe_status(&self, probe: &ProbeDef) -> (r: Status)
        requires
            self.wf(),
        ensures
            r == nodes_status(
                self.replica_map(),
                probe.id@,
                probe.nodes@,
                self.cpu_limit(),
                self.ram_limit(),
            ),
    {
        let ghost nodes = probe.nodes@;
        let mut acc = Status::Healthy;
        let mut i: usize = 0;
        while i < probe.nodes.len()
            invariant
                self.wf(),
                i <= nodes.len(),
                nodes == probe.nodes@,
                acc == nodes_status(
                    self.replica_map(),
                    probe.id@,
                    nodes.subrange(0, i as int),
                    self.cpu_limit(),
                    self.ram_limit(),
                ),
            decreases nodes.len() - i,
        {
            let s = self.node_status(&probe.id, &probe.nodes[i].id);
            acc = acc.worst(s);
            proof {
                let next = nodes.subrange(0, i + 1);
                assert(next.drop_last() =~= nodes.subrange(0, i as int));
                assert(next.last() == nodes[i as int]);
            }
            i = i + 1;
        }
        assert(nodes.subrange(0, nodes.len() as int) =~= nodes);
        acc
    }

    /// Status of the whole system: the worst status among the probes that are
    /// not disabled.
    pub fn overall_status(&self) -> (r: Status)
        requires
            self.wf(),
        ensures
            r == self.overall(),
    {
        let probes = &self.registry().probes;
        let ghost ps = probes@;
        let mut acc = Status::Healthy;
        let mut i: usize = 0;
        while i < probes.len()
            invariant
                self.wf(),
                i <= ps.len(),
                ps == probes@,
                ps == self.registry_view().probes@,
                acc == enabled_status(
                    self.replica_map(),
                    ps.subrange(0, i as int),
                    self.disabled_set(),
                    self.cpu_limit(),
                    self.ram_limit(),
                ),
            decreases ps.len() - i,
        {
            let probe = &probes[i];
            let s = if self.is_disabled(&probe.id) {
                Status::Healthy
            } else {
                self.probe_status(probe)
            };
            acc = acc.worst(s);
            proof {
                let next = ps.subrange(0, i + 1);
                assert(next.drop_last() =~= ps.subrange(0, i as int));
                assert(next.last() == ps[i as int]);
            }
            i = i + 1;
        }
        assert(ps.subrange(0, ps.len() as int) =~= ps);
        acc
    }

    /// The overall status as the word that text and badge endpoints show.
    pub fn status_text(&self) -> (r: &'static str)
        requires
            self.wf(),
        ensures
            r@ == status_word(self.overall()),
    {
        self.overall_status().as_str()
    }
}

} // verus!
