//! The state store: per-replica report state with flush generations, and the
//! set of probes disabled for status aggregation.
use vstd::prelude::*;
use crate::registry::Registry;
use crate::report::{load_status, Observation, ReportError, Status};

verus! {

/// The last report a replica sent: when it arrived (seconds), its reporting
/// period (seconds) and what it observed.
#[derive(Clone, Copy, Debug, PartialEq, Eq, Structural)]
pub struct LastReport {
    pub time: u64,
    pub interval: u64,
    pub observation: Observation,
}

/// State of one replica: its last report, if not flushed since, and its
/// flush generation.
#[derive(Clone, Copy, Debug, PartialEq, Eq, Structural)]
pub struct ReplicaState {
    pub last: Option<LastReport>,
    pub generation: u64,
}

/// One row of the replica table.
#[derive(Debug)]
pub struct ReplicaEntry {
    pub probe_id: String,
    pub node_id: String,
    pub replica_id: String,
    pub state: ReplicaState,
}

/// A replica named by probe, node and replica identifiers.
pub type ReplicaKey = (Seq<char>, Seq<char>, Seq<char>);

pub open spec fn entry_key(e: ReplicaEntry) -> ReplicaKey {
    (e.probe_id@, e.node_id@, e.replica_id@)
}

/// State of the first row of `t` for replica `k`.
pub open spec fn state_in(t: Seq<ReplicaEntry>, k: ReplicaKey) -> Option<ReplicaState>
    decreases t.len(),
{
    if t.len() == 0 {
        None
    } else if entry_key(t[0]) == k {
        Some(t[0].state)
    } else {
        state_in(t.drop_first(), k)
    }
}

/// No two rows of `t` are for the same replica.
pub open spec fn keys_unique(t: Seq<ReplicaEntry>) -> bool {
    forall|i: int, j: int|
        0 <= i < j < t.len() ==> entry_key(#[trigger] t[i]) != entry_key(#[trigger] t[j])
}

/// In a table without repeated replicas, each row gives its replica's state.
proof fn lemma_state_in_row(t: Seq<ReplicaEntry>, j: int)
    requires
        keys_unique(t),
        0 <= j < t.len(),
    ensures
        state_in(t, entry_key(t[j])) == Some(t[j].state),
    decreases t.len(),
{
    if j > 0 {
        let d = t.drop_first();
        assert(entry_key(t[0]) != entry_key(t[j]));
        assert(d[j - 1] == t[j]);
        assert(keys_unique(d)) by {
            assert forall|a: int, b: int| 0 <= a < b < d.len() implies entry_key(#[trigger] d[a])
                != entry_key(#[trigger] d[b]) by {
                assert(d[a] == t[a + 1] && d[b] == t[b + 1]);
            }
        }
        lemma_state_in_row(d, j - 1);
    }
}

/// A replica with a state in the table has a row that gives it.
proof fn lemma_state_in_has_row(t: Seq<ReplicaEntry>, k: ReplicaKey)
    requires
        state_in(t, k) is Some,
    ensures
        exists|j: int|
            0 <= j < t.len() && entry_key(#[trigger] t[j]) == k && state_in(t, k) == Some(
                t[j].state,
            ),
    decreases t.len(),
{
    if entry_key(t[0]) != k {
        let d = t.drop_first();
        lemma_state_in_has_row(d, k);
        let j = choose|j: int|
            0 <= j < d.len() && entry_key(#[trigger] d[j]) == k && state_in(d, k) == Some(
                d[j].state,
            );
        assert(t[j + 1] == d[j]);
    } else {
        assert(entry_key(t[0]) == k);
    }
}

/// The replica table as a map from replica to state.
pub open spec fn table_map(t: Seq<ReplicaEntry>) -> Map<ReplicaKey, ReplicaState> {
    Map::new(|k: ReplicaKey| state_in(t, k) is Some, |k: ReplicaKey| state_in(t, k).unwrap())
}

/// Flush generation of replica `k`: zero for a replica never seen.
pub open spec fn generation_in(m: Map<ReplicaKey, ReplicaState>, k: ReplicaKey) -> u64 {
    if m.contains_key(k) {
        m[k].generation
    } else {
        0
    }
}

/// Overwriting the first row of a replica changes that replica alone.
proof fn lemma_state_in_update(t: Seq<ReplicaEntry>, i: int, e: ReplicaEntry)
    requires
        0 <= i < t.len(),
        entry_key(t[i]) == entry_key(e),
        forall|j: int| 0 <= j < i ==> entry_key(#[trigger] t[j]) != entry_key(e),
    ensures
        forall|k: ReplicaKey|
            #[trigger] state_in(t.update(i, e), k) == if k == entry_key(e) {
                Some(e.state)
            } else {
                state_in(t, k)
            },
    decreases i,
{
    let u = t.update(i, e);
    if i == 0 {
        assert(u.drop_first() =~= t.drop_first());
        assert forall|k: ReplicaKey|
            #[trigger] state_in(u, k) == if k == entry_key(e) {
                Some(e.state)
            } else {
                state_in(t, k)
            } by {
            assert(u[0] == e);
            if k != entry_key(e) {
                assert(state_in(u, k) == state_in(u.drop_first(), k));
                assert(state_in(t, k) == state_in(t.drop_first(), k));
            }
        }
    } else {
        let d = t.drop_first();
        assert(u.drop_first() =~= d.update(i - 1, e));
        assert forall|j: int| 0 <= j < i - 1 implies entry_key(#[trigger] d[j]) != entry_key(
            e,
        ) by {
            assert(d[j] == t[j + 1]);
        }
        lemma_state_in_update(d, i - 1, e);
        assert forall|k: ReplicaKey|
            #[trigger] state_in(u, k) == if k == entry_key(e) {
                Some(e.state)
            } else {
                state_in(t, k)
            } by {
            assert(u[0] == t[0]);
            assert(entry_key(t[0]) != entry_key(e));
            if entry_key(t[0]) != k {
                assert(state_in(u, k) == state_in(d.update(i - 1, e), k));
                assert(state_in(t, k) == state_in(d, k));
            }
        }
    }
}

/// Appending a row for a replica absent from the table adds that replica alone.
proof fn lemma_state_in_push(t: Seq<ReplicaEntry>, e: ReplicaEntry)
    requires
        state_in(t, entry_key(e)) is None,
    ensures
        forall|k: ReplicaKey|
            #[trigger] state_in(t.push(e), k) == if k == entry_key(e) {
                Some(e.state)
            } else {
                state_in(t, k)
            },
    decreases t.len(),
{
    let u = t.push(e);
    if t.len() == 0 {
        assert(u.drop_first() =~= t);
        assert forall|k: ReplicaKey|
            #[trigger] state_in(u, k) == if k == entry_key(e) {
                Some(e.state)
            } else {
                state_in(t, k)
            } by {
            assert(u[0] == e);
            if k != entry_key(e) {
                assert(state_in(u, k) == state_in(t, k));
            }
        }
    } else {
        let d = t.drop_first();
        assert(u.drop_first() =~= d.push(e));
        assert(entry_key(t[0]) != entry_key(e));
        lemma_state_in_push(d, e);
        assert forall|k: ReplicaKey|
            #[trigger] state_in(u, k) == if k == entry_key(e) {
                Some(e.state)
            } else {
                state_in(t, k)
            } by {
            assert(u[0] == t[0]);
            if entry_key(t[0]) != k {
                assert(state_in(u, k) == state_in(d.push(e), k));
                assert(state_in(t, k) == state_in(d, k));
            }
        }
    }
}

/// Generation a replica has after a flush: one more, held at the largest value.
pub open spec fn next_generation(g: u64) -> u64 {
    if g < u64::MAX {
        (g + 1) as u64
    } else {
        g
    }
}

/// State a replica has after a report is applied to it.
pub open spec fn reported_state(
    m: Map<ReplicaKey, ReplicaState>,
    k: ReplicaKey,
    time: u64,
    interval: u64,
    observation: Observation,
) -> ReplicaState {
    ReplicaState {
        last: Some(LastReport { time, interval, observation }),
        generation: generation_in(m, k),
    }
}

/// State a replica has after a flush.
pub open spec fn flushed_state(m: Map<ReplicaKey, ReplicaState>, k: ReplicaKey) -> ReplicaState {
    ReplicaState { last: None, generation: next_generation(m[k].generation) }
}

/// Status that a replica's last report gives, if it has one.
pub open spec fn replica_status(st: ReplicaState, cpu_limit: i64, ram_limit: i64) -> Option<Status> {
    match st.last {
        None => None,
        Some(l) => match l.observation {
            Observation::Load(ld) => Some(load_status(ld, cpu_limit, ram_limit)),
            Observation::Health(h) => Some(h),
        },
    }
}

/// Some replica of node `n` of probe `p` in `m` reports status `s`.
pub open spec fn node_reports(
    m: Map<ReplicaKey, ReplicaState>,
    p: Seq<char>,
    n: Seq<char>,
    cpu_limit: i64,
    ram_limit: i64,
    s: Status,
) -> bool {
    exists|r: Seq<char>|
        m.contains_key((p, n, r)) && #[trigger] replica_status(m[(p, n, r)], cpu_limit, ram_limit)
            == Some(s)
}

/// Status of node `n` of probe `p`: dead when none of its replicas has a
/// report or one reports dead; else sick when one reports sick; else healthy.
pub open spec fn node_status_in(
    m: Map<ReplicaKey, ReplicaState>,
    p: Seq<char>,
    n: Seq<char>,
    cpu_limit: i64,
    ram_limit: i64,
) -> Status {
    if node_reports(m, p, n, cpu_limit, ram_limit, Status::Dead) || !(node_reports(
        m,
        p,
        n,
        cpu_limit,
        ram_limit,
        Status::Healthy,
    ) || node_reports(m, p, n, cpu_limit, ram_limit, Status::Sick)) {
        Status::Dead
    } else if node_reports(m, p, n, cpu_limit, ram_limit, Status::Sick) {
        Status::Sick
    } else {
        Status::Healthy
    }
}

/// One of the first `i` rows of `t` is a replica of node `n` of probe `p`
/// that reports status `s`.
spec fn rows_report(
    t: Seq<ReplicaEntry>,
    i: int,
    p: Seq<char>,
    n: Seq<char>,
    cpu_limit: i64,
    ram_limit: i64,
    s: Status,
) -> bool {
    exists|j: int|
        0 <= j < i && t[j].probe_id@ == p && t[j].node_id@ == n && #[trigger] replica_status(
            t[j].state,
            cpu_limit,
            ram_limit,
        ) == Some(s)
}

/// Over a table without repeated replicas, the rows report what the map does.
proof fn lemma_rows_report(
    t: Seq<ReplicaEntry>,
    p: Seq<char>,
    n: Seq<char>,
    cpu_limit: i64,
    ram_limit: i64,
    s: Status,
)
    requires
        keys_unique(t),
    ensures
        rows_report(t, t.len() as int, p, n, cpu_limit, ram_limit, s) == node_reports(
            table_map(t),
            p,
            n,
            cpu_limit,
            ram_limit,
            s,
        ),
{
    let m = table_map(t);
    if rows_report(t, t.len() as int, p, n, cpu_limit, ram_limit, s) {
        let j = choose|j: int|
            0 <= j < t.len() && t[j].probe_id@ == p && t[j].node_id@ == n
                && #[trigger] replica_status(t[j].state, cpu_limit, ram_limit) == Some(s);
        lemma_state_in_row(t, j);
        let r = t[j].replica_id@;
        assert(entry_key(t[j]) == (p, n, r));
        assert(m.contains_key((p, n, r)) && m[(p, n, r)] == t[j].state);
        assert(replica_status(m[(p, n, r)], cpu_limit, ram_limit) == Some(s));
    }
    if node_reports(m, p, n, cpu_limit, ram_limit, s) {
        let r = choose|r: Seq<char>|
            m.contains_key((p, n, r)) && #[trigger] replica_status(m[(p, n, r)], cpu_limit, ram_limit)
                == Some(s);
        lemma_state_in_has_row(t, (p, n, r));
        let j = choose|j: int|
            0 <= j < t.len() && entry_key(#[trigger] t[j]) == (p, n, r) && state_in(t, (p, n, r))
                == Some(t[j].state);
        assert(replica_status(t[j].state, cpu_limit, ram_limit) == Some(s));
    }
}

/// `after` is `before` with replica `k`, which had reported, flushed.
pub open spec fn is_flush_of(after: &Store, before: &Store, k: ReplicaKey) -> bool {
    &&& before.replica_map().contains_key(k)
    &&& after.replica_map() == before.replica_map().insert(k, flushed_state(before.replica_map(), k))
    &&& same_but_replicas(after, before)
}

/// Disabled set `d` after probe `p` is disabled under registry `reg`.
pub open spec fn set_after_disable(reg: Registry, d: Set<Seq<char>>, p: Seq<char>) -> Set<Seq<char>> {
    if reg.has_probe(p) {
        d.insert(p)
    } else {
        d
    }
}

/// Disabled set `d` after probe `p` is enabled.
pub open spec fn set_after_enable(d: Set<Seq<char>>, p: Seq<char>) -> Set<Seq<char>> {
    d.remove(p)
}

/// Why a probe could not be disabled or enabled.
#[derive(Clone, Copy, Debug, PartialEq, Eq, Structural)]
pub enum ToggleError {
    /// No probe of that name is registered.
    UnknownProbe,
    /// The probe is not disabled.
    NotDisabled,
}

/// The two stores differ at most in their replica states.
pub open spec fn same_but_replicas(a: &Store, b: &Store) -> bool {
    &&& a.wf() == b.wf()
    &&& a.registry_view() == b.registry_view()
    &&& a.disabled_set() == b.disabled_set()
    &&& a.cpu_limit() == b.cpu_limit()
    &&& a.ram_limit() == b.ram_limit()
}

/// The two stores differ at most in their disabled probes.
pub open spec fn same_but_disabled(a: &Store, b: &Store) -> bool {
    &&& a.registry_view() == b.registry_view()
    &&& a.replica_map() == b.replica_map()
    &&& a.cpu_limit() == b.cpu_limit()
    &&& a.ram_limit() == b.ram_limit()
}

/// The store: the registry, the replica table, the disabled probes and the
/// load thresholds (thousandths) above which a pushed load counts as sick.
#[derive(Debug)]
pub struct Store {
    registry: Registry,
    replicas: Vec<ReplicaEntry>,
    disabled: Vec<String>,
    cpu_sick_above: i64,
    ram_sick_above: i64,
}

impl Store {
    /// No probe identifier is twice in the disabled list, and no replica
    /// has two rows.
    pub closed spec fn wf(&self) -> bool {
        &&& forall|i: int, j: int|
            0 <= i < j < self.disabled@.len() ==> self.disabled@[i]@ != self.disabled@[j]@
        &&& keys_unique(self.replicas@)
    }

    pub closed spec fn registry_view(&self) -> Registry {
        self.registry
    }

    /// State of every replica that has reported.
    pub closed spec fn replica_map(&self) -> Map<ReplicaKey, ReplicaState> {
        table_map(self.replicas@)
    }

    /// Identifiers of the disabled probes.
    pub closed spec fn disabled_set(&self) -> Set<Seq<char>> {
        Set::new(
            |p: Seq<char>|
                exists|i: int| 0 <= i < self.disabled@.len() && #[trigger] self.disabled@[i]@ == p,
        )
    }

    pub closed spec fn cpu_limit(&self) -> i64 {
        self.cpu_sick_above
    }

    pub closed spec fn ram_limit(&self) -> i64 {
        self.ram_sick_above
    }

    /// A store over `registry` where no replica has reported and no probe is disabled.
    pub fn new(registry: Registry, cpu_sick_above: i64, ram_sick_above: i64) -> (s: Store)
        ensures
            s.wf(),
            s.registry_view() == registry,
            s.replica_map() == Map::<ReplicaKey, ReplicaState>::empty(),
            s.disabled_set() == Set::<Seq<char>>::empty(),
            s.cpu_limit() == cpu_sick_above,
            s.ram_limit() == ram_sick_above,
    {
        let s = Store {
            registry,
            replicas: Vec::new(),
            disabled: Vec::new(),
            cpu_sick_above,
            ram_sick_above,
        };
        assert(s.replica_map() =~= Map::<ReplicaKey, ReplicaState>::empty());
        assert(s.disabled_set() =~= Set::<Seq<char>>::empty());
        s
    }

    pub fn registry(&self) -> (r: &Registry)
        ensures
            *r == self.registry_view(),
    {
        &self.registry
    }

    pub fn cpu_sick_above(&self) -> (r: i64)
        ensures
            r == self.cpu_limit(),
    {
        self.cpu_sick_above
    }

    pub fn ram_sick_above(&self) -> (r: i64)
        ensures
            r == self.ram_limit(),
    {
        self.ram_sick_above
    }

    /// Index of the first row for the replica, if any.
    fn find_replica(&self, probe_id: &String, node_id: &String, replica_id: &String) -> (r:
        Option<usize>)
        ensures
            match r {
                Some(i) => {
                    &&& i < self.replicas@.len()
                    &&& entry_key(self.replicas@[i as int]) == (probe_id@, node_id@, replica_id@)
                    &&& forall|j: int|
                        0 <= j < i ==> entry_key(#[trigger] self.replicas@[j]) != (
                            probe_id@,
                            node_id@,
                            replica_id@,
                        )
                    &&& state_in(self.replicas@, (probe_id@, node_id@, replica_id@)) == Some(
                        self.replicas@[i as int].state,
                    )
                },
                None => {
                    &&& state_in(self.replicas@, (probe_id@, node_id@, replica_id@)) is None
                    &&& forall|j: int|
                        0 <= j < self.replicas@.len() ==> entry_key(#[trigger] self.replicas@[j])
                            != (probe_id@, node_id@, replica_id@)
                },
            },
    {
        let ghost k = (probe_id@, node_id@, replica_id@);
        let ghost t = self.replicas@;
        let mut i: usize = 0;
        assert(t.subrange(0, t.len() as int) =~= t);
        while i < self.replicas.len()
            invariant
                i <= t.len(),
                t == self.replicas@,
                k == (probe_id@, node_id@, replica_id@),
                state_in(t, k) == state_in(t.subrange(i as int, t.len() as int), k),
                forall|j: int| 0 <= j < i ==> entry_key(#[trigger] t[j]) != k,
            decreases t.len() - i,
        {
            let ghost rest = t.subrange(i as int, t.len() as int);
            assert(rest.drop_first() =~= t.subrange(i + 1, t.len() as int));
            assert(rest[0] == t[i as int]);
            let e = &self.replicas[i];
            if e.probe_id == *probe_id && e.node_id == *node_id && e.replica_id == *replica_id {
                return Some(i);
            }
            i = i + 1;
        }
        None
    }

    /// State of a replica, if it has reported.
    pub fn replica_state(&self, probe_id: &String, node_id: &String, replica_id: &String) -> (r:
        Option<ReplicaState>)
        ensures
            r == (if self.replica_map().contains_key((probe_id@, node_id@, replica_id@)) {
                Some(self.replica_map()[(probe_id@, node_id@, replica_id@)])
            } else {
                None
            }),
    {
        match self.find_replica(probe_id, node_id, replica_id) {
            Some(i) => Some(self.replicas[i].state),
            None => None,
        }
    }

    /// Current flush generation of a replica; a report captures it before it
    /// is applied.
    pub fn generation(&self, probe_id: &String, node_id: &String, replica_id: &String) -> (r: u64)
        ensures
            r == generation_in(self.replica_map(), (probe_id@, node_id@, replica_id@)),
    {
        match self.find_replica(probe_id, node_id, replica_id) {
            Some(i) => self.replicas[i].state.generation,
            None => 0,
        }
    }

    /// Sets the state of a replica, adding the replica if it is new.
    fn put_replica(
        &mut self,
        probe_id: &String,
        node_id: &String,
        replica_id: &String,
        state: ReplicaState,
    )
        requires
            old(self).wf(),
        ensures
            final(self).wf(),
            final(self).replica_map() == old(self).replica_map().insert(
                (probe_id@, node_id@, replica_id@),
                state,
            ),
            final(self).registry == old(self).registry,
            final(self).disabled == old(self).disabled,
            final(self).cpu_sick_above == old(self).cpu_sick_above,
            final(self).ram_sick_above == old(self).ram_sick_above,
    {
        let e = ReplicaEntry {
            probe_id: probe_id.clone(),
            node_id: node_id.clone(),
            replica_id: replica_id.clone(),
            state,
        };
        let ghost t = self.replicas@;
        match self.find_replica(probe_id, node_id, replica_id) {
            Some(i) => {
                proof {
                    lemma_state_in_update(t, i as int, e);
                }
                self.replicas.set(i, e);
                assert(keys_unique(self.replicas@)) by {
                    assert forall|a: int, b: int|
                        0 <= a < b < self.replicas@.len() implies entry_key(
                            #[trigger] self.replicas@[a],
                        ) != entry_key(#[trigger] self.replicas@[b]) by {
                        assert(entry_key(self.replicas@[a]) == entry_key(t[a]));
                        assert(entry_key(self.replicas@[b]) == entry_key(t[b]));
                    }
                }
            },
            None => {
                proof {
                    lemma_state_in_push(t, e);
                }
                self.replicas.push(e);
                assert(keys_unique(self.replicas@)) by {
                    assert forall|a: int, b: int|
                        0 <= a < b < self.replicas@.len() implies entry_key(
                            #[trigger] self.replicas@[a],
                        ) != entry_key(#[trigger] self.replicas@[b]) by {
                        assert(self.replicas@[a] == t[a]);
                        if b < t.len() {
                            assert(self.replicas@[b] == t[b]);
                        }
                    }
                }
            },
        }
        assert(self.replica_map() =~= old(self).replica_map().insert(
            (probe_id@, node_id@, replica_id@),
            state,
        ));
    }

    /// Applies an observation to a replica, unless the replica was flushed
    /// after `generation` was captured; returns whether it was applied.
    pub fn apply_report(
        &mut self,
        probe_id: &String,
        node_id: &String,
        replica_id: &String,
        interval: u64,
        observation: Observation,
        generation: u64,
        now: u64,
    ) -> (applied: bool)
        requires
            old(self).wf(),
        ensures
            applied == (generation >= generation_in(
                old(self).replica_map(),
                (probe_id@, node_id@, replica_id@),
            )),
            applied ==> final(self).replica_map() == old(self).replica_map().insert(
                (probe_id@, node_id@, replica_id@),
                reported_state(
                    old(self).replica_map(),
                    (probe_id@, node_id@, replica_id@),
                    now,
                    interval,
                    observation,
                ),
            ),
            applied ==> same_but_replicas(&*final(self), &*old(self)),
            !applied ==> *final(self) == *old(self),
    {
        let current = self.generation(probe_id, node_id, replica_id);
        if generation < current {
            return false;
        }
        let state = ReplicaState {
            last: Some(LastReport { time: now, interval, observation }),
            generation: current,
        };
        self.put_replica(probe_id, node_id, replica_id, state);
        true
    }

    /// Clears the last report of a registered replica and moves it to the
    /// next generation, so that reports captured before stay out.
    pub fn flush(&mut self, probe_id: &String, node_id: &String, replica_id: &String) -> (r: Result<
        (),
        ReportError,
    >)
        requires
            old(self).wf(),
        ensures
            r is Ok <==> old(self).registry_view().mode_of(probe_id@, node_id@) is Some
                && old(self).replica_map().contains_key((probe_id@, node_id@, replica_id@)),
            r is Err ==> r == Err::<(), ReportError>(ReportError::NotFound) && *final(self) == *old(
                self,
            ),
            r is Ok ==> is_flush_of(&*final(self), &*old(self), (probe_id@, node_id@, replica_id@)),
    {
        if self.registry.find_node(probe_id, node_id).is_none() {
            return Err(ReportError::NotFound);
        }
        match self.replica_state(probe_id, node_id, replica_id) {
            None => Err(ReportError::NotFound),
            Some(st) => {
                let generation = if st.generation < u64::MAX {
                    st.generation + 1
                } else {
                    st.generation
                };
                let state = ReplicaState { last: None, generation };
                self.put_replica(probe_id, node_id, replica_id, state);
                Ok(())
            },
        }
    }

    /// Index of a probe identifier in the disabled list.
    fn find_disabled(&self, probe_id: &String) -> (r: Option<usize>)
        ensures
            match r {
                Some(i) => i < self.disabled@.len() && self.disabled@[i as int]@ == probe_id@,
                None => forall|j: int|
                    0 <= j < self.disabled@.len() ==> #[trigger] self.disabled@[j]@ != probe_id@,
            },
    {
        let mut i: usize = 0;
        while i < self.disabled.len()
            invariant
                i <= self.disabled@.len(),
                forall|j: int| 0 <= j < i ==> #[trigger] self.disabled@[j]@ != probe_id@,
            decreases self.disabled@.len() - i,
        {
            if self.disabled[i] == *probe_id {
                return Some(i);
            }
            i = i + 1;
        }
        None
    }

    /// Whether a probe is disabled.
    pub fn is_disabled(&self, probe_id: &String) -> (r: bool)
        ensures
            r == self.disabled_set().contains(probe_id@),
    {
        match self.find_disabled(probe_id) {
            Some(_) => true,
            None => false,
        }
    }

    /// The disabled probes, in the order they were disabled.
    pub fn disabled_list(&self) -> (r: &Vec<String>)
        ensures
            forall|p: Seq<char>|
                self.disabled_set().contains(p) <==> exists|i: int|
                    0 <= i < r@.len() && #[trigger] r@[i]@ == p,
    {
        &self.disabled
    }

    /// Excludes a registered probe from status aggregation; disabling a
    /// disabled probe changes nothing.
    pub fn disable(&mut self, probe_id: String) -> (r: Result<(), ToggleError>)
        requires
            old(self).wf(),
        ensures
            final(self).wf(),
            final(self).disabled_set() == set_after_disable(
                old(self).registry_view(),
                old(self).disabled_set(),
                probe_id@,
            ),
            r is Ok <==> old(self).registry_view().has_probe(probe_id@),
            r is Ok ==> final(self).disabled_set() == old(self).disabled_set().insert(probe_id@)
                && same_but_disabled(&*final(self), &*old(self)),
            r is Err ==> r == Err::<(), ToggleError>(ToggleError::UnknownProbe) && *final(self)
                == *old(self),
    {
        if !self.registry.contains_probe(&probe_id) {
            return Err(ToggleError::UnknownProbe);
        }
        match self.find_disabled(&probe_id) {
            Some(i) => {
                assert(self.disabled_set() =~= old(self).disabled_set().insert(probe_id@));
            },
            None => {
                let ghost p = probe_id@;
                let ghost d = self.disabled@;
                self.disabled.push(probe_id);
                assert(self.disabled@[d.len() as int]@ == p);
                assert forall|x: Seq<char>| #[trigger]
                    self.disabled_set().contains(x) == old(self).disabled_set().insert(p).contains(
                        x,
                    ) by {
                    if old(self).disabled_set().contains(x) {
                        let i = choose|i: int| 0 <= i < d.len() && #[trigger] d[i]@ == x;
                        assert(self.disabled@[i]@ == x);
                    }
                    if self.disabled_set().contains(x) && x != p {
                        let i = choose|i: int|
                            0 <= i < self.disabled@.len() && #[trigger] self.disabled@[i]@ == x;
                        assert(d[i]@ == x);
                    }
                }
                assert(self.disabled_set() =~= old(self).disabled_set().insert(p));
            },
        }
        Ok(())
    }

    /// Brings a disabled probe back into status aggregation; a probe that is
    /// not disabled is reported and nothing changes.
    pub fn enable(&mut self, probe_id: &String) -> (r: Result<(), ToggleError>)
        requires
            old(self).wf(),
        ensures
            final(self).wf(),
            final(self).disabled_set() == set_after_enable(old(self).disabled_set(), probe_id@),
            r is Ok <==> old(self).disabled_set().contains(probe_id@),
            r is Ok ==> final(self).disabled_set() == old(self).disabled_set().remove(probe_id@)
                && same_but_disabled(&*final(self), &*old(self)),
            r is Err ==> r == Err::<(), ToggleError>(ToggleError::NotDisabled) && *final(self)
                == *old(self),
    {
        match self.find_disabled(probe_id) {
            None => {
                assert(!self.disabled_set().contains(probe_id@));
                assert(self.disabled_set() =~= self.disabled_set().remove(probe_id@));
                Err(ToggleError::NotDisabled)
            },
            Some(i) => {
                let ghost p = probe_id@;
                let ghost d = self.disabled@;
                self.disabled.remove(i);
                assert forall|j: int| 0 <= j < self.disabled@.len() implies #[trigger] self.disabled@[j]
                    == if j < i {
                    d[j]
                } else {
                    d[j + 1]
                } by {}
                assert forall|x: Seq<char>| #[trigger]
                    self.disabled_set().contains(x) == old(self).disabled_set().remove(p).contains(
                        x,
                    ) by {
                    if old(self).disabled_set().contains(x) && x != p {
                        let j = choose|j: int| 0 <= j < d.len() && #[trigger] d[j]@ == x;
                        if j < i {
                            assert(self.disabled@[j]@ == x);
                        } else {
                            assert(self.disabled@[j - 1]@ == x);
                        }
                    }
                    if self.disabled_set().contains(x) {
                        let j = choose|j: int|
                            0 <= j < self.disabled@.len() && #[trigger] self.disabled@[j]@ == x;
                        if j < i {
                            assert(d[j]@ == x);
                        } else {
                            assert(d[j + 1]@ == x);
                        }
                    }
                }
                assert(self.disabled_set() =~= old(self).disabled_set().remove(p));
                Ok(())
            },
        }
    }

    /// Status that a replica state gives under the store's thresholds.
    fn status_of_state(&self, st: ReplicaState) -> (r: Option<Status>)
        ensures
            r == replica_status(st, self.cpu_limit(), self.ram_limit()),
    {
        match st.last {
            None => None,
            Some(l) => match l.observation {
                Observation::Load(ld) => {
                    if ld.cpu > self.cpu_sick_above || ld.ram > self.ram_sick_above {
                        Some(Status::Sick)
                    } else {
                        Some(Status::Healthy)
                    }
                },
                Observation::Health(h) => Some(h),
            },
        }
    }

    /// Status of node `node_id` of probe `probe_id`, from its replicas' reports.
    pub fn node_status(&self, probe_id: &String, node_id: &String) -> (r: Status)
        requires
            self.wf(),
        ensures
            r == node_status_in(
                self.replica_map(),
                probe_id@,
                node_id@,
                self.cpu_limit(),
                self.ram_limit(),
            ),
    {
        let ghost t = self.replicas@;
        let ghost (p, n, c, m) = (probe_id@, node_id@, self.cpu_sick_above, self.ram_sick_above);
        let mut dead = false;
        let mut sick = false;
        let mut healthy = false;
        let mut i: usize = 0;
        while i < self.replicas.len()
            invariant
                i <= t.len(),
                t == self.replicas@,
                p == probe_id@ && n == node_id@,
                c == self.cpu_sick_above && m == self.ram_sick_above,
                dead == rows_report(t, i as int, p, n, c, m, Status::Dead),
                sick == rows_report(t, i as int, p, n, c, m, Status::Sick),
                healthy == rows_report(t, i as int, p, n, c, m, Status::Healthy),
            decreases t.len() - i,
        {
            let e = &self.replicas[i];
            let ghost j = i as int;
            if e.probe_id == *probe_id && e.node_id == *node_id {
                match self.status_of_state(e.state) {
                    Some(Status::Dead) => {
                        dead = true;
                    },
                    Some(Status::Sick) => {
                        sick = true;
                    },
                    Some(Status::Healthy) => {
                        healthy = true;
                    },
                    None => {},
                }
            }
            i = i + 1;
            proof {
                assert(dead == rows_report(t, i as int, p, n, c, m, Status::Dead)) by {
                    if rows_report(t, i as int, p, n, c, m, Status::Dead) && !rows_report(
                        t,
                        j,
                        p,
                        n,
                        c,
                        m,
                        Status::Dead,
                    ) {
                        let w = choose|w: int|
                            0 <= w < i && t[w].probe_id@ == p && t[w].node_id@ == n
                                && #[trigger] replica_status(t[w].state, c, m) == Some(Status::Dead);
                        assert(w == j);
                    }
                }
                assert(sick == rows_report(t, i as int, p, n, c, m, Status::Sick)) by {
                    if rows_report(t, i as int, p, n, c, m, Status::Sick) && !rows_report(
                        t,
                        j,
                        p,
                        n,
                        c,
                        m,
                        Status::Sick,
                    ) {
                        let w = choose|w: int|
                            0 <= w < i && t[w].probe_id@ == p && t[w].node_id@ == n
                                && #[trigger] replica_status(t[w].state, c, m) == Some(Status::Sick);
                        assert(w == j);
                    }
                }
                assert(healthy == rows_report(t, i as int, p, n, c, m, Status::Healthy)) by {
                    if rows_report(t, i as int, p, n, c, m, Status::Healthy) && !rows_report(
                        t,
                        j,
                        p,
                        n,
                        c,
                        m,
                        Status::Healthy,
                    ) {
                        let w = choose|w: int|
                            0 <= w < i && t[w].probe_id@ == p && t[w].node_id@ == n
                                && #[trigger] replica_status(t[w].state, c, m)
                                == Some(Status::Healthy);
                        assert(w == j);
                    }
                }
            }
        }
        proof {
            lemma_rows_report(t, p, n, c, m, Status::Dead);
            lemma_rows_report(t, p, n, c, m, Status::Sick);
            lemma_rows_report(t, p, n, c, m, Status::Healthy);
        }
        if dead || !(healthy || sick) {
            Status::Dead
        } else if sick {
            Status::Sick
        } else {
            Status::Healthy
        }
    }
}

} // verus!
