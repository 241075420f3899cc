//! The operations exposed to the transport layer: submit a report, flush a
//! replica, disable and enable a probe.
use vstd::prelude::*;
use crate::report::{
    classification, classify, load_status, Load, Observation, ReportError, ReportPayload, Status,
};
use crate::registry::Registry;
use crate::store::{
    generation_in, is_flush_of, reported_state, same_but_disabled, same_but_replicas,
    set_after_disable, set_after_enable, ReplicaKey, ReplicaState, Store, ToggleError,
};

verus! {

/// What an accepted load report hands on to plugin dispatch.
#[derive(Clone, Copy, Debug, PartialEq, Eq, Structural)]
pub struct Forward {
    pub load: Load,
    pub status: Status,
}

/// How an accepted report was taken.
#[derive(Clone, Copy, Debug, PartialEq, Eq, Structural)]
pub enum Accepted {
    /// A load was applied; the value is for plugin dispatch.
    Load(Forward),
    /// A health was applied.
    Health,
    /// The replica was flushed after the report's generation was captured,
    /// so the report was dropped.
    Superseded,
}

/// What an applied observation answers.
pub open spec fn accepted_for(o: Observation, cpu_limit: i64, ram_limit: i64) -> Accepted {
    match o {
        Observation::Load(l) => Accepted::Load(
            Forward { load: l, status: load_status(l, cpu_limit, ram_limit) },
        ),
        Observation::Health(_) => Accepted::Health,
    }
}

/// The observation that a report on probe `p`, node `n`, captured at flush
/// generation `generation`, applies to replica table `m`, if it applies one.
pub open spec fn applied_observation(
    reg: Registry,
    m: Map<ReplicaKey, ReplicaState>,
    p: Seq<char>,
    n: Seq<char>,
    payload: &ReportPayload,
    generation: u64,
) -> Option<Observation> {
    match reg.mode_of(p, n) {
        None => None,
        Some(mode) => match classification(mode, payload.load, payload.health) {
            Err(_) => None,
            Ok(o) => if generation < generation_in(m, (p, n, payload.replica@)) {
                None
            } else {
                Some(o)
            },
        },
    }
}

/// Replica table `m` after such a report arrives at time `now`.
pub open spec fn replicas_after_report(
    reg: Registry,
    m: Map<ReplicaKey, ReplicaState>,
    p: Seq<char>,
    n: Seq<char>,
    payload: &ReportPayload,
    generation: u64,
    now: u64,
) -> Map<ReplicaKey, ReplicaState> {
    let k: ReplicaKey = (p, n, payload.replica@);
    match applied_observation(reg, m, p, n, payload, generation) {
        Some(o) => m.insert(k, reported_state(m, k, now, payload.interval, o)),
        None => m,
    }
}

/// Outcome of a report on probe `p`, node `n` of store `s`, captured at `generation`.
pub open spec fn report_outcome(
    s: &Store,
    p: Seq<char>,
    n: Seq<char>,
    payload: &ReportPayload,
    generation: u64,
) -> Result<Accepted, ReportError> {
    match s.registry_view().mode_of(p, n) {
        None => Err(ReportError::NotFound),
        Some(mode) => match classification(mode, payload.load, payload.health) {
            Err(e) => Err(e),
            Ok(o) => if generation < generation_in(s.replica_map(), (p, n, payload.replica@)) {
                Ok(Accepted::Superseded)
            } else {
                Ok(accepted_for(o, s.cpu_limit(), s.ram_limit()))
            },
        },
    }
}

/// Status of a load under the store's thresholds.
fn status_of_load(store: &Store, l: Load) -> (r: Status)
    ensures
        r == load_status(l, store.cpu_limit(), store.ram_limit()),
{
    if l.cpu > store.cpu_sick_above() || l.ram > store.ram_sick_above() {
        Status::Sick
    } else {
        Status::Healthy
    }
}

/// Submits a report from replica `payload.replica` of node `node_id` of
/// probe `probe_id`, which captured flush generation `generation`, at time
/// `now`. The store changes only when the report is applied.
pub fn reporter_report(
    store: &mut Store,
    probe_id: &String,
    node_id: &String,
    payload: &ReportPayload,
    generation: u64,
    now: u64,
) -> (r: Result<Accepted, ReportError>)
    requires
        old(store).wf(),
    ensures
        r == report_outcome(&*old(store), probe_id@, node_id@, payload, generation),
        final(store).replica_map() == replicas_after_report(
            old(store).registry_view(),
            old(store).replica_map(),
            probe_id@,
            node_id@,
            payload,
            generation,
            now,
        ),
        same_but_replicas(&*final(store), &*old(store)),
        applied_observation(
            old(store).registry_view(),
            old(store).replica_map(),
            probe_id@,
            node_id@,
            payload,
            generation,
        ) is None ==> *final(store) == *old(store),
{
    let mode = match store.registry().find_node(probe_id, node_id) {
        Some(m) => m,
        None => return Err(ReportError::NotFound),
    };
    let observation = match classify(mode, payload) {
        Ok(o) => o,
        Err(e) => return Err(e),
    };
    let applied = store.apply_report(
        probe_id,
        node_id,
        &payload.replica,
        payload.interval,
        observation,
        generation,
        now,
    );
    if !applied {
        return Ok(Accepted::Superseded);
    }
    match observation {
        Observation::Load(l) => {
            let status = status_of_load(store, l);
            Ok(Accepted::Load(Forward { load: l, status }))
        },
        Observation::Health(_) => Ok(Accepted::Health),
    }
}

/// Flushes replica `replica_id` of node `node_id` of probe `probe_id`,
/// whatever the node's mode.
pub fn reporter_flush(
    store: &mut Store,
    probe_id: &String,
    node_id: &String,
    replica_id: &String,
) -> (r: Result<(), ReportError>)
    requires
        old(store).wf(),
    ensures
        r is Ok <==> old(store).registry_view().mode_of(probe_id@, node_id@) is Some
            && old(store).replica_map().contains_key((probe_id@, node_id@, replica_id@)),
        r is Err ==> r == Err::<(), ReportError>(ReportError::NotFound) && *final(store) == *old(
            store,
        ),
        r is Ok ==> is_flush_of(&*final(store), &*old(store), (probe_id@, node_id@, replica_id@)),
{
    store.flush(probe_id, node_id, replica_id)
}

/// Disables the probe named `service_name`, if it is registered.
pub fn disable_service(store: &mut Store, service_name: String) -> (r: Result<(), ToggleError>)
    requires
        old(store).wf(),
    ensures
        final(store).wf(),
        final(store).disabled_set() == set_after_disable(
            old(store).registry_view(),
            old(store).disabled_set(),
            service_name@,
        ),
        r is Ok <==> old(store).registry_view().has_probe(service_name@),
        r is Ok ==> final(store).disabled_set() == old(store).disabled_set().insert(service_name@)
            && same_but_disabled(&*final(store), &*old(store)),
        r is Err ==> r == Err::<(), ToggleError>(ToggleError::UnknownProbe) && *final(store)
            == *old(store),
{
    store.disable(service_name)
}

/// Enables the probe named `service_name`, if it is disabled.
pub fn enable_service(store: &mut Store, service_name: String) -> (r: Result<(), ToggleError>)
    requires
        old(store).wf(),
    ensures
        final(store).wf(),
        final(store).disabled_set() == set_after_enable(old(store).disabled_set(), service_name@),
        r is Ok <==> old(store).disabled_set().contains(service_name@),
        r is Ok ==> final(store).disabled_set() == old(store).disabled_set().remove(service_name@)
            && same_but_disabled(&*final(store), &*old(store)),
        r is Err ==> r == Err::<(), ToggleError>(ToggleError::NotDisabled) && *final(store)
            == *old(store),
{
    store.enable(&service_name)
}

} // verus!
