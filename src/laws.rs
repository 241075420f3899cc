//! Properties that relate reports, flushes and toggles across calls, stated
//! over the spec functions that the operations' contracts use.
use vstd::prelude::*;
use crate::registry::Registry;
use crate::report::{classification, load_is_valid, load_status, Mode, Observation, ReportError, ReportPayload};
use crate::routes::{
    applied_observation, replicas_after_report, report_outcome, Accepted, Forward,
};
use crate::store::{
    generation_in, is_flush_of, set_after_disable, set_after_enable, LastReport, ReplicaKey,
    ReplicaState, Store,
};

verus! {

/// A well-formed load report from a push node, captured at the replica's
/// current generation, is accepted, and afterwards the replica holds its load.
pub proof fn law_push_node_accepts_load(
    s: &Store,
    p: Seq<char>,
    n: Seq<char>,
    payload: &ReportPayload,
    now: u64,
)
    requires
        s.registry_view().mode_of(p, n) == Some(Mode::Push),
        payload.health is None,
        payload.load is Some,
        load_is_valid(payload.load.unwrap()),
    ensures
        report_outcome(s, p, n, payload, generation_in(s.replica_map(), (p, n, payload.replica@)))
            == Ok::<Accepted, ReportError>(
            Accepted::Load(
                Forward {
                    load: payload.load.unwrap(),
                    status: load_status(payload.load.unwrap(), s.cpu_limit(), s.ram_limit()),
                },
            ),
        ),
        replicas_after_report(
            s.registry_view(),
            s.replica_map(),
            p,
            n,
            payload,
            generation_in(s.replica_map(), (p, n, payload.replica@)),
            now,
        )[(p, n, payload.replica@)].last == Some(
            LastReport {
                time: now,
                interval: payload.interval,
                observation: Observation::Load(payload.load.unwrap()),
            },
        ),
{
}

/// A health report to a push node is refused as the wrong mode and leaves
/// the replica table as it was.
pub proof fn law_push_node_refuses_health(
    s: &Store,
    p: Seq<char>,
    n: Seq<char>,
    payload: &ReportPayload,
    generation: u64,
    now: u64,
)
    requires
        s.registry_view().mode_of(p, n) == Some(Mode::Push),
        payload.load is None,
        payload.health is Some,
    ensures
        report_outcome(s, p, n, payload, generation) == Err::<Accepted, ReportError>(
            ReportError::WrongMode,
        ),
        applied_observation(s.registry_view(), s.replica_map(), p, n, payload, generation) is None,
        replicas_after_report(s.registry_view(), s.replica_map(), p, n, payload, generation, now)
            == s.replica_map(),
{
}

/// A health report from a local node, captured at the replica's current
/// generation, is accepted, and afterwards the replica holds that health.
pub proof fn law_local_node_accepts_health(
    s: &Store,
    p: Seq<char>,
    n: Seq<char>,
    payload: &ReportPayload,
    now: u64,
)
    requires
        s.registry_view().mode_of(p, n) == Some(Mode::Local),
        payload.load is None,
        payload.health is Some,
    ensures
        report_outcome(s, p, n, payload, generation_in(s.replica_map(), (p, n, payload.replica@)))
            == Ok::<Accepted, ReportError>(Accepted::Health),
        replicas_after_report(
            s.registry_view(),
            s.replica_map(),
            p,
            n,
            payload,
            generation_in(s.replica_map(), (p, n, payload.replica@)),
            now,
        )[(p, n, payload.replica@)].last == Some(
            LastReport {
                time: now,
                interval: payload.interval,
                observation: Observation::Health(payload.health.unwrap()),
            },
        ),
{
}

/// A load report to a local node is refused as the wrong mode and leaves the
/// replica table as it was.
pub proof fn law_local_node_refuses_load(
    s: &Store,
    p: Seq<char>,
    n: Seq<char>,
    payload: &ReportPayload,
    generation: u64,
    now: u64,
)
    requires
        s.registry_view().mode_of(p, n) == Some(Mode::Local),
        payload.load is Some,
        payload.health is None,
    ensures
        report_outcome(s, p, n, payload, generation) == Err::<Accepted, ReportError>(
            ReportError::WrongMode,
        ),
        applied_observation(s.registry_view(), s.replica_map(), p, n, payload, generation) is None,
        replicas_after_report(s.registry_view(), s.replica_map(), p, n, payload, generation, now)
            == s.replica_map(),
{
}

/// A report for a probe or node that is not registered is not found,
/// whatever its payload, and leaves the replica table as it was.
pub proof fn law_unknown_node_not_found(
    s: &Store,
    p: Seq<char>,
    n: Seq<char>,
    payload: &ReportPayload,
    generation: u64,
    now: u64,
)
    requires
        s.registry_view().mode_of(p, n) is None,
    ensures
        report_outcome(s, p, n, payload, generation) == Err::<Accepted, ReportError>(
            ReportError::NotFound,
        ),
        applied_observation(s.registry_view(), s.replica_map(), p, n, payload, generation) is None,
        replicas_after_report(s.registry_view(), s.replica_map(), p, n, payload, generation, now)
            == s.replica_map(),
{
}

/// After a flush, a report whose generation was captured before the flush is
/// dropped, and the replica stays flushed.
pub proof fn law_flush_drops_stale_report(
    before: &Store,
    after: &Store,
    p: Seq<char>,
    n: Seq<char>,
    payload: &ReportPayload,
    generation: u64,
    now: u64,
)
    requires
        is_flush_of(after, before, (p, n, payload.replica@)),
        before.replica_map()[(p, n, payload.replica@)].generation < u64::MAX,
        generation <= generation_in(before.replica_map(), (p, n, payload.replica@)),
    ensures
        applied_observation(after.registry_view(), after.replica_map(), p, n, payload, generation)
            is None,
        replicas_after_report(
            after.registry_view(),
            after.replica_map(),
            p,
            n,
            payload,
            generation,
            now,
        ) == after.replica_map(),
        after.replica_map()[(p, n, payload.replica@)].last is None,
{
}

/// After a flush, a report captured at the new generation or later applies
/// as any report does.
pub proof fn law_flush_admits_current_report(
    before: &Store,
    after: &Store,
    p: Seq<char>,
    n: Seq<char>,
    payload: &ReportPayload,
    generation: u64,
    now: u64,
)
    requires
        is_flush_of(after, before, (p, n, payload.replica@)),
        generation >= generation_in(after.replica_map(), (p, n, payload.replica@)),
        after.registry_view().mode_of(p, n) is Some,
        classification(after.registry_view().mode_of(p, n).unwrap(), payload.load, payload.health) is Ok,
    ensures
        replicas_after_report(
            after.registry_view(),
            after.replica_map(),
            p,
            n,
            payload,
            generation,
            now,
        )[(p, n, payload.replica@)] == (ReplicaState {
            last: Some(
                LastReport {
                    time: now,
                    interval: payload.interval,
                    observation: classification(
                        after.registry_view().mode_of(p, n).unwrap(),
                        payload.load,
                        payload.health,
                    ).unwrap(),
                },
            ),
            generation: after.replica_map()[(p, n, payload.replica@)].generation,
        }),
{
}

/// Disabling a probe that is not disabled and then enabling it gives back
/// the disabled set that was there before.
pub proof fn law_disable_then_enable(reg: Registry, d: Set<Seq<char>>, p: Seq<char>)
    requires
        !d.contains(p),
    ensures
        set_after_enable(set_after_disable(reg, d, p), p) == d,
{
    assert(set_after_enable(set_after_disable(reg, d, p), p) =~= d);
}

/// Reports to two distinct replicas of one node do not interfere: the second
/// is decided as if the first had not come, the first's update survives, and
/// either order gives the same replica table.
pub proof fn law_distinct_replicas_independent(
    reg: Registry,
    m: Map<ReplicaKey, ReplicaState>,
    p: Seq<char>,
    n: Seq<char>,
    a: &ReportPayload,
    ga: u64,
    now_a: u64,
    b: &ReportPayload,
    gb: u64,
    now_b: u64,
)
    requires
        a.replica@ != b.replica@,
    ensures
        applied_observation(
            reg,
            replicas_after_report(reg, m, p, n, a, ga, now_a),
            p,
            n,
            b,
            gb,
        ) == applied_observation(reg, m, p, n, b, gb),
        applied_observation(reg, m, p, n, a, ga) is Some ==> replicas_after_report(
            reg,
            replicas_after_report(reg, m, p, n, a, ga, now_a),
            p,
            n,
            b,
            gb,
            now_b,
        )[(p, n, a.replica@)] == replicas_after_report(reg, m, p, n, a, ga, now_a)[(
            p,
            n,
            a.replica@,
        )],
        replicas_after_report(
            reg,
            replicas_after_report(reg, m, p, n, a, ga, now_a),
            p,
            n,
            b,
            gb,
            now_b,
        ) == replicas_after_report(
            reg,
            replicas_after_report(reg, m, p, n, b, gb, now_b),
            p,
            n,
            a,
            ga,
            now_a,
        ),
{
    let ka: ReplicaKey = (p, n, a.replica@);
    let kb: ReplicaKey = (p, n, b.replica@);
    let ma = replicas_after_report(reg, m, p, n, a, ga, now_a);
    let mb = replicas_after_report(reg, m, p, n, b, gb, now_b);
    assert(generation_in(ma, kb) == generation_in(m, kb));
    assert(generation_in(mb, ka) == generation_in(m, ka));
    assert(replicas_after_report(reg, ma, p, n, b, gb, now_b) =~= replicas_after_report(
        reg,
        mb,
        p,
        n,
        a,
        ga,
        now_a,
    ));
}

} // verus!
