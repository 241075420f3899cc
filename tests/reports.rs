use vigil::registry::{NodeDef, ProbeDef, Registry};
use vigil::report::{classify, Load, Mode, Observation, ReportError, ReportPayload, Status};
use vigil::routes::{
    disable_service, enable_service, reporter_flush, reporter_report, Accepted, Forward,
};
use vigil::store::{LastReport, Store, ToggleError};

fn s(x: &str) -> String {
    x.to_string()
}

fn registry() -> Registry {
    Registry {
        probes: vec![
            ProbeDef {
                id: s("api"),
                nodes: vec![
                    NodeDef { id: s("worker-1"), mode: Mode::Push },
                    NodeDef { id: s("health-1"), mode: Mode::Local },
                ],
            },
            ProbeDef { id: s("db"), nodes: vec![NodeDef { id: s("main"), mode: Mode::Local }] },
        ],
    }
}

fn store() -> Store {
    Store::new(registry(), 700, 800)
}

fn load(replica: &str, cpu: i64, ram: i64) -> ReportPayload {
    ReportPayload { replica: s(replica), interval: 10, load: Some(Load { cpu, ram }), health: None }
}

fn health(replica: &str, h: Status) -> ReportPayload {
    ReportPayload { replica: s(replica), interval: 30, load: None, health: Some(h) }
}

fn submit(st: &mut Store, p: &str, n: &str, payload: &ReportPayload, now: u64) -> Result<Accepted, ReportError> {
    let g = st.generation(&s(p), &s(n), &payload.replica);
    reporter_report(st, &s(p), &s(n), payload, g, now)
}

#[test]
fn example_push_node_scenario() {
    let mut st = store();
    let r = submit(&mut st, "api", "worker-1", &load("r1", 420, 770), 100);
    assert_eq!(
        r,
        Ok(Accepted::Load(Forward { load: Load { cpu: 420, ram: 770 }, status: Status::Healthy }))
    );
    let state = st.replica_state(&s("api"), &s("worker-1"), &s("r1")).unwrap();
    assert_eq!(
        state.last,
        Some(LastReport {
            time: 100,
            interval: 10,
            observation: Observation::Load(Load { cpu: 420, ram: 770 })
        })
    );
    assert_eq!(
        submit(&mut st, "api", "worker-1", &health("r1", Status::Healthy), 101),
        Err(ReportError::WrongMode)
    );
    assert_eq!(
        submit(&mut st, "unknown", "worker-1", &load("r1", 420, 770), 102),
        Err(ReportError::NotFound)
    );
}

#[test]
fn load_above_threshold_is_sick() {
    let mut st = store();
    let r = submit(&mut st, "api", "worker-1", &load("r1", 900, 100), 1);
    assert_eq!(
        r,
        Ok(Accepted::Load(Forward { load: Load { cpu: 900, ram: 100 }, status: Status::Sick }))
    );
    let r = submit(&mut st, "api", "worker-1", &load("r1", 100, 801), 2);
    assert_eq!(
        r,
        Ok(Accepted::Load(Forward { load: Load { cpu: 100, ram: 801 }, status: Status::Sick }))
    );
    let r = submit(&mut st, "api", "worker-1", &load("r1", 700, 800), 3);
    assert_eq!(
        r,
        Ok(Accepted::Load(Forward { load: Load { cpu: 700, ram: 800 }, status: Status::Healthy }))
    );
}

#[test]
fn wrong_mode_leaves_store_unchanged() {
    let mut st = store();
    submit(&mut st, "api", "worker-1", &load("r1", 100, 100), 1).unwrap();
    let before = st.replica_state(&s("api"), &s("worker-1"), &s("r1"));
    assert_eq!(
        submit(&mut st, "api", "worker-1", &health("r1", Status::Dead), 2),
        Err(ReportError::WrongMode)
    );
    assert_eq!(st.replica_state(&s("api"), &s("worker-1"), &s("r1")), before);
}

#[test]
fn local_node_takes_health_and_refuses_load() {
    let mut st = store();
    assert_eq!(submit(&mut st, "api", "health-1", &health("h", Status::Sick), 5), Ok(Accepted::Health));
    let state = st.replica_state(&s("api"), &s("health-1"), &s("h")).unwrap();
    assert_eq!(state.last.unwrap().observation, Observation::Health(Status::Sick));
    assert_eq!(state.last.unwrap().interval, 30);
    assert_eq!(
        submit(&mut st, "db", "main", &load("h", 1, 1), 6),
        Err(ReportError::WrongMode)
    );
    assert_eq!(st.replica_state(&s("db"), &s("main"), &s("h")), None);
}

#[test]
fn unknown_node_is_not_found_for_any_payload() {
    let mut st = store();
    let malformed = ReportPayload { replica: s("r"), interval: 1, load: None, health: None };
    assert_eq!(submit(&mut st, "api", "nope", &malformed, 1), Err(ReportError::NotFound));
    assert_eq!(submit(&mut st, "api", "nope", &load("r", -1, 0), 1), Err(ReportError::NotFound));
    assert_eq!(
        submit(&mut st, "ghost", "main", &health("r", Status::Healthy), 1),
        Err(ReportError::NotFound)
    );
}

#[test]
fn malformed_and_invalid_payloads() {
    let mut st = store();
    let neither = ReportPayload { replica: s("r"), interval: 1, load: None, health: None };
    assert_eq!(submit(&mut st, "api", "worker-1", &neither, 1), Err(ReportError::Malformed));
    let both = ReportPayload {
        replica: s("r"),
        interval: 1,
        load: Some(Load { cpu: 1, ram: 1 }),
        health: Some(Status::Healthy),
    };
    assert_eq!(submit(&mut st, "api", "worker-1", &both, 1), Err(ReportError::Malformed));
    assert_eq!(submit(&mut st, "api", "worker-1", &load("r", -5, 10), 1), Err(ReportError::InvalidLoad));
    assert_eq!(submit(&mut st, "api", "worker-1", &load("r", 5, -10), 1), Err(ReportError::InvalidLoad));
    assert_eq!(st.replica_state(&s("api"), &s("worker-1"), &s("r")), None);
}

#[test]
fn classify_decides_by_mode_and_shape() {
    assert_eq!(classify(Mode::Push, &load("r", 0, 0)), Ok(Observation::Load(Load { cpu: 0, ram: 0 })));
    assert_eq!(classify(Mode::Local, &load("r", 0, 0)), Err(ReportError::WrongMode));
    assert_eq!(classify(Mode::Local, &load("r", -1, 0)), Err(ReportError::WrongMode));
    assert_eq!(classify(Mode::Local, &health("r", Status::Dead)), Ok(Observation::Health(Status::Dead)));
    assert_eq!(classify(Mode::Push, &health("r", Status::Dead)), Err(ReportError::WrongMode));
}

#[test]
fn flush_drops_stale_report_and_admits_current_one() {
    let mut st = store();
    submit(&mut st, "api", "worker-1", &load("r1", 100, 100), 1).unwrap();
    let captured = st.generation(&s("api"), &s("worker-1"), &s("r1"));
    assert_eq!(captured, 0);
    assert_eq!(reporter_flush(&mut st, &s("api"), &s("worker-1"), &s("r1")), Ok(()));
    let flushed = st.replica_state(&s("api"), &s("worker-1"), &s("r1")).unwrap();
    assert_eq!(flushed.last, None);
    assert_eq!(flushed.generation, 1);
    let stale = reporter_report(&mut st, &s("api"), &s("worker-1"), &load("r1", 200, 200), captured, 2);
    assert_eq!(stale, Ok(Accepted::Superseded));
    assert_eq!(st.replica_state(&s("api"), &s("worker-1"), &s("r1")).unwrap().last, None);
    let fresh = reporter_report(&mut st, &s("api"), &s("worker-1"), &load("r1", 300, 300), 1, 3);
    assert!(matches!(fresh, Ok(Accepted::Load(_))));
    let state = st.replica_state(&s("api"), &s("worker-1"), &s("r1")).unwrap();
    assert_eq!(state.generation, 1);
    assert_eq!(state.last.unwrap().observation, Observation::Load(Load { cpu: 300, ram: 300 }));
}

#[test]
fn flush_of_unknown_replica_is_not_found() {
    let mut st = store();
    assert_eq!(reporter_flush(&mut st, &s("api"), &s("worker-1"), &s("r1")), Err(ReportError::NotFound));
    assert_eq!(reporter_flush(&mut st, &s("api"), &s("nope"), &s("r1")), Err(ReportError::NotFound));
    submit(&mut st, "api", "health-1", &health("h", Status::Healthy), 1).unwrap();
    assert_eq!(reporter_flush(&mut st, &s("api"), &s("health-1"), &s("h")), Ok(()));
}

#[test]
fn distinct_replicas_keep_their_own_reports() {
    let mut st = store();
    submit(&mut st, "api", "worker-1", &load("r1", 100, 110), 1).unwrap();
    submit(&mut st, "api", "worker-1", &load("r2", 200, 220), 2).unwrap();
    let a = st.replica_state(&s("api"), &s("worker-1"), &s("r1")).unwrap().last.unwrap();
    let b = st.replica_state(&s("api"), &s("worker-1"), &s("r2")).unwrap().last.unwrap();
    assert_eq!(a.observation, Observation::Load(Load { cpu: 100, ram: 110 }));
    assert_eq!(b.observation, Observation::Load(Load { cpu: 200, ram: 220 }));
    submit(&mut st, "api", "worker-1", &load("r1", 150, 160), 3).unwrap();
    let a = st.replica_state(&s("api"), &s("worker-1"), &s("r1")).unwrap().last.unwrap();
    let b2 = st.replica_state(&s("api"), &s("worker-1"), &s("r2")).unwrap().last.unwrap();
    assert_eq!(a.observation, Observation::Load(Load { cpu: 150, ram: 160 }));
    assert_eq!(a.time, 3);
    assert_eq!(b2, b);
}

#[test]
fn disable_then_enable_restores_disabled_set() {
    let mut st = store();
    assert_eq!(disable_service(&mut st, s("db")), Ok(()));
    assert!(st.is_disabled(&s("db")));
    assert_eq!(disable_service(&mut st, s("api")), Ok(()));
    assert_eq!(disable_service(&mut st, s("api")), Ok(()));
    assert_eq!(st.disabled_list().len(), 2);
    assert_eq!(enable_service(&mut st, s("api")), Ok(()));
    assert!(!st.is_disabled(&s("api")));
    assert_eq!(st.disabled_list(), &vec![s("db")]);
}

#[test]
fn toggle_errors() {
    let mut st = store();
    assert_eq!(disable_service(&mut st, s("nope")), Err(ToggleError::UnknownProbe));
    assert!(st.disabled_list().is_empty());
    assert_eq!(enable_service(&mut st, s("api")), Err(ToggleError::NotDisabled));
    assert!(st.disabled_list().is_empty());
}

#[test]
fn status_words() {
    assert_eq!(Status::Healthy.as_str(), "healthy");
    assert_eq!(Status::Sick.as_str(), "sick");
    assert_eq!(Status::Dead.as_str(), "dead");
    assert_eq!(Status::Healthy.worst(Status::Sick), Status::Sick);
    assert_eq!(Status::Dead.worst(Status::Sick), Status::Dead);
}

#[test]
fn node_without_reports_is_dead() {
    let st = store();
    assert_eq!(st.node_status(&s("api"), &s("worker-1")), Status::Dead);
    assert_eq!(st.overall_status(), Status::Dead);
    assert_eq!(st.status_text(), "dead");
}

#[test]
fn node_status_is_worst_of_its_replicas() {
    let mut st = store();
    submit(&mut st, "api", "worker-1", &load("r1", 100, 100), 1).unwrap();
    assert_eq!(st.node_status(&s("api"), &s("worker-1")), Status::Healthy);
    submit(&mut st, "api", "worker-1", &load("r2", 999, 100), 1).unwrap();
    assert_eq!(st.node_status(&s("api"), &s("worker-1")), Status::Sick);
    reporter_flush(&mut st, &s("api"), &s("worker-1"), &s("r2")).unwrap();
    assert_eq!(st.node_status(&s("api"), &s("worker-1")), Status::Healthy);
    reporter_flush(&mut st, &s("api"), &s("worker-1"), &s("r1")).unwrap();
    assert_eq!(st.node_status(&s("api"), &s("worker-1")), Status::Dead);
}

#[test]
fn overall_status_skips_disabled_probes() {
    let mut st = store();
    submit(&mut st, "api", "worker-1", &load("r1", 100, 100), 1).unwrap();
    submit(&mut st, "api", "health-1", &health("h", Status::Sick), 1).unwrap();
    submit(&mut st, "db", "main", &health("m", Status::Healthy), 1).unwrap();
    let reg = st.registry();
    assert_eq!(st.probe_status(&reg.probes[0]), Status::Sick);
    assert_eq!(st.probe_status(&reg.probes[1]), Status::Healthy);
    assert_eq!(st.overall_status(), Status::Sick);
    assert_eq!(st.status_text(), "sick");
    disable_service(&mut st, s("api")).unwrap();
    assert_eq!(st.overall_status(), Status::Healthy);
    assert_eq!(st.status_text(), "healthy");
    disable_service(&mut st, s("db")).unwrap();
    submit(&mut st, "db", "main", &health("m", Status::Dead), 2).unwrap();
    assert_eq!(st.overall_status(), Status::Healthy);
    enable_service(&mut st, s("db")).unwrap();
    assert_eq!(st.overall_status(), Status::Dead);
}
