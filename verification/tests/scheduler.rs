use netpulse::probe::ProbeKind;
use netpulse::scheduler::ProbeJob;
use netpulse::scheduler::SchedulerAction;
use netpulse::scheduler::SchedulerEvent;
use netpulse::scheduler::SchedulerState;
use netpulse::scheduler::finish_probe;
use netpulse::scheduler::plan_tick;
use netpulse::scheduler::step;
use netpulse::types::ProbeResult;
use netpulse::types::Target;

fn target(id: &str, host: &str, port: u16, probe_type: &str) -> Target {
    Target {
        id: id.to_string(),
        name: id.to_string(),
        host: host.to_string(),
        port,
        probe_type: probe_type.to_string(),
    }
}

fn raw_result(ok: bool, latency_ms: u64) -> ProbeResult {
    ProbeResult { id: String::new(), ok, latency_ms, error: if ok { None } else { Some("x".to_string()) }, timestamp: 7 }
}

#[test]
fn plan_makes_one_job_per_target_in_order() {
    let targets = vec![target("a", "h1", 80, "tcp"), target("b", "h2", 0, "ping")];
    let jobs = plan_tick(&targets);
    assert_eq!(jobs.len(), 2);
    assert_eq!(jobs[0].id, "a");
    assert_eq!(jobs[0].host, "h1");
    assert_eq!(jobs[0].port, 80);
    assert!(matches!(jobs[0].kind, ProbeKind::Tcp));
    assert_eq!(jobs[1].id, "b");
    assert!(matches!(jobs[1].kind, ProbeKind::Ping));
}

#[test]
fn empty_plan_for_empty_snapshot() {
    let jobs = plan_tick(&vec![]);
    assert_eq!(jobs.len(), 0);
}

#[test]
fn finish_attaches_the_job_id() {
    let job = ProbeJob { id: "t9".to_string(), host: "h".to_string(), port: 1, kind: ProbeKind::Tcp };
    let r = finish_probe(&job, raw_result(true, 42));
    assert_eq!(r.id, "t9");
    assert!(r.ok);
    assert_eq!(r.latency_ms, 42);
    assert_eq!(r.timestamp, 7);
}

#[test]
fn empty_tick_launches_nothing() {
    let (state, action) = step(
        SchedulerState::Waiting,
        SchedulerEvent::Tick { targets: vec![] },
    );
    assert!(matches!(state, SchedulerState::Waiting));
    assert!(matches!(action, SchedulerAction::Idle));
}

#[test]
fn tick_launches_one_probe_per_target() {
    let targets = vec![
        target("a", "h1", 80, "tcp"),
        target("b", "h2", 0, "ping"),
        target("c", "h3", 22, "tcp"),
    ];
    let (state, action) = step(SchedulerState::Waiting, SchedulerEvent::Tick { targets });
    match &action {
        SchedulerAction::Launch { jobs } => {
            assert_eq!(jobs.len(), 3);
            assert_eq!(jobs[0].id, "a");
            assert_eq!(jobs[1].id, "b");
            assert_eq!(jobs[2].id, "c");
        }
        _ => panic!("expected a launch"),
    }
    assert!(matches!(state, SchedulerState::Running { .. }));
}

#[test]
fn tick_during_a_batch_is_skipped() {
    let targets = vec![target("a", "h1", 80, "tcp"), target("b", "h2", 7, "tcp")];
    let (state, _) = step(SchedulerState::Waiting, SchedulerEvent::Tick { targets });
    let (state, action) = step(
        state,
        SchedulerEvent::Tick { targets: vec![target("z", "h9", 9, "tcp")] },
    );
    assert!(matches!(action, SchedulerAction::SkipTick));
    match state {
        SchedulerState::Running { jobs, .. } => {
            assert_eq!(jobs.len(), 2);
            assert_eq!(jobs[0].id, "a");
        }
        SchedulerState::Waiting => panic!("the batch must stay in flight"),
    }
}

#[test]
fn batch_emits_one_event_per_target_in_completion_order() {
    let targets = vec![
        target("a", "h1", 80, "tcp"),
        target("b", "h2", 0, "ping"),
        target("c", "h3", 22, "tcp"),
    ];
    let (mut state, _) = step(SchedulerState::Waiting, SchedulerEvent::Tick { targets });

    let mut emitted: Vec<String> = Vec::new();
    for index in [2usize, 0, 1] {
        let (next, action) = step(
            state,
            SchedulerEvent::ProbeDone { index, raw: raw_result(true, 10) },
        );
        state = next;
        match action {
            SchedulerAction::Emit { result } => emitted.push(result.id),
            _ => panic!("every completion must be forwarded"),
        }
    }
    assert_eq!(emitted, vec!["c".to_string(), "a".to_string(), "b".to_string()]);
    assert!(matches!(state, SchedulerState::Waiting));
}

#[test]
fn unknown_completion_index_is_ignored() {
    let targets = vec![target("a", "h1", 80, "tcp")];
    let (state, _) = step(SchedulerState::Waiting, SchedulerEvent::Tick { targets });
    let (state, action) = step(
        state,
        SchedulerEvent::ProbeDone { index: 5, raw: raw_result(true, 1) },
    );
    assert!(matches!(action, SchedulerAction::Idle));
    assert!(matches!(state, SchedulerState::Running { .. }));
}

#[test]
fn duplicate_completion_is_ignored() {
    let targets = vec![target("a", "h1", 80, "tcp"), target("b", "h2", 7, "tcp")];
    let (state, _) = step(SchedulerState::Waiting, SchedulerEvent::Tick { targets });
    let (state, action) = step(
        state,
        SchedulerEvent::ProbeDone { index: 0, raw: raw_result(true, 1) },
    );
    assert!(matches!(action, SchedulerAction::Emit { .. }));
    let (state, action) = step(
        state,
        SchedulerEvent::ProbeDone { index: 0, raw: raw_result(false, 2) },
    );
    assert!(matches!(action, SchedulerAction::Idle));
    assert!(matches!(state, SchedulerState::Running { .. }));
}

#[test]
fn stray_completion_while_waiting_is_ignored() {
    let (state, action) = step(
        SchedulerState::Waiting,
        SchedulerEvent::ProbeDone { index: 0, raw: raw_result(true, 1) },
    );
    assert!(matches!(state, SchedulerState::Waiting));
    assert!(matches!(action, SchedulerAction::Idle));
}
