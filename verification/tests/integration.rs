use lau_construct_integration::circuit::{classify, CircuitStatus, CircuitTracker};
use lau_construct_integration::ensign::Ensign;
use lau_construct_integration::port::MemoryPort;
use lau_construct_integration::provenance::{
    frame_ledger_line, split_ledger_lines, GitAgent, ProvenanceEntry,
};
use lau_construct_integration::provider::CompletionRequest;
use lau_construct_integration::sandbox::{Universe, ZeroClaw};
use lau_construct_integration::tick::{Priority, TickQueue, TickTask};
use std::collections::HashMap;
use std::path::Path;
use tempfile::TempDir;

// A message as the port carries it in these tests.
struct Message {
    id: String,
    source: String,
    target_room: String,
    body: String,
    gravity: f64,
    timestamp: i64,
}

fn path_text(p: &Path) -> &str {
    p.to_str().unwrap()
}

// The band of a reading against the thresholds 0 / 20 / 80 / 100.
fn band(value: f64) -> CircuitStatus {
    let (low_crit, low_warn, high_warn, high_crit) = (0.0, 20.0, 80.0, 100.0);
    classify(
        value <= low_crit || value >= high_crit,
        value <= low_warn || value >= high_warn,
    )
}

// ── Port + message routing ──────────────────────────────────────────────────

#[test]
fn port_inject_and_drain() {
    let mut port = MemoryPort::new();
    port.inject(Message {
        id: "1".into(),
        source: "user".into(),
        target_room: "bridge".into(),
        body: "hello".into(),
        gravity: 1.0,
        timestamp: 0,
    });
    let msgs = port.drain();
    assert_eq!(msgs.len(), 1);
    assert_eq!(msgs[0].body, "hello");
    assert_eq!(msgs[0].id, "1");
    assert_eq!(msgs[0].source, "user");
    assert_eq!(msgs[0].target_room, "bridge");
    assert_eq!(msgs[0].gravity, 1.0);
    assert_eq!(msgs[0].timestamp, 0);
}

#[test]
fn port_drain_empties() {
    let mut port = MemoryPort::new();
    port.inject(Message {
        id: "1".into(),
        source: "a".into(),
        target_room: "r".into(),
        body: "x".into(),
        gravity: 1.0,
        timestamp: 0,
    });
    assert!(!port.drain().is_empty());
    assert!(port.drain().is_empty());
}

#[test]
fn port_routes_map() {
    let mut port: MemoryPort<Message> = MemoryPort::new();
    port.add_route("sensor-alpha", "lab");
    port.add_route("sensor-beta", "bridge");
    assert_eq!(port.routes.get("sensor-alpha").unwrap(), "lab");
    assert_eq!(port.routes.get("sensor-beta").unwrap(), "bridge");
}

#[test]
fn port_route_replaced_and_order_kept() {
    let mut port: MemoryPort<u32> = MemoryPort::default();
    port.add_route("s", "one");
    port.add_route("s", "two");
    assert_eq!(port.routes.get("s").unwrap(), "two");
    assert!(port.routes.get("t").is_none());
    port.inject(3);
    port.inject(1);
    port.inject(2);
    assert_eq!(port.drain(), vec![3, 1, 2]);
}

// ── Ensign + onboarding ─────────────────────────────────────────────────────

#[test]
fn ensign_creation() {
    let ensign = Ensign::new("e-001");
    assert_eq!(ensign.id, "e-001");
    assert_eq!(ensign.phase, 0);
    assert!(!ensign.ready);
}

#[test]
fn ensign_sequential_phases() {
    let mut ensign = Ensign::new("e-002");
    ensign.run_phase(1, "id").unwrap();
    ensign.run_phase(2, "caps").unwrap();
    ensign.run_phase(3, "scan").unwrap();
    assert_eq!(ensign.phase, 3);
}

#[test]
fn ensign_wrong_phase_fails() {
    let mut ensign = Ensign::new("e-003");
    assert!(ensign.run_phase(3, "skip").is_err());
}

#[test]
fn ensign_six_phase_onboarding() {
    let mut ensign = Ensign::new("e-004");
    let baton = ensign.full_onboarding(&["lab"]);
    assert_eq!(baton.phase, 6);
    assert!(baton.ready);
    assert!(baton.room_assignments.contains(&"lab".to_string()));
}

#[test]
fn ensign_multiple_room_assignments() {
    let mut ensign = Ensign::new("e-006");
    ensign.run_phase(1, "id").unwrap();
    ensign.run_phase(2, "caps").unwrap();
    ensign.run_phase(3, "scan").unwrap();
    ensign.run_phase(4, "bridge").unwrap();
    ensign.run_phase(5, "health").unwrap();
    ensign.run_phase(6, "ready").unwrap();
    // Room assigned during phase 4
    assert_eq!(ensign.room_assignments.len(), 1);
    assert!(ensign.room_assignments.contains(&"bridge".to_string()));
}

#[test]
fn ensign_not_ready_before_complete() {
    let mut ensign = Ensign::new("e-007");
    ensign.run_phase(1, "id").unwrap();
    assert!(!ensign.ready);
    assert!(!ensign.baton().ready);
}

#[test]
fn ensign_refused_phase_message_and_no_change() {
    let mut ensign = Ensign::new("e-008");
    ensign.run_phase(1, "id").unwrap();
    let err = ensign.run_phase(5, "skip").unwrap_err();
    assert_eq!(err, "Expected phase 2, got 5");
    assert_eq!(ensign.phase, 1);
    let err = ensign.run_phase(200, "far").unwrap_err();
    assert_eq!(err, "Expected phase 2, got 200");
}

#[test]
fn ensign_unknown_phase_is_kept_but_reported() {
    let mut ensign = Ensign::new("e-009");
    for p in 1..=6 {
        ensign.run_phase(p, "x").unwrap();
    }
    let err = ensign.run_phase(7, "beyond").unwrap_err();
    assert_eq!(err, "Unknown phase: 7");
    assert_eq!(ensign.phase, 7);
    assert!(ensign.ready);
}

#[test]
fn ensign_restart_at_phase_one() {
    let mut ensign = Ensign::new("e-010");
    ensign.run_phase(1, "a").unwrap();
    ensign.run_phase(2, "b").unwrap();
    ensign.run_phase(1, "again").unwrap();
    assert_eq!(ensign.phase, 1);
    ensign.phase = 123;
    let err = ensign.run_phase(9, "x").unwrap_err();
    assert_eq!(err, "Expected phase 124, got 9");
}

#[test]
fn ensign_onboarding_without_rooms_uses_default() {
    let mut ensign = Ensign::new("e-011");
    let baton = ensign.full_onboarding(&[]);
    assert_eq!(baton.ensign_id, "e-011");
    assert_eq!(baton.room_assignments, vec!["default".to_string()]);
    assert!(baton.ready);
    let baton = ensign.full_onboarding(&["bridge", "lab"]);
    assert_eq!(
        baton.room_assignments,
        vec!["default".to_string(), "bridge".to_string()]
    );
    assert_eq!(baton.phase, 6);
}

// ── Circuit status ──────────────────────────────────────────────────────────

#[test]
fn circuit_starts_normal() {
    let circuit = CircuitTracker::new();
    assert_eq!(circuit.status(), CircuitStatus::Normal);
}

#[test]
fn circuit_tick_normal_value() {
    let mut circuit = CircuitTracker::new();
    let status = circuit.tick(band(50.0));
    assert_eq!(status, CircuitStatus::Normal);
}

#[test]
fn circuit_tick_warning_high() {
    let mut circuit = CircuitTracker::new();
    let status = circuit.tick(band(85.0));
    assert_eq!(status, CircuitStatus::Warning);
}

#[test]
fn circuit_tick_critical_high() {
    let mut circuit = CircuitTracker::new();
    let status = circuit.tick(band(100.0));
    assert_eq!(status, CircuitStatus::Critical);
}

#[test]
fn circuit_tick_warning_low() {
    let mut circuit = CircuitTracker::new();
    let status = circuit.tick(band(15.0));
    assert_eq!(status, CircuitStatus::Warning);
}

#[test]
fn circuit_tick_critical_low() {
    let mut circuit = CircuitTracker::new();
    let status = circuit.tick(band(0.0));
    assert_eq!(status, CircuitStatus::Critical);
}

#[test]
fn circuit_tick_count_increments() {
    let mut circuit = CircuitTracker::new();
    for _ in 0..10 {
        circuit.tick(band(50.0));
    }
    assert_eq!(circuit.tick_count(), 10);
}

#[test]
fn circuit_status_change_detection() {
    let mut circuit = CircuitTracker::new();
    // First tick stays normal — no change from initial Normal
    let (_, changed) = circuit.tick_with_status(band(50.0));
    assert!(!changed); // Normal -> Normal
    // Now go to warning
    let (status, changed) = circuit.tick_with_status(band(85.0));
    assert_eq!(status, CircuitStatus::Warning);
    assert!(changed);
    let (status, changed) = circuit.tick_with_status(band(85.0));
    assert_eq!(status, CircuitStatus::Warning);
    assert!(!changed);
}

// ── Provenance ledger ───────────────────────────────────────────────────────

#[test]
fn git_agent_init() {
    let dir = TempDir::new().unwrap();
    let agent = GitAgent::new(dir.path().to_path_buf());
    assert!(agent.ledger().is_empty());
    assert_eq!(agent.repo_dir(), dir.path());
}

#[test]
fn git_agent_record_entry() {
    let dir = TempDir::new().unwrap();
    let mut agent = GitAgent::new(dir.path().to_path_buf());
    agent.record(ProvenanceEntry {
        id: "p-1".into(),
        action: "create_tile".into(),
        agent: "ensign-1".into(),
        room: "lab".into(),
        timestamp: 100,
        metadata: HashMap::new(),
    });
    assert_eq!(agent.ledger().len(), 1);
    assert_eq!(agent.ledger()[0].action, "create_tile");
}

#[test]
fn ledger_lines_round_trip() {
    let docs = [r#"{"id":"p-0"}"#, r#"{"id":"p-1"}"#, r#"{"id":"p-2"}"#];
    let mut file: Vec<u8> = Vec::new();
    for d in &docs {
        file.extend(frame_ledger_line(d));
    }
    assert_eq!(file, b"{\"id\":\"p-0\"}\n{\"id\":\"p-1\"}\n{\"id\":\"p-2\"}\n".to_vec());
    let lines = split_ledger_lines(&file);
    assert_eq!(lines.len(), 3);
    for (line, d) in lines.iter().zip(docs.iter()) {
        assert_eq!(line.as_slice(), d.as_bytes());
    }
}

#[test]
fn ledger_lines_skip_empty_and_strip_crlf() {
    assert!(split_ledger_lines(b"").is_empty());
    assert!(split_ledger_lines(b"\n\n\r\n").is_empty());
    let lines = split_ledger_lines(b"a\r\n\nb\nc\r");
    assert_eq!(lines, vec![b"a".to_vec(), b"b".to_vec(), b"c\r".to_vec()]);
    let lines = split_ledger_lines(b"x\ry\nz");
    assert_eq!(lines, vec![b"x\ry".to_vec(), b"z".to_vec()]);
}

// ── Sandbox ─────────────────────────────────────────────────────────────────

#[test]
fn zero_claw_spawn() {
    let dir = TempDir::new().unwrap();
    let universe = Universe::new(path_text(dir.path()));
    let claw = ZeroClaw::spawn("zc-1", universe);
    assert_eq!(claw.id(), "zc-1");
}

#[test]
fn zero_claw_can_access_own_universe() {
    let dir = TempDir::new().unwrap();
    let universe = Universe::new(path_text(dir.path()));
    let claw = ZeroClaw::spawn("zc-2", universe);
    let inner = dir.path().join("inner.txt");
    assert!(claw.try_access(path_text(&inner), path_text(&inner)).is_ok());
}

#[test]
fn zero_claw_blocked_outside_universe() {
    let dir = TempDir::new().unwrap();
    let universe = Universe::new(path_text(dir.path()));
    let claw = ZeroClaw::spawn("zc-3", universe);
    assert!(claw.try_access("/etc/passwd", "/etc/passwd").is_err());
}

#[test]
fn universe_is_within_check() {
    let dir = TempDir::new().unwrap();
    let universe = Universe::new(path_text(dir.path()));
    let child = dir.path().join("subdir").join("file.txt");
    assert!(universe.is_within(path_text(&child)));
    assert!(!universe.is_within("/tmp/other"));
}

#[test]
fn zero_claw_universe_root() {
    let dir = TempDir::new().unwrap();
    let universe = Universe::new(path_text(dir.path()));
    let claw = ZeroClaw::spawn("zc-4", universe);
    assert!(Path::new(claw.universe_root()).starts_with(dir.path()));
}

#[test]
fn full_stack_sandbox_isolation() {
    let dir = TempDir::new().unwrap();
    let universe = Universe::new(path_text(dir.path()));
    let claw = ZeroClaw::spawn("sandbox-test", universe);

    // Can access own space
    let work = dir.path().join("work");
    assert!(claw.try_access(path_text(&work), path_text(&work)).is_ok());
    // Cannot escape
    assert!(claw.try_access("/etc/shadow", "/etc/shadow").is_err());
    assert!(claw.try_access("/root", "/root").is_err());
}

#[test]
fn sandbox_messages_and_components() {
    let universe = Universe::new("/srv/uni");
    assert_eq!(universe.root(), "/srv/uni");
    assert!(universe.is_within("/srv/uni"));
    assert!(!universe.is_within("/srv/universe"));
    let claw = ZeroClaw::spawn("m", universe);
    assert_eq!(
        claw.try_access("/srv/uni/a", "/srv/uni/a").unwrap(),
        "access granted: \"/srv/uni/a\""
    );
    assert_eq!(
        claw.try_access("/srv/other", "/srv/other").unwrap_err(),
        "sandbox violation: \"/srv/other\" outside universe"
    );
    // The decision follows the canonical path, the message the path asked for.
    assert_eq!(
        claw.try_access("/srv/uni/../other", "/srv/other").unwrap_err(),
        "sandbox violation: \"/srv/uni/../other\" outside universe"
    );
}

// ── Tick queue ──────────────────────────────────────────────────────────────

#[test]
fn tick_queue_ordering() {
    let mut queue = TickQueue::new();
    queue.enqueue(TickTask {
        id: "1".into(),
        priority: Priority::Low,
        payload: "low".into(),
        executed: false,
    });
    queue.enqueue(TickTask {
        id: "2".into(),
        priority: Priority::Critical,
        payload: "critical".into(),
        executed: false,
    });
    queue.enqueue(TickTask {
        id: "3".into(),
        priority: Priority::Normal,
        payload: "normal".into(),
        executed: false,
    });
    let results = queue.drain_by_priority();
    assert_eq!(results[0], "critical");
    assert_eq!(results[1], "normal");
    assert_eq!(results[2], "low");
}

#[test]
fn tick_queue_dedup() {
    let mut queue = TickQueue::new();
    queue.enqueue(TickTask {
        id: "1".into(),
        priority: Priority::High,
        payload: "do-once".into(),
        executed: false,
    });
    queue.drain_by_priority();
    let results = queue.drain_by_priority();
    assert!(results.is_empty()); // all already executed
}

#[test]
fn tick_queue_execution_log() {
    let mut queue = TickQueue::new();
    queue.enqueue(TickTask {
        id: "1".into(),
        priority: Priority::High,
        payload: "a".into(),
        executed: false,
    });
    queue.enqueue(TickTask {
        id: "2".into(),
        priority: Priority::Low,
        payload: "b".into(),
        executed: false,
    });
    queue.drain_by_priority();
    assert_eq!(queue.execution_log().len(), 2);
    assert!(queue.execution_log()[0].contains("High"));
}

#[test]
fn tick_priority_ordering() {
    assert!(Priority::Critical > Priority::High);
    assert!(Priority::High > Priority::Normal);
    assert!(Priority::Normal > Priority::Low);
}

#[test]
fn full_stack_priority_task_processing() {
    let mut queue = TickQueue::new();
    // Simulate a full stack with priority-based task ordering
    queue.enqueue(TickTask {
        id: "log".into(),
        priority: Priority::Low,
        payload: "write-log".into(),
        executed: false,
    });
    queue.enqueue(TickTask {
        id: "alert".into(),
        priority: Priority::Critical,
        payload: "send-alert".into(),
        executed: false,
    });
    queue.enqueue(TickTask {
        id: "process".into(),
        priority: Priority::Normal,
        payload: "process-msg".into(),
        executed: false,
    });
    queue.enqueue(TickTask {
        id: "respond".into(),
        priority: Priority::High,
        payload: "gen-response".into(),
        executed: false,
    });

    let order = queue.drain_by_priority();
    assert_eq!(order, vec!["send-alert", "gen-response", "process-msg", "write-log"]);
}

#[test]
fn tick_queue_stable_within_priority_and_log_format() {
    let mut queue = TickQueue::default();
    for (i, p) in [Priority::Normal, Priority::High, Priority::Normal, Priority::High]
        .iter()
        .enumerate()
    {
        queue.enqueue(TickTask {
            id: format!("{i}"),
            priority: *p,
            payload: format!("t{i}"),
            executed: false,
        });
    }
    queue.enqueue(TickTask {
        id: "done".into(),
        priority: Priority::Critical,
        payload: "already".into(),
        executed: true,
    });
    let order = queue.drain_by_priority();
    assert_eq!(order, vec!["t1", "t3", "t0", "t2"]);
    assert_eq!(
        queue.execution_log().to_vec(),
        vec!["[High] t1", "[High] t3", "[Normal] t0", "[Normal] t2"]
    );
    queue.enqueue(TickTask {
        id: "late".into(),
        priority: Priority::Low,
        payload: "late".into(),
        executed: false,
    });
    assert_eq!(queue.drain_by_priority(), vec!["late"]);
    assert_eq!(queue.execution_log().len(), 5);
    assert_eq!(queue.execution_log()[4], "[Low] late");
}

// ── Completion requests ─────────────────────────────────────────────────────

#[test]
fn completion_request_tokens_and_text() {
    let req = CompletionRequest { prompt: "hello world".into(), max_tokens: 50 };
    assert_eq!(req.granted_tokens(), 50);
    assert_eq!(req.reply_text(), "mock: hello world");
    let req = CompletionRequest {
        prompt: "a prompt that is much longer than twenty bytes".into(),
        max_tokens: 500,
    };
    assert_eq!(req.granted_tokens(), 100);
    assert_eq!(req.reply_text(), "mock: a prompt that is muc");
    let req = CompletionRequest { prompt: "ééééééééééééé".into(), max_tokens: 0 };
    assert_eq!(req.granted_tokens(), 0);
    assert_eq!(req.reply_text(), "mock: éééééééééé");
    let req = CompletionRequest { prompt: String::new(), max_tokens: 100 };
    assert_eq!(req.reply_text(), "mock: ");
}
