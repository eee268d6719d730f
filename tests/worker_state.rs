use latexml_runner::server::{cache_key_for, EnsurePlan, ServerState};

fn worker(port: u16, autoflush: usize) -> ServerState {
    ServerState::new(
        "/usr/bin/latexmls".to_string(),
        port,
        autoflush,
        "latexml_runner:1".to_string(),
        vec![("profile".to_string(), "math".to_string())],
    )
}

#[test]
fn boot_state() {
    let w = worker(3334, 0);
    assert_eq!(w.port(), 3334);
    assert_eq!(w.backup_port(), 3534);
    assert_eq!(w.call_count(), 0);
    assert_eq!(w.autoflush(), 0);
    assert_eq!(w.latexmls_exec(), "/usr/bin/latexmls");
    assert_eq!(cache_key_for(4242), "latexml_runner:4242");
}

#[test]
fn rotation_swaps_ports() {
    let mut w = worker(3334, 5);
    w.begin_call();
    w.begin_call();
    w.rotate_ports();
    assert_eq!((w.port(), w.backup_port(), w.call_count()), (3534, 3334, 0));
    w.rotate_ports();
    assert_eq!((w.port(), w.backup_port()), (3334, 3534));
}

#[test]
fn resampling_stays_in_range() {
    let mut w = worker(3334, 5);
    w.begin_call();
    for _ in 0..50 {
        w.resample_ports(11000, 11010);
        assert!(w.port() >= 11000 && w.port() < 11010);
        assert_eq!(w.backup_port(), w.port() + 200);
        assert_eq!(w.call_count(), 0);
    }
}

#[test]
fn ensure_plan_spawns_when_no_daemon_runs() {
    let mut w = worker(3334, 0);
    assert_eq!(w.plan_ensure(false), EnsurePlan { terminate: false, spawn: true });
    assert_eq!(w.plan_ensure(true), EnsurePlan { terminate: false, spawn: false });
    for _ in 0..1000 {
        w.begin_call();
    }
    // With autoflush off the count never forces a rotation.
    assert_eq!(w.plan_ensure(true), EnsurePlan { terminate: false, spawn: false });
    assert_eq!(w.port(), 3334);
}

#[test]
fn autoflush_threshold_forces_rotation() {
    let mut w = worker(3334, 2);
    w.begin_call();
    w.begin_call();
    assert_eq!(w.plan_ensure(true), EnsurePlan { terminate: false, spawn: false });
    w.begin_call();
    assert_eq!(w.plan_ensure(true), EnsurePlan { terminate: true, spawn: true });
    assert_eq!((w.port(), w.backup_port(), w.call_count()), (3534, 3334, 0));
}

#[test]
fn spawn_arguments() {
    let w = worker(3334, 7);
    assert_eq!(
        w.spawn_args(),
        vec![
            "--port", "3334", "--address", "127.0.0.1", "--autoflush", "0", "--timeout", "120",
            "--expire", "4"
        ]
    );
}

#[test]
fn worker_bodies_and_request() {
    let w = worker(3334, 0);
    assert_eq!(w.init_body(), "cache_key=latexml_runner:1&source=literal:1&profile=math");
    assert_eq!(w.convert_body("1+1"), "cache_key=latexml_runner:1&source=literal:1%2B1");
    assert!(w.request("x=1").starts_with("POST 127.0.0.1:3334 HTTP/1.0\nHost: 127.0.0.1:3334\n"));
}

/// Simulates a run of twenty records on one worker with autoflush 5: each
/// spawn registers the options with one call, each record takes one call.
#[test]
fn autoflush_rotation_over_twenty_records() {
    let mut w = worker(3334, 5);
    let mut running = false;
    let mut rotations = 0;
    let mut ports = Vec::new();
    for _ in 0..20 {
        let plan = w.plan_ensure(running);
        if plan.terminate {
            rotations += 1;
            running = false;
        }
        if plan.spawn {
            running = true;
            w.begin_call();
        }
        assert!(w.call_count() <= 5);
        w.begin_call();
        ports.push(w.port());
    }
    assert!(rotations >= 3);
    assert_eq!(ports.len(), 20);
    assert!(ports.contains(&3334) && ports.contains(&3534));
}

/// A daemon killed under a worker is noticed at the next ensure and
/// respawned on the same port.
#[test]
fn dead_daemon_is_respawned() {
    let mut w = worker(3334, 0);
    assert!(w.plan_ensure(false).spawn);
    assert!(!w.plan_ensure(true).spawn);
    let plan = w.plan_ensure(false);
    assert_eq!(plan, EnsurePlan { terminate: false, spawn: true });
    assert_eq!(w.port(), 3334);
}
