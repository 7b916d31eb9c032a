use marc::{LoopAction, LoopEvent, LoopState, Phase};

#[test]
fn connections_are_dispatched_while_running() {
    let mut s = LoopState::new();
    assert_eq!(s.step(LoopEvent::ConnectionReady(0)), LoopAction::Dispatch(0));
    assert_eq!(s.step(LoopEvent::ConnectionReady(1)), LoopAction::Dispatch(1));
    assert_eq!(s.step(LoopEvent::ConnectionReady(1)), LoopAction::Ignore);
    let mut keys = s.outstanding();
    keys.sort();
    assert_eq!(keys, vec![0, 1]);
    assert_eq!(s.phase(), Phase::Running);
}

#[test]
fn finished_handlers_are_reaped() {
    let mut s = LoopState::new();
    s.step(LoopEvent::ConnectionReady(4));
    assert_eq!(s.step(LoopEvent::HandlerDone(4)), LoopAction::Reap(4));
    assert_eq!(s.step(LoopEvent::HandlerDone(4)), LoopAction::Ignore);
    assert!(s.outstanding().is_empty());
    assert_eq!(s.phase(), Phase::Running);
}

#[test]
fn shutdown_waits_for_dispatched_handlers() {
    let mut s = LoopState::new();
    s.step(LoopEvent::ConnectionReady(0));
    s.step(LoopEvent::ConnectionReady(1));
    assert_eq!(s.step(LoopEvent::Shutdown), LoopAction::StopAccepting);
    assert_eq!(s.phase(), Phase::Draining);
    assert_eq!(s.step(LoopEvent::ConnectionReady(2)), LoopAction::Ignore);
    assert_eq!(s.step(LoopEvent::Shutdown), LoopAction::Ignore);
    assert_eq!(s.step(LoopEvent::HandlerDone(0)), LoopAction::Reap(0));
    assert!(!s.is_stopped());
    assert_eq!(s.step(LoopEvent::HandlerDone(1)), LoopAction::Reap(1));
    assert!(s.is_stopped());
    assert_eq!(s.step(LoopEvent::ConnectionReady(3)), LoopAction::Ignore);
}

#[test]
fn idle_shutdown_stops_at_once() {
    let mut s = LoopState::new();
    assert_eq!(s.step(LoopEvent::Shutdown), LoopAction::StopAccepting);
    assert!(s.is_stopped());
}
