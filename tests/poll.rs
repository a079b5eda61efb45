use instance_pipe::{PollAction, PollInput, Poller, Probe};

fn run(p: &mut Poller<u32, String>, probe: Probe<u32, String>) -> Result<Option<u32>, String> {
    assert!(matches!(p.advance(PollInput::Start), PollAction::SetNonBlocking));
    assert!(matches!(p.advance(PollInput::ModeSet(Ok(()))), PollAction::Probe));
    assert!(matches!(p.advance(PollInput::Probed(probe)), PollAction::SetBlocking));
    assert!(!p.is_idle());
    match p.advance(PollInput::ModeSet(Ok(()))) {
        PollAction::Yield(r) => r,
        _ => panic!("expected a result"),
    }
}

#[test]
fn repeated_polls_without_data_yield_no_event() {
    let mut p: Poller<u32, String> = Poller::new();
    for _ in 0..5 {
        assert_eq!(run(&mut p, Probe::WouldBlock), Ok(None));
        assert!(p.is_idle());
    }
}

#[test]
fn poll_delivers_ready_value() {
    let mut p: Poller<u32, String> = Poller::new();
    assert_eq!(run(&mut p, Probe::Ready(42)), Ok(Some(42)));
    assert!(p.is_idle());
}

#[test]
fn poll_failure_still_restores_blocking() {
    let mut p: Poller<u32, String> = Poller::new();
    assert_eq!(run(&mut p, Probe::Failed("reset".to_string())), Err("reset".to_string()));
    assert!(p.is_idle());
}

#[test]
fn failed_switch_to_non_blocking_is_reported() {
    let mut p: Poller<u32, String> = Poller::new();
    assert!(matches!(p.advance(PollInput::Start), PollAction::SetNonBlocking));
    match p.advance(PollInput::ModeSet(Err("denied".to_string()))) {
        PollAction::Yield(r) => assert_eq!(r, Err("denied".to_string())),
        _ => panic!("expected a result"),
    }
    assert!(p.is_idle());
}

#[test]
fn failed_restore_is_reported() {
    let mut p: Poller<u32, String> = Poller::new();
    p.advance(PollInput::Start);
    p.advance(PollInput::ModeSet(Ok(())));
    assert!(matches!(p.advance(PollInput::Probed(Probe::Ready(7))), PollAction::SetBlocking));
    match p.advance(PollInput::ModeSet(Err("stuck".to_string()))) {
        PollAction::Yield(r) => assert_eq!(r, Err("stuck".to_string())),
        _ => panic!("expected a result"),
    }
    assert!(p.is_idle());
}
