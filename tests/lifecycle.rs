use michel_core::lifecycle::next_state;
use michel_core::{InvalidTransition, SandboxEvent, SandboxState};

#[test]
fn load_then_call_then_trap_returns_to_ready() {
    let s = next_state(SandboxState::Uninitialized, SandboxEvent::Load).unwrap();
    assert_eq!(s, SandboxState::Instantiating);
    let s = next_state(s, SandboxEvent::Instantiated).unwrap();
    assert_eq!(s, SandboxState::Ready);
    let s = next_state(s, SandboxEvent::CallStarted).unwrap();
    assert_eq!(s, SandboxState::Calling);
    let s = next_state(s, SandboxEvent::CallTrapped).unwrap();
    assert_eq!(s, SandboxState::Ready);
    let s = next_state(s, SandboxEvent::CallStarted).unwrap();
    assert_eq!(next_state(s, SandboxEvent::CallReturned), Ok(SandboxState::Ready));
}

#[test]
fn load_and_link_failures_close_the_instance() {
    assert_eq!(next_state(SandboxState::Instantiating, SandboxEvent::LoadFailed), Ok(SandboxState::Closed));
    assert_eq!(next_state(SandboxState::Instantiating, SandboxEvent::LinkFailed), Ok(SandboxState::Closed));
}

#[test]
fn closed_is_terminal_and_calls_need_ready() {
    assert_eq!(
        next_state(SandboxState::Closed, SandboxEvent::Load),
        Err(InvalidTransition { state: SandboxState::Closed, event: SandboxEvent::Load })
    );
    assert!(next_state(SandboxState::Closed, SandboxEvent::CallStarted).is_err());
    assert!(next_state(SandboxState::Instantiating, SandboxEvent::CallStarted).is_err());
    assert!(next_state(SandboxState::Calling, SandboxEvent::CallStarted).is_err());
    assert_eq!(next_state(SandboxState::Ready, SandboxEvent::Dropped), Ok(SandboxState::Closed));
}
