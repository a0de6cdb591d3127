//! The lifecycle of a plugin's sandbox instance, as a transition function
//! from state and event to the next state.

use vstd::prelude::*;

verus! {

/// Where a sandbox instance stands.
#[derive(Debug, Clone, Copy, PartialEq, Eq, Structural)]
pub enum SandboxState {
    Uninitialized,
    /// Loading, validating and linking the module.
    Instantiating,
    /// Loaded; entry points may be called.
    Ready,
    /// An entry point is running.
    Calling,
    /// Released; nothing more happens to it.
    Closed,
}

/// What happens to a sandbox instance.
#[derive(Debug, Clone, Copy, PartialEq, Eq, Structural)]
pub enum SandboxEvent {
    /// Loading starts.
    Load,
    /// The module loaded and linked.
    Instantiated,
    /// The module could not be read or is not a valid component.
    LoadFailed,
    /// The module does not meet the required imports and exports.
    LinkFailed,
    /// A call into an exported entry point starts.
    CallStarted,
    /// The call returned.
    CallReturned,
    /// The guest trapped or reported a failure during the call.
    CallTrapped,
    /// The registry dropped the instance.
    Dropped,
}

/// An event that the current state does not allow.
#[derive(Debug, Clone, Copy, PartialEq, Eq, Structural)]
pub struct InvalidTransition {
    pub state: SandboxState,
    pub event: SandboxEvent,
}

/// The state after `e` happens in `s`, if `s` allows `e`. Load and link
/// failures end the instance; a trap fails only the call, and the instance
/// is ready again; only a ready instance can be called or dropped.
pub open spec fn transition(s: SandboxState, e: SandboxEvent) -> Option<SandboxState> {
    match (s, e) {
        (SandboxState::Uninitialized, SandboxEvent::Load) => Some(SandboxState::Instantiating),
        (SandboxState::Instantiating, SandboxEvent::Instantiated) => Some(SandboxState::Ready),
        (SandboxState::Instantiating, SandboxEvent::LoadFailed) => Some(SandboxState::Closed),
        (SandboxState::Instantiating, SandboxEvent::LinkFailed) => Some(SandboxState::Closed),
        (SandboxState::Ready, SandboxEvent::CallStarted) => Some(SandboxState::Calling),
        (SandboxState::Calling, SandboxEvent::CallReturned) => Some(SandboxState::Ready),
        (SandboxState::Calling, SandboxEvent::CallTrapped) => Some(SandboxState::Ready),
        (SandboxState::Ready, SandboxEvent::Dropped) => Some(SandboxState::Closed),
        _ => None,
    }
}

/// The state after an event, or the refusal of an event that the state
/// does not allow.
pub fn next_state(s: SandboxState, e: SandboxEvent) -> (r: Result<SandboxState, InvalidTransition>)
    ensures
        match transition(s, e) {
            Some(t) => r == Ok::<SandboxState, InvalidTransition>(t),
            None => r == Err::<SandboxState, InvalidTransition>(InvalidTransition { state: s, event: e }),
        },
{
    match (s, e) {
        (SandboxState::Uninitialized, SandboxEvent::Load) => Ok(SandboxState::Instantiating),
        (SandboxState::Instantiating, SandboxEvent::Instantiated) => Ok(SandboxState::Ready),
        (SandboxState::Instantiating, SandboxEvent::LoadFailed) => Ok(SandboxState::Closed),
        (SandboxState::Instantiating, SandboxEvent::LinkFailed) => Ok(SandboxState::Closed),
        (SandboxState::Ready, SandboxEvent::CallStarted) => Ok(SandboxState::Calling),
        (SandboxState::Calling, SandboxEvent::CallReturned) => Ok(SandboxState::Ready),
        (SandboxState::Calling, SandboxEvent::CallTrapped) => Ok(SandboxState::Ready),
        (SandboxState::Ready, SandboxEvent::Dropped) => Ok(SandboxState::Closed),
        _ => Err(InvalidTransition { state: s, event: e }),
    }
}

/// The state after each event of `events` in turn, or none if one of them
/// is not allowed where it comes.
pub open spec fn run(s: SandboxState, events: Seq<SandboxEvent>) -> Option<SandboxState>
    decreases events.len(),
{
    if events.len() == 0 {
        Some(s)
    } else {
        match run(s, events.drop_last()) {
            Some(t) => transition(t, events.last()),
            None => None,
        }
    }
}

/// A closed instance stays closed: no event is allowed any more.
pub proof fn lemma_closed_is_terminal(e: SandboxEvent)
    ensures
        transition(SandboxState::Closed, e) is None,
{
}

/// A call leaves a ready instance ready, whether the guest returns or traps.
pub proof fn lemma_call_keeps_ready(outcome: SandboxEvent)
    requires
        outcome == SandboxEvent::CallReturned || outcome == SandboxEvent::CallTrapped,
    ensures
        run(SandboxState::Ready, seq![SandboxEvent::CallStarted, outcome]) == Some(
            SandboxState::Ready,
        ),
{
    let evs = seq![SandboxEvent::CallStarted, outcome];
    assert(evs.drop_last() =~= seq![SandboxEvent::CallStarted]);
    assert(evs.drop_last().drop_last() =~= Seq::<SandboxEvent>::empty());
    assert(run(SandboxState::Ready, evs.drop_last().drop_last()) == Some(SandboxState::Ready));
    assert(evs.drop_last().last() == SandboxEvent::CallStarted);
    assert(run(SandboxState::Ready, evs.drop_last()) == Some(SandboxState::Calling));
    assert(evs.last() == outcome);
}

} // verus!
