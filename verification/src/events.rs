//! What the application's event loop does with each event it receives.
use vstd::prelude::*;

verus! {

/// Whether a key went down or up.
#[derive(Clone, Copy, Debug, PartialEq, Eq, Structural)]
pub enum KeyState {
    Pressed,
    Released,
}

/// The keys the event loop tells apart.
#[derive(Clone, Copy, Debug, PartialEq, Eq, Structural)]
pub enum Key {
    Escape,
    H,
    Other,
}

/// An event, as far as the event loop reads it.
#[derive(Clone, Copy, Debug, PartialEq, Eq, Structural)]
pub enum LoopEvent {
    /// The window was asked to close.
    CloseRequested,
    /// A keyboard input on the window; `key` is `None` when the key has no
    /// virtual key code.
    Keyboard { state: KeyState, key: Option<Key> },
    /// Any other event of the window.
    OtherWindowEvent,
    /// The window should be drawn.
    RedrawRequested,
    /// All pending events have been handled.
    MainEventsCleared,
    /// Any other event.
    Other,
}

/// What the event loop does in answer to an event.
#[derive(Clone, Copy, Debug, PartialEq, Eq, Structural)]
pub enum LoopAction {
    /// Stop the loop.
    Exit,
    /// Print the engine's greeting.
    Greet,
    /// Ask the window for a redraw.
    RequestRedraw,
    /// Nothing.
    Wait,
}

/// The action that answers `event`: a close request or a press of Escape
/// stops the loop, a press of H greets, the end of a batch of events asks
/// for a redraw, and everything else is ignored.
pub open spec fn action_for(event: LoopEvent) -> LoopAction {
    match event {
        LoopEvent::CloseRequested => LoopAction::Exit,
        LoopEvent::Keyboard { state: KeyState::Pressed, key: Some(Key::Escape) } => LoopAction::Exit,
        LoopEvent::Keyboard { state: KeyState::Pressed, key: Some(Key::H) } => LoopAction::Greet,
        LoopEvent::MainEventsCleared => LoopAction::RequestRedraw,
        _ => LoopAction::Wait,
    }
}

/// Decides what the event loop does with `event`.
pub fn next_action(event: LoopEvent) -> (r: LoopAction)
    ensures
        r == action_for(event),
{
    match event {
        LoopEvent::CloseRequested => LoopAction::Exit,
        LoopEvent::Keyboard { state, key } => match (state, key) {
            (KeyState::Pressed, Some(Key::Escape)) => LoopAction::Exit,
            (KeyState::Pressed, Some(Key::H)) => LoopAction::Greet,
            _ => LoopAction::Wait,
        },
        LoopEvent::MainEventsCleared => LoopAction::RequestRedraw,
        _ => LoopAction::Wait,
    }
}

/// What each event leads to: the loop stops on a close request or a press of
/// Escape, greets on a press of H, asks for a redraw once a batch of events is
/// handled, and does nothing else; releasing a key never does anything.
pub proof fn lemma_action_for_each_event(e: LoopEvent)
    ensures
        (action_for(e) == LoopAction::Exit) == (e == LoopEvent::CloseRequested || e
            == LoopEvent::Keyboard { state: KeyState::Pressed, key: Some(Key::Escape) }),
        (action_for(e) == LoopAction::Greet) == (e == LoopEvent::Keyboard {
            state: KeyState::Pressed,
            key: Some(Key::H),
        }),
        (action_for(e) == LoopAction::RequestRedraw) == (e == LoopEvent::MainEventsCleared),
        (e matches LoopEvent::Keyboard { state: KeyState::Released, .. }) ==> action_for(e)
            == LoopAction::Wait,
{
}

} // verus!
