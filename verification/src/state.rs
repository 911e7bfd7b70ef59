use vstd::prelude::*;

use crate::event::AppEvent;

verus! {

/// The phase of one dictation: idle, or one of the four stages between the
/// hotkey press and the injection of the cleaned text.
#[derive(Debug, Clone, Copy, PartialEq, Eq, Structural)]
pub enum AppState {
    Idle,
    Recording,
    Transcribing,
    Cleaning,
    Injecting,
}

/// The transition relation of the dictation state machine: the stages follow
/// each other in a fixed cycle, and a failure returns to `Idle` from anywhere.
pub open spec fn app_transition(state: AppState, event: AppEvent) -> Option<AppState> {
    match (state, event) {
        (AppState::Idle, AppEvent::RecordingStarted) => Some(AppState::Recording),
        (AppState::Recording, AppEvent::RecordingStopped) => Some(AppState::Transcribing),
        (AppState::Transcribing, AppEvent::TranscriptionCompleted) => Some(AppState::Cleaning),
        (AppState::Cleaning, AppEvent::CleanupCompleted) => Some(AppState::Injecting),
        (AppState::Injecting, AppEvent::InjectionCompleted) => Some(AppState::Idle),
        (_, AppEvent::Failed) => Some(AppState::Idle),
        _ => None,
    }
}

impl AppState {
    /// A dictation is in progress in every state but `Idle`.
    pub fn is_busy(self) -> (busy: bool)
        ensures
            busy <==> self != AppState::Idle,
    {
        !matches!(self, AppState::Idle)
    }

    /// The state that `event` leads to, or `None` when the event is not
    /// allowed in this state.
    pub fn transition(self, event: &AppEvent) -> (next: Option<AppState>)
        ensures
            next == app_transition(self, *event),
    {
        match (self, event) {
            (AppState::Idle, AppEvent::RecordingStarted) => Some(AppState::Recording),
            (AppState::Recording, AppEvent::RecordingStopped) => Some(AppState::Transcribing),
            (AppState::Transcribing, AppEvent::TranscriptionCompleted) => Some(AppState::Cleaning),
            (AppState::Cleaning, AppEvent::CleanupCompleted) => Some(AppState::Injecting),
            (AppState::Injecting, AppEvent::InjectionCompleted) => Some(AppState::Idle),
            (_, AppEvent::Failed) => Some(AppState::Idle),
            _ => None,
        }
    }
}

/// A failure returns the dictation state machine to `Idle` from every state.
pub proof fn lemma_failure_always_returns_to_idle(state: AppState)
    ensures
        app_transition(state, AppEvent::Failed) == Some(AppState::Idle),
{
}

/// The five successful steps of a dictation, taken in order from `Idle`, lead
/// back to `Idle` through `Recording`, `Transcribing`, `Cleaning` and
/// `Injecting`.
pub proof fn lemma_dictation_cycle_returns_to_idle()
    ensures
        app_transition(AppState::Idle, AppEvent::RecordingStarted) == Some(AppState::Recording),
        app_transition(AppState::Recording, AppEvent::RecordingStopped) == Some(
            AppState::Transcribing,
        ),
        app_transition(AppState::Transcribing, AppEvent::TranscriptionCompleted) == Some(
            AppState::Cleaning,
        ),
        app_transition(AppState::Cleaning, AppEvent::CleanupCompleted) == Some(
            AppState::Injecting,
        ),
        app_transition(AppState::Injecting, AppEvent::InjectionCompleted) == Some(AppState::Idle),
{
}

/// A recording can only be started from `Idle`: while a dictation is in
/// progress, `RecordingStarted` is refused.
pub proof fn lemma_no_recording_while_busy(state: AppState)
    requires
        state != AppState::Idle,
    ensures
        app_transition(state, AppEvent::RecordingStarted) is None,
{
}

/// Every event other than a failure moves the machine along its cycle only:
/// the only way into `Recording` is `RecordingStarted` from `Idle`.
pub proof fn lemma_recording_entered_only_from_idle(state: AppState, event: AppEvent)
    requires
        app_transition(state, event) == Some(AppState::Recording),
    ensures
        state == AppState::Idle,
        event == AppEvent::RecordingStarted,
{
}

} // verus!
