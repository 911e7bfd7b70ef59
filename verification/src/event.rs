use vstd::prelude::*;

verus! {

/// The events that drive the dictation state machine.
#[derive(Debug, Clone, Copy, PartialEq, Eq, Structural)]
pub enum AppEvent {
    RecordingStarted,
    RecordingStopped,
    TranscriptionStarted,
    TranscriptionCompleted,
    CleanupStarted,
    CleanupCompleted,
    InjectionStarted,
    InjectionCompleted,
    Failed,
}

} // verus!
