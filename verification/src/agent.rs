use vstd::prelude::*;

use crate::state::AppState;
use crate::text::{chars_of, string_from_chars};
use crate::voice::{VoiceAgentState, VoiceEvent};
use crate::win::OverlayState;

verus! {

// ---------------------------------------------------------------------------
// Microphone activity
// ---------------------------------------------------------------------------

/// The time between two microphone chunks, in milliseconds.
pub const CHUNK_INTERVAL_MS: u64 = 40;

/// The silence after which the user's activity is over, in milliseconds.
pub const SILENCE_TO_END_MS: u64 = 500;

/// What the microphone loop does with one chunk.
#[derive(Debug, Clone, Copy, PartialEq, Eq, Structural)]
pub enum MicAction {
    /// Send nothing: the user is not speaking.
    Skip,
    /// Tell the receiver that the user started speaking, open an activity,
    /// and send the chunk.
    StartActivityAndSend,
    /// Send the chunk within the open activity.
    Send,
    /// Send the chunk, then close the activity.
    SendAndEndActivity,
}

/// Tracks whether the user is speaking, from the speech verdict on each
/// microphone chunk.
#[derive(Debug, Clone, Copy, PartialEq, Eq, Structural)]
pub struct VadTracker {
    speaking: bool,
    silence_ms: u64,
}

/// What a tracker holds: whether the user is speaking, and the silence
/// counted since the last speech.
pub struct VadView {
    pub speaking: bool,
    pub silence_ms: u64,
}

impl View for VadTracker {
    type V = VadView;

    closed spec fn view(&self) -> VadView {
        VadView { speaking: self.speaking, silence_ms: self.silence_ms }
    }
}

/// The tracker's invariant: silence is counted only while speaking, in whole
/// chunks, and stays below the end threshold.
pub open spec fn vad_wf(t: VadView) -> bool {
    &&& t.silence_ms < SILENCE_TO_END_MS
    &&& t.silence_ms % CHUNK_INTERVAL_MS == 0
    &&& !t.speaking ==> t.silence_ms == 0
}

/// The effect of one chunk: speech opens (or continues) an activity and
/// resets the silence; silence during an activity is sent and counted, and
/// closes the activity once it reaches 500 ms.
pub open spec fn vad_step(t: VadView, speech: bool) -> (VadView, MicAction) {
    if speech {
        (
            VadView { speaking: true, silence_ms: 0 },
            if t.speaking {
                MicAction::Send
            } else {
                MicAction::StartActivityAndSend
            },
        )
    } else if t.speaking {
        if t.silence_ms + CHUNK_INTERVAL_MS >= SILENCE_TO_END_MS {
            (VadView { speaking: false, silence_ms: 0 }, MicAction::SendAndEndActivity)
        } else {
            (
                VadView { speaking: true, silence_ms: (t.silence_ms + CHUNK_INTERVAL_MS) as u64 },
                MicAction::Send,
            )
        }
    } else {
        (t, MicAction::Skip)
    }
}

impl VadTracker {
    /// Every tracker keeps `vad_wf`.
    #[verifier::type_invariant]
    spec fn well_formed(self) -> bool {
        vad_wf(self@)
    }

    /// A tracker for a user who is not speaking.
    pub fn new() -> (t: Self)
        ensures
            t@ == (VadView { speaking: false, silence_ms: 0 }),
    {
        VadTracker { speaking: false, silence_ms: 0 }
    }

    /// Handles one chunk with the given speech verdict.
    pub fn on_chunk(&mut self, speech: bool) -> (a: MicAction)
        ensures
            (final(self)@, a) == vad_step(old(self)@, speech),
            vad_wf(final(self)@),
    {
        proof {
            use_type_invariant(&*self);
        }
        if speech {
            let was_speaking = self.speaking;
            *self = VadTracker { speaking: true, silence_ms: 0 };
            if was_speaking {
                MicAction::Send
            } else {
                MicAction::StartActivityAndSend
            }
        } else if self.speaking {
            let silence: u64 = self.silence_ms + CHUNK_INTERVAL_MS;
            if silence >= SILENCE_TO_END_MS {
                *self = VadTracker { speaking: false, silence_ms: 0 };
                MicAction::SendAndEndActivity
            } else {
                *self = VadTracker { speaking: true, silence_ms: silence };
                MicAction::Send
            }
        } else {
            MicAction::Skip
        }
    }

    /// Whether the user is speaking.
    pub fn speaking(&self) -> (b: bool)
        ensures
            b == self@.speaking,
    {
        self.speaking
    }

    /// The silence counted since the user last spoke, in milliseconds.
    pub fn silence_ms(&self) -> (ms: u64)
        ensures
            ms == self@.silence_ms,
    {
        self.silence_ms
    }

    /// Whether stopping the microphone must close an open activity first.
    pub fn must_end_on_stop(&self) -> (b: bool)
        ensures
            b == self@.speaking,
    {
        self.speaking
    }
}

/// `n` silent chunks in a row, from `t`.
pub open spec fn silent_chunks(t: VadView, n: nat) -> VadView
    decreases n,
{
    if n == 0 {
        t
    } else {
        silent_chunks(vad_step(t, false).0, (n - 1) as nat)
    }
}

/// An activity always ends within 13 silent chunks (500 ms at 40 ms a
/// chunk): whatever silence was already counted, thirteen silent chunks in a
/// row leave the user not speaking.
pub proof fn lemma_silence_ends_activity(t: VadView)
    requires
        vad_wf(t),
    ensures
        !silent_chunks(t, 13).speaking,
{
    reveal_with_fuel(silent_chunks, 14);
}

// ---------------------------------------------------------------------------
// Receiver
// ---------------------------------------------------------------------------

/// What wakes the receiver loop.
#[derive(Debug, Clone, PartialEq, Eq)]
pub enum ReceiverInput {
    /// The loop has just started, with playback ready.
    Started,
    /// The session reported an event.
    Event(VoiceEvent),
    /// The microphone heard the user start speaking.
    LocalSpeech,
    /// The agent is stopping.
    Stop,
}

/// One step of the receiver loop's answer, carried out in order.
#[derive(Debug, Clone, PartialEq, Eq)]
pub enum ReceiverOp {
    /// Publish this agent state.
    Publish(VoiceAgentState),
    /// Queue the event's audio for playback.
    PlayAudio,
    /// Drop the queued audio and restart playback.
    RestartPlayback,
    /// Stop playback.
    StopPlayback,
    /// Run the event's tool call and answer it.
    ExecuteTool,
    /// Leave the loop normally.
    Finish,
    /// Leave the loop with `GeminiError::UnexpectedResponse` of this text.
    Fail(String),
}

/// The receiver loop's answer to what woke it: the agent states it
/// publishes and the playback, tool and exit steps, in order.
/// - Starting publishes `Listening`.
/// - Audio publishes `Speaking` and queues the audio.
/// - An interruption by the model, or the user starting to speak,
///   publishes `BargeIn`, restarts playback, then publishes `Listening`.
/// - A tool call publishes `Thinking` and runs the tool.
/// - A completed turn publishes `Listening`.
/// - An error stops playback, publishes `Stopped` and ends the loop with
///   that error.
/// - A stop request stops playback, publishes `Stopped` and ends the loop.
/// - A reported state change needs nothing.
pub fn receiver_plan(input: &ReceiverInput) -> (ops: Vec<ReceiverOp>)
    ensures
        match input {
            ReceiverInput::Started => ops@ == seq![ReceiverOp::Publish(VoiceAgentState::Listening)],
            ReceiverInput::Event(VoiceEvent::AudioOut(_)) => ops@ == seq![
                ReceiverOp::Publish(VoiceAgentState::Speaking),
                ReceiverOp::PlayAudio,
            ],
            ReceiverInput::Event(VoiceEvent::Interrupted) | ReceiverInput::LocalSpeech => ops@
                == seq![
                ReceiverOp::Publish(VoiceAgentState::BargeIn),
                ReceiverOp::RestartPlayback,
                ReceiverOp::Publish(VoiceAgentState::Listening),
            ],
            ReceiverInput::Event(VoiceEvent::ToolCall(_)) => ops@ == seq![
                ReceiverOp::Publish(VoiceAgentState::Thinking),
                ReceiverOp::ExecuteTool,
            ],
            ReceiverInput::Event(VoiceEvent::TurnComplete) => ops@ == seq![
                ReceiverOp::Publish(VoiceAgentState::Listening),
            ],
            ReceiverInput::Event(VoiceEvent::Error(m)) => {
                &&& ops@.len() == 3
                &&& ops@[0] == ReceiverOp::StopPlayback
                &&& ops@[1] == ReceiverOp::Publish(VoiceAgentState::Stopped)
                &&& ops@[2] matches ReceiverOp::Fail(t) && t@ == m@
            },
            ReceiverInput::Event(VoiceEvent::StateChanged(_)) => ops@.len() == 0,
            ReceiverInput::Stop => ops@ == seq![
                ReceiverOp::StopPlayback,
                ReceiverOp::Publish(VoiceAgentState::Stopped),
                ReceiverOp::Finish,
            ],
        },
{
    let mut ops: Vec<ReceiverOp> = Vec::new();
    match input {
        ReceiverInput::Started => {
            ops.push(ReceiverOp::Publish(VoiceAgentState::Listening));
        },
        ReceiverInput::Event(VoiceEvent::AudioOut(_)) => {
            ops.push(ReceiverOp::Publish(VoiceAgentState::Speaking));
            ops.push(ReceiverOp::PlayAudio);
        },
        ReceiverInput::Event(VoiceEvent::Interrupted) | ReceiverInput::LocalSpeech => {
            ops.push(ReceiverOp::Publish(VoiceAgentState::BargeIn));
            ops.push(ReceiverOp::RestartPlayback);
            ops.push(ReceiverOp::Publish(VoiceAgentState::Listening));
        },
        ReceiverInput::Event(VoiceEvent::ToolCall(_)) => {
            ops.push(ReceiverOp::Publish(VoiceAgentState::Thinking));
            ops.push(ReceiverOp::ExecuteTool);
        },
        ReceiverInput::Event(VoiceEvent::TurnComplete) => {
            ops.push(ReceiverOp::Publish(VoiceAgentState::Listening));
        },
        ReceiverInput::Event(VoiceEvent::Error(m)) => {
            ops.push(ReceiverOp::StopPlayback);
            ops.push(ReceiverOp::Publish(VoiceAgentState::Stopped));
            ops.push(ReceiverOp::Fail(string_from_chars(chars_of(m.as_str()).as_slice())));
        },
        ReceiverInput::Event(VoiceEvent::StateChanged(_)) => {},
        ReceiverInput::Stop => {
            ops.push(ReceiverOp::StopPlayback);
            ops.push(ReceiverOp::Publish(VoiceAgentState::Stopped));
            ops.push(ReceiverOp::Finish);
        },
    }
    ops
}

// ---------------------------------------------------------------------------
// Desktop loop
// ---------------------------------------------------------------------------

/// What the overlay is told to do.
#[derive(Debug, Clone, Copy, PartialEq, Eq, Structural)]
pub enum OverlayCommand {
    Show(OverlayState),
    Hide,
    Keep,
}

/// The overlay for a dictation state: each stage after recording is shown by
/// name, the end of a dictation hides the overlay.
pub fn overlay_for_app_state(state: AppState) -> (c: OverlayCommand)
    ensures
        c == match state {
            AppState::Transcribing => OverlayCommand::Show(OverlayState::Transcribing),
            AppState::Cleaning => OverlayCommand::Show(OverlayState::Cleaning),
            AppState::Injecting => OverlayCommand::Show(OverlayState::Injecting),
            AppState::Idle => OverlayCommand::Hide,
            AppState::Recording => OverlayCommand::Keep,
        },
{
    match state {
        AppState::Transcribing => OverlayCommand::Show(OverlayState::Transcribing),
        AppState::Cleaning => OverlayCommand::Show(OverlayState::Cleaning),
        AppState::Injecting => OverlayCommand::Show(OverlayState::Injecting),
        AppState::Idle => OverlayCommand::Hide,
        AppState::Recording => OverlayCommand::Keep,
    }
}

/// The overlay for a voice-agent state: thinking is shown as transcribing,
/// the other live states as busy (the overlay has no listening or speaking
/// label), and a stopped agent hides the overlay.
pub fn overlay_for_voice_state(state: VoiceAgentState) -> (c: OverlayCommand)
    ensures
        c == match state {
            VoiceAgentState::Thinking => OverlayCommand::Show(OverlayState::Transcribing),
            VoiceAgentState::Stopped => OverlayCommand::Hide,
            _ => OverlayCommand::Show(OverlayState::Busy),
        },
{
    match state {
        VoiceAgentState::Thinking => OverlayCommand::Show(OverlayState::Transcribing),
        VoiceAgentState::Stopped => OverlayCommand::Hide,
        _ => OverlayCommand::Show(OverlayState::Busy),
    }
}

/// The inputs of the desktop loop.
#[derive(Debug, Clone, Copy, PartialEq, Eq, Structural)]
pub enum DesktopInput {
    DictationPressed,
    DictationReleased,
    VoiceToggled,
}

/// What the desktop loop does with an input.
#[derive(Debug, Clone, Copy, PartialEq, Eq, Structural)]
pub enum DesktopAction {
    /// Show the busy overlay and do nothing else.
    ShowBusy,
    /// Capture the foreground window and start recording.
    StartDictation,
    /// Stop recording and run the rest of the dictation.
    FinishDictation,
    /// Nothing to do.
    Ignore,
    /// Stop the voice agent.
    StopVoice,
    /// Start the voice agent.
    StartVoice,
}

/// The decision of the desktop loop: the voice agent owns the microphone,
/// so dictation cannot start while it runs; neither can a new dictation or
/// the voice agent start while a dictation is in progress; a release only
/// finishes a dictation that is recording.
pub open spec fn desktop_decision_spec(input: DesktopInput, voice_running: bool, state: AppState) -> DesktopAction {
    match input {
        DesktopInput::DictationPressed => if voice_running || state != AppState::Idle {
            DesktopAction::ShowBusy
        } else {
            DesktopAction::StartDictation
        },
        DesktopInput::DictationReleased => if state == AppState::Recording {
            DesktopAction::FinishDictation
        } else {
            DesktopAction::Ignore
        },
        DesktopInput::VoiceToggled => if voice_running {
            DesktopAction::StopVoice
        } else if state != AppState::Idle {
            DesktopAction::ShowBusy
        } else {
            DesktopAction::StartVoice
        },
    }
}

/// Decides what the desktop loop does with an input.
pub fn desktop_decision(input: DesktopInput, voice_running: bool, state: AppState) -> (a: DesktopAction)
    ensures
        a == desktop_decision_spec(input, voice_running, state),
{
    match input {
        DesktopInput::DictationPressed => {
            if voice_running || state.is_busy() {
                DesktopAction::ShowBusy
            } else {
                DesktopAction::StartDictation
            }
        },
        DesktopInput::DictationReleased => {
            if state == AppState::Recording {
                DesktopAction::FinishDictation
            } else {
                DesktopAction::Ignore
            }
        },
        DesktopInput::VoiceToggled => {
            if voice_running {
                DesktopAction::StopVoice
            } else if state.is_busy() {
                DesktopAction::ShowBusy
            } else {
                DesktopAction::StartVoice
            }
        },
    }
}

/// The microphone is never shared: dictation and the voice agent never
/// start while the other is active.
pub proof fn lemma_microphone_never_shared(input: DesktopInput, voice_running: bool, state: AppState)
    ensures
        desktop_decision_spec(input, voice_running, state) == DesktopAction::StartDictation ==> !voice_running
            && state == AppState::Idle,
        desktop_decision_spec(input, voice_running, state) == DesktopAction::StartVoice ==> !voice_running
            && state == AppState::Idle,
{
}

} // verus!
