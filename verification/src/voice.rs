use vstd::prelude::*;

verus! {

/// The conversation state of a voice-command session.
#[derive(Debug, Clone, Copy, PartialEq, Eq, Structural)]
pub enum VoiceState {
    Disconnected,
    Connecting,
    Listening,
    UserTalking,
    Thinking,
    Speaking,
    BargeIn,
}

/// The events that move a voice-command session between states.
#[derive(Debug, Clone, Copy, PartialEq, Eq, Structural)]
pub enum VoiceStateEvent {
    ConnectRequested,
    Connected,
    ConnectionFailed,
    Disconnected,
    UserStartedTalking,
    UserStoppedTalking,
    ResponseStarted,
    ResponseCompleted,
    ToolCallReceived,
    ToolCallCompleted,
    BargeInDetected,
}

/// The transition relation of a voice-command session.
pub open spec fn voice_transition(state: VoiceState, event: VoiceStateEvent) -> Option<VoiceState> {
    match (state, event) {
        (VoiceState::Disconnected, VoiceStateEvent::ConnectRequested) => Some(VoiceState::Connecting),
        (VoiceState::Connecting, VoiceStateEvent::Connected) => Some(VoiceState::Listening),
        (VoiceState::Connecting, VoiceStateEvent::ConnectionFailed) => Some(VoiceState::Disconnected),
        (_, VoiceStateEvent::Disconnected) => Some(VoiceState::Disconnected),
        (VoiceState::Listening, VoiceStateEvent::UserStartedTalking) => Some(VoiceState::UserTalking),
        (VoiceState::UserTalking, VoiceStateEvent::UserStoppedTalking) => Some(VoiceState::Thinking),
        (VoiceState::Thinking, VoiceStateEvent::ResponseStarted) => Some(VoiceState::Speaking),
        (VoiceState::Speaking, VoiceStateEvent::ResponseCompleted) => Some(VoiceState::Listening),
        (VoiceState::Thinking, VoiceStateEvent::ToolCallReceived) => Some(VoiceState::Thinking),
        (VoiceState::Thinking, VoiceStateEvent::ToolCallCompleted) => Some(VoiceState::Thinking),
        (VoiceState::Speaking, VoiceStateEvent::BargeInDetected) => Some(VoiceState::BargeIn),
        (VoiceState::BargeIn, VoiceStateEvent::UserStartedTalking) => Some(VoiceState::UserTalking),
        _ => None,
    }
}

impl VoiceState {
    /// Every state but `Disconnected` holds a connection (or an attempt).
    pub fn is_connected(self) -> (b: bool)
        ensures
            b <==> self != VoiceState::Disconnected,
    {
        !matches!(self, VoiceState::Disconnected)
    }

    /// The session is busy while connecting and during a turn: every state
    /// but `Disconnected` and `Listening`.
    pub fn is_busy(self) -> (b: bool)
        ensures
            b <==> (self != VoiceState::Disconnected && self != VoiceState::Listening),
    {
        matches!(
            self,
            VoiceState::Connecting | VoiceState::UserTalking | VoiceState::Thinking
                | VoiceState::Speaking | VoiceState::BargeIn
        )
    }

    /// The state that `event` leads to, or `None` when the event is not
    /// allowed in this state.
    pub fn transition(self, event: VoiceStateEvent) -> (next: Option<VoiceState>)
        ensures
            next == voice_transition(self, event),
    {
        match (self, event) {
            (VoiceState::Disconnected, VoiceStateEvent::ConnectRequested) => Some(VoiceState::Connecting),
            (VoiceState::Connecting, VoiceStateEvent::Connected) => Some(VoiceState::Listening),
            (VoiceState::Connecting, VoiceStateEvent::ConnectionFailed) => Some(VoiceState::Disconnected),
            (_, VoiceStateEvent::Disconnected) => Some(VoiceState::Disconnected),
            (VoiceState::Listening, VoiceStateEvent::UserStartedTalking) => Some(VoiceState::UserTalking),
            (VoiceState::UserTalking, VoiceStateEvent::UserStoppedTalking) => Some(VoiceState::Thinking),
            (VoiceState::Thinking, VoiceStateEvent::ResponseStarted) => Some(VoiceState::Speaking),
            (VoiceState::Speaking, VoiceStateEvent::ResponseCompleted) => Some(VoiceState::Listening),
            (VoiceState::Thinking, VoiceStateEvent::ToolCallReceived) => Some(VoiceState::Thinking),
            (VoiceState::Thinking, VoiceStateEvent::ToolCallCompleted) => Some(VoiceState::Thinking),
            (VoiceState::Speaking, VoiceStateEvent::BargeInDetected) => Some(VoiceState::BargeIn),
            (VoiceState::BargeIn, VoiceStateEvent::UserStartedTalking) => Some(VoiceState::UserTalking),
            _ => None,
        }
    }
}

/// The busy states of a session: connecting, and every stage of a turn.
pub open spec fn voice_busy(s: VoiceState) -> bool {
    s != VoiceState::Disconnected && s != VoiceState::Listening
}

/// A disconnect is accepted from every state and always ends the session.
pub proof fn lemma_disconnect_from_any_state(state: VoiceState)
    ensures
        voice_transition(state, VoiceStateEvent::Disconnected) == Some(VoiceState::Disconnected),
{
}

/// A busy session is always a connected one.
pub proof fn lemma_busy_implies_connected(state: VoiceState)
    ensures
        voice_busy(state) ==> state != VoiceState::Disconnected,
{
}

/// From `Disconnected`, only a connect request leads anywhere else: a
/// disconnected session can neither talk nor answer.
pub proof fn lemma_disconnected_only_connects(event: VoiceStateEvent)
    ensures
        voice_transition(VoiceState::Disconnected, event) matches Some(next) ==> (event
            == VoiceStateEvent::ConnectRequested && next == VoiceState::Connecting) || next
            == VoiceState::Disconnected,
{
}

/// Tool calls never leave `Thinking`: the model stays in its turn while a
/// tool runs.
pub proof fn lemma_tool_calls_stay_thinking()
    ensures
        voice_transition(VoiceState::Thinking, VoiceStateEvent::ToolCallReceived) == Some(
            VoiceState::Thinking,
        ),
        voice_transition(VoiceState::Thinking, VoiceStateEvent::ToolCallCompleted) == Some(
            VoiceState::Thinking,
        ),
{
}

/// A full turn from `Listening` returns to `Listening`: the user talks and
/// stops, the model thinks, speaks and completes its response.
pub proof fn lemma_turn_returns_to_listening()
    ensures
        voice_transition(VoiceState::Listening, VoiceStateEvent::UserStartedTalking) == Some(
            VoiceState::UserTalking,
        ),
        voice_transition(VoiceState::UserTalking, VoiceStateEvent::UserStoppedTalking) == Some(
            VoiceState::Thinking,
        ),
        voice_transition(VoiceState::Thinking, VoiceStateEvent::ResponseStarted) == Some(
            VoiceState::Speaking,
        ),
        voice_transition(VoiceState::Speaking, VoiceStateEvent::ResponseCompleted) == Some(
            VoiceState::Listening,
        ),
{
}

/// The state of the voice agent as shown to the user.
#[derive(Debug, Clone, Copy, PartialEq, Eq, Structural)]
pub enum VoiceAgentState {
    Listening,
    Thinking,
    Speaking,
    BargeIn,
    Stopped,
}

/// A chunk of 16-bit little-endian PCM audio.
#[derive(Debug, Clone, PartialEq, Eq)]
pub struct AudioChunk {
    pub samples: Vec<u8>,
}

/// A function call that the model asks the agent to run.
#[derive(Debug, Clone, PartialEq, Eq)]
pub struct ToolCall {
    pub id: String,
    pub name: String,
    pub arguments: String,
}

/// What a voice session reports.
#[derive(Debug, Clone, PartialEq, Eq)]
pub enum VoiceEvent {
    AudioOut(AudioChunk),
    ToolCall(ToolCall),
    TurnComplete,
    Interrupted,
    StateChanged(VoiceState),
    Error(String),
}

} // verus!
