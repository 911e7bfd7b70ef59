use tinyvox::voice::{VoiceState, VoiceStateEvent};

#[test]
fn connection_lifecycle() {
    let state = VoiceState::Disconnected;
    let state = state.transition(VoiceStateEvent::ConnectRequested).unwrap();
    assert_eq!(state, VoiceState::Connecting);
    let state = state.transition(VoiceStateEvent::Connected).unwrap();
    assert_eq!(state, VoiceState::Listening);
    assert!(state.is_connected());
}

#[test]
fn connection_failure_returns_to_disconnected() {
    let state = VoiceState::Connecting;
    let state = state.transition(VoiceStateEvent::ConnectionFailed).unwrap();
    assert_eq!(state, VoiceState::Disconnected);
}

#[test]
fn normal_conversation_flow() {
    let state = VoiceState::Listening;
    let state = state.transition(VoiceStateEvent::UserStartedTalking).unwrap();
    assert_eq!(state, VoiceState::UserTalking);
    let state = state.transition(VoiceStateEvent::UserStoppedTalking).unwrap();
    assert_eq!(state, VoiceState::Thinking);
    let state = state.transition(VoiceStateEvent::ResponseStarted).unwrap();
    assert_eq!(state, VoiceState::Speaking);
    let state = state.transition(VoiceStateEvent::ResponseCompleted).unwrap();
    assert_eq!(state, VoiceState::Listening);
}

#[test]
fn tool_call_keeps_conversation_in_thinking() {
    let state = VoiceState::Thinking;
    let state = state.transition(VoiceStateEvent::ToolCallReceived).unwrap();
    assert_eq!(state, VoiceState::Thinking);
    let state = state.transition(VoiceStateEvent::ToolCallCompleted).unwrap();
    assert_eq!(state, VoiceState::Thinking);
}

#[test]
fn barge_in_interrupts_speaking() {
    let state = VoiceState::Speaking;
    let state = state.transition(VoiceStateEvent::BargeInDetected).unwrap();
    assert_eq!(state, VoiceState::BargeIn);
    let state = state.transition(VoiceStateEvent::UserStartedTalking).unwrap();
    assert_eq!(state, VoiceState::UserTalking);
}

#[test]
fn disconnect_works_from_any_state() {
    let states = [
        VoiceState::Connecting,
        VoiceState::Listening,
        VoiceState::UserTalking,
        VoiceState::Thinking,
        VoiceState::Speaking,
        VoiceState::BargeIn,
    ];
    for state in states {
        assert_eq!(state.transition(VoiceStateEvent::Disconnected), Some(VoiceState::Disconnected));
    }
}

#[test]
fn lib_invalid_transition_is_rejected() {
    assert_eq!(VoiceState::Listening.transition(VoiceStateEvent::ResponseCompleted), None);
    assert_eq!(VoiceState::Speaking.transition(VoiceStateEvent::UserStoppedTalking), None);
    assert_eq!(VoiceState::Disconnected.transition(VoiceStateEvent::ResponseStarted), None);
}

#[test]
fn busy_states_are_detected() {
    assert!(VoiceState::Connecting.is_busy());
    assert!(VoiceState::UserTalking.is_busy());
    assert!(VoiceState::Thinking.is_busy());
    assert!(VoiceState::Speaking.is_busy());
    assert!(VoiceState::BargeIn.is_busy());
    assert!(!VoiceState::Disconnected.is_busy());
    assert!(!VoiceState::Listening.is_busy());
}

#[test]
fn disconnected_state_only_accepts_connecting() {
    let events = [
        VoiceStateEvent::Connected,
        VoiceStateEvent::ConnectionFailed,
        VoiceStateEvent::UserStartedTalking,
        VoiceStateEvent::UserStoppedTalking,
        VoiceStateEvent::ResponseStarted,
        VoiceStateEvent::ResponseCompleted,
        VoiceStateEvent::ToolCallReceived,
        VoiceStateEvent::ToolCallCompleted,
        VoiceStateEvent::BargeInDetected,
    ];
    for event in events {
        assert_eq!(VoiceState::Disconnected.transition(event), None);
    }
    assert_eq!(
        VoiceState::Disconnected.transition(VoiceStateEvent::ConnectRequested),
        Some(VoiceState::Connecting)
    );
    assert!(!VoiceState::Disconnected.is_connected());
}
