use tinyvox::agent::{
    desktop_decision, overlay_for_app_state, overlay_for_voice_state, receiver_plan,
    DesktopAction, DesktopInput, MicAction, OverlayCommand, ReceiverInput, ReceiverOp, VadTracker,
    CHUNK_INTERVAL_MS, SILENCE_TO_END_MS,
};
use tinyvox::state::AppState;
use tinyvox::voice::{AudioChunk, ToolCall, VoiceAgentState, VoiceEvent, VoiceState};
use tinyvox::win::OverlayState;

#[test]
fn speech_opens_an_activity_and_silence_closes_it() {
    let mut vad = VadTracker::new();
    assert_eq!(vad.on_chunk(false), MicAction::Skip);
    assert_eq!(vad.on_chunk(true), MicAction::StartActivityAndSend);
    assert_eq!(vad.on_chunk(true), MicAction::Send);
    let silent_chunks = SILENCE_TO_END_MS / CHUNK_INTERVAL_MS;
    for _ in 0..silent_chunks {
        assert_eq!(vad.on_chunk(false), MicAction::Send);
        assert!(vad.must_end_on_stop());
    }
    assert_eq!(vad.on_chunk(false), MicAction::SendAndEndActivity);
    assert!(!vad.must_end_on_stop());
    assert_eq!(vad.on_chunk(false), MicAction::Skip);
}

#[test]
fn speech_resets_the_silence() {
    let mut vad = VadTracker::new();
    vad.on_chunk(true);
    for _ in 0..5 {
        vad.on_chunk(false);
    }
    assert_eq!(vad.on_chunk(true), MicAction::Send);
    assert_eq!(vad.silence_ms(), 0);
}

#[test]
fn receiver_reacts_to_each_event() {
    assert_eq!(receiver_plan(&ReceiverInput::Started), vec![ReceiverOp::Publish(VoiceAgentState::Listening)]);
    let audio = VoiceEvent::AudioOut(AudioChunk { samples: vec![1, 2] });
    assert_eq!(receiver_plan(&ReceiverInput::Event(audio)), vec![ReceiverOp::Publish(VoiceAgentState::Speaking), ReceiverOp::PlayAudio]);
    assert_eq!(
        receiver_plan(&ReceiverInput::Event(VoiceEvent::Interrupted)),
        vec![ReceiverOp::Publish(VoiceAgentState::BargeIn), ReceiverOp::RestartPlayback, ReceiverOp::Publish(VoiceAgentState::Listening)]
    );
    assert_eq!(
        receiver_plan(&ReceiverInput::LocalSpeech),
        vec![ReceiverOp::Publish(VoiceAgentState::BargeIn), ReceiverOp::RestartPlayback, ReceiverOp::Publish(VoiceAgentState::Listening)]
    );
    let call = VoiceEvent::ToolCall(ToolCall {
        id: "1".to_string(),
        name: "read_last_dictation".to_string(),
        arguments: "{}".to_string(),
    });
    assert_eq!(receiver_plan(&ReceiverInput::Event(call)), vec![ReceiverOp::Publish(VoiceAgentState::Thinking), ReceiverOp::ExecuteTool]);
    assert_eq!(receiver_plan(&ReceiverInput::Event(VoiceEvent::TurnComplete)), vec![ReceiverOp::Publish(VoiceAgentState::Listening)]);
    assert_eq!(
        receiver_plan(&ReceiverInput::Event(VoiceEvent::Error("closed".to_string()))),
        vec![ReceiverOp::StopPlayback, ReceiverOp::Publish(VoiceAgentState::Stopped), ReceiverOp::Fail("closed".to_string())]
    );
    assert_eq!(receiver_plan(&ReceiverInput::Event(VoiceEvent::StateChanged(VoiceState::Speaking))), vec![]);
    assert_eq!(receiver_plan(&ReceiverInput::Stop), vec![ReceiverOp::StopPlayback, ReceiverOp::Publish(VoiceAgentState::Stopped), ReceiverOp::Finish]);
}

#[test]
fn overlay_follows_the_dictation() {
    assert_eq!(overlay_for_app_state(AppState::Transcribing), OverlayCommand::Show(OverlayState::Transcribing));
    assert_eq!(overlay_for_app_state(AppState::Cleaning), OverlayCommand::Show(OverlayState::Cleaning));
    assert_eq!(overlay_for_app_state(AppState::Injecting), OverlayCommand::Show(OverlayState::Injecting));
    assert_eq!(overlay_for_app_state(AppState::Idle), OverlayCommand::Hide);
    assert_eq!(overlay_for_app_state(AppState::Recording), OverlayCommand::Keep);
}

#[test]
fn overlay_follows_the_voice_agent() {
    assert_eq!(overlay_for_voice_state(VoiceAgentState::Thinking), OverlayCommand::Show(OverlayState::Transcribing));
    assert_eq!(overlay_for_voice_state(VoiceAgentState::Listening), OverlayCommand::Show(OverlayState::Busy));
    assert_eq!(overlay_for_voice_state(VoiceAgentState::Speaking), OverlayCommand::Show(OverlayState::Busy));
    assert_eq!(overlay_for_voice_state(VoiceAgentState::BargeIn), OverlayCommand::Show(OverlayState::Busy));
    assert_eq!(overlay_for_voice_state(VoiceAgentState::Stopped), OverlayCommand::Hide);
}

#[test]
fn microphone_is_never_shared() {
    let states = [
        AppState::Idle,
        AppState::Recording,
        AppState::Transcribing,
        AppState::Cleaning,
        AppState::Injecting,
    ];
    for state in states {
        for voice_running in [false, true] {
            for input in [DesktopInput::DictationPressed, DesktopInput::DictationReleased, DesktopInput::VoiceToggled] {
                let action = desktop_decision(input, voice_running, state);
                if matches!(action, DesktopAction::StartDictation | DesktopAction::StartVoice) {
                    assert!(!voice_running);
                    assert_eq!(state, AppState::Idle);
                }
            }
        }
    }
}

#[test]
fn desktop_decisions() {
    assert_eq!(desktop_decision(DesktopInput::DictationPressed, false, AppState::Idle), DesktopAction::StartDictation);
    assert_eq!(desktop_decision(DesktopInput::DictationPressed, true, AppState::Idle), DesktopAction::ShowBusy);
    assert_eq!(desktop_decision(DesktopInput::DictationPressed, false, AppState::Cleaning), DesktopAction::ShowBusy);
    assert_eq!(desktop_decision(DesktopInput::DictationReleased, false, AppState::Recording), DesktopAction::FinishDictation);
    assert_eq!(desktop_decision(DesktopInput::DictationReleased, false, AppState::Idle), DesktopAction::Ignore);
    assert_eq!(desktop_decision(DesktopInput::VoiceToggled, true, AppState::Idle), DesktopAction::StopVoice);
    assert_eq!(desktop_decision(DesktopInput::VoiceToggled, false, AppState::Recording), DesktopAction::ShowBusy);
    assert_eq!(desktop_decision(DesktopInput::VoiceToggled, false, AppState::Idle), DesktopAction::StartVoice);
}
