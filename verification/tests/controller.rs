use tinyvox::controller::{
    checked_transition, dictated_words, recording_ms, ControllerError, DictationCore, PipelineAction, PipelineEvent,
};
use tinyvox::dictionary::{Dictionary, EntrySource};
use tinyvox::event::AppEvent;
use tinyvox::ports::{CleanedText, Transcript};
use tinyvox::state::AppState;
use tinyvox::stats::{DayKey, DictationStats};

type Error = ControllerError<(), (), (), ()>;

fn test_day() -> DayKey {
    DayKey::new(2026, 8, 12)
}

// One dictation, as the desktop controller runs it: each stage the core
// asks for is carried out here (cleanup keeps the corrected text) and its
// outcome fed back.
fn dictate(core: &mut DictationCore, heard: &str, samples: usize) -> Result<String, Error> {
    let mut action = core.dictation_step::<(), (), (), ()>(PipelineEvent::StartRequested)?;
    let mut injected = String::new();
    loop {
        let event = match action {
            PipelineAction::StartRecorder => PipelineEvent::RecorderStarted,
            PipelineAction::AwaitStop => PipelineEvent::StopRequested,
            PipelineAction::StopRecorder => PipelineEvent::AudioCaptured { sample_count: samples, sample_rate: 16_000 },
            PipelineAction::Transcribe => PipelineEvent::Transcribed(Transcript { text: heard.to_string() }),
            PipelineAction::Clean(t) => PipelineEvent::Cleaned(CleanedText { text: t.text }),
            PipelineAction::Inject(c) => {
                injected = c.text.clone();
                PipelineEvent::Injected { day: test_day(), cleaned: c }
            }
            PipelineAction::Done => return Ok(injected),
        };
        action = core.dictation_step::<(), (), (), ()>(event)?;
    }
}

#[test]
fn recording_lifecycle_is_managed_by_core() {
    let mut core = DictationCore::new(Dictionary::new(), DictationStats::new());
    assert_eq!(core.state(), AppState::Idle);
    assert_eq!(core.advance::<(), (), (), ()>(AppEvent::RecordingStarted).ok(), Some(AppState::Recording));
    assert_eq!(core.state(), AppState::Recording);
    core.advance::<(), (), (), ()>(AppEvent::Failed).unwrap();
    assert_eq!(core.state(), AppState::Idle);
    dictate(&mut core, "hello", 16_000).unwrap();
    assert_eq!(core.state(), AppState::Idle);
}

#[test]
fn cannot_start_recording_twice() {
    let mut core = DictationCore::new(Dictionary::new(), DictationStats::new());
    core.advance::<(), (), (), ()>(AppEvent::RecordingStarted).unwrap();
    let result = core.advance::<(), (), (), ()>(AppEvent::RecordingStarted);
    assert!(matches!(
        result,
        Err(ControllerError::InvalidTransition {
            state: AppState::Recording,
            event: AppEvent::RecordingStarted,
        })
    ));
    assert_eq!(core.state(), AppState::Recording);
}

#[test]
fn dictionary_correction_reaches_cleanup() {
    let mut dictionary = Dictionary::new();
    dictionary.add("kubernets", "Kubernetes", EntrySource::Manual);
    let mut core = DictationCore::new(dictionary, DictationStats::new());
    let text = dictate(&mut core, "I use kubernets every day.", 8_000).unwrap();
    assert_eq!(text, "I use Kubernetes every day.");
    assert_eq!(core.dictionary().entries()[0].hit_count, 1);
}

#[test]
fn injected_dictation_is_recorded() {
    let mut core = DictationCore::new(Dictionary::new(), DictationStats::new());
    dictate(&mut core, "hello from TinyVox", 24_000).unwrap();
    assert_eq!(core.stats().total_dictations(), 1);
    assert_eq!(core.stats().total_words(), 3);
    assert_eq!(core.stats().total_recording_ms(), 1_500);
    assert_eq!(core.stats().today(test_day()).dictations, 1);
    assert_eq!(core.stats().today(test_day()).words, 3);
    assert_eq!(core.stats().current_streak(test_day()), 1);
}

#[test]
fn peek_does_not_move() {
    let core = DictationCore::new(Dictionary::new(), DictationStats::new());
    assert_eq!(core.peek::<(), (), (), ()>(AppEvent::RecordingStarted).ok(), Some(AppState::Recording));
    assert_eq!(core.state(), AppState::Idle);
    assert!(matches!(
        core.peek::<(), (), (), ()>(AppEvent::CleanupCompleted),
        Err(ControllerError::InvalidTransition { state: AppState::Idle, event: AppEvent::CleanupCompleted })
    ));
}

#[test]
fn checked_transition_follows_the_state_machine() {
    assert_eq!(
        checked_transition::<(), (), (), ()>(AppState::Cleaning, AppEvent::CleanupCompleted).ok(),
        Some(AppState::Injecting)
    );
    assert!(checked_transition::<(), (), (), ()>(AppState::Cleaning, AppEvent::RecordingStarted).is_err());
}

#[test]
fn recording_time_comes_from_the_samples() {
    assert_eq!(recording_ms(48_000, 48_000), 1_000);
    assert_eq!(recording_ms(1, 3), 333);
    assert_eq!(recording_ms(12_345, 0), 0);
}

#[test]
fn words_are_whitespace_separated_runs() {
    assert_eq!(dictated_words(&CleanedText { text: "  one two\tthree\n".to_string() }), 3);
    assert_eq!(dictated_words(&CleanedText { text: "".to_string() }), 0);
    assert_eq!(dictated_words(&CleanedText { text: "one,two".to_string() }), 1);
}

#[test]
fn statistics_can_be_replaced() {
    let mut core = DictationCore::new(Dictionary::new(), DictationStats::new());
    core.stats_mut().record(test_day(), 5, 10);
    assert_eq!(core.stats().total_words(), 5);
    assert_eq!(core.state(), AppState::Idle);
}

#[test]
fn dictionary_can_be_exchanged_for_a_shared_one() {
    let mut core = DictationCore::new(Dictionary::new(), DictationStats::new());
    let mut shared = Dictionary::new();
    shared.add("ny", "New York", EntrySource::Manual);
    std::mem::swap(core.dictionary_mut(), &mut shared);
    let corrected = core.correct(&Transcript { text: "to ny.".to_string() });
    std::mem::swap(core.dictionary_mut(), &mut shared);
    assert_eq!(corrected.text, "to New York.");
    assert_eq!(shared.entries()[0].hit_count, 1);
    assert!(core.dictionary().entries().is_empty());
}

#[test]
fn refused_steps_change_nothing() {
    let mut core = DictationCore::new(Dictionary::new(), DictationStats::new());
    let refused = core.dictation_step::<(), (), (), ()>(PipelineEvent::Injected {
        day: test_day(),
        cleaned: CleanedText { text: "early".to_string() },
    });
    assert!(matches!(
        refused,
        Err(ControllerError::InvalidTransition { state: AppState::Idle, event: AppEvent::InjectionCompleted })
    ));
    assert_eq!(core.stats().total_dictations(), 0);
    assert!(matches!(
        core.dictation_step::<(), (), (), ()>(PipelineEvent::StopRequested),
        Err(ControllerError::InvalidTransition { state: AppState::Idle, event: AppEvent::RecordingStopped })
    ));
    assert!(matches!(core.dictation_step::<(), (), (), ()>(PipelineEvent::StartRequested), Ok(PipelineAction::StartRecorder)));
    assert_eq!(core.state(), AppState::Idle);
}

#[test]
fn statistics_wait_for_the_injection() {
    let mut core = DictationCore::new(Dictionary::new(), DictationStats::new());
    core.dictation_step::<(), (), (), ()>(PipelineEvent::RecorderStarted).unwrap();
    core.dictation_step::<(), (), (), ()>(PipelineEvent::AudioCaptured { sample_count: 32_000, sample_rate: 16_000 }).unwrap();
    core.dictation_step::<(), (), (), ()>(PipelineEvent::Transcribed(Transcript { text: "one two".to_string() })).unwrap();
    core.dictation_step::<(), (), (), ()>(PipelineEvent::Cleaned(CleanedText { text: "One two.".to_string() })).unwrap();
    assert_eq!(core.state(), AppState::Injecting);
    assert_eq!(core.stats().total_dictations(), 0);
    core.dictation_step::<(), (), (), ()>(PipelineEvent::Injected {
        day: test_day(),
        cleaned: CleanedText { text: "One two.".to_string() },
    })
    .unwrap();
    assert_eq!(core.stats().total_dictations(), 1);
    assert_eq!(core.stats().total_words(), 2);
    assert_eq!(core.stats().total_recording_ms(), 2_000);
    assert_eq!(core.state(), AppState::Idle);
}
