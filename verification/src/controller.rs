use vstd::prelude::*;

use crate::dictionary::{apply_entries, hit_count_after, with_hit_count, Dictionary};
use crate::event::AppEvent;
use crate::ports::{CleanedText, Transcript};
use crate::state::{app_transition, AppState};
use crate::stats::{
    day_index, day_stats_of, is_active, sat_add, streak_spec, DayKey, DayStats, DictationStats,
};
use crate::text::{word_count, word_count_spec};

verus! {

/// Why the dictation controller stopped.
#[derive(Debug)]
pub enum ControllerError<RE, SE, CE, IE> {
    InvalidTransition { state: AppState, event: AppEvent },
    Recorder(RE),
    SpeechToText(SE),
    Cleaner(CE),
    Injector(IE),
}

/// The state `event` leads to from `state`, or the error that refuses it.
pub fn checked_transition<RE, SE, CE, IE>(state: AppState, event: AppEvent) -> (r: Result<
    AppState,
    ControllerError<RE, SE, CE, IE>,
>)
    ensures
        match app_transition(state, event) {
            Some(next) => r == Ok::<AppState, ControllerError<RE, SE, CE, IE>>(next),
            None => r matches Err(ControllerError::InvalidTransition { state: s, event: e }) && s
                == state && e == event,
        },
{
    match state.transition(&event) {
        Some(next) => Ok(next),
        None => Err(ControllerError::InvalidTransition { state, event }),
    }
}

/// The duration in milliseconds of `sample_count` samples at `sample_rate`
/// samples per second, rounded down; zero for a zero sample rate.
pub fn recording_ms(sample_count: usize, sample_rate: u32) -> (ms: u64)
    requires
        sample_count * 1000 <= u64::MAX,
    ensures
        ms == if sample_rate == 0 {
            0
        } else {
            (sample_count * 1000) / (sample_rate as int)
        },
{
    if sample_rate == 0 {
        0
    } else {
        (sample_count as u64 * 1000) / sample_rate as u64
    }
}

/// The number of words of a cleaned text, as the statistics count them (a
/// count beyond `u32::MAX` wraps, as the conversion to `u32` does).
pub fn dictated_words(cleaned: &CleanedText) -> (n: u32)
    ensures
        n == word_count_spec(cleaned.text@) as u32,
{
    let n: usize = word_count(cleaned.text.as_str());
    n as u32
}

/// `after` is `before` with one more dictation of `text` on `day`, recorded
/// for `ms` milliseconds: its words (as a `u32` count) and one dictation are
/// added, saturating, to the totals and to the day.
pub open spec fn records_dictation(
    before: DictationStats,
    after: DictationStats,
    day: DayKey,
    text: Seq<char>,
    ms: u64,
) -> bool {
    let words = (word_count_spec(text) as u32) as u64;
    &&& after.total_dictations_view() == sat_add(before.total_dictations_view(), 1)
    &&& after.total_words_view() == sat_add(before.total_words_view(), words)
    &&& after.total_recording_ms_view() == sat_add(before.total_recording_ms_view(), ms)
    &&& after.daily_view() == before.daily_view().insert(
        day_index(day),
        DayStats {
            words: sat_add(day_stats_of(before.daily_view(), day).words, words),
            dictations: sat_add(day_stats_of(before.daily_view(), day).dictations, 1),
        },
    )
}

/// What the dictation pipeline reports to its controller.
#[derive(Debug, Clone)]
pub enum PipelineEvent {
    /// The hotkey asks for a recording.
    StartRequested,
    /// The injector is prepared and the recorder runs.
    RecorderStarted,
    /// The hotkey asks to end the recording.
    StopRequested,
    /// The recorder stopped with this many samples at this rate.
    AudioCaptured { sample_count: usize, sample_rate: u32 },
    /// Speech-to-text produced this transcript.
    Transcribed(Transcript),
    /// Cleanup produced this text.
    Cleaned(CleanedText),
    /// This text was injected, on this day.
    Injected { day: DayKey, cleaned: CleanedText },
}

/// What the controller does next.
#[derive(Debug, Clone)]
pub enum PipelineAction {
    /// Prepare the injector, then start the recorder.
    StartRecorder,
    /// Wait for the hotkey to end the recording.
    AwaitStop,
    /// Stop the recorder and hand over its audio.
    StopRecorder,
    /// Transcribe the captured audio.
    Transcribe,
    /// Clean this (corrected) transcript.
    Clean(Transcript),
    /// Inject this text.
    Inject(CleanedText),
    /// The dictation is over.
    Done,
}

/// `r` refuses `event` in `state`.
pub open spec fn refuses<RE, SE, CE, IE>(
    r: Result<PipelineAction, ControllerError<RE, SE, CE, IE>>,
    state: AppState,
    event: AppEvent,
) -> bool {
    r matches Err(ControllerError::InvalidTransition { state: s, event: e }) && s == state && e
        == event
}

/// The part of the dictation controller that decides: the state of the
/// current dictation, the correction dictionary, and the statistics.
#[derive(Debug)]
pub struct DictationCore {
    state: AppState,
    dictionary: Dictionary,
    stats: DictationStats,
    pending_ms: u64,
}

impl DictationCore {
    /// The state of the current dictation.
    pub closed spec fn state_view(&self) -> AppState {
        self.state
    }

    /// The correction dictionary.
    pub closed spec fn dictionary_view(&self) -> Dictionary {
        self.dictionary
    }

    /// The statistics.
    pub closed spec fn stats_view(&self) -> DictationStats {
        self.stats
    }

    /// The recording time of the dictation in progress, in milliseconds,
    /// known once its audio was captured.
    pub closed spec fn pending_ms_view(&self) -> u64 {
        self.pending_ms
    }

    /// An idle controller with the given dictionary and statistics.
    pub fn new(dictionary: Dictionary, stats: DictationStats) -> (c: Self)
        ensures
            c.state_view() == AppState::Idle,
            c.dictionary_view() == dictionary,
            c.stats_view() == stats,
            c.pending_ms_view() == 0,
    {
        DictationCore { state: AppState::Idle, dictionary, stats, pending_ms: 0 }
    }

    /// The state of the current dictation.
    pub fn state(&self) -> (s: AppState)
        ensures
            s == self.state_view(),
    {
        self.state
    }

    /// The statistics.
    pub fn stats(&self) -> (s: &DictationStats)
        ensures
            *s == self.stats_view(),
    {
        &self.stats
    }

    /// The statistics, for changing them.
    pub fn stats_mut(&mut self) -> (s: &mut DictationStats)
        ensures
            *s == old(self).stats_view(),
            final(self).stats_view() == *final(s),
            final(self).state_view() == old(self).state_view(),
            final(self).dictionary_view() == old(self).dictionary_view(),
            final(self).pending_ms_view() == old(self).pending_ms_view(),
    {
        &mut self.stats
    }

    /// The correction dictionary.
    pub fn dictionary(&self) -> (d: &Dictionary)
        ensures
            *d == self.dictionary_view(),
    {
        &self.dictionary
    }

    /// The correction dictionary, for changing or exchanging it.
    pub fn dictionary_mut(&mut self) -> (d: &mut Dictionary)
        ensures
            *d == old(self).dictionary_view(),
            final(self).dictionary_view() == *final(d),
            final(self).state_view() == old(self).state_view(),
            final(self).stats_view() == old(self).stats_view(),
            final(self).pending_ms_view() == old(self).pending_ms_view(),
    {
        &mut self.dictionary
    }

    /// The state that `event` would lead to, without taking the step.
    pub fn peek<RE, SE, CE, IE>(&self, event: AppEvent) -> (r: Result<
        AppState,
        ControllerError<RE, SE, CE, IE>,
    >)
        ensures
            match app_transition(self.state_view(), event) {
                Some(next) => r == Ok::<AppState, ControllerError<RE, SE, CE, IE>>(next),
                None => r matches Err(ControllerError::InvalidTransition { state: s, event: e })
                    && s == self.state_view() && e == event,
            },
    {
        checked_transition(self.state, event)
    }

    /// Takes the step that `event` leads to; a refused event leaves the state
    /// as it is.
    pub fn advance<RE, SE, CE, IE>(&mut self, event: AppEvent) -> (r: Result<
        AppState,
        ControllerError<RE, SE, CE, IE>,
    >)
        ensures
            final(self).dictionary_view() == old(self).dictionary_view(),
            final(self).stats_view() == old(self).stats_view(),
            final(self).pending_ms_view() == old(self).pending_ms_view(),
            match app_transition(old(self).state_view(), event) {
                Some(next) => r == Ok::<AppState, ControllerError<RE, SE, CE, IE>>(next)
                    && final(self).state_view() == next,
                None => r matches Err(ControllerError::InvalidTransition { state: s, event: e })
                    && s == old(self).state_view() && e == event && final(self).state_view() == old(
                    self,
                ).state_view(),
            },
    {
        let r = checked_transition(self.state, event);
        if let Ok(next) = r {
            self.state = next;
        }
        r
    }

    /// Applies the dictionary to a transcript (raising the hit counts of the
    /// entries that changed it).
    pub fn correct(&mut self, transcript: &Transcript) -> (t: Transcript)
        ensures
            t.text@ == apply_entries(
                old(self).dictionary_view().entries_view(),
                old(self).dictionary_view().entries_view().len() as int,
                transcript.text@,
            ),
            final(self).state_view() == old(self).state_view(),
            final(self).stats_view() == old(self).stats_view(),
            final(self).pending_ms_view() == old(self).pending_ms_view(),
            final(self).dictionary_view().next_id_view() == old(
                self,
            ).dictionary_view().next_id_view(),
            final(self).dictionary_view().entries_view().len() == old(
                self,
            ).dictionary_view().entries_view().len(),
            forall|i: int|
                0 <= i < old(self).dictionary_view().entries_view().len()
                    ==> #[trigger] final(self).dictionary_view().entries_view()[i] == with_hit_count(
                    old(self).dictionary_view().entries_view()[i],
                    hit_count_after(
                        old(self).dictionary_view().entries_view()[i],
                        apply_entries(old(self).dictionary_view().entries_view(), i, transcript.text@),
                    ),
                ),
    {
        let text = self.dictionary.apply(transcript.text.as_str());
        Transcript { text }
    }

    /// Records a dictation whose text was injected on `day`: its words and
    /// its recording time.
    pub fn record_injection(&mut self, day: DayKey, cleaned: &CleanedText, recording_ms: u64)
        ensures
            final(self).state_view() == old(self).state_view(),
            final(self).dictionary_view() == old(self).dictionary_view(),
            final(self).pending_ms_view() == old(self).pending_ms_view(),
            records_dictation(
                old(self).stats_view(),
                final(self).stats_view(),
                day,
                cleaned.text@,
                recording_ms,
            ),
    {
        let words: u32 = dictated_words(cleaned);
        self.stats.record(day, words, recording_ms);
    }
    /// One step of a dictation: checks the event against the state machine,
    /// takes the step it allows, and says what the controller does next.
    /// A refused event changes nothing. The recorder starts before the state
    /// becomes `Recording`; the dictionary corrects the transcript on the
    /// way to `Cleaning`; the statistics change only once the text was
    /// injected, with the recording time captured with the audio.
    pub fn dictation_step<RE, SE, CE, IE>(&mut self, event: PipelineEvent) -> (r: Result<
        PipelineAction,
        ControllerError<RE, SE, CE, IE>,
    >)
        requires
            event matches PipelineEvent::AudioCaptured { sample_count, .. } ==> sample_count
                * 1000 <= u64::MAX,
        ensures
            r is Err ==> *final(self) == *old(self),
            !(event is Injected) ==> final(self).stats_view() == old(self).stats_view(),
            !(event is Transcribed) ==> final(self).dictionary_view() == old(
                self,
            ).dictionary_view(),
            match event {
                PipelineEvent::StartRequested => match app_transition(
                    old(self).state_view(),
                    AppEvent::RecordingStarted,
                ) {
                    Some(_) => r matches Ok(PipelineAction::StartRecorder) && *final(self) == *old(
                        self,
                    ),
                    None => refuses(r, old(self).state_view(), AppEvent::RecordingStarted),
                },
                PipelineEvent::RecorderStarted => match app_transition(
                    old(self).state_view(),
                    AppEvent::RecordingStarted,
                ) {
                    Some(next) => r matches Ok(PipelineAction::AwaitStop) && final(self).state_view()
                        == next && final(self).pending_ms_view() == old(self).pending_ms_view(),
                    None => refuses(r, old(self).state_view(), AppEvent::RecordingStarted),
                },
                PipelineEvent::StopRequested => match app_transition(
                    old(self).state_view(),
                    AppEvent::RecordingStopped,
                ) {
                    Some(_) => r matches Ok(PipelineAction::StopRecorder) && *final(self) == *old(
                        self,
                    ),
                    None => refuses(r, old(self).state_view(), AppEvent::RecordingStopped),
                },
                PipelineEvent::AudioCaptured { sample_count, sample_rate } => match app_transition(
                    old(self).state_view(),
                    AppEvent::RecordingStopped,
                ) {
                    Some(next) => r matches Ok(PipelineAction::Transcribe) && final(self).state_view()
                        == next && final(self).pending_ms_view() == (if sample_rate == 0 {
                        0
                    } else {
                        (sample_count * 1000) / (sample_rate as int)
                    }),
                    None => refuses(r, old(self).state_view(), AppEvent::RecordingStopped),
                },
                PipelineEvent::Transcribed(t) => match app_transition(
                    old(self).state_view(),
                    AppEvent::TranscriptionCompleted,
                ) {
                    Some(next) => {
                        &&& r matches Ok(PipelineAction::Clean(c)) && c.text@ == apply_entries(
                            old(self).dictionary_view().entries_view(),
                            old(self).dictionary_view().entries_view().len() as int,
                            t.text@,
                        )
                        &&& final(self).state_view() == next
                        &&& final(self).pending_ms_view() == old(self).pending_ms_view()
                        &&& final(self).dictionary_view().next_id_view() == old(
                            self,
                        ).dictionary_view().next_id_view()
                        &&& final(self).dictionary_view().entries_view().len() == old(
                            self,
                        ).dictionary_view().entries_view().len()
                        &&& forall|i: int|
                            0 <= i < old(self).dictionary_view().entries_view().len()
                                ==> #[trigger] final(self).dictionary_view().entries_view()[i]
                                == with_hit_count(
                                old(self).dictionary_view().entries_view()[i],
                                hit_count_after(
                                    old(self).dictionary_view().entries_view()[i],
                                    apply_entries(
                                        old(self).dictionary_view().entries_view(),
                                        i,
                                        t.text@,
                                    ),
                                ),
                            )
                    },
                    None => refuses(r, old(self).state_view(), AppEvent::TranscriptionCompleted),
                },
                PipelineEvent::Cleaned(c) => match app_transition(
                    old(self).state_view(),
                    AppEvent::CleanupCompleted,
                ) {
                    Some(next) => r matches Ok(PipelineAction::Inject(i)) && i.text@ == c.text@
                        && final(self).state_view() == next && final(self).pending_ms_view() == old(
                        self,
                    ).pending_ms_view(),
                    None => refuses(r, old(self).state_view(), AppEvent::CleanupCompleted),
                },
                PipelineEvent::Injected { day, cleaned } => match app_transition(
                    old(self).state_view(),
                    AppEvent::InjectionCompleted,
                ) {
                    Some(next) => r matches Ok(PipelineAction::Done) && final(self).state_view()
                        == next && records_dictation(
                        old(self).stats_view(),
                        final(self).stats_view(),
                        day,
                        cleaned.text@,
                        old(self).pending_ms_view(),
                    ),
                    None => refuses(r, old(self).state_view(), AppEvent::InjectionCompleted),
                },
            },
    {
        match event {
            PipelineEvent::StartRequested => {
                checked_transition(self.state, AppEvent::RecordingStarted)?;
                Ok(PipelineAction::StartRecorder)
            },
            PipelineEvent::RecorderStarted => {
                self.advance(AppEvent::RecordingStarted)?;
                Ok(PipelineAction::AwaitStop)
            },
            PipelineEvent::StopRequested => {
                checked_transition(self.state, AppEvent::RecordingStopped)?;
                Ok(PipelineAction::StopRecorder)
            },
            PipelineEvent::AudioCaptured { sample_count, sample_rate } => {
                self.advance(AppEvent::RecordingStopped)?;
                self.pending_ms = recording_ms(sample_count, sample_rate);
                Ok(PipelineAction::Transcribe)
            },
            PipelineEvent::Transcribed(t) => {
                checked_transition(self.state, AppEvent::TranscriptionCompleted)?;
                let corrected = self.correct(&t);
                self.advance(AppEvent::TranscriptionCompleted)?;
                Ok(PipelineAction::Clean(corrected))
            },
            PipelineEvent::Cleaned(c) => {
                self.advance(AppEvent::CleanupCompleted)?;
                Ok(PipelineAction::Inject(c))
            },
            PipelineEvent::Injected { day, cleaned } => {
                checked_transition(self.state, AppEvent::InjectionCompleted)?;
                let ms = self.pending_ms;
                self.record_injection(day, &cleaned, ms);
                self.advance(AppEvent::InjectionCompleted)?;
                Ok(PipelineAction::Done)
            },
        }
    }
}


/// A recorded dictation makes its day active: right after it, the streak
/// that ends on that day is at least one.
pub proof fn lemma_recorded_day_has_streak(daily: Map<u32, DayStats>, day: DayKey, words: u64)
    ensures
        ({
            let updated = daily.insert(
                day_index(day),
                DayStats {
                    words: sat_add(day_stats_of(daily, day).words, words),
                    dictations: sat_add(day_stats_of(daily, day).dictations, 1),
                },
            );
            is_active(updated, day) && streak_spec(updated, day) >= 1
        }),
{
}

} // verus!
