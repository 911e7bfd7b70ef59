use vstd::prelude::*;

use crate::ports::{CleanedText, TextCleaner, Transcript};
use crate::text::{
    chars_of, lemma_trim_spec_shape, trim, trim_chars, trim_spec, utf8_len, utf8_len_of,
};

verus! {

/// Why a cleaned text was refused.
#[derive(Debug, Clone, Copy, PartialEq, Eq, Structural)]
pub enum ValidationError {
    EmptyOutput,
    OutputTooLong,
    ExcessiveExpansion,
}

/// The verdict on a cleaned text: after trimming both texts, the output must
/// not be empty, must hold at most 10 000 bytes, and, when the transcript is
/// not empty, at most three times as many bytes as the transcript.
pub open spec fn validation_spec(transcript: Seq<char>, cleaned: Seq<char>) -> Result<
    (),
    ValidationError,
> {
    let heard = trim_spec(transcript);
    let output = trim_spec(cleaned);
    if output.len() == 0 {
        Err(ValidationError::EmptyOutput)
    } else if utf8_len(output) > 10_000 {
        Err(ValidationError::OutputTooLong)
    } else if heard.len() != 0 && utf8_len(output) > utf8_len(heard) * 3 {
        Err(ValidationError::ExcessiveExpansion)
    } else {
        Ok(())
    }
}

/// Checks that a cleanup model did not lose or invent text.
pub fn validate_cleaned_text(transcript: &Transcript, cleaned: &CleanedText) -> (r: Result<
    (),
    ValidationError,
>)
    ensures
        r == validation_spec(transcript.text@, cleaned.text@),
{
    let heard = trim_chars(chars_of(transcript.text.as_str()).as_slice());
    let output = trim_chars(chars_of(cleaned.text.as_str()).as_slice());
    if output.len() == 0 {
        return Err(ValidationError::EmptyOutput);
    }
    let output_len: u128 = utf8_len_of(output.as_slice());
    let heard_len: u128 = utf8_len_of(heard.as_slice());
    if output_len > 10_000 {
        return Err(ValidationError::OutputTooLong);
    }
    if heard.len() != 0 && output_len > heard_len * 3 {
        return Err(ValidationError::ExcessiveExpansion);
    }
    Ok(())
}

/// Why the cleanup pipeline failed.
#[derive(Debug)]
pub enum CleanupError<PE, FE> {
    Primary(PE),
    Fallback(FE),
    ValidationFailed,
}

/// A cleaner that only trims the transcript.
#[derive(Debug, Clone, Copy)]
pub struct BasicCleaner;

impl BasicCleaner {
    /// The transcript without leading and trailing whitespace.
    pub fn clean_text(&self, transcript: &Transcript) -> (c: CleanedText)
        ensures
            c.text@ == trim_spec(transcript.text@),
    {
        CleanedText { text: trim(transcript.text.as_str()) }
    }
}

impl TextCleaner for BasicCleaner {
    type Error = std::convert::Infallible;

    /// The transcript without leading and trailing whitespace; never fails.
    fn clean(&self, transcript: &Transcript) -> (r: Result<CleanedText, Self::Error>)
        ensures
            r matches Ok(c) && c.text@ == trim_spec(transcript.text@),
    {
        Ok(self.clean_text(transcript))
    }
}

/// The text that the pipeline injects when no cleaner gave a valid text:
/// the transcript, trimmed.
pub fn raw_cleanup(transcript: &Transcript) -> (c: CleanedText)
    ensures
        c.text@ == trim_spec(transcript.text@),
{
    CleanedText { text: trim(transcript.text.as_str()) }
}

/// The candidate of one cleaner, kept when the cleaner succeeded and its
/// text passes validation against the transcript.
pub fn accept_cleanup(transcript: &Transcript, candidate: Option<CleanedText>) -> (r: Option<
    CleanedText,
>)
    ensures
        r == (match candidate {
            Some(c) => if validation_spec(transcript.text@, c.text@) is Ok {
                Some(c)
            } else {
                None
            },
            None => None,
        }),
{
    match candidate {
        Some(c) => {
            if validate_cleaned_text(transcript, &c).is_ok() {
                Some(c)
            } else {
                None
            }
        },
        None => None,
    }
}

/// The text the pipeline injects, given the outcome of the primary cleaner
/// and, when it was consulted, of the fallback: the primary's text when it
/// is valid, else the fallback's when it is valid, else the trimmed
/// transcript.
pub open spec fn pipeline_choice(
    transcript: Seq<char>,
    primary: Option<Seq<char>>,
    fallback: Option<Seq<char>>,
) -> Seq<char> {
    match primary {
        Some(p) if validation_spec(transcript, p) is Ok => p,
        _ => match fallback {
            Some(f) if validation_spec(transcript, f) is Ok => f,
            _ => trim_spec(transcript),
        },
    }
}

/// The text the pipeline injects, from what the primary cleaner gave and,
/// when it was consulted, what the fallback gave (`None` for a cleaner that
/// failed or was not consulted).
pub fn pipeline_result(
    transcript: &Transcript,
    primary: Option<CleanedText>,
    fallback: Option<CleanedText>,
) -> (r: CleanedText)
    ensures
        r.text@ == pipeline_choice(
            transcript.text@,
            match primary {
                Some(c) => Some(c.text@),
                None => None,
            },
            match fallback {
                Some(c) => Some(c.text@),
                None => None,
            },
        ),
        r.text@ == trim_spec(transcript.text@) || (primary matches Some(p) && r.text@ == p.text@
            && validation_spec(transcript.text@, p.text@) is Ok) || (fallback matches Some(f)
            && r.text@ == f.text@ && validation_spec(transcript.text@, f.text@) is Ok),
        (primary matches Some(p) ==> validation_spec(transcript.text@, p.text@) is Err) && (
        fallback matches Some(f) ==> validation_spec(transcript.text@, f.text@) is Err) ==> r.text@
            == trim_spec(transcript.text@),
{
    match accept_cleanup(transcript, primary) {
        Some(c) => c,
        None => match accept_cleanup(transcript, fallback) {
            Some(c) => c,
            None => raw_cleanup(transcript),
        },
    }
}

/// What the pipeline does once the primary cleaner has answered.
#[derive(Debug)]
pub enum CleanupStep {
    /// Inject this text; the fallback is not consulted.
    Finish(CleanedText),
    /// Consult the fallback cleaner.
    AskFallback,
}

/// The primary cleaner gave a text that passes validation.
pub open spec fn primary_decides(transcript: Seq<char>, primary: Option<Seq<char>>) -> bool {
    primary matches Some(p) && validation_spec(transcript, p) is Ok
}

/// The step after the primary cleaner: a valid primary text is injected
/// and the fallback is left alone; otherwise the fallback is consulted.
pub fn after_primary(transcript: &Transcript, primary: Option<CleanedText>) -> (r: CleanupStep)
    ensures
        primary_decides(
            transcript.text@,
            match primary {
                Some(c) => Some(c.text@),
                None => None,
            },
        ) ==> (r matches CleanupStep::Finish(c) && primary matches Some(p) && c.text@ == p.text@),
        !primary_decides(
            transcript.text@,
            match primary {
                Some(c) => Some(c.text@),
                None => None,
            },
        ) ==> r is AskFallback,
{
    match accept_cleanup(transcript, primary) {
        Some(c) => CleanupStep::Finish(c),
        None => CleanupStep::AskFallback,
    }
}

/// Consulting the fallback only when the primary does not decide gives what
/// the pipeline gives: when the primary's text is missing or invalid, the
/// outcome is the same as if the primary had given nothing.
pub proof fn lemma_fallback_only_when_asked(
    transcript: Seq<char>,
    primary: Option<Seq<char>>,
    fallback: Option<Seq<char>>,
)
    ensures
        primary_decides(transcript, primary) ==> pipeline_choice(transcript, primary, fallback)
            == primary->0,
        !primary_decides(transcript, primary) ==> pipeline_choice(transcript, primary, fallback)
            == pipeline_choice(transcript, None, fallback),
{
}

/// The text a cleanup service answered, as the cleaners keep it: the first
/// choice's content, trimmed, or `None` when there is no content or it is
/// blank.
pub fn cleaned_from_response(first_content: Option<&str>) -> (r: Option<CleanedText>)
    ensures
        match first_content {
            Some(t) => if trim_spec(t@).len() > 0 {
                r matches Some(c) && c.text@ == trim_spec(t@)
            } else {
                r is None
            },
            None => r is None,
        },
{
    match first_content {
        Some(t) => {
            let trimmed = trim(t);
            if trimmed.as_str().is_empty() {
                None
            } else {
                Some(CleanedText { text: trimmed })
            }
        },
        None => None,
    }
}

/// Only a text that passes validation is injected: the pipeline's text is
/// the trimmed transcript, or a cleaner's text that validation accepts; and
/// when validation refuses every text the cleaners gave, it is the trimmed
/// transcript.
pub proof fn lemma_injected_text_passes_validation(
    transcript: Seq<char>,
    primary: Option<Seq<char>>,
    fallback: Option<Seq<char>>,
)
    ensures
        ({
            let r = pipeline_choice(transcript, primary, fallback);
            ||| r == trim_spec(transcript)
            ||| primary == Some(r) && validation_spec(transcript, r) is Ok
            ||| fallback == Some(r) && validation_spec(transcript, r) is Ok
        }),
        (primary matches Some(p) ==> validation_spec(transcript, p) is Err) && (fallback matches Some(
            f,
        ) ==> validation_spec(transcript, f) is Err) ==> pipeline_choice(transcript, primary, fallback)
            == trim_spec(transcript),
{
}

/// The verdict of validation: a cleaned text passes exactly when, both texts
/// trimmed, it is not empty, holds at most 10 000 UTF-8 bytes, and, for a
/// transcript that is not blank, at most three times the transcript's bytes;
/// a refusal names the first of these rules the text breaks.
pub proof fn lemma_validation_verdict(transcript: Seq<char>, cleaned: Seq<char>)
    ensures
        validation_spec(transcript, cleaned) is Ok <==> {
            &&& trim_spec(cleaned).len() > 0
            &&& utf8_len(trim_spec(cleaned)) <= 10_000
            &&& (trim_spec(transcript).len() == 0 || utf8_len(trim_spec(cleaned)) <= 3 * utf8_len(
                trim_spec(transcript),
            ))
        },
        trim_spec(cleaned).len() == 0 ==> validation_spec(transcript, cleaned) == Err::<
            (),
            ValidationError,
        >(ValidationError::EmptyOutput),
        trim_spec(cleaned).len() > 0 && utf8_len(trim_spec(cleaned)) > 10_000 ==> validation_spec(
            transcript,
            cleaned,
        ) == Err::<(), ValidationError>(ValidationError::OutputTooLong),
{
}

/// A fallback text that grew beyond three times the transcript (in UTF-8
/// bytes, both trimmed) is never injected when the primary gave nothing:
/// the trimmed transcript is injected instead.
pub proof fn lemma_expanded_fallback_is_refused(transcript: Seq<char>, fallback: Seq<char>)
    requires
        trim_spec(transcript).len() > 0,
        utf8_len(trim_spec(fallback)) > 3 * utf8_len(trim_spec(transcript)),
    ensures
        validation_spec(transcript, fallback) is Err,
        pipeline_choice(transcript, None, Some(fallback)) == trim_spec(transcript),
{
}

/// A valid text from the primary cleaner decides the outcome: whatever the
/// fallback would give, the primary's text is injected, so the fallback
/// need not be consulted.
pub proof fn lemma_valid_primary_decides(
    transcript: Seq<char>,
    primary: Seq<char>,
    fallback: Option<Seq<char>>,
)
    requires
        validation_spec(transcript, primary) is Ok,
    ensures
        pipeline_choice(transcript, Some(primary), fallback) == primary,
        pipeline_choice(transcript, Some(primary), fallback) == pipeline_choice(
            transcript,
            Some(primary),
            None,
        ),
{
}

/// The pipeline never injects an empty text for a transcript that is not
/// blank: a cleaner's text is kept only when it passes validation, which
/// refuses a blank text, and the fallback is the trimmed transcript.
pub proof fn lemma_pipeline_output_not_empty(
    transcript: Seq<char>,
    primary: Option<Seq<char>>,
    fallback: Option<Seq<char>>,
)
    requires
        trim_spec(transcript).len() > 0,
    ensures
        pipeline_choice(transcript, primary, fallback).len() > 0,
{
    if let Some(p) = primary {
        lemma_trim_spec_shape(p);
    }
    if let Some(f) = fallback {
        lemma_trim_spec_shape(f);
    }
}

} // verus!
