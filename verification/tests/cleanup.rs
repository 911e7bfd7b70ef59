use tinyvox::cleanup::{
    accept_cleanup, cleaned_from_response, pipeline_result, raw_cleanup, validate_cleaned_text,
    after_primary, BasicCleaner, CleanupStep, ValidationError,
};
use tinyvox::ports::{CleanedText, TextCleaner, Transcript};

fn transcript(text: &str) -> Transcript {
    Transcript { text: text.to_string() }
}

fn cleaned(text: &str) -> CleanedText {
    CleanedText { text: text.to_string() }
}

// A cleaner that succeeds, as the pipeline tests' successful cleaner does.
fn successful(t: &Transcript) -> Option<CleanedText> {
    Some(CleanedText { text: format!("Cleaned: {}", t.text) })
}

// A cleaner that answers an empty text.
fn invalid(_t: &Transcript) -> Option<CleanedText> {
    Some(CleanedText { text: String::new() })
}

// A cleaner that fails.
fn failing(_t: &Transcript) -> Option<CleanedText> {
    None
}

#[test]
fn accepts_normal_cleanup() {
    let transcript = transcript("hello how are you");
    let cleaned = cleaned("Hello, how are you?");
    assert!(validate_cleaned_text(&transcript, &cleaned).is_ok());
}

#[test]
fn rejects_empty_output() {
    let transcript = transcript("hello");
    let cleaned = cleaned("   ");
    assert_eq!(validate_cleaned_text(&transcript, &cleaned), Err(ValidationError::EmptyOutput));
}

#[test]
fn rejects_excessive_expansion() {
    let transcript = transcript("hello");
    let cleaned = CleanedText { text: "hello ".repeat(20) };
    assert_eq!(
        validate_cleaned_text(&transcript, &cleaned),
        Err(ValidationError::ExcessiveExpansion)
    );
}

#[test]
fn accepts_reasonable_expansion() {
    let transcript = transcript("hello");
    let cleaned = cleaned("Hello!");
    assert!(validate_cleaned_text(&transcript, &cleaned).is_ok());
}

#[test]
fn primary_success_is_used() {
    let t = transcript("hello");
    let result = pipeline_result(&t, successful(&t), failing(&t));
    assert_eq!(result.text, "Cleaned: hello");
}

#[test]
fn failed_primary_uses_fallback() {
    let t = transcript("hello");
    let result = pipeline_result(&t, failing(&t), successful(&t));
    assert_eq!(result.text, "Cleaned: hello");
}

#[test]
fn invalid_primary_uses_fallback() {
    let t = transcript("hello");
    let result = pipeline_result(&t, invalid(&t), successful(&t));
    assert_eq!(result.text, "Cleaned: hello");
}

#[test]
fn both_fail_returns_raw_transcript() {
    let t = transcript("  hello from TinyVox  ");
    let result = pipeline_result(&t, failing(&t), failing(&t));
    assert_eq!(result.text, "hello from TinyVox");
}

#[test]
fn invalid_primary_and_fallback_returns_raw_transcript() {
    let t = transcript("  hello from TinyVox  ");
    let result = pipeline_result(&t, invalid(&t), invalid(&t));
    assert_eq!(result.text, "hello from TinyVox");
}

// Further cases.

#[test]
fn rejects_output_over_ten_thousand_bytes() {
    let t = transcript(&"word ".repeat(5_000));
    assert_eq!(
        validate_cleaned_text(&t, &CleanedText { text: "x".repeat(10_001) }),
        Err(ValidationError::OutputTooLong)
    );
    assert!(validate_cleaned_text(&t, &CleanedText { text: "x".repeat(10_000) }).is_ok());
}

#[test]
fn expansion_is_measured_in_bytes_after_trimming() {
    let t = transcript("  ab  ");
    assert!(validate_cleaned_text(&t, &cleaned(" abcdef ")).is_ok());
    assert_eq!(
        validate_cleaned_text(&t, &cleaned("abcdefg")),
        Err(ValidationError::ExcessiveExpansion)
    );
    // "é" takes two bytes: three of them are six bytes, four are eight.
    assert!(validate_cleaned_text(&t, &cleaned("ééé")).is_ok());
    assert_eq!(
        validate_cleaned_text(&t, &cleaned("éééé")),
        Err(ValidationError::ExcessiveExpansion)
    );
}

#[test]
fn empty_transcript_allows_any_expansion() {
    let t = transcript("   ");
    assert!(validate_cleaned_text(&t, &cleaned("a long cleaned text")).is_ok());
}

#[test]
fn basic_cleaner_trims() {
    let t = transcript("\n  hello there \t");
    assert_eq!(BasicCleaner.clean_text(&t).text, "hello there");
    assert_eq!(BasicCleaner.clean(&t).unwrap().text, "hello there");
    assert_eq!(raw_cleanup(&t).text, "hello there");
}

#[test]
fn accept_cleanup_keeps_only_valid_text() {
    let t = transcript("hello");
    assert_eq!(accept_cleanup(&t, Some(cleaned("Hello."))), Some(cleaned("Hello.")));
    assert_eq!(accept_cleanup(&t, Some(cleaned(" "))), None);
    assert_eq!(accept_cleanup(&t, None), None);
}

#[test]
fn service_response_is_trimmed_and_blank_is_dropped() {
    assert_eq!(cleaned_from_response(Some("  Hi there.\n")), Some(cleaned("Hi there.")));
    assert_eq!(cleaned_from_response(Some(" \n ")), None);
    assert_eq!(cleaned_from_response(None), None);
}

#[test]
fn pipeline_never_injects_empty_text_for_spoken_words() {
    let t = transcript(" hi ");
    for primary in [None, Some(cleaned("")), Some(cleaned("Hi."))] {
        for fallback in [None, Some(cleaned("  ")), Some(cleaned("Hi!"))] {
            assert!(!pipeline_result(&t, primary.clone(), fallback).text.is_empty());
        }
    }
}

#[test]
fn fallback_is_asked_only_without_a_valid_primary() {
    let t = transcript("hello world this is tinyvox");
    match after_primary(&t, Some(cleaned("Hello world, this is TinyVox."))) {
        CleanupStep::Finish(c) => assert_eq!(c.text, "Hello world, this is TinyVox."),
        CleanupStep::AskFallback => panic!("a valid primary text decides"),
    }
    assert!(matches!(after_primary(&t, Some(cleaned("   "))), CleanupStep::AskFallback));
    assert!(matches!(after_primary(&t, None), CleanupStep::AskFallback));
    assert_eq!(
        pipeline_result(&t, None, Some(cleaned("Hello world, this is TinyVox."))).text,
        "Hello world, this is TinyVox."
    );
}
