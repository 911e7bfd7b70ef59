use vstd::prelude::*;

verus! {

/// The raw text that speech-to-text produced.
#[derive(Debug, Clone)]
pub struct Transcript {
    pub text: String,
}

/// Text after cleanup, ready to be injected.
#[derive(Debug, Clone, PartialEq, Eq)]
pub struct CleanedText {
    pub text: String,
}

/// Turns a transcript into the text to inject. Implemented by the
/// language-model cleaners and by `BasicCleaner`.
pub trait TextCleaner {
    type Error;

    fn clean(&self, transcript: &Transcript) -> Result<CleanedText, Self::Error>;
}

/// Writes text into the application that has the focus.
pub trait TextInjector {
    type Error;

    /// Called when recording starts, before any text is injected. An
    /// injector that needs no preparation keeps the default, which does
    /// nothing and succeeds.
    fn prepare(&mut self) -> (r: Result<(), Self::Error>)
        default_ensures
            r is Ok,
    {
        Ok(())
    }

    fn inject(&self, text: &CleanedText) -> Result<(), Self::Error>;
}

} // verus!
