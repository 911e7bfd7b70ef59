use vstd::prelude::*;

use crate::sync::Shared;

verus! {

/// The text of the most recent successful dictation.
#[derive(Debug, Clone, PartialEq, Eq)]
pub struct LastDictation {
    text: String,
}

impl View for LastDictation {
    type V = Seq<char>;

    closed spec fn view(&self) -> Seq<char> {
        self.text@
    }
}

impl LastDictation {
    /// A last dictation holding `text`.
    pub fn new(text: &str) -> (d: Self)
        ensures
            d@ == text@,
    {
        LastDictation { text: crate::text::string_from_chars(crate::text::chars_of(text).as_slice()) }
    }

    /// The text.
    pub fn text(&self) -> (t: &str)
        ensures
            t@ == self@,
    {
        self.text.as_str()
    }

    /// Replaces the text.
    pub fn replace(&mut self, text: &str)
        ensures
            final(self)@ == text@,
    {
        self.text = crate::text::string_from_chars(crate::text::chars_of(text).as_slice());
    }

    /// Whether the text is empty.
    pub fn is_empty(&self) -> (b: bool)
        ensures
            b == (self@.len() == 0),
    {
        self.text.as_str().is_empty()
    }
}

impl Default for LastDictation {
    fn default() -> (d: Self)
        ensures
            d@ == Seq::<char>::empty(),
    {
        LastDictation { text: String::new() }
    }
}

/// The last dictation shared between the dictation controller and the voice
/// agent.
pub type SharedLastDictation = Shared<LastDictation>;

/// A shared, empty last dictation: a new lock made with no text.
pub fn shared() -> (s: SharedLastDictation)
    ensures
        s.initial()@ == Seq::<char>::empty(),
{
    Shared::new(LastDictation::default())
}

} // verus!
