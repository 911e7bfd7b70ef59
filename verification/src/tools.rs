use vstd::prelude::*;

verus! {

/// A request that the voice agent makes on behalf of the model.
#[derive(Debug, Clone, PartialEq, Eq)]
pub enum ToolRequest {
    ReadLastDictation,
    AddDictionaryEntry { wrong: String, correct: String },
}

/// The answer to a tool request.
#[derive(Debug, Clone, PartialEq, Eq)]
pub enum ToolResult {
    LastDictation { text: Option<String> },
    DictionaryEntryAdded { wrong: String, correct: String },
    Error { message: String },
}

} // verus!
