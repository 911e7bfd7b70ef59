use vstd::prelude::*;

use crate::dictionary::{ids_unique_below, Dictionary, EntrySource, EntryView, SharedDictionary};
use crate::last_dictation::{LastDictation, SharedLastDictation};
use crate::text::{is_blank, is_blank_spec};
use crate::sync::{ReadReceipt, WriteReceipt};
use crate::tools::{ToolRequest, ToolResult};

verus! {

/// The message of the error answered to an entry whose wrong value is blank.
pub open spec fn empty_wrong_message() -> Seq<char> {
    "dictionary entry cannot have an empty wrong value"@
}

/// The message of the error answered to an entry whose correct value is
/// blank.
pub open spec fn empty_correct_message() -> Seq<char> {
    "dictionary entry cannot have an empty correct value"@
}

/// The message of the error answered when the dictionary has used up its
/// identifiers.
pub open spec fn dictionary_full_message() -> Seq<char> {
    "dictionary has no identifier left for a new entry"@
}

/// The error that refuses an entry with a blank wrong or correct value, or
/// `None` when both values hold text.
pub fn blank_entry_error(wrong: &str, correct: &str) -> (r: Option<ToolResult>)
    ensures
        is_blank_spec(wrong@) ==> (r matches Some(ToolResult::Error { message }) && message@
            == empty_wrong_message()),
        !is_blank_spec(wrong@) && is_blank_spec(correct@) ==> (r matches Some(
            ToolResult::Error { message },
        ) && message@ == empty_correct_message()),
        !is_blank_spec(wrong@) && !is_blank_spec(correct@) ==> r is None,
{
    if is_blank(wrong) {
        return Some(
            ToolResult::Error {
                message: "dictionary entry cannot have an empty wrong value".to_owned(),
            },
        );
    }
    if is_blank(correct) {
        return Some(
            ToolResult::Error {
                message: "dictionary entry cannot have an empty correct value".to_owned(),
            },
        );
    }
    None
}

/// The answer to `ReadLastDictation` given the last dictation: its text, or
/// `None` when it is empty.
pub fn read_last_dictation(last: &LastDictation) -> (r: ToolResult)
    ensures
        r matches ToolResult::LastDictation { text } && (if last@.len() == 0 {
            text is None
        } else {
            text matches Some(t) && t@ == last@
        }),
{
    if last.is_empty() {
        ToolResult::LastDictation { text: None }
    } else {
        ToolResult::LastDictation { text: Some(crate::text::string_from_chars(crate::text::chars_of(last.text()).as_slice())) }
    }
}

/// Carries out `AddDictionaryEntry` on `dictionary`: a blank wrong or correct
/// value is refused with an error and leaves the dictionary unchanged;
/// otherwise a manual entry is appended and both values are answered back.
pub fn add_dictionary_entry(dictionary: &mut Dictionary, wrong: String, correct: String) -> (r:
    ToolResult)
    ensures
        is_blank_spec(wrong@) ==> (r matches ToolResult::Error { message } && message@
            == empty_wrong_message()),
        !is_blank_spec(wrong@) && is_blank_spec(correct@) ==> (r matches ToolResult::Error {
            message,
        } && message@ == empty_correct_message()),
        !is_blank_spec(wrong@) && !is_blank_spec(correct@) && old(dictionary).next_id_view()
            == u64::MAX ==> (r matches ToolResult::Error { message } && message@
            == dictionary_full_message()),
        (is_blank_spec(wrong@) || is_blank_spec(correct@) || old(dictionary).next_id_view()
            == u64::MAX) ==> *final(dictionary) == *old(dictionary),
        !is_blank_spec(wrong@) && !is_blank_spec(correct@) && old(dictionary).next_id_view()
            < u64::MAX ==> {
            &&& r matches ToolResult::DictionaryEntryAdded { wrong: w, correct: c }
            &&& w@ == wrong@
            &&& c@ == correct@
            &&& final(dictionary).next_id_view() == old(dictionary).next_id_view() + 1
            &&& final(dictionary).entries_view() == old(dictionary).entries_view().push(
                EntryView {
                    id: old(dictionary).next_id_view(),
                    wrong: wrong@,
                    correct: correct@,
                    source: EntrySource::Manual,
                    hit_count: 0,
                },
            )
        },
{
    if let Some(refused) = blank_entry_error(wrong.as_str(), correct.as_str()) {
        return refused;
    }
    if dictionary.next_id() == u64::MAX {
        return ToolResult::Error {
            message: "dictionary has no identifier left for a new entry".to_owned(),
        };
    }
    dictionary.add(wrong.as_str(), correct.as_str(), EntrySource::Manual);
    ToolResult::DictionaryEntryAdded { wrong, correct }
}

/// An entry the voice agent adds is a manual one: with an identifier left,
/// the dictionary keeps every entry it had, in order, and gains exactly one
/// more at the end, marked manual, with the words asked for, a fresh
/// identifier above every other, and no hits yet.
pub proof fn lemma_added_entry_is_manual(
    before: Dictionary,
    after: Dictionary,
    wrong: Seq<char>,
    correct: Seq<char>,
    r: ToolResult,
)
    requires
        manual_entry_added(before, after, wrong, correct, r),
        before.next_id_view() < u64::MAX,
        ids_unique_below(before.entries_view(), before.next_id_view()),
    ensures
        after.entries_view().len() == before.entries_view().len() + 1,
        after.entries_view().take(before.entries_view().len() as int) == before.entries_view(),
        after.entries_view().last().source == EntrySource::Manual,
        after.entries_view().last().wrong == wrong,
        after.entries_view().last().correct == correct,
        after.entries_view().last().hit_count == 0,
        forall|i: int|
            0 <= i < before.entries_view().len() ==> #[trigger] before.entries_view()[i].id
                < after.entries_view().last().id,
        ids_unique_below(after.entries_view(), after.next_id_view()),
        r is DictionaryEntryAdded,
{
    assert(after.entries_view().take(before.entries_view().len() as int) =~= before.entries_view());
    let a = after.entries_view();
    let b = before.entries_view();
    assert forall|i: int, j: int| 0 <= i < j < a.len() implies #[trigger] a[i].id != #[trigger] a[j].id by {
        if j == a.len() - 1 {
            assert(a[i] == b[i]);
        } else {
            assert(a[i] == b[i] && a[j] == b[j]);
        }
    }
    assert forall|i: int| 0 <= i < a.len() implies #[trigger] a[i].id < after.next_id_view() by {
        if i < b.len() {
            assert(a[i] == b[i]);
        }
    }
}

/// Executes tool requests against the dictionary and the last dictation
/// that the dictation controller shares.
pub struct ToolRegistry {
    dictionary: SharedDictionary,
    last_dictation: SharedLastDictation,
    last_write: Option<WriteReceipt<Dictionary>>,
    last_read: Option<ReadReceipt<LastDictation>>,
}

/// `r` answers a read of the last dictation `seen`: its text, or `None`
/// when it is empty.
pub open spec fn read_answers(seen: LastDictation, r: ToolResult) -> bool {
    r matches ToolResult::LastDictation { text } && (if seen@.len() == 0 {
        text is None
    } else {
        text matches Some(t) && t@ == seen@
    })
}

/// What adding the entry `wrong` → `correct` does to a dictionary holding
/// `before`, leaving `after` and answering `r`: with an identifier left, it
/// appends the manual entry with the next identifier and a hit count of
/// zero, and answers both values; without, it changes nothing and answers
/// the "full" error.
pub open spec fn manual_entry_added(
    before: Dictionary,
    after: Dictionary,
    wrong: Seq<char>,
    correct: Seq<char>,
    r: ToolResult,
) -> bool {
    if before.next_id_view() < u64::MAX {
        &&& after.next_id_view() == before.next_id_view() + 1
        &&& after.entries_view() == before.entries_view().push(
            EntryView {
                id: before.next_id_view(),
                wrong,
                correct,
                source: EntrySource::Manual,
                hit_count: 0,
            },
        )
        &&& r matches ToolResult::DictionaryEntryAdded { wrong: w, correct: c }
        &&& w@ == wrong
        &&& c@ == correct
    } else {
        &&& after == before
        &&& r matches ToolResult::Error { message }
        &&& message@ == dictionary_full_message()
    }
}

impl ToolRegistry {
    /// A registry working on the given shared dictionary and last dictation.
    pub fn new(dictionary: SharedDictionary, last_dictation: SharedLastDictation) -> (r: Self)
        ensures
            r.dictionary_handle() == dictionary,
            r.last_dictation_handle() == last_dictation,
    {
        ToolRegistry { dictionary, last_dictation, last_write: None, last_read: None }
    }

    /// The last read this registry made of the shared last dictation.
    pub closed spec fn last_dictation_read(&self) -> Option<ReadReceipt<LastDictation>> {
        self.last_read
    }

    /// The last write this registry made to the shared dictionary.
    pub closed spec fn last_dictionary_write(&self) -> Option<WriteReceipt<Dictionary>> {
        self.last_write
    }

    /// The shared dictionary.
    pub closed spec fn dictionary_handle(&self) -> SharedDictionary {
        self.dictionary
    }

    /// The shared last dictation.
    pub closed spec fn last_dictation_handle(&self) -> SharedLastDictation {
        self.last_dictation
    }

    /// Executes `request` under the lock of the value it concerns, waiting
    /// for the lock when another thread holds it. Reading the last dictation
    /// answers its text, or `None` when it is empty; adding an entry answers
    /// an error for a blank value (before any lock is taken), the "full"
    /// error when the dictionary has used up its identifiers, and otherwise
    /// the two values of the new entry. What the shared values hold depends
    /// on the other threads; `read_last_dictation` and `add_dictionary_entry`
    /// state the answer for each value. An entry is added by one write to the
    /// shared dictionary, which the registry keeps as its last write: it
    /// appended the manual entry (or, without identifiers left, changed
    /// nothing).
    pub fn execute(&mut self, request: ToolRequest) -> (r: ToolResult)
        ensures
            request is ReadLastDictation ==> (r matches ToolResult::LastDictation { text } && (
            text matches Some(t) ==> t@.len() > 0)),
            request is ReadLastDictation ==> (final(self).last_dictation_read() matches Some(seen)
                && seen.shared() == old(self).last_dictation_handle()
                && read_answers(seen.seen(), r)),
            request is AddDictionaryEntry ==> final(self).last_dictation_read() == old(self).last_dictation_read(),
            request matches ToolRequest::AddDictionaryEntry { wrong, correct } ==> {
                &&& is_blank_spec(wrong@) ==> (r matches ToolResult::Error { message } && message@
                    == empty_wrong_message())
                &&& !is_blank_spec(wrong@) && is_blank_spec(correct@) ==> (r matches ToolResult::Error {
                    message,
                } && message@ == empty_correct_message())
                &&& !is_blank_spec(wrong@) && !is_blank_spec(correct@) ==> ((r matches ToolResult::DictionaryEntryAdded {
                    wrong: w,
                    correct: c,
                } && w@ == wrong@ && c@ == correct@) || (r matches ToolResult::Error { message }
                    && message@ == dictionary_full_message()))
                &&& !is_blank_spec(wrong@) && !is_blank_spec(correct@) ==> (final(self).last_dictionary_write()
                    matches Some(w) && w.shared() == old(self).dictionary_handle()
                    && manual_entry_added(w.before(), w.after(), wrong@, correct@, r))
                &&& is_blank_spec(wrong@) || is_blank_spec(correct@) ==> final(self).last_dictionary_write()
                    == old(self).last_dictionary_write()
            },
            request is ReadLastDictation ==> final(self).last_dictionary_write()
                == old(self).last_dictionary_write(),
            final(self).dictionary_handle() == old(self).dictionary_handle(),
            final(self).last_dictation_handle() == old(self).last_dictation_handle(),
    {
        match request {
            ToolRequest::ReadLastDictation => {
                let guard = self.last_dictation.read();
                let r = read_last_dictation(guard.value());
                self.last_read = Some(guard.release());
                r
            },
            ToolRequest::AddDictionaryEntry { wrong, correct } => {
                if let Some(refused) = blank_entry_error(wrong.as_str(), correct.as_str()) {
                    return refused;
                }
                let mut guard = self.dictionary.write();
                let r = add_dictionary_entry(guard.value_mut(), wrong, correct);
                self.last_write = Some(guard.release());
                r
            },
        }
    }

    /// Another handle to the shared dictionary.
    pub fn dictionary(&self) -> (d: SharedDictionary)
        ensures
            d == self.dictionary_handle(),
    {
        self.dictionary.share()
    }

    /// Another handle to the shared last dictation.
    pub fn last_dictation(&self) -> (d: SharedLastDictation)
        ensures
            d == self.last_dictation_handle(),
    {
        self.last_dictation.share()
    }
}

} // verus!
