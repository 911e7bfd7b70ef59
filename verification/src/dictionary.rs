use vstd::prelude::*;

use crate::sync::Shared;
use crate::text::{replace_tokens, replace_tokens_spec};

verus! {

/// The identifier of a dictionary entry.
#[derive(Debug, Clone, Copy, PartialEq, Eq, Hash, Structural)]
pub struct EntryId(pub u64);

/// How an entry came into the dictionary.
#[derive(Debug, Clone, Copy, PartialEq, Eq, Structural)]
pub enum EntrySource {
    Manual,
    AutoLearned,
}

/// A correction: every whole word equal to `wrong` (up to ASCII case) is
/// replaced by `correct`. `hit_count` counts the transcripts it changed.
#[derive(Debug, Clone, PartialEq, Eq)]
pub struct DictionaryEntry {
    pub id: EntryId,
    pub wrong: String,
    pub correct: String,
    pub source: EntrySource,
    pub hit_count: u32,
}

/// The mathematical content of a dictionary entry.
pub struct EntryView {
    pub id: u64,
    pub wrong: Seq<char>,
    pub correct: Seq<char>,
    pub source: EntrySource,
    pub hit_count: u32,
}

impl View for DictionaryEntry {
    type V = EntryView;

    open spec fn view(&self) -> EntryView {
        EntryView {
            id: self.id.0,
            wrong: self.wrong@,
            correct: self.correct@,
            source: self.source,
            hit_count: self.hit_count,
        }
    }
}

/// The ordered list of corrections, and the identifier the next added entry
/// will receive.
#[derive(Debug)]
pub struct Dictionary {
    entries: Vec<DictionaryEntry>,
    next_id: u64,
}

/// The views of a list of entries.
pub open spec fn entry_views(entries: Seq<DictionaryEntry>) -> Seq<EntryView> {
    entries.map_values(|e: DictionaryEntry| e@)
}

/// The text after the first `n` entries of `entries` have been applied to it,
/// in order.
pub open spec fn apply_entries(entries: Seq<EntryView>, n: int, text: Seq<char>) -> Seq<char>
    decreases n,
{
    if n <= 0 {
        text
    } else {
        let before = apply_entries(entries, n - 1, text);
        replace_tokens_spec(before, entries[n - 1].wrong, entries[n - 1].correct)
    }
}

/// The hit count of `e` after it has been applied to `before`: one more
/// (saturating) when it changed the text, unchanged otherwise.
pub open spec fn hit_count_after(e: EntryView, before: Seq<char>) -> u32 {
    if replace_tokens_spec(before, e.wrong, e.correct) != before {
        if e.hit_count < u32::MAX {
            (e.hit_count + 1) as u32
        } else {
            e.hit_count
        }
    } else {
        e.hit_count
    }
}

/// An entry with every field of `e` but its hit count, which is `hits`.
pub open spec fn with_hit_count(e: EntryView, hits: u32) -> EntryView {
    EntryView { hit_count: hits, ..e }
}

/// An entry with every field of `e` but its two words.
pub open spec fn with_words(e: EntryView, wrong: Seq<char>, correct: Seq<char>) -> EntryView {
    EntryView { wrong, correct, ..e }
}

/// Some entry of `entries` has identifier `id`.
pub open spec fn has_id(entries: Seq<EntryView>, id: u64) -> bool {
    exists|i: int| 0 <= i < entries.len() && #[trigger] entries[i].id == id
}

/// The test that keeps an entry whose identifier is not `id`.
pub open spec fn id_differs(id: u64) -> spec_fn(EntryView) -> bool {
    |e: EntryView| e.id != id
}

/// The entries of `entries` whose identifier is not `id`, in order.
pub open spec fn without_id(entries: Seq<EntryView>, id: u64) -> Seq<EntryView> {
    entries.filter(id_differs(id))
}

/// The identifiers of `entries` are pairwise distinct and all below `next`:
/// the shape every dictionary built by `new` and changed by its methods has.
pub open spec fn ids_unique_below(entries: Seq<EntryView>, next: u64) -> bool {
    &&& forall|i: int| 0 <= i < entries.len() ==> #[trigger] entries[i].id < next
    &&& forall|i: int, j: int|
        0 <= i < j < entries.len() ==> #[trigger] entries[i].id != #[trigger] entries[j].id
}

impl Dictionary {
    /// The entries, in the order in which they are applied.
    pub closed spec fn entries_view(&self) -> Seq<EntryView> {
        entry_views(self.entries@)
    }

    /// The identifier the next added entry receives.
    pub closed spec fn next_id_view(&self) -> u64 {
        self.next_id
    }

    /// An empty dictionary whose first entry will get identifier 1.
    pub fn new() -> (d: Self)
        ensures
            d.entries_view() == Seq::<EntryView>::empty(),
            d.next_id_view() == 1,
            ids_unique_below(d.entries_view(), d.next_id_view()),
    {
        let d = Dictionary { entries: Vec::new(), next_id: 1 };
        proof {
            assert(entry_views(d.entries@) =~= Seq::<EntryView>::empty());
        }
        d
    }

    /// A dictionary made of stored entries and a stored next identifier.
    pub fn from_entries(entries: Vec<DictionaryEntry>, next_id: u64) -> (d: Self)
        ensures
            d.entries_view() == entry_views(entries@),
            d.next_id_view() == next_id,
    {
        Dictionary { entries, next_id }
    }

    /// The identifier the next added entry receives.
    pub fn next_id(&self) -> (n: u64)
        ensures
            n == self.next_id_view(),
    {
        self.next_id
    }

    /// The entries, in the order in which they are applied.
    pub fn entries(&self) -> (s: &[DictionaryEntry])
        ensures
            entry_views(s@) == self.entries_view(),
    {
        self.entries.as_slice()
    }

    /// Applies every entry, in order, to `transcript` and returns the
    /// corrected text. Each entry that changed the text has its hit count
    /// raised by one (saturating).
    pub fn apply(&mut self, transcript: &str) -> (out: String)
        ensures
            out@ == apply_entries(
                old(self).entries_view(),
                old(self).entries_view().len() as int,
                transcript@,
            ),
            final(self).next_id_view() == old(self).next_id_view(),
            final(self).entries_view().len() == old(self).entries_view().len(),
            forall|i: int|
                0 <= i < old(self).entries_view().len() ==> #[trigger] final(self).entries_view()[i]
                    == with_hit_count(
                    old(self).entries_view()[i],
                    hit_count_after(
                        old(self).entries_view()[i],
                        apply_entries(old(self).entries_view(), i, transcript@),
                    ),
                ),
    {
        let ghost old_entries = entry_views(self.entries@);
        let mut result = crate::text::string_from_chars(crate::text::chars_of(transcript).as_slice());
        let mut i: usize = 0;
        while i < self.entries.len()
            invariant
                i <= self.entries@.len(),
                self.entries@.len() == old_entries.len(),
                self.next_id == old(self).next_id,
                old_entries == entry_views(old(self).entries@),
                result@ == apply_entries(old_entries, i as int, transcript@),
                forall|j: int|
                    0 <= j < i ==> #[trigger] entry_views(self.entries@)[j] == with_hit_count(
                        old_entries[j],
                        hit_count_after(old_entries[j], apply_entries(old_entries, j, transcript@)),
                    ),
                forall|j: int|
                    i <= j < old_entries.len() ==> #[trigger] entry_views(self.entries@)[j]
                        == old_entries[j],
            decreases self.entries@.len() - i,
        {
            let replaced = replace_tokens(
                result.as_str(),
                self.entries[i].wrong.as_str(),
                self.entries[i].correct.as_str(),
            );
            proof {
                assert(entry_views(self.entries@)[i as int] == old_entries[i as int]);
            }
            let ghost before = self.entries@;
            if replaced != result {
                let hits: u32 = self.entries[i].hit_count.saturating_add(1);
                self.entries[i].hit_count = hits;
                result = replaced;
            }
            proof {
                assert forall|j: int| 0 <= j < before.len() && j != i implies #[trigger] self.entries@[j]
                    == before[j] by {}
                assert(self.entries@.len() == before.len());
                assert forall|j: int| 0 <= j < before.len() && j != i implies #[trigger] entry_views(
                    self.entries@,
                )[j] == entry_views(before)[j] by {
                    assert(self.entries@[j] == before[j]);
                }
                assert(entry_views(self.entries@)[i as int] == with_hit_count(
                    old_entries[i as int],
                    hit_count_after(
                        old_entries[i as int],
                        apply_entries(old_entries, i as int, transcript@),
                    ),
                ));
            }
            i = i + 1;
        }
        result
    }

    /// Appends a new entry, with a hit count of zero, and returns the
    /// identifier it received.
    pub fn add(&mut self, wrong: &str, correct: &str, source: EntrySource) -> (id: EntryId)
        requires
            old(self).next_id_view() < u64::MAX,
        ensures
            id.0 == old(self).next_id_view(),
            final(self).next_id_view() == old(self).next_id_view() + 1,
            final(self).entries_view() == old(self).entries_view().push(
                EntryView {
                    id: id.0,
                    wrong: wrong@,
                    correct: correct@,
                    source,
                    hit_count: 0,
                },
            ),
    {
        let id = EntryId(self.next_id);
        self.next_id = self.next_id + 1;
        let entry = DictionaryEntry {
            id,
            wrong: crate::text::string_from_chars(crate::text::chars_of(wrong).as_slice()),
            correct: crate::text::string_from_chars(crate::text::chars_of(correct).as_slice()),
            source,
            hit_count: 0,
        };
        let ghost before = self.entries@;
        self.entries.push(entry);
        proof {
            assert(entry_views(self.entries@) =~= entry_views(before).push(entry@));
        }
        id
    }

    /// Removes every entry with identifier `id`, keeping the order of the
    /// others, and reports whether there was one.
    pub fn remove(&mut self, id: EntryId) -> (removed: bool)
        ensures
            removed == has_id(old(self).entries_view(), id.0),
            final(self).entries_view() == without_id(old(self).entries_view(), id.0),
            final(self).next_id_view() == old(self).next_id_view(),
    {
        let ghost old_entries = entry_views(self.entries@);
        let ghost pred = id_differs(id.0);
        let mut old_vec: Vec<DictionaryEntry> = Vec::new();
        std::mem::swap(&mut old_vec, &mut self.entries);
        let mut kept: Vec<DictionaryEntry> = Vec::new();
        let mut found = false;
        let mut i: usize = 0;
        proof {
            reveal(Seq::filter);
            assert(old_entries.take(0) =~= Seq::<EntryView>::empty());
            assert(entry_views(kept@) =~= old_entries.take(0).filter(pred));
        }
        while i < old_vec.len()
            invariant
                i <= old_vec@.len(),
                old_entries == entry_views(old_vec@),
                entry_views(kept@) == old_entries.take(i as int).filter(pred),
                found == has_id(old_entries.take(i as int), id.0),
                pred == id_differs(id.0),
                self.next_id == old(self).next_id,
            decreases old_vec@.len() - i,
        {
            let entry_id = old_vec[i].id;
            let ghost prefix = old_entries.take(i as int);
            let ghost next = old_entries.take(i + 1);
            proof {
                reveal(Seq::filter);
                assert(next.drop_last() == prefix);
                assert(next.last() == old_entries[i as int]);
                assert(old_entries[i as int] == old_vec@[i as int]@);
            }
            if entry_id.0 != id.0 {
                let e = DictionaryEntry {
                    id: old_vec[i].id,
                    wrong: old_vec[i].wrong.clone(),
                    correct: old_vec[i].correct.clone(),
                    source: old_vec[i].source,
                    hit_count: old_vec[i].hit_count,
                };
                let ghost before = kept@;
                kept.push(e);
                proof {
                    assert(entry_views(kept@) =~= entry_views(before).push(e@));
                    assert(e@ == old_entries[i as int]);
                    assert(next.last().id == entry_id.0);
                    assert(pred(next.last()));
                    assert(entry_views(kept@) == prefix.filter(pred).push(next.last()));
                }
            } else {
                found = true;
                proof {
                    assert(!pred(next.last()));
                    assert(entry_views(kept@) == prefix.filter(pred));
                }
            }
            proof {
                reveal(Seq::filter);
                assert(next.len() > 0);
                assert(next.filter(pred) == if pred(next.last()) {
                    prefix.filter(pred).push(next.last())
                } else {
                    prefix.filter(pred)
                });
                assert(entry_views(kept@) == next.filter(pred));
                if has_id(prefix, id.0) {
                    let k = choose|k: int| 0 <= k < prefix.len() && #[trigger] prefix[k].id == id.0;
                    assert(next[k] == prefix[k]);
                }
                if has_id(next, id.0) {
                    let k = choose|k: int| 0 <= k < next.len() && #[trigger] next[k].id == id.0;
                    if k < prefix.len() {
                        assert(prefix[k] == next[k]);
                    }
                }
                if entry_id.0 == id.0 {
                    assert(next[i as int].id == id.0);
                }
            }
            i = i + 1;
        }
        proof {
            assert(old_entries.take(old_vec@.len() as int) == old_entries);
        }
        self.entries = kept;
        found
    }

    /// Gives the first entry with identifier `id` new words, keeping its
    /// identifier, source and hit count, and reports whether there was one.
    pub fn edit(&mut self, id: EntryId, wrong: &str, correct: &str) -> (edited: bool)
        ensures
            edited == has_id(old(self).entries_view(), id.0),
            final(self).next_id_view() == old(self).next_id_view(),
            !edited ==> final(self).entries_view() == old(self).entries_view(),
            edited ==> exists|k: int|
                0 <= k < old(self).entries_view().len() && #[trigger] old(self).entries_view()[k].id
                    == id.0 && (forall|j: int|
                    0 <= j < k ==> old(self).entries_view()[j].id != id.0)
                    && final(self).entries_view() == old(self).entries_view().update(
                    k,
                    with_words(old(self).entries_view()[k], wrong@, correct@),
                ),
    {
        let ghost old_entries = entry_views(self.entries@);
        let mut i: usize = 0;
        while i < self.entries.len()
            invariant
                i <= self.entries@.len(),
                old_entries == entry_views(self.entries@),
                self.entries == old(self).entries,
                self.next_id == old(self).next_id,
                forall|j: int| 0 <= j < i ==> old_entries[j].id != id.0,
            decreases self.entries@.len() - i,
        {
            proof {
                assert(old_entries[i as int] == self.entries@[i as int]@);
            }
            if self.entries[i].id.0 == id.0 {
                let new_wrong = crate::text::string_from_chars(
                    crate::text::chars_of(wrong).as_slice(),
                );
                let new_correct = crate::text::string_from_chars(
                    crate::text::chars_of(correct).as_slice(),
                );
                let ghost before = self.entries@;
                self.entries[i].wrong = new_wrong;
                self.entries[i].correct = new_correct;
                proof {
                    assert(self.entries@.len() == before.len());
                    assert forall|j: int| 0 <= j < before.len() && j != i implies #[trigger] entry_views(
                        self.entries@,
                    )[j] == entry_views(before)[j] by {
                        assert(self.entries@[j] == before[j]);
                    }
                    assert(entry_views(self.entries@) =~= old_entries.update(
                        i as int,
                        with_words(old_entries[i as int], wrong@, correct@),
                    ));
                    assert(old_entries[i as int].id == id.0);
                }
                return true;
            }
            i = i + 1;
        }
        false
    }
}

impl Default for Dictionary {
    fn default() -> (d: Self)
        ensures
            d.entries_view() == Seq::<EntryView>::empty(),
            d.next_id_view() == 0,
            ids_unique_below(d.entries_view(), d.next_id_view()),
    {
        let d = Dictionary { entries: Vec::new(), next_id: 0 };
        proof {
            assert(entry_views(d.entries@) =~= Seq::<EntryView>::empty());
        }
        d
    }
}

/// The dictionary shared between the dictation controller and the voice
/// agent.
pub type SharedDictionary = Shared<Dictionary>;

/// A shared, empty dictionary: a new lock made with a dictionary that has
/// no entries and gives its first entry identifier 1.
pub fn shared() -> (s: SharedDictionary)
    ensures
        s.initial().entries_view() == Seq::<EntryView>::empty(),
        s.initial().next_id_view() == 1,
{
    Shared::new(Dictionary::new())
}

// ---------------------------------------------------------------------------
// Laws
// ---------------------------------------------------------------------------

/// A dictionary with no entries gives every transcript back unchanged.
pub proof fn lemma_no_entries_change_nothing(text: Seq<char>)
    ensures
        apply_entries(Seq::<EntryView>::empty(), 0, text) == text,
{
}

/// Applying entries is applying them one after the other: the first `n + 1`
/// entries give what entry `n` makes of the text the first `n` gave.
pub proof fn lemma_apply_entries_step(entries: Seq<EntryView>, n: int, text: Seq<char>)
    requires
        0 <= n < entries.len(),
    ensures
        apply_entries(entries, n + 1, text) == replace_tokens_spec(
            apply_entries(entries, n, text),
            entries[n].wrong,
            entries[n].correct,
        ),
{
}

/// An entry's hit count never goes down when it is applied, and goes up by
/// at most one.
pub proof fn lemma_hit_count_grows_by_at_most_one(e: EntryView, before: Seq<char>)
    ensures
        e.hit_count <= hit_count_after(e, before) <= e.hit_count + 1,
        hit_count_after(e, before) == e.hit_count + 1 <==> (replace_tokens_spec(
            before,
            e.wrong,
            e.correct,
        ) != before && e.hit_count < u32::MAX),
{
}

/// Adding an entry with the next identifier keeps the identifiers distinct
/// and below the (raised) next identifier, and the new one is present.
pub proof fn lemma_add_keeps_ids_unique(entries: Seq<EntryView>, next: u64, e: EntryView)
    requires
        ids_unique_below(entries, next),
        next < u64::MAX,
        e.id == next,
    ensures
        ids_unique_below(entries.push(e), (next + 1) as u64),
        has_id(entries.push(e), next),
{
    let pushed = entries.push(e);
    assert(pushed[entries.len() as int].id == next);
    assert forall|i: int, j: int| 0 <= i < j < pushed.len() implies #[trigger] pushed[i].id
        != #[trigger] pushed[j].id by {
        if j == entries.len() {
            assert(entries[i].id < next);
        } else {
            assert(pushed[i] == entries[i] && pushed[j] == entries[j]);
        }
    }
    assert forall|i: int| 0 <= i < pushed.len() implies #[trigger] pushed[i].id < next + 1 by {
        if i < entries.len() {
            assert(pushed[i] == entries[i]);
        }
    }
}

/// Removing an identifier keeps the identifiers distinct and below the next
/// identifier, and no entry with that identifier is left.
pub proof fn lemma_remove_keeps_ids_unique(entries: Seq<EntryView>, next: u64, id: u64)
    requires
        ids_unique_below(entries, next),
    ensures
        ids_unique_below(without_id(entries, id), next),
        !has_id(without_id(entries, id), id),
    decreases entries.len(),
{
    let out = without_id(entries, id);
    if entries.len() == 0 {
        reveal(Seq::filter);
        assert(out.len() == 0);
    } else {
        let rest = entries.drop_last();
        let last = entries.last();
        assert(entries == rest.push(last));
        assert(ids_unique_below(rest, next)) by {
            assert forall|i: int, j: int| 0 <= i < j < rest.len() implies #[trigger] rest[i].id
                != #[trigger] rest[j].id by {
                assert(rest[i] == entries[i] && rest[j] == entries[j]);
            }
            assert forall|i: int| 0 <= i < rest.len() implies #[trigger] rest[i].id < next by {
                assert(rest[i] == entries[i]);
            }
        }
        lemma_remove_keeps_ids_unique(rest, next, id);
        rest.lemma_filter_push(last, id_differs(id));
        let sub = without_id(rest, id);
        if last.id != id {
            assert(out == sub.push(last));
            assert forall|i: int| 0 <= i < sub.len() implies #[trigger] sub[i].id != last.id by {
                assert(rest.filter(id_differs(id)).contains(sub[i]));
                rest.lemma_filter_contains_rev(id_differs(id), sub[i]);
                let k = choose|k: int| 0 <= k < rest.len() && rest[k] == sub[i];
                assert(entries[k] == rest[k]);
                assert(entries[entries.len() - 1] == last);
            }
            assert forall|i: int, j: int| 0 <= i < j < out.len() implies #[trigger] out[i].id
                != #[trigger] out[j].id by {
                if j == sub.len() {
                    assert(out[i] == sub[i]);
                } else {
                    assert(out[i] == sub[i] && out[j] == sub[j]);
                }
            }
            assert forall|i: int| 0 <= i < out.len() implies #[trigger] out[i].id < next by {
                if i < sub.len() {
                    assert(out[i] == sub[i]);
                } else {
                    assert(entries[entries.len() - 1] == last);
                }
            }
            assert forall|i: int| 0 <= i < out.len() implies #[trigger] out[i].id != id by {
                if i < sub.len() {
                    assert(out[i] == sub[i]);
                }
            }
        } else {
            assert(out == sub);
        }
    }
}

/// Removing an identifier that no entry has changes nothing.
pub proof fn lemma_remove_unknown_changes_nothing(entries: Seq<EntryView>, id: u64)
    requires
        !has_id(entries, id),
    ensures
        without_id(entries, id) == entries,
    decreases entries.len(),
{
    reveal(Seq::filter);
    if entries.len() > 0 {
        let rest = entries.drop_last();
        let last = entries.last();
        assert(entries == rest.push(last));
        assert(!has_id(rest, id)) by {
            if has_id(rest, id) {
                let k = choose|k: int| 0 <= k < rest.len() && #[trigger] rest[k].id == id;
                assert(entries[k] == rest[k]);
            }
        }
        lemma_remove_unknown_changes_nothing(rest, id);
        rest.lemma_filter_push(last, id_differs(id));
        assert(entries[entries.len() - 1].id != id);
    }
}

/// Removing the entry that was just added gives back the entries from
/// before the addition.
pub proof fn lemma_remove_undoes_add(entries: Seq<EntryView>, next: u64, e: EntryView)
    requires
        ids_unique_below(entries, next),
        e.id == next,
    ensures
        without_id(entries.push(e), next) == entries,
{
    assert(!has_id(entries, next)) by {
        if has_id(entries, next) {
            let k = choose|k: int| 0 <= k < entries.len() && #[trigger] entries[k].id == next;
        }
    }
    lemma_remove_unknown_changes_nothing(entries, next);
    entries.lemma_filter_push(e, id_differs(next));
}

/// Editing an entry's words keeps every identifier where it was.
pub proof fn lemma_edit_keeps_ids_unique(
    entries: Seq<EntryView>,
    next: u64,
    k: int,
    wrong: Seq<char>,
    correct: Seq<char>,
)
    requires
        ids_unique_below(entries, next),
        0 <= k < entries.len(),
    ensures
        ids_unique_below(entries.update(k, with_words(entries[k], wrong, correct)), next),
{
    let out = entries.update(k, with_words(entries[k], wrong, correct));
    assert forall|i: int| 0 <= i < out.len() implies #[trigger] out[i].id == entries[i].id by {}
    assert forall|i: int, j: int| 0 <= i < j < out.len() implies #[trigger] out[i].id
        != #[trigger] out[j].id by {
        assert(out[i].id == entries[i].id && out[j].id == entries[j].id);
    }
}

/// Applying the dictionary to a transcript changes only hit counts, so the
/// identifiers stay distinct and below the next identifier.
pub proof fn lemma_apply_keeps_ids_unique(
    before: Seq<EntryView>,
    after: Seq<EntryView>,
    next: u64,
)
    requires
        ids_unique_below(before, next),
        after.len() == before.len(),
        forall|i: int|
            0 <= i < before.len() ==> #[trigger] after[i] == with_hit_count(
                before[i],
                after[i].hit_count,
            ),
    ensures
        ids_unique_below(after, next),
{
    assert forall|i: int| 0 <= i < after.len() implies #[trigger] after[i].id == before[i].id by {
        assert(after[i] == with_hit_count(before[i], after[i].hit_count));
    }
    assert forall|i: int, j: int| 0 <= i < j < after.len() implies #[trigger] after[i].id
        != #[trigger] after[j].id by {
        assert(after[i].id == before[i].id && after[j].id == before[j].id);
    }
}

} // verus!
