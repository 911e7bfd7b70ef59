use tinyvox::dictionary::{Dictionary, EntryId, EntrySource};

#[test]
fn adds_entry() {
    let mut dictionary = Dictionary::new();
    let id = dictionary.add("saqlain", "Saqlain", EntrySource::Manual);
    assert_eq!(dictionary.entries().len(), 1);
    assert_eq!(dictionary.entries()[0].id, id);
}

#[test]
fn replaces_exact_token() {
    let mut dictionary = Dictionary::new();
    dictionary.add("kubernets", "Kubernetes", EntrySource::Manual);
    assert_eq!(dictionary.apply("I use Kubernets every day."), "I use Kubernetes every day.");
}

#[test]
fn matching_is_case_insensitive() {
    let mut dictionary = Dictionary::new();
    dictionary.add("saqlain", "Saqlain", EntrySource::Manual);
    assert_eq!(dictionary.apply("SAQLAIN is here."), "Saqlain is here.");
}

#[test]
fn punctuation_is_preserved() {
    let mut dictionary = Dictionary::new();
    dictionary.add("kubernets", "Kubernetes", EntrySource::Manual);
    assert_eq!(dictionary.apply("Kubernets, Kubernets!"), "Kubernetes, Kubernetes!");
}

#[test]
fn does_not_replace_inside_words() {
    let mut dictionary = Dictionary::new();
    dictionary.add("cat", "dog", EntrySource::Manual);
    assert_eq!(dictionary.apply("concatenate cat bobcat"), "concatenate dog bobcat");
}

#[test]
fn multiple_entries_are_applied() {
    let mut dictionary = Dictionary::new();
    dictionary.add("kubernets", "Kubernetes", EntrySource::Manual);
    dictionary.add("saqlain", "Saqlain", EntrySource::Manual);
    assert_eq!(dictionary.apply("Kubernets by Saqlain"), "Kubernetes by Saqlain");
}

#[test]
fn hit_count_increments() {
    let mut dictionary = Dictionary::new();
    dictionary.add("saqlain", "Saqlain", EntrySource::Manual);
    dictionary.apply("hello saqlain");
    assert_eq!(dictionary.entries()[0].hit_count, 1);
    dictionary.apply("hello saqlain again");
    assert_eq!(dictionary.entries()[0].hit_count, 2);
}

#[test]
fn remove_entry() {
    let mut dictionary = Dictionary::new();
    let id = dictionary.add("saqlain", "Saqlain", EntrySource::Manual);
    assert!(dictionary.remove(id));
    assert!(dictionary.entries().is_empty());
}

#[test]
fn removing_unknown_entry_returns_false() {
    let mut dictionary = Dictionary::new();
    assert!(!dictionary.remove(EntryId(999)));
}

#[test]
fn unchanged_text_is_returned() {
    let mut dictionary = Dictionary::new();
    dictionary.add("saqlain", "Saqlain", EntrySource::Manual);
    assert_eq!(dictionary.apply("hello from TinyVox"), "hello from TinyVox");
}

// Further cases.

#[test]
fn empty_dictionary_returns_transcript_unchanged() {
    let mut dictionary = Dictionary::new();
    assert_eq!(dictionary.apply("  any text, at all!  "), "  any text, at all!  ");
}

#[test]
fn identifiers_count_up_from_one() {
    let mut dictionary = Dictionary::new();
    assert_eq!(dictionary.next_id(), 1);
    let a = dictionary.add("a", "A", EntrySource::Manual);
    let b = dictionary.add("b", "B", EntrySource::AutoLearned);
    assert_eq!(a, EntryId(1));
    assert_eq!(b, EntryId(2));
    assert_eq!(dictionary.next_id(), 3);
    assert_eq!(dictionary.entries()[1].source, EntrySource::AutoLearned);
    assert_eq!(dictionary.entries()[1].hit_count, 0);
}

#[test]
fn default_dictionary_starts_at_zero() {
    let mut dictionary = Dictionary::default();
    assert_eq!(dictionary.next_id(), 0);
    assert_eq!(dictionary.add("x", "y", EntrySource::Manual), EntryId(0));
}

#[test]
fn remove_undoes_add() {
    let mut dictionary = Dictionary::new();
    dictionary.add("kubernets", "Kubernetes", EntrySource::Manual);
    let before = dictionary.entries().to_vec();
    let id = dictionary.add("saqlain", "Saqlain", EntrySource::Manual);
    assert!(dictionary.remove(id));
    assert_eq!(dictionary.entries(), before.as_slice());
    assert!(!dictionary.remove(id));
}

#[test]
fn edit_changes_words_and_keeps_the_rest() {
    let mut dictionary = Dictionary::new();
    let id = dictionary.add("kubernets", "Kubernetes", EntrySource::Manual);
    dictionary.apply("kubernets");
    assert!(dictionary.edit(id, "k8s", "Kubernetes!"));
    let entry = &dictionary.entries()[0];
    assert_eq!(entry.id, id);
    assert_eq!(entry.wrong, "k8s");
    assert_eq!(entry.correct, "Kubernetes!");
    assert_eq!(entry.hit_count, 1);
    assert!(!dictionary.edit(EntryId(42), "a", "b"));
}

#[test]
fn entries_apply_in_order() {
    let mut dictionary = Dictionary::new();
    dictionary.add("a", "b", EntrySource::Manual);
    dictionary.add("b", "c", EntrySource::Manual);
    assert_eq!(dictionary.apply("a b"), "c c");
    assert_eq!(dictionary.entries()[0].hit_count, 1);
    assert_eq!(dictionary.entries()[1].hit_count, 1);
}

#[test]
fn replacement_keeps_every_separator() {
    let mut dictionary = Dictionary::new();
    dictionary.add("cat", "dog", EntrySource::Manual);
    assert_eq!(dictionary.apply("(cat)\tcat.\ncat"), "(dog)\tdog.\ndog");
}

#[test]
fn empty_wrong_word_changes_nothing() {
    let mut dictionary = Dictionary::new();
    dictionary.add("", "x", EntrySource::Manual);
    assert_eq!(dictionary.apply("a  b"), "a  b");
    assert_eq!(dictionary.entries()[0].hit_count, 0);
}

#[test]
fn applying_a_word_correction_twice_changes_nothing_more() {
    let mut dictionary = Dictionary::new();
    dictionary.add("saqlain", "Saqlain", EntrySource::Manual);
    let once = dictionary.apply("saqlain, SAQLAIN and saqlains");
    let twice = dictionary.apply(&once);
    assert_eq!(once, "Saqlain, Saqlain and saqlains");
    assert_eq!(twice, once);
}

#[test]
fn non_ascii_words_are_matched_exactly() {
    let mut dictionary = Dictionary::new();
    dictionary.add("café", "Café", EntrySource::Manual);
    assert_eq!(dictionary.apply("un café, CAFÉ"), "un Café, CAFÉ");
}

#[test]
fn shared_dictionary_starts_empty() {
    let shared = tinyvox::dictionary::shared();
    let guard = shared.read();
    let dictionary = guard.value();
    assert!(dictionary.entries().is_empty());
    assert_eq!(dictionary.next_id(), 1);
    guard.release();
}

#[test]
fn stored_entries_are_restored() {
    let mut dictionary = Dictionary::new();
    dictionary.add("kubernets", "Kubernetes", EntrySource::Manual);
    dictionary.apply("kubernets");
    let restored = Dictionary::from_entries(dictionary.entries().to_vec(), dictionary.next_id());
    assert_eq!(restored.entries(), dictionary.entries());
    assert_eq!(restored.next_id(), 2);
}
