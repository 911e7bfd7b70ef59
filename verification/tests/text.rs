use tinyvox::text::{
    eq_ignore_ascii_case, is_ascii_punctuation, is_blank, is_separator, is_whitespace,
    replace_tokens, trim, word_count,
};

#[test]
fn trimming_removes_unicode_whitespace() {
    assert_eq!(trim("\u{3000} hi there\u{a0}\n"), "hi there");
    assert_eq!(trim("   "), "");
    assert!(is_blank(" \t\r\n"));
    assert!(!is_blank(" x "));
}

#[test]
fn separators_are_whitespace_and_ascii_punctuation() {
    assert!(is_whitespace('\u{2003}'));
    assert!(!is_whitespace('a'));
    assert!(is_ascii_punctuation('!'));
    assert!(is_ascii_punctuation('~'));
    assert!(!is_ascii_punctuation('¿'));
    assert!(is_separator(','));
    assert!(is_separator('\n'));
    assert!(is_separator('-'));
    assert!(!is_separator('é'));
}

#[test]
fn ascii_case_is_ignored_only_for_ascii() {
    let a: Vec<char> = "Straße".chars().collect();
    let b: Vec<char> = "STRAßE".chars().collect();
    let c: Vec<char> = "STRASSE".chars().collect();
    assert!(eq_ignore_ascii_case(&a, &b));
    assert!(!eq_ignore_ascii_case(&a, &c));
}

#[test]
fn words_are_counted_like_split_whitespace() {
    assert_eq!(word_count(""), 0);
    assert_eq!(word_count("  a  b\u{2003}c "), 3);
}

#[test]
fn replacement_is_whole_word_only() {
    assert_eq!(replace_tokens("cat-cat cats", "cat", "dog"), "dog-dog cats");
    assert_eq!(replace_tokens("CAT", "cat", ""), "");
    assert_eq!(replace_tokens("a b", "", "x"), "a b");
}

// Whole-word replacement written with `split_inclusive`, piece by piece.
fn replace_by_pieces(text: &str, wrong: &str, correct: &str) -> String {
    let delimiter = |c: char| c.is_whitespace() || c.is_ascii_punctuation();
    let mut out = String::new();
    for piece in text.split_inclusive(delimiter) {
        let (word, sep) = match piece.chars().last() {
            Some(last) if delimiter(last) => (&piece[..piece.len() - last.len_utf8()], &piece[piece.len() - last.len_utf8()..]),
            _ => (piece, ""),
        };
        if !wrong.is_empty() && word.eq_ignore_ascii_case(wrong) {
            out.push_str(correct);
            out.push_str(sep);
        } else {
            out.push_str(piece);
        }
    }
    out
}

#[test]
fn replacement_is_the_split_inclusive_form() {
    let cases = [
        ("I use kubernets, daily.", "Kubernets", "Kubernetes"),
        ("ny\tNY ny. ny", "ny", "New York"),
        ("", "a", "b"),
        ("a  a", "a", "b"),
        ("two words here", "two words", "x"),
        ("keep me", "", "x"),
        ("über Über", "über", "over"),
    ];
    for (text, wrong, correct) in cases {
        assert_eq!(replace_tokens(text, wrong, correct), replace_by_pieces(text, wrong, correct));
    }
    assert_eq!(replace_tokens("two words here", "two words", "x"), "two words here");
}
