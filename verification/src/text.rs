use vstd::prelude::*;

verus! {

// ---------------------------------------------------------------------------
// Character classes
// ---------------------------------------------------------------------------

/// The Unicode `White_Space` property, which `char::is_whitespace` tests.
pub open spec fn is_whitespace_spec(c: char) -> bool {
    let v: u32 = c as u32;
    ||| 0x09 <= v <= 0x0D
    ||| v == 0x20
    ||| v == 0x85
    ||| v == 0xA0
    ||| v == 0x1680
    ||| 0x2000 <= v <= 0x200A
    ||| v == 0x2028
    ||| v == 0x2029
    ||| v == 0x202F
    ||| v == 0x205F
    ||| v == 0x3000
}

/// The ASCII punctuation characters, which `char::is_ascii_punctuation` tests.
pub open spec fn is_ascii_punctuation_spec(c: char) -> bool {
    let v: u32 = c as u32;
    ||| 0x21 <= v <= 0x2F
    ||| 0x3A <= v <= 0x40
    ||| 0x5B <= v <= 0x60
    ||| 0x7B <= v <= 0x7E
}

/// The characters at which a transcript is cut into words for the
/// dictionary: whitespace and ASCII punctuation.
pub open spec fn is_separator_spec(c: char) -> bool {
    is_whitespace_spec(c) || is_ascii_punctuation_spec(c)
}

/// The code of `c` after ASCII lower-casing: `A`..`Z` become `a`..`z`, every
/// other character is left as it is.
pub open spec fn ascii_lower_code(c: char) -> u32 {
    let v: u32 = c as u32;
    if 0x41 <= v <= 0x5A {
        (v + 0x20) as u32
    } else {
        v
    }
}

/// Two character sequences are equal up to ASCII case.
pub open spec fn eq_ignore_ascii_case_spec(a: Seq<char>, b: Seq<char>) -> bool {
    &&& a.len() == b.len()
    &&& forall|i: int| 0 <= i < a.len() ==> ascii_lower_code(#[trigger] a[i]) == ascii_lower_code(
        b[i],
    )
}

/// Tests `char::is_whitespace`.
pub fn is_whitespace(c: char) -> (b: bool)
    ensures
        b == is_whitespace_spec(c),
{
    let v: u32 = c as u32;
    (0x09 <= v && v <= 0x0D) || v == 0x20 || v == 0x85 || v == 0xA0 || v == 0x1680 || (0x2000
        <= v && v <= 0x200A) || v == 0x2028 || v == 0x2029 || v == 0x202F || v == 0x205F || v
        == 0x3000
}

/// Tests `char::is_ascii_punctuation`.
pub fn is_ascii_punctuation(c: char) -> (b: bool)
    ensures
        b == is_ascii_punctuation_spec(c),
{
    let v: u32 = c as u32;
    (0x21 <= v && v <= 0x2F) || (0x3A <= v && v <= 0x40) || (0x5B <= v && v <= 0x60) || (0x7B
        <= v && v <= 0x7E)
}

/// Tests whether `c` separates two dictionary words.
pub fn is_separator(c: char) -> (b: bool)
    ensures
        b == is_separator_spec(c),
{
    is_whitespace(c) || is_ascii_punctuation(c)
}

fn ascii_lower(c: char) -> (v: u32)
    ensures
        v == ascii_lower_code(c),
{
    let v: u32 = c as u32;
    if 0x41 <= v && v <= 0x5A {
        v + 0x20
    } else {
        v
    }
}

/// Compares two character sequences up to ASCII case, as
/// `str::eq_ignore_ascii_case` does.
pub fn eq_ignore_ascii_case(a: &[char], b: &[char]) -> (eq: bool)
    ensures
        eq == eq_ignore_ascii_case_spec(a@, b@),
{
    if a.len() != b.len() {
        return false;
    }
    let mut i: usize = 0;
    while i < a.len()
        invariant
            a.len() == b.len(),
            i <= a.len(),
            forall|j: int| 0 <= j < i ==> ascii_lower_code(#[trigger] a@[j]) == ascii_lower_code(
                b@[j],
            ),
        decreases a.len() - i,
    {
        if ascii_lower(a[i]) != ascii_lower(b[i]) {
            return false;
        }
        i = i + 1;
    }
    true
}

// ---------------------------------------------------------------------------
// Conversions between strings and characters
// ---------------------------------------------------------------------------

/// The characters of `s`, in order.
pub fn chars_of(s: &str) -> (v: Vec<char>)
    ensures
        v@ == s@,
{
    let mut v: Vec<char> = Vec::new();
    for c in it: s.chars()
        invariant
            it.seq() == s@,
            v@ == s@.take(it.index()),
    {
        v.push(c);
    }
    assert(v@ == s@);
    v
}

/// Appends one character to a string (`String::push`).
#[verifier::external_body]
pub(crate) fn push_char(s: &mut String, c: char)
    ensures
        final(s)@ == old(s)@.push(c),
{
    s.push(c);
}

/// Appends a sequence of characters to a string.
pub fn push_chars(s: &mut String, chars: &[char])
    ensures
        final(s)@ == old(s)@ + chars@,
{
    let mut i: usize = 0;
    while i < chars.len()
        invariant
            i <= chars.len(),
            s@ == old(s)@ + chars@.take(i as int),
        decreases chars.len() - i,
    {
        push_char(s, chars[i]);
        i = i + 1;
        assert(chars@.take(i as int) == chars@.take(i - 1).push(chars@[i - 1]));
    }
    assert(chars@.take(chars.len() as int) == chars@);
}

/// The string made of the given characters.
pub fn string_from_chars(chars: &[char]) -> (s: String)
    ensures
        s@ == chars@,
{
    let mut s = String::new();
    push_chars(&mut s, chars);
    s
}

// ---------------------------------------------------------------------------
// Trimming and blank text
// ---------------------------------------------------------------------------

/// `s` without its leading whitespace.
pub open spec fn trim_start_spec(s: Seq<char>) -> Seq<char>
    decreases s.len(),
{
    if s.len() > 0 && is_whitespace_spec(s[0]) {
        trim_start_spec(s.drop_first())
    } else {
        s
    }
}

/// `s` without its trailing whitespace.
pub open spec fn trim_end_spec(s: Seq<char>) -> Seq<char>
    decreases s.len(),
{
    if s.len() > 0 && is_whitespace_spec(s.last()) {
        trim_end_spec(s.drop_last())
    } else {
        s
    }
}

/// `s` without leading and trailing whitespace, as `str::trim` gives it.
pub open spec fn trim_spec(s: Seq<char>) -> Seq<char> {
    trim_end_spec(trim_start_spec(s))
}

/// Every character of `s` is whitespace.
pub open spec fn is_blank_spec(s: Seq<char>) -> bool {
    forall|i: int| 0 <= i < s.len() ==> is_whitespace_spec(#[trigger] s[i])
}

/// `trim_start_spec(s)` is the suffix of `s` that starts at its first
/// non-whitespace character.
proof fn lemma_trim_start_skip(s: Seq<char>, k: int)
    requires
        0 <= k <= s.len(),
        forall|j: int| 0 <= j < k ==> is_whitespace_spec(#[trigger] s[j]),
    ensures
        trim_start_spec(s) == trim_start_spec(s.skip(k)),
    decreases k,
{
    if k > 0 {
        assert(is_whitespace_spec(s[0]));
        assert(s.drop_first().skip(k - 1) == s.skip(k));
        lemma_trim_start_skip(s.drop_first(), k - 1);
    } else {
        assert(s.skip(0) == s);
    }
}

proof fn lemma_trim_end_take(s: Seq<char>, k: int)
    requires
        0 <= k <= s.len(),
        forall|j: int| k <= j < s.len() ==> is_whitespace_spec(#[trigger] s[j]),
    ensures
        trim_end_spec(s) == trim_end_spec(s.take(k)),
    decreases s.len() - k,
{
    if k < s.len() {
        assert(is_whitespace_spec(s.last()));
        assert(s.drop_last().take(k) == s.take(k));
        lemma_trim_end_take(s.drop_last(), k);
    } else {
        assert(s.take(k) == s);
    }
}

/// The whitespace-free ends and the blank case of `trim_spec`.
pub proof fn lemma_trim_spec_shape(s: Seq<char>)
    ensures
        is_blank_spec(s) <==> trim_spec(s).len() == 0,
        trim_spec(s).len() > 0 ==> !is_whitespace_spec(trim_spec(s)[0]) && !is_whitespace_spec(
            trim_spec(s).last(),
        ),
{
    lemma_trim_start_shape(s);
    lemma_trim_end_shape(trim_start_spec(s));
}

proof fn lemma_trim_start_shape(s: Seq<char>)
    ensures
        is_blank_spec(s) <==> trim_start_spec(s).len() == 0,
        trim_start_spec(s).len() > 0 ==> !is_whitespace_spec(trim_start_spec(s)[0]),
        trim_start_spec(s).len() <= s.len(),
        s.skip(s.len() - trim_start_spec(s).len()) == trim_start_spec(s),
    decreases s.len(),
{
    if s.len() > 0 && is_whitespace_spec(s[0]) {
        lemma_trim_start_shape(s.drop_first());
        if is_blank_spec(s.drop_first()) {
            assert forall|i: int| 0 <= i < s.len() implies is_whitespace_spec(#[trigger] s[i]) by {
                if i > 0 {
                    assert(s[i] == s.drop_first()[i - 1]);
                }
            }
        }
        if is_blank_spec(s) {
            assert forall|i: int| 0 <= i < s.drop_first().len() implies is_whitespace_spec(
                #[trigger] s.drop_first()[i],
            ) by {
                assert(s.drop_first()[i] == s[i + 1]);
            }
        }
        let t = trim_start_spec(s.drop_first());
        assert(s.drop_first().skip(s.drop_first().len() - t.len()) == s.skip(s.len() - t.len()));
    } else {
        if s.len() > 0 {
            assert(!is_whitespace_spec(s[0]));
        }
        assert(s.skip(0) == s);
    }
}

proof fn lemma_trim_end_shape(s: Seq<char>)
    ensures
        is_blank_spec(s) <==> trim_end_spec(s).len() == 0,
        trim_end_spec(s).len() > 0 ==> !is_whitespace_spec(trim_end_spec(s).last()),
        trim_end_spec(s).len() > 0 ==> trim_end_spec(s)[0] == s[0],
        trim_end_spec(s).len() <= s.len(),
    decreases s.len(),
{
    if s.len() > 0 && is_whitespace_spec(s.last()) {
        lemma_trim_end_shape(s.drop_last());
        if is_blank_spec(s.drop_last()) {
            assert forall|i: int| 0 <= i < s.len() implies is_whitespace_spec(#[trigger] s[i]) by {
                if i < s.len() - 1 {
                    assert(s[i] == s.drop_last()[i]);
                }
            }
        }
        if is_blank_spec(s) {
            assert forall|i: int| 0 <= i < s.drop_last().len() implies is_whitespace_spec(
                #[trigger] s.drop_last()[i],
            ) by {
                assert(s.drop_last()[i] == s[i]);
            }
        }
    } else {
        if s.len() > 0 {
            assert(!is_whitespace_spec(s.last()));
        }
    }
}

proof fn lemma_trim_start_drops_whitespace(s: Seq<char>)
    ensures
        trim_start_spec(s).len() <= s.len(),
        trim_start_spec(s) == s.skip(s.len() - trim_start_spec(s).len()),
        forall|k: int|
            0 <= k < s.len() - trim_start_spec(s).len() ==> is_whitespace_spec(#[trigger] s[k]),
    decreases s.len(),
{
    lemma_trim_start_shape(s);
    if s.len() > 0 && is_whitespace_spec(s[0]) {
        lemma_trim_start_drops_whitespace(s.drop_first());
        assert forall|k: int| 0 <= k < s.len() - trim_start_spec(s).len() implies is_whitespace_spec(
            #[trigger] s[k],
        ) by {
            if k > 0 {
                assert(s[k] == s.drop_first()[k - 1]);
            }
        }
    }
}

proof fn lemma_trim_end_drops_whitespace(s: Seq<char>)
    ensures
        trim_end_spec(s).len() <= s.len(),
        trim_end_spec(s) == s.take(trim_end_spec(s).len() as int),
        forall|k: int| trim_end_spec(s).len() <= k < s.len() ==> is_whitespace_spec(#[trigger] s[k]),
    decreases s.len(),
{
    if s.len() > 0 && is_whitespace_spec(s.last()) {
        lemma_trim_end_drops_whitespace(s.drop_last());
        let t = trim_end_spec(s.drop_last());
        assert(s.drop_last().take(t.len() as int) == s.take(t.len() as int));
        assert forall|k: int| t.len() <= k < s.len() implies is_whitespace_spec(#[trigger] s[k]) by {
            if k < s.len() - 1 {
                assert(s[k] == s.drop_last()[k]);
            }
        }
    } else {
        assert(s.take(s.len() as int) == s);
    }
}

/// Trimming only takes whitespace off the two ends: the trimmed text is one
/// contiguous part of `s` (from `start` to `end`), everything before and
/// after it is whitespace, and, when it is not empty, it starts and ends
/// with a character that is not.
pub proof fn lemma_trim_keeps_the_inner_part(s: Seq<char>) -> (bounds: (int, int))
    ensures
        0 <= bounds.0 <= bounds.1 <= s.len(),
        trim_spec(s) == s.subrange(bounds.0, bounds.1),
        forall|k: int| 0 <= k < bounds.0 ==> is_whitespace_spec(#[trigger] s[k]),
        forall|k: int| bounds.1 <= k < s.len() ==> is_whitespace_spec(#[trigger] s[k]),
        trim_spec(s).len() > 0 ==> !is_whitespace_spec(s[bounds.0]) && !is_whitespace_spec(
            s[bounds.1 - 1],
        ),
{
    lemma_trim_start_drops_whitespace(s);
    let u = trim_start_spec(s);
    let a: int = s.len() - u.len();
    lemma_trim_end_drops_whitespace(u);
    let b: int = trim_end_spec(u).len() as int;
    lemma_trim_spec_shape(s);
    assert(trim_spec(s) == s.subrange(a, a + b));
    assert forall|k: int| a + b <= k < s.len() implies is_whitespace_spec(#[trigger] s[k]) by {
        assert(s[k] == u[k - a]);
    }
    if b > 0 {
        assert(s[a] == trim_spec(s)[0]);
        assert(s[a + b - 1] == trim_spec(s).last());
    }
    (a, a + b)
}

/// `s` without leading and trailing whitespace (`str::trim`), as characters.
pub fn trim_chars(s: &[char]) -> (t: Vec<char>)
    ensures
        t@ == trim_spec(s@),
{
    let mut start: usize = 0;
    while start < s.len() && is_whitespace(s[start])
        invariant
            start <= s.len(),
            forall|j: int| 0 <= j < start ==> is_whitespace_spec(#[trigger] s@[j]),
        decreases s.len() - start,
    {
        start = start + 1;
    }
    proof {
        lemma_trim_start_skip(s@, start as int);
        if start < s.len() {
            assert(s@.skip(start as int)[0] == s@[start as int]);
        }
        assert(trim_start_spec(s@.skip(start as int)) == s@.skip(start as int));
    }
    let mut end: usize = s.len();
    while end > start && is_whitespace(s[end - 1])
        invariant
            start <= end <= s.len(),
            forall|j: int| end <= j < s.len() ==> is_whitespace_spec(#[trigger] s@[j]),
        decreases end,
    {
        end = end - 1;
    }
    let ghost mid = s@.skip(start as int);
    proof {
        lemma_trim_end_take(mid, end - start);
        assert(mid.take(end - start) == s@.subrange(start as int, end as int));
        let m = mid.take(end - start);
        if end > start {
            assert(m.last() == s@[end - 1]);
        }
        assert(trim_end_spec(m) == m);
    }
    let mut t: Vec<char> = Vec::new();
    let mut i: usize = start;
    while i < end
        invariant
            start <= i <= end <= s.len(),
            t@ == s@.subrange(start as int, i as int),
        decreases end - i,
    {
        t.push(s[i]);
        i = i + 1;
    }
    t
}

/// `s` without leading and trailing whitespace (`str::trim`).
pub fn trim(s: &str) -> (t: String)
    ensures
        t@ == trim_spec(s@),
{
    let chars = chars_of(s);
    let trimmed = trim_chars(chars.as_slice());
    string_from_chars(trimmed.as_slice())
}

/// Whether `s` holds nothing but whitespace (`s.trim().is_empty()`).
pub fn is_blank(s: &str) -> (b: bool)
    ensures
        b == is_blank_spec(s@),
        b == (trim_spec(s@).len() == 0),
{
    let chars = chars_of(s);
    let mut i: usize = 0;
    while i < chars.len()
        invariant
            chars@ == s@,
            i <= chars.len(),
            forall|j: int| 0 <= j < i ==> is_whitespace_spec(#[trigger] chars@[j]),
        decreases chars.len() - i,
    {
        if !is_whitespace(chars[i]) {
            proof {
                lemma_trim_spec_shape(s@);
            }
            return false;
        }
        i = i + 1;
    }
    proof {
        lemma_trim_spec_shape(s@);
    }
    true
}

// ---------------------------------------------------------------------------
// Word counting
// ---------------------------------------------------------------------------

/// The number of maximal runs of non-whitespace characters in `s`: the count
/// of `str::split_whitespace`.
pub open spec fn word_count_spec(s: Seq<char>) -> nat
    decreases s.len(),
{
    if s.len() == 0 {
        0
    } else {
        let starts_word = !is_whitespace_spec(s.last()) && (s.len() == 1 || is_whitespace_spec(
            s[s.len() - 2],
        ));
        word_count_spec(s.drop_last()) + if starts_word {
            1nat
        } else {
            0nat
        }
    }
}

proof fn lemma_word_count_bound(s: Seq<char>)
    ensures
        word_count_spec(s) <= s.len(),
    decreases s.len(),
{
    if s.len() > 0 {
        lemma_word_count_bound(s.drop_last());
    }
}

/// `a` ends in the middle of a word that `b` goes on with.
pub open spec fn joins_words(a: Seq<char>, b: Seq<char>) -> bool {
    a.len() > 0 && b.len() > 0 && !is_whitespace_spec(a.last()) && !is_whitespace_spec(b[0])
}

proof fn lemma_word_count_concat(a: Seq<char>, b: Seq<char>)
    ensures
        word_count_spec(a + b) + (if joins_words(a, b) {
            1int
        } else {
            0int
        }) == word_count_spec(a) + word_count_spec(b),
    decreases b.len(),
{
    if b.len() == 0 {
        assert(a + b == a);
    } else {
        let b1 = b.drop_last();
        lemma_word_count_concat(a, b1);
        assert((a + b).drop_last() == a + b1);
        assert((a + b).last() == b.last());
        if b.len() >= 2 {
            assert((a + b)[(a + b).len() - 2] == b[b.len() - 2]);
            assert(b1[0] == b[0]);
        } else if a.len() > 0 {
            assert((a + b)[(a + b).len() - 2] == a.last());
        }
    }
}

/// Words are counted across whitespace: a text made of two texts with a
/// whitespace character between them has as many words as the two have
/// together; a blank text has none, and a text without whitespace has one.
pub proof fn lemma_word_count_adds_up(a: Seq<char>, c: char, b: Seq<char>)
    requires
        is_whitespace_spec(c),
    ensures
        word_count_spec(a + seq![c] + b) == word_count_spec(a) + word_count_spec(b),
        is_blank_spec(a) ==> word_count_spec(a) == 0,
        a.len() > 0 && (forall|i: int| 0 <= i < a.len() ==> !is_whitespace_spec(#[trigger] a[i]))
            ==> word_count_spec(a) == 1,
{
    lemma_word_count_concat(a, seq![c]);
    lemma_word_count_concat(a + seq![c], b);
    assert(word_count_spec(seq![c]) == 0) by {
        assert(seq![c].drop_last() == Seq::<char>::empty());
        assert(word_count_spec(Seq::<char>::empty()) == 0);
        assert(seq![c].last() == c);
    }
    lemma_word_count_blank(a);
    lemma_word_count_one_word(a);
}

proof fn lemma_word_count_blank(a: Seq<char>)
    ensures
        is_blank_spec(a) ==> word_count_spec(a) == 0,
    decreases a.len(),
{
    if a.len() > 0 {
        lemma_word_count_blank(a.drop_last());
        if is_blank_spec(a) {
            assert(is_whitespace_spec(a[a.len() - 1]));
            assert forall|i: int| 0 <= i < a.drop_last().len() implies is_whitespace_spec(
                #[trigger] a.drop_last()[i],
            ) by {
                assert(a.drop_last()[i] == a[i]);
            }
        }
    }
}

proof fn lemma_word_count_one_word(a: Seq<char>)
    ensures
        a.len() > 0 && (forall|i: int| 0 <= i < a.len() ==> !is_whitespace_spec(#[trigger] a[i]))
            ==> word_count_spec(a) == 1,
    decreases a.len(),
{
    if a.len() > 1 {
        lemma_word_count_one_word(a.drop_last());
        if forall|i: int| 0 <= i < a.len() ==> !is_whitespace_spec(#[trigger] a[i]) {
            assert forall|i: int| 0 <= i < a.drop_last().len() implies !is_whitespace_spec(
                #[trigger] a.drop_last()[i],
            ) by {
                assert(a.drop_last()[i] == a[i]);
            }
            assert(!is_whitespace_spec(a[a.len() - 2]));
            assert(!is_whitespace_spec(a[a.len() - 1]));
            assert(a.last() == a[a.len() - 1]);
            assert(word_count_spec(a) == word_count_spec(a.drop_last()));
        }
    } else if a.len() == 1 {
        if forall|i: int| 0 <= i < a.len() ==> !is_whitespace_spec(#[trigger] a[i]) {
            assert(!is_whitespace_spec(a[0]));
            assert(a.drop_last() == Seq::<char>::empty());
            assert(word_count_spec(Seq::<char>::empty()) == 0);
            assert(a.last() == a[0]);
        }
    }
}

/// The number of whitespace-separated words of `s`.
pub fn word_count(s: &str) -> (n: usize)
    ensures
        n == word_count_spec(s@),
{
    let chars = chars_of(s);
    let mut n: usize = 0;
    let mut i: usize = 0;
    while i < chars.len()
        invariant
            chars@ == s@,
            i <= chars.len(),
            n == word_count_spec(chars@.take(i as int)),
        decreases chars.len() - i,
    {
        let starts = !is_whitespace(chars[i]) && (i == 0 || is_whitespace(chars[i - 1]));
        proof {
            let p = chars@.take(i + 1);
            assert(p.drop_last() == chars@.take(i as int));
            assert(p.last() == chars@[i as int]);
            if i > 0 {
                assert(p[p.len() - 2] == chars@[i - 1]);
            }
            lemma_word_count_bound(chars@.take(i as int));
        }
        if starts {
            n = n + 1;
        }
        i = i + 1;
    }
    assert(chars@.take(chars.len() as int) == chars@);
    n
}

/// The number of bytes that UTF-8 spends on `c`.
pub open spec fn utf8_width(c: char) -> nat {
    let v: u32 = c as u32;
    if v < 0x80 {
        1
    } else if v < 0x800 {
        2
    } else if v < 0x10000 {
        3
    } else {
        4
    }
}

/// The number of bytes of the UTF-8 encoding of `s` (`str::len`).
pub open spec fn utf8_len(s: Seq<char>) -> nat
    decreases s.len(),
{
    if s.len() == 0 {
        0
    } else {
        utf8_len(s.drop_last()) + utf8_width(s.last())
    }
}

proof fn lemma_utf8_len_bound(s: Seq<char>)
    ensures
        utf8_len(s) <= 4 * s.len(),
    decreases s.len(),
{
    if s.len() > 0 {
        lemma_utf8_len_bound(s.drop_last());
    }
}

/// The number of bytes of the UTF-8 encoding of `s`.
pub fn utf8_len_of(s: &[char]) -> (n: u128)
    ensures
        n == utf8_len(s@),
        n <= 4 * s.len(),
{
    proof {
        lemma_utf8_len_bound(s@);
    }
    let mut n: u128 = 0;
    let mut i: usize = 0;
    while i < s.len()
        invariant
            i <= s.len(),
            n == utf8_len(s@.take(i as int)),
        decreases s.len() - i,
    {
        let v: u32 = s[i] as u32;
        let w: u128 = if v < 0x80 {
            1
        } else if v < 0x800 {
            2
        } else if v < 0x10000 {
            3
        } else {
            4
        };
        proof {
            assert(s@.take(i + 1).drop_last() == s@.take(i as int));
            lemma_utf8_len_bound(s@.take(i as int));
        }
        n = n + w;
        i = i + 1;
    }
    assert(s@.take(s.len() as int) == s@);
    n
}



// ---------------------------------------------------------------------------
// Whole-word replacement
// ---------------------------------------------------------------------------

/// The length of the word at the start of `t`: the number of characters
/// before its first separator.
pub open spec fn word_len(t: Seq<char>) -> nat
    decreases t.len(),
{
    if t.len() == 0 || is_separator_spec(t[0]) {
        0
    } else {
        1 + word_len(t.drop_first())
    }
}

/// No character of `w` is a separator.
pub open spec fn is_word(w: Seq<char>) -> bool {
    forall|i: int| 0 <= i < w.len() ==> !is_separator_spec(#[trigger] w[i])
}

/// The word `w` after replacement: `correct` when `w` equals `wrong` up to
/// ASCII case, `w` itself otherwise.
pub open spec fn replace_word(w: Seq<char>, wrong: Seq<char>, correct: Seq<char>) -> Seq<char> {
    if eq_ignore_ascii_case_spec(w, wrong) {
        correct
    } else {
        w
    }
}

/// `t` with every whole word that equals `wrong` up to ASCII case replaced by
/// `correct`. Words are the maximal runs between separators (whitespace and
/// ASCII punctuation); the separators themselves are kept. An empty `wrong`
/// leaves `t` unchanged.
pub open spec fn replace_tokens_spec(t: Seq<char>, wrong: Seq<char>, correct: Seq<char>) -> Seq<
    char,
>
    decreases t.len(),
{
    if wrong.len() == 0 {
        t
    } else if t.len() == 0 {
        seq![]
    } else {
        let k: nat = word_len(t);
        let w = replace_word(t.take(k as int), wrong, correct);
        if k >= t.len() {
            w
        } else {
            w + seq![t[k as int]] + replace_tokens_spec(t.skip(k + 1int), wrong, correct)
        }
    }
}

proof fn lemma_word_len_bound(t: Seq<char>)
    ensures
        word_len(t) <= t.len(),
        word_len(t) < t.len() ==> is_separator_spec(t[word_len(t) as int]),
        is_word(t.take(word_len(t) as int)),
    decreases t.len(),
{
    if t.len() == 0 || is_separator_spec(t[0]) {
    } else {
        lemma_word_len_bound(t.drop_first());
        let k: nat = word_len(t.drop_first());
        assert forall|i: int| 0 <= i < k + 1 implies !is_separator_spec(
            #[trigger] t.take(k + 1int)[i],
        ) by {
            if i > 0 {
                assert(t.take(k + 1int)[i] == t.drop_first().take(k as int)[i - 1]);
            }
        }
        if word_len(t) < t.len() {
            assert(t[word_len(t) as int] == t.drop_first()[k as int]);
        }
    }
}

/// A word followed by `s` starts with that whole word.
proof fn lemma_word_len_prefix(w: Seq<char>, s: Seq<char>)
    requires
        is_word(w),
    ensures
        word_len(w + s) == w.len() + word_len(s),
    decreases w.len(),
{
    if w.len() == 0 {
        assert(w + s == s);
    } else {
        assert(!is_separator_spec(w[0]));
        assert((w + s)[0] == w[0]);
        assert((w + s).drop_first() == w.drop_first() + s);
        assert(is_word(w.drop_first())) by {
            assert forall|i: int| 0 <= i < w.drop_first().len() implies !is_separator_spec(
                #[trigger] w.drop_first()[i],
            ) by {
                assert(w.drop_first()[i] == w[i + 1]);
            }
        }
        lemma_word_len_prefix(w.drop_first(), s);
    }
}

/// A word that replacement produced is left alone by the same replacement.
proof fn lemma_replace_word_stable(t: Seq<char>, wrong: Seq<char>, correct: Seq<char>)
    ensures
        replace_word(replace_word(t, wrong, correct), wrong, correct) == replace_word(
            t,
            wrong,
            correct,
        ),
{
}

/// Replacing with a single word (no separator in `correct`) is idempotent:
/// running the same replacement again on its output changes nothing.
pub proof fn lemma_replace_tokens_idempotent(t: Seq<char>, wrong: Seq<char>, correct: Seq<char>)
    requires
        is_word(correct),
    ensures
        replace_tokens_spec(replace_tokens_spec(t, wrong, correct), wrong, correct)
            == replace_tokens_spec(t, wrong, correct),
    decreases t.len(),
{
    if wrong.len() == 0 || t.len() == 0 {
    } else {
        let k: nat = word_len(t);
        lemma_word_len_bound(t);
        let w = replace_word(t.take(k as int), wrong, correct);
        assert(is_word(w));
        lemma_replace_word_stable(t.take(k as int), wrong, correct);
        if k >= t.len() {
            lemma_word_len_prefix(w, seq![]);
            assert(w + seq![] == w);
            assert(w.take(w.len() as int) == w);
            if w.len() == 0 {
                assert(replace_tokens_spec(w, wrong, correct) == w);
            }
        } else {
            let sep = t[k as int];
            let rest = replace_tokens_spec(t.skip(k + 1int), wrong, correct);
            let r = w + seq![sep] + rest;
            assert(r == w + (seq![sep] + rest));
            assert((seq![sep] + rest)[0] == sep);
            assert(word_len(seq![sep] + rest) == 0);
            lemma_word_len_prefix(w, seq![sep] + rest);
            assert(r.take(w.len() as int) == w);
            assert(r[w.len() as int] == sep);
            assert(r.skip(w.len() + 1int) == rest);
            lemma_replace_tokens_idempotent(t.skip(k + 1int), wrong, correct);
        }
    }
}

/// The test that picks out separators.
pub open spec fn separator_test() -> spec_fn(char) -> bool {
    |c: char| is_separator_spec(c)
}

/// The separators of `t`, in order.
pub open spec fn separators(t: Seq<char>) -> Seq<char> {
    t.filter(separator_test())
}

/// A word holds no separator.
proof fn lemma_word_has_no_separators(w: Seq<char>)
    requires
        is_word(w),
    ensures
        separators(w) == Seq::<char>::empty(),
    decreases w.len(),
{
    reveal(Seq::filter);
    if w.len() > 0 {
        assert(is_word(w.drop_last())) by {
            assert forall|i: int| 0 <= i < w.drop_last().len() implies !is_separator_spec(
                #[trigger] w.drop_last()[i],
            ) by {
                assert(w.drop_last()[i] == w[i]);
            }
        }
        lemma_word_has_no_separators(w.drop_last());
        assert(!is_separator_spec(w[w.len() - 1]));
    }
}

/// Replacing with a single word keeps every separator of the text, in
/// order: whitespace and punctuation come out as they went in.
pub proof fn lemma_replace_tokens_keeps_separators(
    t: Seq<char>,
    wrong: Seq<char>,
    correct: Seq<char>,
)
    requires
        is_word(correct),
    ensures
        separators(replace_tokens_spec(t, wrong, correct)) == separators(t),
    decreases t.len(),
{
    broadcast use Seq::filter_distributes_over_add;

    if wrong.len() == 0 || t.len() == 0 {
    } else {
        let k = word_len(t);
        lemma_word_len_bound(t);
        let head = t.take(k as int);
        let w = replace_word(head, wrong, correct);
        lemma_word_has_no_separators(head);
        lemma_word_has_no_separators(w);
        if k >= t.len() {
            assert(head == t);
        } else {
            let sep = t[k as int];
            let rest = t.skip(k + 1int);
            assert(t == head + seq![sep] + rest);
            reveal(Seq::filter);
            assert(seq![sep].filter(separator_test()) == seq![sep]) by {
                assert(seq![sep].drop_last() == Seq::<char>::empty());
            }
            lemma_replace_tokens_keeps_separators(rest, wrong, correct);
        }
    }
}

/// A separator never equals a word character up to ASCII case.
proof fn lemma_separator_matches_no_word_char(w: char, sep: char)
    requires
        !is_separator_spec(w),
        is_separator_spec(sep),
    ensures
        ascii_lower_code(w) != ascii_lower_code(sep),
{
}

/// A word never equals, up to ASCII case, a text that holds a separator.
proof fn lemma_word_never_matches_separated(w: Seq<char>, wrong: Seq<char>)
    requires
        is_word(w),
        !is_word(wrong),
    ensures
        !eq_ignore_ascii_case_spec(w, wrong),
{
    if w.len() == wrong.len() {
        let i = choose|i: int| 0 <= i < wrong.len() && is_separator_spec(#[trigger] wrong[i]);
        lemma_separator_matches_no_word_char(w[i], wrong[i]);
    }
}

/// Only whole words are replaced: when the wrong text is empty or holds a
/// separator (several words, or punctuation), no word can equal it and the
/// text comes back unchanged.
pub proof fn lemma_replace_tokens_needs_a_word(t: Seq<char>, wrong: Seq<char>, correct: Seq<char>)
    requires
        wrong.len() == 0 || !is_word(wrong),
    ensures
        replace_tokens_spec(t, wrong, correct) == t,
    decreases t.len(),
{
    if wrong.len() == 0 || t.len() == 0 {
    } else {
        let k = word_len(t);
        lemma_word_len_bound(t);
        let head = t.take(k as int);
        lemma_word_never_matches_separated(head, wrong);
        if k >= t.len() {
            assert(head == t);
        } else {
            lemma_replace_tokens_needs_a_word(t.skip(k + 1int), wrong, correct);
            assert(t == head + seq![t[k as int]] + t.skip(k + 1int));
        }
    }
}

/// The pieces `str::split_inclusive` cuts `t` into at separators: each
/// piece runs up to and including the next separator; a last piece without
/// a separator holds what follows the last one; an empty text has none.
pub open spec fn split_inclusive_spec(t: Seq<char>) -> Seq<Seq<char>>
    decreases t.len(),
{
    if t.len() == 0 {
        seq![]
    } else {
        let k: nat = word_len(t);
        if k >= t.len() {
            seq![t]
        } else {
            seq![t.take(k + 1int)] + split_inclusive_spec(t.skip(k + 1int))
        }
    }
}

/// The pieces put back together, in order.
pub open spec fn concat_pieces(pieces: Seq<Seq<char>>) -> Seq<char>
    decreases pieces.len(),
{
    if pieces.len() == 0 {
        seq![]
    } else {
        pieces[0] + concat_pieces(pieces.drop_first())
    }
}

/// One piece after replacement: split into its word and its closing
/// separator (if any), the piece becomes `correct` followed by that
/// separator when `wrong` is not empty and the word equals it up to ASCII
/// case, and stays as it is otherwise.
pub open spec fn replace_piece(p: Seq<char>, wrong: Seq<char>, correct: Seq<char>) -> Seq<char> {
    if p.len() > 0 && is_separator_spec(p.last()) {
        if wrong.len() > 0 && eq_ignore_ascii_case_spec(p.drop_last(), wrong) {
            correct.push(p.last())
        } else {
            p
        }
    } else if wrong.len() > 0 && eq_ignore_ascii_case_spec(p, wrong) {
        correct
    } else {
        p
    }
}

/// The pieces after replacement, put back together.
pub open spec fn replace_pieces(pieces: Seq<Seq<char>>, wrong: Seq<char>, correct: Seq<char>) -> Seq<
    char,
>
    decreases pieces.len(),
{
    if pieces.len() == 0 {
        seq![]
    } else {
        replace_piece(pieces[0], wrong, correct) + replace_pieces(pieces.drop_first(), wrong, correct)
    }
}

/// Cutting a text with `split_inclusive` and putting the pieces back
/// together gives the text; every piece but the last ends with a separator
/// and holds no other.
pub proof fn lemma_split_inclusive_pieces(t: Seq<char>)
    ensures
        concat_pieces(split_inclusive_spec(t)) == t,
        forall|i: int|
            0 <= i < split_inclusive_spec(t).len() - 1 ==> {
                let p = #[trigger] split_inclusive_spec(t)[i];
                p.len() > 0 && is_separator_spec(p.last()) && is_word(p.drop_last())
            },
    decreases t.len(),
{
    if t.len() > 0 {
        let k: nat = word_len(t);
        lemma_word_len_bound(t);
        if k < t.len() {
            let rest = t.skip(k + 1int);
            lemma_split_inclusive_pieces(rest);
            let ps = split_inclusive_spec(t);
            assert(ps[0] == t.take(k + 1int));
            assert(ps.drop_first() == split_inclusive_spec(rest));
            assert(t.take(k + 1int) + rest == t);
            assert(concat_pieces(ps) == ps[0] + concat_pieces(ps.drop_first()));
            assert(t.take(k + 1int).drop_last() == t.take(k as int));
            assert forall|i: int| 0 <= i < ps.len() - 1 implies {
                let p = #[trigger] ps[i];
                p.len() > 0 && is_separator_spec(p.last()) && is_word(p.drop_last())
            } by {
                if i > 0 {
                    assert(ps[i] == split_inclusive_spec(rest)[i - 1]);
                }
            }
        } else {
            let ps = split_inclusive_spec(t);
            assert(ps[0] == t);
            assert(ps.drop_first().len() == 0);
            assert(concat_pieces(ps.drop_first()) == Seq::<char>::empty());
            assert(concat_pieces(ps) == ps[0] + concat_pieces(ps.drop_first()));
            assert(t + Seq::<char>::empty() == t);
        }
    } else {
        assert(t == Seq::<char>::empty());
    }
}

/// Whole-word replacement is the `split_inclusive` form: cut the text at
/// separators, replace each piece's word (keeping its separator), and put
/// the pieces back together.
pub proof fn lemma_replace_tokens_by_pieces(t: Seq<char>, wrong: Seq<char>, correct: Seq<char>)
    ensures
        replace_tokens_spec(t, wrong, correct) == replace_pieces(
            split_inclusive_spec(t),
            wrong,
            correct,
        ),
    decreases t.len(),
{
    if t.len() > 0 {
        let k: nat = word_len(t);
        lemma_word_len_bound(t);
        let ps = split_inclusive_spec(t);
        if k < t.len() {
            let rest = t.skip(k + 1int);
            lemma_replace_tokens_by_pieces(rest, wrong, correct);
            assert(ps.drop_first() == split_inclusive_spec(rest));
            let p = t.take(k + 1int);
            assert(ps[0] == p);
            assert(replace_pieces(ps, wrong, correct) == replace_piece(p, wrong, correct)
                + replace_pieces(ps.drop_first(), wrong, correct));
            assert(p.drop_last() == t.take(k as int));
            assert(p.last() == t[k as int]);
            assert(p == t.take(k as int) + seq![t[k as int]]);
            if wrong.len() == 0 {
                lemma_split_inclusive_pieces(t);
                assert(t == p + rest);
                assert(replace_tokens_spec(rest, wrong, correct) == rest);
            } else if eq_ignore_ascii_case_spec(t.take(k as int), wrong) {
                assert(correct.push(t[k as int]) == correct + seq![t[k as int]]);
            }
        } else {
            assert(t.take(k as int) == t);
            assert(ps[0] == t);
            assert(ps.drop_first().len() == 0);
            assert(replace_pieces(ps.drop_first(), wrong, correct) == Seq::<char>::empty());
            assert(replace_pieces(ps, wrong, correct) == replace_piece(ps[0], wrong, correct)
                + replace_pieces(ps.drop_first(), wrong, correct));
            assert(t.last() == t.take(k as int)[t.len() - 1]);
            assert(!is_separator_spec(t.last()));
            assert(replace_piece(t, wrong, correct) + Seq::<char>::empty() == replace_piece(
                t,
                wrong,
                correct,
            ));
        }
    } else {
        assert(t == Seq::<char>::empty());
    }
}

/// The ASCII punctuation characters, as the Rust documentation of
/// `char::is_ascii_punctuation` lists them.
pub const ASCII_PUNCTUATION: &'static str = "!\"#$%&'()*+,-./:;<=>?@[\\]^_`{|}~";

/// Every ASCII punctuation character, and every ASCII whitespace character
/// (space, tab, line feed, vertical tab, form feed, carriage return), ends
/// a word.
pub proof fn lemma_ascii_punctuation_separates()
    ensures
        ASCII_PUNCTUATION@.len() == 32,
        forall|i: int| 0 <= i < 32 ==> is_separator_spec(#[trigger] ASCII_PUNCTUATION@[i]),
        is_separator_spec(' ') && is_separator_spec('\t') && is_separator_spec('\n')
            && is_separator_spec('\r') && is_separator_spec('\x0B') && is_separator_spec('\x0C'),
{
    reveal_strlit("!\"#$%&'()*+,-./:;<=>?@[\\]^_`{|}~");
    assert forall|i: int| 0 <= i < 32 implies is_separator_spec(
        #[trigger] ASCII_PUNCTUATION@[i],
    ) by {
        assert(is_ascii_punctuation_spec(ASCII_PUNCTUATION@[i]));
    }
}

/// The capital ASCII letters, in order.
pub const ASCII_UPPERCASE: &'static str = "ABCDEFGHIJKLMNOPQRSTUVWXYZ";

/// The small ASCII letters, in order.
pub const ASCII_LOWERCASE: &'static str = "abcdefghijklmnopqrstuvwxyz";

/// Case is ignored letter by letter: each capital ASCII letter compares
/// equal to its small letter, and nothing else changes: a small letter, and
/// every character outside `A`..`Z`, stands for itself.
pub proof fn lemma_ascii_case_folding(c: char)
    ensures
        ASCII_UPPERCASE@.len() == 26 && ASCII_LOWERCASE@.len() == 26,
        forall|i: int|
            0 <= i < 26 ==> ascii_lower_code(#[trigger] ASCII_UPPERCASE@[i]) == ASCII_LOWERCASE@[i]
                as u32 && ascii_lower_code(ASCII_LOWERCASE@[i]) == ASCII_LOWERCASE@[i] as u32,
        !('A' <= c <= 'Z') ==> ascii_lower_code(c) == c as u32,
        eq_ignore_ascii_case_spec(seq![c], seq![c]),
{
    reveal_strlit("ABCDEFGHIJKLMNOPQRSTUVWXYZ");
    reveal_strlit("abcdefghijklmnopqrstuvwxyz");
    assert forall|i: int| 0 <= i < 26 implies ascii_lower_code(#[trigger] ASCII_UPPERCASE@[i])
        == ASCII_LOWERCASE@[i] as u32 && ascii_lower_code(ASCII_LOWERCASE@[i])
        == ASCII_LOWERCASE@[i] as u32 by {
        assert(ascii_lower_code(ASCII_UPPERCASE@[i]) == ASCII_LOWERCASE@[i] as u32);
    }
}

/// ASCII letters and digits are never separators: a word such as
/// `Kubernetes2` is one word.
pub proof fn lemma_ascii_alphanumerics_do_not_separate(c: char)
    requires
        ('a' <= c <= 'z') || ('A' <= c <= 'Z') || ('0' <= c <= '9'),
    ensures
        !is_separator_spec(c),
{
}

/// A word followed by a separator is replaced as a whole word, the
/// separator kept after the replacement: `w` then `c` becomes `correct`
/// then `c`.
pub proof fn lemma_word_before_separator_is_replaced(
    w: Seq<char>,
    c: char,
    correct: Seq<char>,
)
    requires
        w.len() > 0,
        is_word(w),
        is_separator_spec(c),
    ensures
        replace_tokens_spec(w.push(c), w, correct) == correct.push(c),
{
    let t = w.push(c);
    assert(t == w + seq![c]);
    assert(word_len(seq![c]) == 0);
    lemma_word_len_prefix(w, seq![c]);
    let k: nat = word_len(t);
    assert(t.take(k as int) == w);
    assert(t[k as int] == c);
    assert(t.skip(k + 1int).len() == 0);
    assert(eq_ignore_ascii_case_spec(w, w));
    assert(replace_tokens_spec(t.skip(k + 1int), w, correct) == Seq::<char>::empty());
    assert(correct + seq![c] + Seq::<char>::empty() == correct.push(c));
}

/// A word directly followed by any ASCII punctuation character (such as a
/// question mark) is still that word: it is replaced, and the punctuation
/// kept.
pub proof fn lemma_punctuation_ends_a_word(w: Seq<char>, correct: Seq<char>, i: int)
    requires
        w.len() > 0,
        is_word(w),
        0 <= i < 32,
    ensures
        replace_tokens_spec(w.push(ASCII_PUNCTUATION@[i]), w, correct) == correct.push(
            ASCII_PUNCTUATION@[i],
        ),
{
    lemma_ascii_punctuation_separates();
    lemma_word_before_separator_is_replaced(w, ASCII_PUNCTUATION@[i], correct);
}

/// Replaces, in `text`, every whole word equal to `wrong` up to ASCII case by
/// `correct`, keeping the separators between words.
pub fn replace_tokens(text: &str, wrong: &str, correct: &str) -> (out: String)
    ensures
        out@ == replace_tokens_spec(text@, wrong@, correct@),
{
    let t = chars_of(text);
    let w = chars_of(wrong);
    let c = chars_of(correct);
    if w.len() == 0 {
        return string_from_chars(t.as_slice());
    }
    let mut out = String::new();
    let mut word: Vec<char> = Vec::new();
    let mut i: usize = 0;
    proof {
        assert(word@ + t@.skip(0) == t@);
        assert(out@ + replace_tokens_spec(t@, w@, c@) == replace_tokens_spec(t@, w@, c@));
    }
    while i < t.len()
        invariant
            t@ == text@,
            w@ == wrong@,
            c@ == correct@,
            w@.len() > 0,
            i <= t.len(),
            is_word(word@),
            out@ + replace_tokens_spec(word@ + t@.skip(i as int), w@, c@) == replace_tokens_spec(
                t@,
                w@,
                c@,
            ),
        decreases t.len() - i,
    {
        let ch = t[i];
        if is_separator(ch) {
            proof {
                let x = word@ + t@.skip(i as int);
                let rest = t@.skip(i + 1);
                assert(t@.skip(i as int) == seq![ch] + rest);
                assert(word_len(seq![ch] + rest) == 0);
                lemma_word_len_prefix(word@, seq![ch] + rest);
                assert(x.take(word@.len() as int) == word@);
                assert(x[word@.len() as int] == ch);
                assert(x.skip(word@.len() + 1int) == rest);
            }
            if eq_ignore_ascii_case(word.as_slice(), w.as_slice()) {
                push_chars(&mut out, c.as_slice());
            } else {
                push_chars(&mut out, word.as_slice());
            }
            push_char(&mut out, ch);
            word = Vec::new();
            proof {
                assert(word@ + t@.skip(i + 1) == t@.skip(i + 1));
            }
        } else {
            proof {
                assert(word@ + t@.skip(i as int) == word@.push(ch) + t@.skip(i + 1));
                assert forall|j: int| 0 <= j < word@.len() + 1 implies !is_separator_spec(
                    #[trigger] word@.push(ch)[j],
                ) by {}
            }
            word.push(ch);
        }
        i = i + 1;
    }
    proof {
        assert(word@ + t@.skip(t.len() as int) == word@);
        if word@.len() > 0 {
            lemma_word_len_prefix(word@, seq![]);
            assert(word@ + seq![] == word@);
            assert(word@.take(word@.len() as int) == word@);
        }
    }
    if eq_ignore_ascii_case(word.as_slice(), w.as_slice()) {
        push_chars(&mut out, c.as_slice());
    } else {
        push_chars(&mut out, word.as_slice());
    }
    out
}

} // verus!
