use vstd::prelude::*;

use crate::dictionary::EntryId;
use crate::text::{chars_of, push_chars};

verus! {

/// Every character of `s` is an ASCII digit.
pub open spec fn all_digits(s: Seq<char>) -> bool {
    forall|i: int| 0 <= i < s.len() ==> '0' <= #[trigger] s[i] <= '9'
}

/// The number that the decimal digits `s` write.
pub open spec fn digits_value(s: Seq<char>) -> nat
    decreases s.len(),
{
    if s.len() == 0 {
        0
    } else {
        digits_value(s.drop_last()) * 10 + (s.last() as nat - '0' as nat) as nat
    }
}

/// Decimal digits are read in base ten, most significant first: `n`
/// digits write a number below `10^n`, and a leading zero changes nothing.
pub proof fn lemma_digits_are_decimal(s: Seq<char>)
    requires
        all_digits(s),
    ensures
        digits_value(s) < vstd::arithmetic::power::pow(10, s.len()),
        digits_value(seq!['0'] + s) == digits_value(s),
    decreases s.len(),
{
    if s.len() > 0 {
        let s1 = s.drop_last();
        assert(all_digits(s1)) by {
            assert forall|i: int| 0 <= i < s1.len() implies '0' <= #[trigger] s1[i] <= '9' by {
                assert(s1[i] == s[i]);
            }
        }
        lemma_digits_are_decimal(s1);
        let v1 = digits_value(s1) as int;
        let p1 = vstd::arithmetic::power::pow(10, s1.len());
        let d = s.last() as int - '0' as int;
        assert(0 <= d <= 9);
        assert(v1 * 10 + d < p1 * 10) by (nonlinear_arith)
            requires
                v1 < p1,
                0 <= d <= 9,
        ;
        reveal(vstd::arithmetic::power::pow);
        assert(vstd::arithmetic::power::pow(10, s.len()) == 10 * p1);
        assert((seq!['0'] + s).drop_last() == seq!['0'] + s1);
        assert((seq!['0'] + s).last() == s.last());
    } else {
        assert(seq!['0'] + s == seq!['0']);
        assert(seq!['0'].drop_last() == Seq::<char>::empty());
        reveal(vstd::arithmetic::power::pow);
        assert(vstd::arithmetic::power::pow(10, 0) == 1);
        assert(seq!['0'].last() == '0');
        assert(digits_value(Seq::<char>::empty()) == 0);
    }
}

/// The digits of a decimal number: the text without one leading `+`.
pub open spec fn unsigned_digits(s: Seq<char>) -> Seq<char> {
    if s.len() > 0 && s[0] == '+' {
        s.drop_first()
    } else {
        s
    }
}

/// What `str::parse::<u64>` makes of `s`: an optional `+` followed by at
/// least one ASCII digit, whose value fits in a `u64`.
pub open spec fn parse_u64_spec(s: Seq<char>) -> Option<u64> {
    let d = unsigned_digits(s);
    if d.len() > 0 && all_digits(d) && digits_value(d) <= u64::MAX {
        Some(digits_value(d) as u64)
    } else {
        None
    }
}

/// Appending digits never makes a decimal number smaller.
proof fn lemma_digits_value_grows(s: Seq<char>, k: int)
    requires
        0 <= k <= s.len(),
        all_digits(s),
    ensures
        digits_value(s.take(k)) <= digits_value(s),
    decreases s.len() - k,
{
    if k < s.len() {
        lemma_digits_value_grows(s, k + 1);
        assert(s.take(k + 1).drop_last() == s.take(k));
        assert(s.take(k + 1).last() == s[k]);
    } else {
        assert(s.take(k) == s);
    }
}

/// The value of the decimal digits of `s`, or `None` when `s` is not a
/// decimal number that fits in a `u64`.
fn parse_u64(s: &str) -> (r: Option<u64>)
    ensures
        r == parse_u64_spec(s@),
{
    let chars = chars_of(s);
    let mut start: usize = 0;
    if chars.len() > 0 && chars[0] == '+' {
        start = 1;
    }
    let ghost d = unsigned_digits(s@);
    proof {
        assert(d == chars@.skip(start as int));
    }
    if start >= chars.len() {
        return None;
    }
    let mut value: u64 = 0;
    let mut i: usize = start;
    while i < chars.len()
        invariant
            chars@ == s@,
            start <= i <= chars.len(),
            d == chars@.skip(start as int),
            d == unsigned_digits(s@),
            all_digits(d.take(i - start)),
            value == digits_value(d.take(i - start)),
        decreases chars.len() - i,
    {
        let c = chars[i];
        let ghost prefix = d.take(i - start);
        let ghost next = d.take(i + 1 - start);
        proof {
            assert(next.drop_last() == prefix);
            assert(next.last() == c);
        }
        if c < '0' || c > '9' {
            proof {
                assert(d[i - start] == c);
                assert(!('0' <= d[i - start] <= '9'));
                assert(!all_digits(d));
            }
            return None;
        }
        let digit: u64 = (c as u32 - '0' as u32) as u64;
        let scaled = value.checked_mul(10);
        let sum = match scaled {
            Some(v) => v.checked_add(digit),
            None => None,
        };
        match sum {
            Some(v) => {
                value = v;
            },
            None => {
                proof {
                    assert(digits_value(next) == value * 10 + digit);
                    assert(digits_value(next) > u64::MAX);
                    if all_digits(d) {
                        lemma_digits_value_grows(d, i + 1 - start);
                    }
                }
                return None;
            },
        }
        i = i + 1;
        proof {
            assert forall|j: int| 0 <= j < next.len() implies '0' <= #[trigger] next[j] <= '9' by {
                if j < prefix.len() {
                    assert(next[j] == prefix[j]);
                }
            }
        }
    }
    proof {
        assert(d.take(chars.len() - start) == d);
    }
    Some(value)
}

/// The message of an identifier that does not parse.
pub open spec fn invalid_id_message(value: Seq<char>) -> Seq<char> {
    "invalid entry id: "@ + value
}

/// Reads a dictionary entry identifier given on the command line.
pub fn parse_id(value: &str) -> (r: Result<EntryId, String>)
    ensures
        match parse_u64_spec(value@) {
            Some(n) => r == Ok::<EntryId, String>(EntryId(n)),
            None => r matches Err(m) && m@ == invalid_id_message(value@),
        },
{
    match parse_u64(value) {
        Some(n) => Ok(EntryId(n)),
        None => {
            let mut message = String::new();
            push_chars(&mut message, chars_of("invalid entry id: ").as_slice());
            push_chars(&mut message, chars_of(value).as_slice());
            Err(message)
        },
    }
}

} // verus!
