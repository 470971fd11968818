//! The character-class policy.
//!
//! A derived password is acceptable only if it contains at least one
//! lowercase letter, one uppercase letter, one digit and one of the
//! punctuation symbols `$ ! + - . :`.

use vstd::prelude::*;

verus! {

/// `b` is an ASCII lowercase letter.
pub open spec fn is_lowercase_byte(b: u8) -> bool {
    97 <= b && b <= 122
}

/// `b` is an ASCII uppercase letter.
pub open spec fn is_uppercase_byte(b: u8) -> bool {
    65 <= b && b <= 90
}

/// `b` is an ASCII digit.
pub open spec fn is_digit_byte(b: u8) -> bool {
    48 <= b && b <= 57
}

/// `b` is one of the punctuation symbols `$ ! + - . :`.
pub open spec fn is_special_byte(b: u8) -> bool {
    b == 36 || b == 33 || b == 43 || b == 45 || b == 46 || b == 58
}

pub open spec fn has_lowercase(s: Seq<u8>) -> bool {
    exists|i: int| 0 <= i < s.len() && is_lowercase_byte(#[trigger] s[i])
}

pub open spec fn has_uppercase(s: Seq<u8>) -> bool {
    exists|i: int| 0 <= i < s.len() && is_uppercase_byte(#[trigger] s[i])
}

pub open spec fn has_digit(s: Seq<u8>) -> bool {
    exists|i: int| 0 <= i < s.len() && is_digit_byte(#[trigger] s[i])
}

pub open spec fn has_special(s: Seq<u8>) -> bool {
    exists|i: int| 0 <= i < s.len() && is_special_byte(#[trigger] s[i])
}

/// The policy over a byte string: one symbol of each of the four classes.
pub open spec fn all_features(s: Seq<u8>) -> bool {
    has_lowercase(s) && has_uppercase(s) && has_digit(s) && has_special(s)
}

/// `c` is a lowercase letter.
pub open spec fn is_lowercase_char(c: char) -> bool {
    'a' <= c && c <= 'z'
}

/// `c` is an uppercase letter.
pub open spec fn is_uppercase_char(c: char) -> bool {
    'A' <= c && c <= 'Z'
}

/// `c` is a digit.
pub open spec fn is_digit_char(c: char) -> bool {
    '0' <= c && c <= '9'
}

/// `c` is one of the punctuation symbols `$ ! + - . :`.
pub open spec fn is_special_char(c: char) -> bool {
    c == '$' || c == '!' || c == '+' || c == '-' || c == '.' || c == ':'
}

/// The policy over the characters of a string.
pub open spec fn all_features_chars(s: Seq<char>) -> bool {
    &&& exists|i: int| 0 <= i < s.len() && is_lowercase_char(#[trigger] s[i])
    &&& exists|i: int| 0 <= i < s.len() && is_uppercase_char(#[trigger] s[i])
    &&& exists|i: int| 0 <= i < s.len() && is_digit_char(#[trigger] s[i])
    &&& exists|i: int| 0 <= i < s.len() && is_special_char(#[trigger] s[i])
}

/// A string of ASCII bytes read as characters satisfies the character-level
/// policy exactly when the bytes satisfy the byte-level policy.
pub proof fn lemma_ascii_features(s: Seq<u8>, t: Seq<char>)
    requires
        t.len() == s.len(),
        forall|i: int| 0 <= i < s.len() ==> #[trigger] s[i] < 128 && t[i] == (s[i] as char),
        all_features(s),
    ensures
        all_features_chars(t),
{
    let li = choose|i: int| 0 <= i < s.len() && is_lowercase_byte(#[trigger] s[i]);
    assert(is_lowercase_char(t[li]));
    let ui = choose|i: int| 0 <= i < s.len() && is_uppercase_byte(#[trigger] s[i]);
    assert(is_uppercase_char(t[ui]));
    let di = choose|i: int| 0 <= i < s.len() && is_digit_byte(#[trigger] s[i]);
    assert(is_digit_char(t[di]));
    let pi = choose|i: int| 0 <= i < s.len() && is_special_byte(#[trigger] s[i]);
    assert(is_special_char(t[pi]));
}

/// Report whether `s` contains at least one lowercase letter, one uppercase
/// letter, one digit and one punctuation symbol.
pub fn has_all_features(s: &[u8]) -> (r: bool)
    ensures
        r == all_features(s@),
{
    let mut lower = false;
    let mut upper = false;
    let mut digit = false;
    let mut special = false;
    let mut i: usize = 0;
    while i < s.len()
        invariant
            i <= s@.len(),
            lower == has_lowercase(s@.take(i as int)),
            upper == has_uppercase(s@.take(i as int)),
            digit == has_digit(s@.take(i as int)),
            special == has_special(s@.take(i as int)),
        decreases s@.len() - i,
    {
        let b = s[i];
        let ghost prev = s@.take(i as int);
        lower = lower || (97 <= b && b <= 122);
        upper = upper || (65 <= b && b <= 90);
        digit = digit || (48 <= b && b <= 57);
        special = special || b == 36 || b == 33 || b == 43 || b == 45 || b == 46 || b == 58;
        proof {
            let cur = s@.take(i as int + 1);
            assert(cur =~= prev.push(s@[i as int]));
            lemma_class_push(prev, s@[i as int]);
        }
        i += 1;
    }
    proof {
        assert(s@.take(s@.len() as int) =~= s@);
    }
    lower && upper && digit && special
}

/// Extending a string by one byte extends each class witness by exactly that
/// byte's classes.
proof fn lemma_class_push(s: Seq<u8>, b: u8)
    ensures
        has_lowercase(s.push(b)) == (has_lowercase(s) || is_lowercase_byte(b)),
        has_uppercase(s.push(b)) == (has_uppercase(s) || is_uppercase_byte(b)),
        has_digit(s.push(b)) == (has_digit(s) || is_digit_byte(b)),
        has_special(s.push(b)) == (has_special(s) || is_special_byte(b)),
{
    let t = s.push(b);
    assert(t[s.len() as int] == b);
    assert(forall|i: int| 0 <= i < s.len() ==> t[i] == #[trigger] s[i]);
    if has_lowercase(s) {
        let i = choose|i: int| 0 <= i < s.len() && is_lowercase_byte(#[trigger] s[i]);
        assert(is_lowercase_byte(t[i]));
    }
    if has_uppercase(s) {
        let i = choose|i: int| 0 <= i < s.len() && is_uppercase_byte(#[trigger] s[i]);
        assert(is_uppercase_byte(t[i]));
    }
    if has_digit(s) {
        let i = choose|i: int| 0 <= i < s.len() && is_digit_byte(#[trigger] s[i]);
        assert(is_digit_byte(t[i]));
    }
    if has_special(s) {
        let i = choose|i: int| 0 <= i < s.len() && is_special_byte(#[trigger] s[i]);
        assert(is_special_byte(t[i]));
    }
    if has_lowercase(t) {
        let i = choose|i: int| 0 <= i < t.len() && is_lowercase_byte(#[trigger] t[i]);
        if i < s.len() {
            assert(is_lowercase_byte(s[i]));
        }
    }
    if has_uppercase(t) {
        let i = choose|i: int| 0 <= i < t.len() && is_uppercase_byte(#[trigger] t[i]);
        if i < s.len() {
            assert(is_uppercase_byte(s[i]));
        }
    }
    if has_digit(t) {
        let i = choose|i: int| 0 <= i < t.len() && is_digit_byte(#[trigger] t[i]);
        if i < s.len() {
            assert(is_digit_byte(s[i]));
        }
    }
    if has_special(t) {
        let i = choose|i: int| 0 <= i < t.len() && is_special_byte(#[trigger] t[i]);
        if i < s.len() {
            assert(is_special_byte(s[i]));
        }
    }
}

} // verus!
