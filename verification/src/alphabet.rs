//! The 64-symbol output alphabet.
//!
//! Each 6-bit group of a digest is rendered as one visible ASCII symbol.  The
//! alphabet is `ABCDEF$!:+-.GHJKLMNPQRSTUVWXYZabcdefghijknopqrstuvwxyz0123456789`:
//! it spans the four character classes the policy asks for, and punctuation is
//! deliberately rare among its symbols.

use vstd::prelude::*;
use vstd::string::StringExecFns;

verus! {

/// The ASCII byte standing at 6-bit index `s` of the alphabet
/// `ABCDEF$!:+-.GHJKLMNPQRSTUVWXYZabcdefghijknopqrstuvwxyz0123456789`.
pub open spec fn alphabet_byte(s: int) -> u8 {
    if s < 6 {
        (65 + s) as u8  // 'A' ..= 'F'
    } else if s == 6 {
        36u8  // '$'
    } else if s == 7 {
        33u8  // '!'
    } else if s == 8 {
        58u8  // ':'
    } else if s == 9 {
        43u8  // '+'
    } else if s == 10 {
        45u8  // '-'
    } else if s == 11 {
        46u8  // '.'
    } else if s == 12 {
        71u8  // 'G'
    } else if s == 13 {
        72u8  // 'H'
    } else if s < 19 {
        (74 + (s - 14)) as u8  // 'J' ..= 'N'
    } else if s < 30 {
        (80 + (s - 19)) as u8  // 'P' ..= 'Z'
    } else if s < 40 {
        (97 + (s - 30)) as u8  // 'a' ..= 'j'
    } else if s == 40 {
        107u8  // 'k'
    } else if s < 54 {
        (110 + (s - 41)) as u8  // 'n' ..= 'z'
    } else {
        (48 + (s - 54)) as u8  // '0' ..= '9'
    }
}

/// `b` is one of the 64 alphabet symbols.
pub open spec fn in_alphabet(b: u8) -> bool {
    exists|s: int| 0 <= s < 64 && alphabet_byte(s) == b
}

/// The character form of membership: `c` is an alphabet symbol read as a char.
pub open spec fn in_alphabet_char(c: char) -> bool {
    exists|s: int| 0 <= s < 64 && (alphabet_byte(s) as char) == c
}

/// Every alphabet symbol is a printable ASCII byte.
pub proof fn lemma_alphabet_ascii(s: int)
    requires
        0 <= s < 64,
    ensures
        33 <= alphabet_byte(s) < 128,
{
}

/// The alphabet symbol at 6-bit index `s`.
pub fn alphabet_symbol(s: u8) -> (b: u8)
    requires
        s < 64,
    ensures
        b == alphabet_byte(s as int),
        in_alphabet(b),
{
    let b: u8 = if s < 6 {
        65 + s
    } else if s == 6 {
        36
    } else if s == 7 {
        33
    } else if s == 8 {
        58
    } else if s == 9 {
        43
    } else if s == 10 {
        45
    } else if s == 11 {
        46
    } else if s == 12 {
        71
    } else if s == 13 {
        72
    } else if s < 19 {
        74 + (s - 14)
    } else if s < 30 {
        80 + (s - 19)
    } else if s < 40 {
        97 + (s - 30)
    } else if s == 40 {
        107
    } else if s < 54 {
        110 + (s - 41)
    } else {
        48 + (s - 54)
    };
    proof {
        assert(0 <= (s as int) && (s as int) < 64 && alphabet_byte(s as int) == b);
    }
    b
}

/// The whole alphabet as a string, symbol at index `j` first: the literal
/// below is proved to agree with `alphabet_byte` at every index.
pub fn alphabet_string() -> (r: String)
    ensures
        r@.len() == 64,
        forall|j: int| 0 <= j < 64 ==> r@[j] == (alphabet_byte(j) as char),
{
    let r = String::from_str("ABCDEF$!:+-.GHJKLMNPQRSTUVWXYZabcdefghijknopqrstuvwxyz0123456789");
    proof {
        reveal_strlit("ABCDEF$!:+-.GHJKLMNPQRSTUVWXYZabcdefghijknopqrstuvwxyz0123456789");
    }
    r
}

} // verus!
