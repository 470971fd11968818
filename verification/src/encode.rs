//! Base-64-style encoding of a digest into the output alphabet.
//!
//! Each 6-bit group of the input, most significant bit first, becomes one
//! alphabet symbol.  A trailing group shorter than 6 bits is padded with zero
//! bits; no padding symbols are appended, so `l` input bytes always encode to
//! `(4 * l + 2) / 3` symbols.

use vstd::prelude::*;

use crate::alphabet::alphabet_byte;
use crate::alphabet::alphabet_symbol;
use crate::alphabet::in_alphabet;
use crate::alphabet::lemma_alphabet_ascii;

verus! {

/// The encoding of `bytes`: three input bytes at a time become four symbols,
/// a final one or two bytes become two or three symbols covering their bits.
pub open spec fn encode_spec(bytes: Seq<u8>) -> Seq<u8>
    decreases bytes.len(),
{
    if bytes.len() == 0 {
        Seq::<u8>::empty()
    } else if bytes.len() == 1 {
        seq![
            alphabet_byte((bytes[0] >> 2u8) as int),
            alphabet_byte(((bytes[0] & 0x03u8) << 4u8) as int),
        ]
    } else if bytes.len() == 2 {
        seq![
            alphabet_byte((bytes[0] >> 2u8) as int),
            alphabet_byte((((bytes[0] & 0x03u8) << 4u8) | (bytes[1] >> 4u8)) as int),
            alphabet_byte(((bytes[1] & 0x0fu8) << 2u8) as int),
        ]
    } else {
        seq![
            alphabet_byte((bytes[0] >> 2u8) as int),
            alphabet_byte((((bytes[0] & 0x03u8) << 4u8) | (bytes[1] >> 4u8)) as int),
            alphabet_byte((((bytes[1] & 0x0fu8) << 2u8) | (bytes[2] >> 6u8)) as int),
            alphabet_byte((bytes[2] & 0x3fu8) as int),
        ] + encode_spec(bytes.skip(3))
    }
}

/// Every 6-bit group drawn from two neighbouring bytes is below 64.
proof fn lemma_sextet_bounds(b0: u8, b1: u8, b2: u8)
    ensures
        (b0 >> 2u8) < 64,
        ((b0 & 0x03u8) << 4u8) < 64,
        (((b0 & 0x03u8) << 4u8) | (b1 >> 4u8)) < 64,
        ((b1 & 0x0fu8) << 2u8) < 64,
        (((b1 & 0x0fu8) << 2u8) | (b2 >> 6u8)) < 64,
        (b2 & 0x3fu8) < 64,
{
    assert((b0 >> 2u8) < 64) by (bit_vector);
    assert(((b0 & 0x03u8) << 4u8) < 64) by (bit_vector);
    assert((((b0 & 0x03u8) << 4u8) | (b1 >> 4u8)) < 64) by (bit_vector);
    assert(((b1 & 0x0fu8) << 2u8) < 64) by (bit_vector);
    assert((((b1 & 0x0fu8) << 2u8) | (b2 >> 6u8)) < 64) by (bit_vector);
    assert((b2 & 0x3fu8) < 64) by (bit_vector);
}

/// `l` input bytes encode to `(4 * l + 2) / 3` symbols.
pub proof fn lemma_encode_spec_len(bytes: Seq<u8>)
    ensures
        encode_spec(bytes).len() == (4 * bytes.len() + 2) / 3,
    decreases bytes.len(),
{
    if bytes.len() >= 3 {
        lemma_encode_spec_len(bytes.skip(3));
    }
}

/// Alphabet closure: every symbol of an encoding is an alphabet symbol,
/// and in particular a printable ASCII byte.
pub proof fn lemma_encode_spec_alphabet(bytes: Seq<u8>)
    ensures
        forall|i: int|
            0 <= i < encode_spec(bytes).len() ==> in_alphabet(#[trigger] encode_spec(bytes)[i]),
        forall|i: int|
            0 <= i < encode_spec(bytes).len() ==> 33 <= #[trigger] encode_spec(bytes)[i] < 128,
    decreases bytes.len(),
{
    let enc = encode_spec(bytes);
    if bytes.len() == 0 {
    } else if bytes.len() <= 2 {
        lemma_sextet_bounds(bytes[0], if bytes.len() == 2 { bytes[1] } else { 0u8 }, 0u8);
        assert forall|i: int| 0 <= i < enc.len() implies in_alphabet(#[trigger] enc[i]) && 33 <= enc[i]
            < 128 by {
            lemma_element_symbol(bytes, i);
        }
    } else {
        lemma_sextet_bounds(bytes[0], bytes[1], bytes[2]);
        lemma_encode_spec_alphabet(bytes.skip(3));
        assert forall|i: int| 0 <= i < enc.len() implies in_alphabet(#[trigger] enc[i]) && 33 <= enc[i]
            < 128 by {
            if i < 4 {
                lemma_element_symbol(bytes, i);
            } else {
                assert(enc[i] == encode_spec(bytes.skip(3))[i - 4]);
            }
        }
    }
}

/// The `i`-th symbol of a short or leading chunk is `alphabet_byte` of a
/// 6-bit value, hence an alphabet symbol.
proof fn lemma_element_symbol(bytes: Seq<u8>, i: int)
    requires
        bytes.len() > 0,
        0 <= i < encode_spec(bytes).len(),
        i < 4,
    ensures
        in_alphabet(encode_spec(bytes)[i]),
        33 <= encode_spec(bytes)[i] < 128,
{
    let b0 = bytes[0];
    let b1 = if bytes.len() >= 2 { bytes[1] } else { 0u8 };
    let b2 = if bytes.len() >= 3 { bytes[2] } else { 0u8 };
    lemma_sextet_bounds(b0, b1, b2);
    let v = encode_spec(bytes)[i];
    let s: int = if i == 0 {
        (b0 >> 2u8) as int
    } else if i == 1 {
        if bytes.len() == 1 {
            ((b0 & 0x03u8) << 4u8) as int
        } else {
            (((b0 & 0x03u8) << 4u8) | (b1 >> 4u8)) as int
        }
    } else if i == 2 {
        if bytes.len() == 2 {
            ((b1 & 0x0fu8) << 2u8) as int
        } else {
            (((b1 & 0x0fu8) << 2u8) | (b2 >> 6u8)) as int
        }
    } else {
        (b2 & 0x3fu8) as int
    };
    assert(0 <= s < 64 && alphabet_byte(s) == v);
    lemma_alphabet_ascii(s);
}

/// The encoding of an all-zero byte string is uniform: every symbol is the
/// alphabet symbol at index 0, the letter `A`.
pub proof fn lemma_encode_spec_zero(bytes: Seq<u8>)
    requires
        forall|i: int| 0 <= i < bytes.len() ==> bytes[i] == 0,
    ensures
        forall|i: int|
            0 <= i < encode_spec(bytes).len() ==> #[trigger] encode_spec(bytes)[i]
                == alphabet_byte(0),
    decreases bytes.len(),
{
    assert(0u8 >> 2u8 == 0 && (0u8 & 0x03u8) << 4u8 == 0 && ((0u8 & 0x03u8) << 4u8) | (0u8
        >> 4u8) == 0 && (0u8 & 0x0fu8) << 2u8 == 0 && ((0u8 & 0x0fu8) << 2u8) | (0u8 >> 6u8) == 0
        && 0u8 & 0x3fu8 == 0) by (bit_vector);
    if bytes.len() >= 3 {
        lemma_encode_spec_zero(bytes.skip(3));
        assert forall|i: int| 0 <= i < encode_spec(bytes).len() implies #[trigger] encode_spec(
            bytes,
        )[i] == alphabet_byte(0) by {
            if i >= 4 {
                assert(encode_spec(bytes)[i] == encode_spec(bytes.skip(3))[i - 4]);
            }
        }
    }
}

/// Encode `bytes` into the 64-symbol alphabet.
pub fn encode(bytes: &[u8]) -> (out: Vec<u8>)
    ensures
        out@ == encode_spec(bytes@),
{
    let l: usize = bytes.len();
    let mut out: Vec<u8> = Vec::new();
    let mut i: usize = 0;
    proof {
        assert(bytes@.skip(0) =~= bytes@);
        assert(encode_spec(bytes@) =~= out@ + encode_spec(bytes@.skip(0)));
    }
    while l - i >= 3
        invariant
            i <= l,
            l == bytes@.len(),
            encode_spec(bytes@) == out@ + encode_spec(bytes@.skip(i as int)),
        decreases l - i,
    {
        let b0 = bytes[i];
        let b1 = bytes[i + 1];
        let b2 = bytes[i + 2];
        proof {
            lemma_sextet_bounds(b0, b1, b2);
        }
        let ghost prev = out@;
        out.push(alphabet_symbol(b0 >> 2u8));
        out.push(alphabet_symbol(((b0 & 0x03u8) << 4u8) | (b1 >> 4u8)));
        out.push(alphabet_symbol(((b1 & 0x0fu8) << 2u8) | (b2 >> 6u8)));
        out.push(alphabet_symbol(b2 & 0x3fu8));
        proof {
            let rest = bytes@.skip(i as int);
            assert(rest.skip(3) =~= bytes@.skip(i as int + 3));
            assert(out@ =~= prev + encode_spec(rest).take(4));
            assert(encode_spec(rest) =~= encode_spec(rest).take(4) + encode_spec(rest.skip(3)));
            assert(encode_spec(bytes@) =~= out@ + encode_spec(bytes@.skip(i as int + 3)));
        }
        i += 3;
    }
    let ghost prev = out@;
    let ghost rest = bytes@.skip(i as int);
    if l - i == 1 {
        let b0 = bytes[i];
        proof {
            lemma_sextet_bounds(b0, 0u8, 0u8);
        }
        out.push(alphabet_symbol(b0 >> 2u8));
        out.push(alphabet_symbol((b0 & 0x03u8) << 4u8));
        proof {
            assert(out@ =~= prev + encode_spec(rest));
        }
    } else if l - i == 2 {
        let b0 = bytes[i];
        let b1 = bytes[i + 1];
        proof {
            lemma_sextet_bounds(b0, b1, 0u8);
        }
        out.push(alphabet_symbol(b0 >> 2u8));
        out.push(alphabet_symbol(((b0 & 0x03u8) << 4u8) | (b1 >> 4u8)));
        out.push(alphabet_symbol((b1 & 0x0fu8) << 2u8));
        proof {
            assert(out@ =~= prev + encode_spec(rest));
        }
    } else {
        proof {
            assert(rest.len() == 0);
            assert(out@ =~= prev + encode_spec(rest));
        }
    }
    proof {
        assert(out@ =~= encode_spec(bytes@));
    }
    out
}

} // verus!
