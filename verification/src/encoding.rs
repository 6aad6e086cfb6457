//! Unpadded RFC 4648 base32, stated bit for bit, with a proof that the
//! encoding of equal-length inputs is injective.

use vstd::prelude::*;

verus! {

/// A byte of `s`, or 0 past the end: the encoder works on five-byte
/// chunks and treats missing trailing bytes as zero.
pub open spec fn byte_at(s: Seq<u8>, j: int) -> u8 {
    if 0 <= j < s.len() {
        s[j]
    } else {
        0
    }
}

/// How many symbols the unpadded base32 encoding of `n` bytes has:
/// one symbol for every five bits, the last partial group included.
pub open spec fn b32_len(n: int) -> int {
    (8 * n + 4) / 5
}

/// The five-bit group at symbol position `i`, read most-significant-bit
/// first from the zero-padded byte stream.
pub open spec fn b32_group(s: Seq<u8>, i: int) -> u8 {
    let b0 = byte_at(s, 5 * (i / 8));
    let b1 = byte_at(s, 5 * (i / 8) + 1);
    let b2 = byte_at(s, 5 * (i / 8) + 2);
    let b3 = byte_at(s, 5 * (i / 8) + 3);
    let b4 = byte_at(s, 5 * (i / 8) + 4);
    if i % 8 == 0 {
        (b0 & 0xF8) >> 3
    } else if i % 8 == 1 {
        ((b0 & 0x07) << 2) | ((b1 & 0xC0) >> 6)
    } else if i % 8 == 2 {
        (b1 & 0x3E) >> 1
    } else if i % 8 == 3 {
        ((b1 & 0x01) << 4) | ((b2 & 0xF0) >> 4)
    } else if i % 8 == 4 {
        ((b2 & 0x0F) << 1) | (b3 >> 7)
    } else if i % 8 == 5 {
        (b3 & 0x7C) >> 2
    } else if i % 8 == 6 {
        ((b3 & 0x03) << 3) | ((b4 & 0xE0) >> 5)
    } else {
        b4 & 0x1F
    }
}

/// The RFC 4648 alphabet as ASCII bytes: `A`..`Z` for 0..25, then
/// `2`..`7` for 26..31.
pub open spec fn b32_symbol(v: u8) -> u8 {
    if v < 26 {
        (v + 65) as u8
    } else {
        (v + 24) as u8
    }
}

/// Unpadded RFC 4648 base32 of a byte sequence.
pub open spec fn b32_encode(s: Seq<u8>) -> Seq<u8> {
    Seq::new(b32_len(s.len() as int) as nat, |i: int| b32_symbol(b32_group(s, i)))
}

/// Relies on base32::encode with `Alphabet::Rfc4648 { padding: false }`:
/// it emits eight alphabet symbols per five-byte chunk with exactly the
/// bit selections `b32_group` states, zero-padding the last chunk, and
/// truncates the output to `b32_len` symbols.
#[verifier::external_body]
pub fn base32_encode(data: &[u8]) -> (r: Vec<u8>)
    ensures
        r@ == b32_encode(data@),
{
    base32::encode(base32::Alphabet::Rfc4648 { padding: false }, data).into_bytes()
}

/// Every five-bit group is below 32.
pub proof fn lemma_b32_group_bound(s: Seq<u8>, i: int)
    ensures
        b32_group(s, i) < 32,
{
    let b0 = byte_at(s, 5 * (i / 8));
    let b1 = byte_at(s, 5 * (i / 8) + 1);
    let b2 = byte_at(s, 5 * (i / 8) + 2);
    let b3 = byte_at(s, 5 * (i / 8) + 3);
    let b4 = byte_at(s, 5 * (i / 8) + 4);
    assert((b0 & 0xF8) >> 3 < 32) by (bit_vector);
    assert(((b0 & 0x07) << 2) | ((b1 & 0xC0) >> 6) < 32) by (bit_vector);
    assert((b1 & 0x3E) >> 1 < 32) by (bit_vector);
    assert(((b1 & 0x01) << 4) | ((b2 & 0xF0) >> 4) < 32) by (bit_vector);
    assert(((b2 & 0x0F) << 1) | (b3 >> 7) < 32) by (bit_vector);
    assert((b3 & 0x7C) >> 2 < 32) by (bit_vector);
    assert(((b3 & 0x03) << 3) | ((b4 & 0xE0) >> 5) < 32) by (bit_vector);
    assert(b4 & 0x1F < 32) by (bit_vector);
}

/// The alphabet maps distinct five-bit values to distinct symbols.
pub proof fn lemma_b32_symbol_injective(v1: u8, v2: u8)
    requires
        v1 < 32,
        v2 < 32,
        b32_symbol(v1) == b32_symbol(v2),
    ensures
        v1 == v2,
{
}

/// Equal encodings of equal-length inputs have equal groups everywhere
/// below the output length.
proof fn lemma_groups_equal(s1: Seq<u8>, s2: Seq<u8>, i: int)
    requires
        s1.len() == s2.len(),
        b32_encode(s1) == b32_encode(s2),
        0 <= i < b32_len(s1.len() as int),
    ensures
        b32_group(s1, i) == b32_group(s2, i),
{
    assert(b32_encode(s1)[i] == b32_symbol(b32_group(s1, i)));
    assert(b32_encode(s2)[i] == b32_symbol(b32_group(s2, i)));
    lemma_b32_group_bound(s1, i);
    lemma_b32_group_bound(s2, i);
    lemma_b32_symbol_injective(b32_group(s1, i), b32_group(s2, i));
}

/// Byte `j` of the input is determined by the groups that cover its bits.
proof fn lemma_byte_recovered(s1: Seq<u8>, s2: Seq<u8>, j: int)
    requires
        s1.len() == s2.len(),
        b32_encode(s1) == b32_encode(s2),
        0 <= j < s1.len(),
    ensures
        s1[j] == s2[j],
{
    let n = s1.len() as int;
    let q = j / 5;
    let r = j % 5;
    vstd::arithmetic::div_mod::lemma_fundamental_div_mod(j, 5);
    let a0 = byte_at(s1, 5 * q);
    let a1 = byte_at(s1, 5 * q + 1);
    let a2 = byte_at(s1, 5 * q + 2);
    let a3 = byte_at(s1, 5 * q + 3);
    let a4 = byte_at(s1, 5 * q + 4);
    let c0 = byte_at(s2, 5 * q);
    let c1 = byte_at(s2, 5 * q + 1);
    let c2 = byte_at(s2, 5 * q + 2);
    let c3 = byte_at(s2, 5 * q + 3);
    let c4 = byte_at(s2, 5 * q + 4);
    assert(5 * q + r < n);
    vstd::arithmetic::div_mod::lemma_div_is_ordered(5 * (8 * q) + (8 * r + 12), 8 * n + 4, 5);
    assert((5 * (8 * q) + (8 * r + 12)) / 5 == 8 * q + (8 * r + 12) / 5) by (nonlinear_arith);
    assert(8 * q + (8 * r + 12) / 5 <= b32_len(n));
    if r == 0 {
        assert(8 * q + 1 < b32_len(n));
        lemma_groups_equal(s1, s2, 8 * q + 0);
        lemma_groups_equal(s1, s2, 8 * q + 1);
        assert((8 * q + 0) / 8 == q && (8 * q + 0) % 8 == 0) by (nonlinear_arith);
        assert((8 * q + 1) / 8 == q && (8 * q + 1) % 8 == 1) by (nonlinear_arith);
        assert(a0 == c0) by (bit_vector)
            requires
                (a0 & 0xF8) >> 3 == (c0 & 0xF8) >> 3,
                ((a0 & 0x07) << 2) | ((a1 & 0xC0) >> 6) == ((c0 & 0x07) << 2) | ((c1 & 0xC0)
                    >> 6),
        ;
        assert(s1[j] == a0 && s2[j] == c0);
    } else if r == 1 {
        assert(8 * q + 3 < b32_len(n));
        lemma_groups_equal(s1, s2, 8 * q + 1);
        lemma_groups_equal(s1, s2, 8 * q + 2);
        lemma_groups_equal(s1, s2, 8 * q + 3);
        assert((8 * q + 1) / 8 == q && (8 * q + 1) % 8 == 1) by (nonlinear_arith);
        assert((8 * q + 2) / 8 == q && (8 * q + 2) % 8 == 2) by (nonlinear_arith);
        assert((8 * q + 3) / 8 == q && (8 * q + 3) % 8 == 3) by (nonlinear_arith);
        assert(a1 == c1) by (bit_vector)
            requires
                ((a0 & 0x07) << 2) | ((a1 & 0xC0) >> 6) == ((c0 & 0x07) << 2) | ((c1 & 0xC0)
                    >> 6),
                (a1 & 0x3E) >> 1 == (c1 & 0x3E) >> 1,
                ((a1 & 0x01) << 4) | ((a2 & 0xF0) >> 4) == ((c1 & 0x01) << 4) | ((c2 & 0xF0)
                    >> 4),
        ;
        assert(s1[j] == a1 && s2[j] == c1);
    } else if r == 2 {
        assert(8 * q + 4 < b32_len(n));
        lemma_groups_equal(s1, s2, 8 * q + 3);
        lemma_groups_equal(s1, s2, 8 * q + 4);
        assert((8 * q + 3) / 8 == q && (8 * q + 3) % 8 == 3) by (nonlinear_arith);
        assert((8 * q + 4) / 8 == q && (8 * q + 4) % 8 == 4) by (nonlinear_arith);
        assert(a2 == c2) by (bit_vector)
            requires
                ((a1 & 0x01) << 4) | ((a2 & 0xF0) >> 4) == ((c1 & 0x01) << 4) | ((c2 & 0xF0)
                    >> 4),
                ((a2 & 0x0F) << 1) | (a3 >> 7) == ((c2 & 0x0F) << 1) | (c3 >> 7),
        ;
        assert(s1[j] == a2 && s2[j] == c2);
    } else if r == 3 {
        assert(8 * q + 6 < b32_len(n));
        lemma_groups_equal(s1, s2, 8 * q + 4);
        lemma_groups_equal(s1, s2, 8 * q + 5);
        lemma_groups_equal(s1, s2, 8 * q + 6);
        assert((8 * q + 4) / 8 == q && (8 * q + 4) % 8 == 4) by (nonlinear_arith);
        assert((8 * q + 5) / 8 == q && (8 * q + 5) % 8 == 5) by (nonlinear_arith);
        assert((8 * q + 6) / 8 == q && (8 * q + 6) % 8 == 6) by (nonlinear_arith);
        assert(a3 == c3) by (bit_vector)
            requires
                ((a2 & 0x0F) << 1) | (a3 >> 7) == ((c2 & 0x0F) << 1) | (c3 >> 7),
                (a3 & 0x7C) >> 2 == (c3 & 0x7C) >> 2,
                ((a3 & 0x03) << 3) | ((a4 & 0xE0) >> 5) == ((c3 & 0x03) << 3) | ((c4 & 0xE0)
                    >> 5),
        ;
        assert(s1[j] == a3 && s2[j] == c3);
    } else {
        assert(r == 4);
        assert(8 * q + 7 < b32_len(n));
        lemma_groups_equal(s1, s2, 8 * q + 6);
        lemma_groups_equal(s1, s2, 8 * q + 7);
        assert((8 * q + 6) / 8 == q && (8 * q + 6) % 8 == 6) by (nonlinear_arith);
        assert((8 * q + 7) / 8 == q && (8 * q + 7) % 8 == 7) by (nonlinear_arith);
        assert(a4 == c4) by (bit_vector)
            requires
                ((a3 & 0x03) << 3) | ((a4 & 0xE0) >> 5) == ((c3 & 0x03) << 3) | ((c4 & 0xE0)
                    >> 5),
                a4 & 0x1F == c4 & 0x1F,
        ;
        assert(s1[j] == a4 && s2[j] == c4);
    }
}

/// The encoding of equal-length inputs is injective: equal encodings
/// force equal inputs.
pub proof fn lemma_b32_encode_injective(s1: Seq<u8>, s2: Seq<u8>)
    requires
        s1.len() == s2.len(),
        b32_encode(s1) == b32_encode(s2),
    ensures
        s1 == s2,
{
    assert forall|j: int| 0 <= j < s1.len() implies s1[j] == s2[j] by {
        lemma_byte_recovered(s1, s2, j);
    }
    assert(s1 =~= s2);
}

} // verus!
