//! What the checksum of a strkey is for: a mistyped character is noticed.

use vstd::prelude::*;
use vstd::utf8::*;

use crate::strkey::{
    base32_char, byte_of_quintets, crc16_of, crc_step, crc_steps, lemma_alphabet,
    lemma_byte_of_quintets, lemma_quintet_small, quintet, strkey_data, strkey_parts, strkey_text,
    strkey_text_is_unique,
};

verus! {

/// A step of the checksum is linear, and loses nothing.
proof fn lemma_crc_step(a: u16, b: u16)
    by (bit_vector)
    ensures
        crc_step(a ^ b) == crc_step(a) ^ crc_step(b),
        crc_step(a) == crc_step(b) ==> a == b,
{
}

/// Steps of the checksum are linear, and lose nothing.
proof fn lemma_crc_steps(a: u16, b: u16, n: nat)
    ensures
        crc_steps(a ^ b, n) == crc_steps(a, n) ^ crc_steps(b, n),
        crc_steps(a, n) == crc_steps(b, n) ==> a == b,
    decreases n,
{
    if n > 0 {
        let m: nat = (n - 1) as nat;
        lemma_crc_steps(a, b, m);
        lemma_crc_step(crc_steps(a, m), crc_steps(b, m));
    }
}

/// The low byte of the register moves up unchanged in eight steps.
proof fn lemma_crc_low_byte(byte: u8, n: u16)
    requires
        n <= 8,
    ensures
        crc_steps(byte as u16, n as nat) == (byte as u16) << n,
    decreases n,
{
    if n == 0 {
        assert((byte as u16) << 0u16 == byte as u16) by (bit_vector);
    } else {
        let m: u16 = (n - 1) as u16;
        lemma_crc_low_byte(byte, m);
        assert(crc_step((byte as u16) << m) == (byte as u16) << n) by (bit_vector)
            requires
                n == m + 1,
                m < 8,
        ;
    }
}

/// Two bytes in a row give registers of their own.
proof fn lemma_crc_two_bytes(start: u16, a: u8, b: u8, c: u8, d: u8)
    requires
        a != c || b != d,
    ensures
        crc_steps(crc_steps(start ^ ((a as u16) << 8), 8) ^ ((b as u16) << 8), 8) != crc_steps(
            crc_steps(start ^ ((c as u16) << 8), 8) ^ ((d as u16) << 8),
            8,
        ),
{
    let x = start ^ ((a as u16) << 8);
    let y = start ^ ((c as u16) << 8);
    lemma_crc_low_byte(b, 8);
    lemma_crc_low_byte(d, 8);
    lemma_crc_steps(x, b as u16, 8);
    lemma_crc_steps(y, d as u16, 8);
    lemma_crc_steps(x ^ (b as u16), y ^ (d as u16), 8);
    lemma_crc_steps(crc_steps(x ^ (b as u16), 8), crc_steps(y ^ (d as u16), 8), 8);
    assert(a != c || b != d ==> (start ^ ((a as u16) << 8)) ^ (b as u16) != (start ^ ((c as u16)
        << 8)) ^ (d as u16)) by (bit_vector);
}

/// Data that differ in two neighbouring bytes only have different checksums.
proof fn lemma_crc_tells_apart(x: Seq<u8>, y: Seq<u8>, j: int)
    requires
        x.len() == y.len(),
        0 <= j < x.len(),
        forall|k: int| 0 <= k < x.len() && k != j && k != j + 1 ==> #[trigger] x[k] == y[k],
        x != y,
    ensures
        crc16_of(x) != crc16_of(y),
    decreases x.len(),
{
    let p = x.drop_last();
    let q = y.drop_last();
    let a = x.last();
    let b = y.last();
    assert forall|k: int| 0 <= k < p.len() && k != j && k != j + 1 implies #[trigger] p[k]
        == q[k] by {
        assert(x[k] == y[k]);
    }
    assert(crc16_of(x) == crc_steps(crc16_of(p) ^ ((a as u16) << 8), 8));
    assert(crc16_of(y) == crc_steps(crc16_of(q) ^ ((b as u16) << 8), 8));
    if x.len() > j + 2 {
        assert(a == b);
        if p == q {
            assert(x =~= p.push(a));
            assert(y =~= q.push(b));
        }
        lemma_crc_tells_apart(p, q, j);
        let s = crc16_of(p);
        let t = crc16_of(q);
        lemma_crc_steps(s ^ ((a as u16) << 8), t ^ ((a as u16) << 8), 8);
        assert(s != t ==> s ^ ((a as u16) << 8) != t ^ ((a as u16) << 8)) by (bit_vector);
    } else if x.len() == j + 2 {
        let c = p.last();
        let d = q.last();
        assert(p.drop_last() =~= q.drop_last());
        assert(crc16_of(p) == crc_steps(crc16_of(p.drop_last()) ^ ((c as u16) << 8), 8));
        assert(crc16_of(q) == crc_steps(crc16_of(q.drop_last()) ^ ((d as u16) << 8), 8));
        if c == d && a == b {
            assert(x =~= p.drop_last().push(c).push(a));
            assert(y =~= q.drop_last().push(d).push(b));
        }
        lemma_crc_two_bytes(crc16_of(p.drop_last()), c, a, d, b);
    } else {
        assert(p =~= q);
        if a == b {
            assert(x =~= p.push(a));
            assert(y =~= q.push(b));
        }
        let s = crc16_of(p);
        lemma_crc_steps(s ^ ((a as u16) << 8), s ^ ((b as u16) << 8), 8);
        assert(a != b ==> s ^ ((a as u16) << 8) != s ^ ((b as u16) << 8)) by (bit_vector);
    }
}

/// A change of the last four bits of the data changes other bits of the checksum
/// than the one that is written next to them.
proof fn lemma_crc_last_bits(start: u16, a: u8, b: u8)
    requires
        a != b,
        a ^ b < 16,
    ensures
        crc_steps(start ^ ((a as u16) << 8), 8) ^ crc_steps(start ^ ((b as u16) << 8), 8) != 0x80,
{
    let x = start ^ ((a as u16) << 8);
    let y = start ^ ((b as u16) << 8);
    let change: u16 = (a ^ b) as u16;
    lemma_crc_steps(x, y, 8);
    assert(x ^ y == change << 8) by (bit_vector)
        requires
            x == start ^ ((a as u16) << 8),
            y == start ^ ((b as u16) << 8),
            change == (a ^ b) as u16,
    ;
    assert(0 < change < 16) by (bit_vector)
        requires
            change == (a ^ b) as u16,
            a != b,
            a ^ b < 16,
    ;
    let r1 = crc_step(change << 8);
    let r2 = crc_step(r1);
    let r3 = crc_step(r2);
    let r4 = crc_step(r3);
    assert(r4 == change << 12) by (bit_vector)
        requires
            r1 == crc_step(change << 8),
            r2 == crc_step(r1),
            r3 == crc_step(r2),
            r4 == crc_step(r3),
            change < 16,
    ;
    let r5 = crc_step(r4);
    let r6 = crc_step(r5);
    let r7 = crc_step(r6);
    let r8 = crc_step(r7);
    assert(r8 != 0x80) by (bit_vector)
        requires
            r4 == change << 12,
            r5 == crc_step(r4),
            r6 == crc_step(r5),
            r7 == crc_step(r6),
            r8 == crc_step(r7),
            0 < change < 16,
    ;
    assert(crc_steps(change << 8, 8) == r8) by {
        reveal_with_fuel(crc_steps, 9);
    }
}

/// Registers that differ in the top bit of the low byte only.
proof fn lemma_low_byte_differs(c: u16, d: u16, l: u8, m: u8)
    requires
        c / 256 == d / 256,
        c % 256 == l,
        d % 256 == m,
        c != d,
        l == m || l ^ m == 0x80,
    ensures
        c ^ d == 0x80,
{
    let h: u16 = c / 256;
    let l2: u16 = l as u16;
    let m2: u16 = m as u16;
    assert(l2 ^ m2 == 0x80) by {
        assert(l != m);
        assert(l ^ m == 0x80 ==> (l as u16) ^ (m as u16) == 0x80) by (bit_vector);
    }
    assert(c ^ d == l2 ^ m2) by (bit_vector)
        requires
            c == 256 * h + l2,
            d == 256 * h + m2,
            h < 256,
            l2 < 256,
            m2 < 256,
    ;
}

/// What is known of 35 bytes that differ in one group of five bits: they differ,
/// and only in the one or two bytes that the group lies in.
proof fn lemma_one_group_differs(x: Seq<u8>, y: Seq<u8>, i: int)
    requires
        x.len() == 35,
        y.len() == 35,
        0 <= i < 56,
        forall|k: int| 0 <= k < 56 && k != i ==> #[trigger] quintet(x, k) == quintet(y, k),
        quintet(x, i) != quintet(y, i),
    ensures
        x != y,
        forall|j: int|
            0 <= j < 35 && j != 5 * i / 8 && j != 5 * i / 8 + 1 ==> #[trigger] x[j] == y[j],
        i == 52 ==> x[32] ^ y[32] < 16 && (x[33] == y[33] || x[33] ^ y[33] == 0x80),
{
    let v = Seq::new(56, |k: int| quintet(x, k));
    let w = Seq::new(56, |k: int| quintet(y, k));
    assert forall|j: int| 0 <= j < 35 implies #[trigger] x[j] == byte_of_quintets(v, j) && y[j]
        == byte_of_quintets(w, j) by {
        lemma_byte_of_quintets(x, v, j);
        lemma_byte_of_quintets(y, w, j);
    }
    assert forall|k: int| 0 <= k < 56 && k != i implies #[trigger] v[k] == w[k] by {
        assert(quintet(x, k) == quintet(y, k));
    }
    assert forall|j: int| 0 <= j < 35 && j != 5 * i / 8 && j != 5 * i / 8 + 1 implies #[trigger] x[j]
        == y[j] by {
        let q = 8 * (j / 5);
        let r = j % 5;
        assert(j == 5 * (j / 5) + r);
        if r == 0 {
            assert(i != q && i != q + 1);
        } else if r == 1 {
            assert(i != q + 1 && i != q + 2 && i != q + 3);
        } else if r == 2 {
            assert(i != q + 3 && i != q + 4);
        } else if r == 3 {
            assert(i != q + 4 && i != q + 5 && i != q + 6);
        } else {
            assert(i != q + 6 && i != q + 7);
        }
    }
    if i == 52 {
        let (a, b, c, d, e) = (v[51], v[52], w[52], v[53], v[54]);
        lemma_quintet_small(x, 52);
        lemma_quintet_small(y, 52);
        assert(x[32] == (a << 4) | (b >> 1));
        assert(y[32] == (a << 4) | (c >> 1));
        assert(x[33] == (b << 7) | (d << 2) | (e >> 3));
        assert(y[33] == (c << 7) | (d << 2) | (e >> 3));
        assert(((a << 4) | (b >> 1)) ^ ((a << 4) | (c >> 1)) < 16) by (bit_vector)
            requires
                b < 32,
                c < 32,
        ;
        let l = (b << 7) | (d << 2) | (e >> 3);
        let h = (c << 7) | (d << 2) | (e >> 3);
        assert(l == h || l ^ h == 0x80) by (bit_vector)
            requires
                l == (b << 7) | (d << 2) | (e >> 3),
                h == (c << 7) | (d << 2) | (e >> 3),
        ;
    }
}

/// The checksum of a strkey fits no other body in which one group of five bits
/// was changed, be it in the body or in the checksum itself.
#[verifier::spinoff_prover]
#[verifier::rlimit(50)]
proof fn lemma_strkey_data_differ(
    version: u8,
    payload: Seq<u8>,
    other_version: u8,
    other: Seq<u8>,
    i: int,
)
    requires
        payload.len() == 32,
        other.len() == 32,
        0 <= i < 56,
        forall|k: int|
            0 <= k < 56 && k != i ==> #[trigger] quintet(strkey_data(version, payload), k)
                == quintet(strkey_data(other_version, other), k),
    ensures
        quintet(strkey_data(version, payload), i) == quintet(strkey_data(other_version, other), i),
{
    let x = strkey_data(version, payload);
    let y = strkey_data(other_version, other);
    let p = seq![version] + payload;
    let q = seq![other_version] + other;
    let c = crc16_of(p);
    let d = crc16_of(q);
    if quintet(x, i) != quintet(y, i) {
        lemma_one_group_differs(x, y, i);
        assert forall|j: int| 0 <= j < 33 implies #[trigger] p[j] == x[j] && q[j] == y[j] by {}
        assert(x[33] == (c % 256) as u8 && x[34] == (c / 256) as u8);
        assert(y[33] == (d % 256) as u8 && y[34] == (d / 256) as u8);
        if i <= 51 {
            assert(x[33] == y[33] && x[34] == y[34]);
            assert(c == d);
            if p == q {
                assert(x =~= y);
            }
            lemma_crc_tells_apart(p, q, 5 * i / 8);
        } else if i == 52 {
            assert(x[34] == y[34]);
            let s = p.drop_last();
            assert(s =~= q.drop_last());
            if p[32] == q[32] {
                assert(p =~= q);
                assert(x =~= y);
            }
            lemma_crc_last_bits(crc16_of(s), p[32], q[32]);
            lemma_crc_tells_apart(p, q, 32);
            assert(c / 256 == d / 256);
            lemma_low_byte_differs(c, d, x[33], y[33]);
        } else {
            assert(p =~= q);
            assert(x =~= y);
        }
    }
}

/// A strkey in which one character was replaced by another reads as no strkey,
/// whichever character it is and whatever stands there instead.
pub proof fn one_wrong_character_is_refused(version: u8, payload: Seq<u8>, i: int, c: char)
    requires
        payload.len() == 32,
        0 <= i < 56,
        c != strkey_text(version, payload)[i],
    ensures
        strkey_parts(encode_utf8(strkey_text(version, payload).update(i, c))) is Err,
{
    broadcast use encode_utf8_decode_utf8;

    let text = strkey_text(version, payload);
    let changed = text.update(i, c);
    if strkey_parts(encode_utf8(changed)) is Ok {
        let (other_version, other) = strkey_parts(encode_utf8(changed))->Ok_0;
        strkey_text_is_unique(encode_utf8(changed), other_version, other);
        assert(decode_utf8(encode_utf8(changed)) == changed);
        assert(changed == strkey_text(other_version, other));
        let x = strkey_data(version, payload);
        let y = strkey_data(other_version, other);
        assert forall|k: int| 0 <= k < 56 && k != i implies #[trigger] quintet(x, k) == quintet(
            y,
            k,
        ) by {
            assert(text[k] == changed[k]);
            lemma_quintet_small(x, k);
            lemma_quintet_small(y, k);
            lemma_alphabet(quintet(x, k));
            lemma_alphabet(quintet(y, k));
        }
        lemma_strkey_data_differ(version, payload, other_version, other, i);
        assert(changed[i] == base32_char(quintet(y, i)));
    }
}

} // verus!
