//! What the bytes of integers, of base64 and of strkeys are, and which texts are
//! refused.

use vstd::prelude::*;
use vstd::utf8::*;

use crate::address::Address;
use crate::base64::{
    base64_bytes, base64_char, base64_text, base64_value, decoded_byte, sextet,
    without_padding,
};
use crate::error::XdrError;
use crate::scval::{be32_value, fixed_at, fixed_stop, take_at, u32_at, var_at, var_stop};
use crate::strkey::{
    base32_char, base32_value, contract_hash, crc16_of, crc_step, crc_steps,
    first_outside_alphabet, lemma_quintet_small, quintet, strkey_data, strkey_parts, strkey_round_trip, strkey_text,
    strkey_text_is_unique,
};
use crate::xdr::{
    arg_bytes, args_bytes, be32, be64, opaque_fixed_bytes, opaque_var_bytes, padding,
    twos_complement, zeros, ScArg,
};

verus! {

// ── Integers and opaque data ────────────────────────────────────────────────

/// Integers are written in four and eight bytes, the most significant first, a
/// negative one as what is left to the next power of two.
pub proof fn integers_are_written_from_the_top(v: u32, w: i64)
    ensures
        be32(v as nat).len() == 4,
        be32(v as nat)[0] * 0x100_0000 + be32(v as nat)[1] * 0x1_0000 + be32(v as nat)[2] * 0x100
            + be32(v as nat)[3] == v,
        be64(twos_complement(w)).len() == 8,
        be64(twos_complement(w)).take(4) == be32(twos_complement(w) / 0x1_0000_0000),
        be64(twos_complement(w)).skip(4) == be32(twos_complement(w) % 0x1_0000_0000),
        w >= 0 ==> twos_complement(w) == w,
        w < 0 ==> twos_complement(w) == w + 0x1_0000_0000_0000_0000,
{
    let n = twos_complement(w);
    assert(be64(n).take(4) =~= be32(n / 0x1_0000_0000));
    assert(be64(n).skip(4) =~= be32(n % 0x1_0000_0000));
}

/// An integer is read out of the next four bytes, the most significant first.
/// Where fewer are left, that is the error.
pub proof fn integers_are_read_from_the_top(buf: Seq<u8>, pos: nat)
    requires
        pos <= buf.len() <= usize::MAX,
    ensures
        pos + 4 <= buf.len() ==> {
            &&& u32_at(buf, pos) is Ok
            &&& u32_at(buf, pos)->Ok_0.0 == buf[pos as int] * 0x100_0000 + buf[pos as int + 1] * 0x1_0000
                + buf[pos as int + 2] * 0x100 + buf[pos as int + 3]
            &&& u32_at(buf, pos)->Ok_0.1 == pos + 4
        },
        pos + 4 > buf.len() ==> {
            &&& u32_at(buf, pos) is Err
            &&& u32_at(buf, pos)->Err_0 is Underflow
            &&& u32_at(buf, pos)->Err_0->pos == pos
            &&& u32_at(buf, pos)->Err_0->need == 4
            &&& u32_at(buf, pos)->Err_0->have == buf.len() - pos
        },
{
    if pos + 4 <= buf.len() {
        let b = buf.subrange(pos as int, pos as int + 4);
        assert(b[0] == buf[pos as int] && b[1] == buf[pos as int + 1] && b[2] == buf[pos as int + 2] && b[3]
            == buf[pos as int + 3]);
        assert(be32_value(b) == 0x100_0000 * b[0] + 0x1_0000 * b[1] + 0x100 * b[2] + b[3]);
    }
}

/// Bytes are read as they stand, and the reader goes on behind them. Where fewer
/// are left, the error says where, how many were needed, and how many there are.
pub proof fn bytes_are_read_as_they_stand(buf: Seq<u8>, pos: nat, n: nat)
    requires
        pos <= buf.len() <= usize::MAX,
        n <= usize::MAX,
    ensures
        pos + n <= buf.len() ==> {
            &&& take_at(buf, pos, n) is Ok
            &&& take_at(buf, pos, n)->Ok_0.0 == buf.subrange(pos as int, (pos + n) as int)
            &&& take_at(buf, pos, n)->Ok_0.1 == pos + n
        },
        pos + n > buf.len() ==> {
            &&& take_at(buf, pos, n) is Err
            &&& take_at(buf, pos, n)->Err_0 is Underflow
            &&& take_at(buf, pos, n)->Err_0->pos == pos
            &&& take_at(buf, pos, n)->Err_0->need == n
            &&& take_at(buf, pos, n)->Err_0->have == buf.len() - pos
        },
{
}

/// Opaque data are read with what fills them up to a multiple of four, be it
/// zeros or not: they are read exactly where both are there.
pub proof fn padding_is_read_too(buf: Seq<u8>, pos: nat, n: nat)
    requires
        pos <= buf.len(),
    ensures
        fixed_at(buf, pos, n) is Ok <==> pos + (n + 3) / 4 * 4 <= buf.len(),
        fixed_at(buf, pos, n) matches Ok((data, p)) ==> data == buf.subrange(
            pos as int,
            (pos + n) as int,
        ) && p == pos + (n + 3) / 4 * 4,
        var_at(buf, pos) is Ok <==> u32_at(buf, pos) is Ok && pos + 4 + (u32_at(buf, pos)->Ok_0.0
            + 3) / 4 * 4 <= buf.len(),
        var_at(buf, pos) matches Ok((data, p)) ==> {
            &&& data.len() == u32_at(buf, pos)->Ok_0.0
            &&& data == buf.subrange(pos as int + 4, pos as int + 4 + data.len() as int)
            &&& p == pos + 4 + (data.len() + 3) / 4 * 4
        },
{
    lemma_padded(n);
    if u32_at(buf, pos) is Ok {
        lemma_padded(u32_at(buf, pos)->Ok_0.0 as nat);
    }
}

proof fn lemma_padded(n: nat)
    ensures
        n + padding(n) == (n + 3) / 4 * 4,
{
    if n % 4 == 0 {
        assert((n + 3) / 4 == n / 4);
    } else {
        assert((n + 3) / 4 == n / 4 + 1);
    }
}

/// Opaque data are written as they are, with zeros up to the next multiple of
/// four, and behind the number of bytes where the reader does not know it.
pub proof fn opaque_data_are_written_so(data: Seq<u8>, i: int)
    requires
        data.len() < 0x1_0000_0000,
        data.len() <= i < (data.len() + 3) / 4 * 4,
    ensures
        opaque_fixed_bytes(data).len() == (data.len() + 3) / 4 * 4,
        opaque_fixed_bytes(data).take(data.len() as int) == data,
        opaque_fixed_bytes(data)[i] == 0,
        opaque_var_bytes(data).take(4) == be32(data.len()),
        opaque_var_bytes(data).skip(4) == opaque_fixed_bytes(data),
{
    lemma_padded(data.len());
    assert(opaque_fixed_bytes(data).take(data.len() as int) =~= data);
    assert(opaque_var_bytes(data).take(4) =~= be32(data.len()));
    assert(opaque_var_bytes(data).skip(4) =~= opaque_fixed_bytes(data));
}

/// Where a reader is left that finds too little: behind the data where only what
/// fills them up is missing, and otherwise where it stood; behind the length
/// where there is one.
pub proof fn where_readers_are_left(buf: Seq<u8>, pos: nat, n: nat)
    ensures
        pos + n <= buf.len() ==> fixed_stop(buf, pos, n) == pos + n,
        pos + n > buf.len() ==> fixed_stop(buf, pos, n) == pos,
        u32_at(buf, pos) is Err ==> var_stop(buf, pos) == pos,
        u32_at(buf, pos) matches Ok((len, _)) ==> {
            &&& pos + 4 + len <= buf.len() ==> var_stop(buf, pos) == pos + 4 + len
            &&& pos + 4 + len > buf.len() ==> var_stop(buf, pos) == pos + 4
        },
{
}

/// Zeros are zeros.
pub proof fn zeros_are_zeros(n: nat, i: int)
    requires
        0 <= i < n,
    ensures
        zeros(n).len() == n,
        zeros(n)[i] == 0,
{
}

/// Arguments are written one behind the other, each as a string.
pub proof fn arguments_are_strings(args: Seq<ScArg>, text: &str)
    ensures
        args_bytes(Seq::empty()) == Seq::<u8>::empty(),
        args_bytes(args.push(ScArg::String(text))) == args_bytes(args) + (be32(14)
            + opaque_var_bytes(encode_utf8(text@))),
{
    let more = args.push(ScArg::String(text));
    assert(more.drop_last() =~= args);
    assert(more.last() == ScArg::String(text));
}

// ── Base64 ──────────────────────────────────────────────────────────────────

/// The alphabet: upper case letters, lower case letters, digits, plus and slash;
/// each character of it stands for its place, and no other byte for any.
pub proof fn base64_alphabet(v: u8, c: u8)
    requires
        v < 64,
    ensures
        v < 26 ==> base64_char(v) as int == 'A' as int + v,
        26 <= v < 52 ==> base64_char(v) as int == 'a' as int + (v - 26),
        52 <= v < 62 ==> base64_char(v) as int == '0' as int + (v - 52),
        v == 62 ==> base64_char(v) == '+',
        v == 63 ==> base64_char(v) == '/',
        base64_value(c) == Some(v) <==> base64_char(v) as int == c,
        base64_value(c) matches Some(w) ==> w < 64,
{
}

/// Three bytes are four characters, which stand for the same 24 bits. At the end,
/// one byte is two characters and two signs of equality, and two bytes are three
/// and one; the bits that are missing are zero.
pub proof fn three_bytes_are_four_characters(data: Seq<u8>, g: int) -> (v: (u8, u8, u8, u8))
    requires
        0 <= g,
        3 * g < data.len(),
    ensures
        base64_text(data).len() == (data.len() + 2) / 3 * 4,
        v.0 < 64,
        v.1 < 64,
        v.2 < 64,
        v.3 < 64,
        base64_text(data)[4 * g] == base64_char(v.0),
        base64_text(data)[4 * g + 1] == base64_char(v.1),
        3 * g + 1 < data.len() ==> base64_text(data)[4 * g + 2] == base64_char(v.2),
        3 * g + 1 == data.len() ==> base64_text(data)[4 * g + 2] == '=',
        3 * g + 2 < data.len() ==> base64_text(data)[4 * g + 3] == base64_char(v.3),
        3 * g + 2 >= data.len() ==> base64_text(data)[4 * g + 3] == '=',
        0x4_0000 * v.0 + 0x1000 * v.1 + 0x40 * v.2 + v.3 == 0x1_0000 * data[3 * g] + 0x100 * (if 3
            * g + 1 < data.len() {
            data[3 * g + 1] as int
        } else {
            0
        }) + (if 3 * g + 2 < data.len() {
            data[3 * g + 2] as int
        } else {
            0
        }),
{
    let i = 4 * g;
    assert(i / 4 == g && (i + 1) / 4 == g && (i + 2) / 4 == g && (i + 3) / 4 == g);
    let b0 = data[3 * g];
    let b1 = if 3 * g + 1 < data.len() {
        data[3 * g + 1]
    } else {
        0u8
    };
    let b2 = if 3 * g + 2 < data.len() {
        data[3 * g + 2]
    } else {
        0u8
    };
    let v = (sextet(data, i), sextet(data, i + 1), sextet(data, i + 2), sextet(data, i + 3));
    lemma_twenty_four_bits(b0, b1, b2);
    v
}

proof fn lemma_twenty_four_bits(b0: u8, b1: u8, b2: u8)
    by (bit_vector)
    ensures
        b0 >> 2 < 64,
        ((b0 & 3) << 4) | (b1 >> 4) < 64,
        ((b1 & 15) << 2) | (b2 >> 6) < 64,
        b2 & 63 < 64,
        0x4_0000 * (b0 >> 2) + 0x1000 * (((b0 & 3) << 4) | (b1 >> 4)) + 0x40 * (((b1 & 15) << 2) | (
        b2 >> 6)) + (b2 & 63) == 0x1_0000 * b0 + 0x100 * b1 + b2,
{
}

/// Which texts without padding decode: those of the alphabet, unless one
/// character is left over. A wrong character in a whole group of four is found
/// before a wrong length, and that before a wrong character behind the groups.
pub proof fn which_base64_decodes(s: Seq<u8>, i: int)
    requires
        s.len() == 0 || s.last() != 61,
    ensures
        0 <= i < s.len() - s.len() % 4 && base64_value(s[i]) is None ==> base64_bytes(s) == Err::<
            Seq<u8>,
            XdrError,
        >(XdrError::Base64Character),
        (forall|k: int| 0 <= k < s.len() - s.len() % 4 ==> base64_value(#[trigger] s[k]) is Some)
            && s.len() % 4 == 1 ==> base64_bytes(s) == Err::<Seq<u8>, XdrError>(
            XdrError::Base64Length,
        ),
        s.len() % 4 != 1 && 0 <= i < s.len() && base64_value(s[i]) is None ==> base64_bytes(s)
            == Err::<Seq<u8>, XdrError>(XdrError::Base64Character),
        s.len() % 4 != 1 && (forall|k: int|
            0 <= k < s.len() ==> base64_value(#[trigger] s[k]) is Some) ==> base64_bytes(s) is Ok
            && base64_bytes(s)->Ok_0.len() == s.len() * 3 / 4,
{
}

/// Four characters decode to the three bytes with the same 24 bits.
pub proof fn four_characters_are_three_bytes(s: Seq<u8>, g: int)
    requires
        s.len() > 0 ==> s.last() != 61,
        base64_bytes(s) is Ok,
        0 <= g,
        4 * g + 4 <= s.len(),
    ensures
        ({
            let data = base64_bytes(s)->Ok_0;
            &&& 3 * g + 2 < data.len()
            &&& 0x1_0000 * data[3 * g] + 0x100 * data[3 * g + 1] + data[3 * g + 2] == 0x4_0000
                * base64_value(s[4 * g])->0 + 0x1000 * base64_value(s[4 * g + 1])->0 + 0x40
                * base64_value(s[4 * g + 2])->0 + base64_value(s[4 * g + 3])->0
        }),
{
    let data = base64_bytes(s)->Ok_0;
    let (c0, c1, c2, c3) = (
        base64_value(s[4 * g])->0,
        base64_value(s[4 * g + 1])->0,
        base64_value(s[4 * g + 2])->0,
        base64_value(s[4 * g + 3])->0,
    );
    assert(base64_value(s[4 * g]) is Some);
    assert(base64_value(s[4 * g + 1]) is Some);
    assert(base64_value(s[4 * g + 2]) is Some);
    assert(base64_value(s[4 * g + 3]) is Some);
    let j = 3 * g;
    assert(j / 3 == g && (j + 1) / 3 == g && (j + 2) / 3 == g);
    assert(data[j] == decoded_byte(s, j));
    assert(data[j + 1] == decoded_byte(s, j + 1));
    assert(data[j + 2] == decoded_byte(s, j + 2));
    lemma_four_sixes(c0, c1, c2, c3);
}

/// Two characters at the end are one byte, and three are two; the bits that are
/// left over are ignored.
pub proof fn the_last_characters_are_bytes(s: Seq<u8>)
    requires
        s.len() > 0 ==> s.last() != 61,
        base64_bytes(s) is Ok,
        s.len() % 4 >= 2,
    ensures
        ({
            let data = base64_bytes(s)->Ok_0;
            let q = s.len() as int - s.len() as int % 4;
            let (c0, c1) = (base64_value(s[q])->0, base64_value(s[q + 1])->0);
            let j = q / 4 * 3;
            &&& data.len() == j + s.len() % 4 - 1
            &&& data[j] == 4 * c0 + c1 / 16
            &&& s.len() % 4 == 3 ==> data[j + 1] == 16 * (c1 % 16) + base64_value(s[q + 2])->0 / 4
        }),
{
    let data = base64_bytes(s)->Ok_0;
    let q = s.len() as int - s.len() as int % 4;
    let j = q / 4 * 3;
    assert(base64_value(s[q]) is Some);
    assert(base64_value(s[q + 1]) is Some);
    let (c0, c1) = (base64_value(s[q])->0, base64_value(s[q + 1])->0);
    assert(j / 3 == q / 4 && (j + 1) / 3 == q / 4);
    assert(data[j] == decoded_byte(s, j));
    assert(((c0 << 2) | (c1 >> 4)) == 4 * c0 + c1 / 16) by (bit_vector)
        requires
            c0 < 64,
            c1 < 64,
    ;
    if s.len() % 4 == 3 {
        assert(base64_value(s[q + 2]) is Some);
        let c2 = base64_value(s[q + 2])->0;
        assert(data[j + 1] == decoded_byte(s, j + 1));
        assert(((c1 << 4) | (c2 >> 2)) == 16 * (c1 % 16) + c2 / 4) by (bit_vector)
            requires
                c1 < 64,
                c2 < 64,
        ;
    }
}

proof fn lemma_four_sixes(c0: u8, c1: u8, c2: u8, c3: u8)
    by (bit_vector)
    requires
        c0 < 64,
        c1 < 64,
        c2 < 64,
        c3 < 64,
    ensures
        0x1_0000 * ((c0 << 2) | (c1 >> 4)) + 0x100 * ((c1 << 4) | (c2 >> 2)) + ((c2 << 6) | c3)
            == 0x4_0000 * c0 + 0x1000 * c1 + 0x40 * c2 + c3,
{
}

// ── Strkeys ─────────────────────────────────────────────────────────────────

/// The alphabet: upper case letters, and the digits from two to seven; each
/// character of it stands for its place, and no other byte for any.
pub proof fn base32_alphabet(v: u8, c: u8)
    requires
        v < 32,
    ensures
        v < 26 ==> base32_char(v) as int == 'A' as int + v,
        26 <= v ==> base32_char(v) as int == '2' as int + (v - 26),
        base32_value(c) == Some(v) <==> base32_char(v) as int == c,
        base32_value(c) matches Some(w) ==> w < 32,
{
}

/// Five bytes are eight characters, which stand for the same 40 bits.
pub proof fn five_bytes_are_eight_characters(version: u8, payload: Seq<u8>, g: int)
    requires
        payload.len() == 32,
        0 <= g < 7,
    ensures
        ({
            let d = strkey_data(version, payload);
            let v = |k: int| quintet(d, 8 * g + k) as int;
            &&& forall|k: int|
                0 <= k < 8 ==> strkey_text(version, payload)[8 * g + k] == base32_char(
                    #[trigger] quintet(d, 8 * g + k),
                ) && quintet(d, 8 * g + k) < 32
            &&& 0x8_0000_0000 * v(0) + 0x4000_0000 * v(1) + 0x200_0000 * v(2) + 0x10_0000 * v(3)
                + 0x8000 * v(4) + 0x400 * v(5) + 0x20 * v(6) + v(7) == 0x1_0000_0000 * d[5 * g]
                + 0x100_0000 * d[5 * g + 1] + 0x1_0000 * d[5 * g + 2] + 0x100 * d[5 * g + 3] + d[5
                * g + 4]
        }),
{
    let d = strkey_data(version, payload);
    let i = 8 * g;
    assert(i / 8 == g && (i + 1) / 8 == g && (i + 2) / 8 == g && (i + 3) / 8 == g && (i + 4) / 8
        == g && (i + 5) / 8 == g && (i + 6) / 8 == g && (i + 7) / 8 == g);
    assert(i % 8 == 0 && (i + 1) % 8 == 1 && (i + 2) % 8 == 2 && (i + 3) % 8 == 3 && (i + 4) % 8
        == 4 && (i + 5) % 8 == 5 && (i + 6) % 8 == 6 && (i + 7) % 8 == 7);
    lemma_forty_bits(d[5 * g], d[5 * g + 1], d[5 * g + 2], d[5 * g + 3], d[5 * g + 4]);
    assert forall|k: int| 0 <= k < 8 implies strkey_text(version, payload)[8 * g + k]
        == base32_char(#[trigger] quintet(d, 8 * g + k)) && quintet(d, 8 * g + k) < 32 by {
        lemma_quintet_small(d, 8 * g + k);
    }
}

proof fn lemma_forty_bits(b0: u8, b1: u8, b2: u8, b3: u8, b4: u8)
    by (bit_vector)
    ensures
        0x8_0000_0000 * (b0 >> 3) + 0x4000_0000 * (((b0 & 7) << 2) | (b1 >> 6)) + 0x200_0000 * ((b1
            >> 1) & 31) + 0x10_0000 * (((b1 & 1) << 4) | (b2 >> 4)) + 0x8000 * (((b2 & 15) << 1) | (
        b3 >> 7)) + 0x400 * ((b3 >> 2) & 31) + 0x20 * (((b3 & 3) << 3) | (b4 >> 5)) + (b4 & 31)
            == 0x1_0000_0000 * b0 + 0x100_0000 * b1 + 0x1_0000 * b2 + 0x100 * b3 + b4,
{
}

/// A strkey is 56 characters: the version, the 32 bytes of the payload, and the
/// checksum of both with its low byte first. A contract begins with C, and an
/// account with G.
pub proof fn what_a_strkey_holds(version: u8, payload: Seq<u8>)
    requires
        payload.len() == 32,
    ensures
        ({
            let d = strkey_data(version, payload);
            &&& d.len() == 35
            &&& d[0] == version
            &&& d.subrange(1, 33) == payload
            &&& d[33] + 256 * d[34] == crc16_of(d.take(33))
        }),
        strkey_text(version, payload).len() == 56,
        version == 0x10 ==> strkey_text(version, payload)[0] == 'C',
        version == 0x30 ==> strkey_text(version, payload)[0] == 'G',
{
    let d = strkey_data(version, payload);
    let crc = crc16_of(seq![version] + payload);
    assert(d.take(33) =~= seq![version] + payload);
    assert(d.subrange(1, 33) =~= payload);
    assert(crc == (crc % 256) as u8 + 256 * ((crc / 256) as u8));
    assert(0x10u8 >> 3 == 2u8) by (bit_vector);
    assert(0x30u8 >> 3 == 6u8) by (bit_vector);
}

/// The checksum: nothing for no data; each byte goes on top of the register,
/// which then moves up eight times, each time with 0x1021 for a one that falls
/// out.
pub proof fn what_the_checksum_is(data: Seq<u8>, byte: u8, register: u16, n: nat)
    ensures
        crc16_of(Seq::empty()) == 0,
        crc16_of(data.push(byte)) == crc_steps(crc16_of(data) ^ ((byte as u16) << 8), 8),
        crc_steps(register, 0) == register,
        crc_steps(register, n + 1) == crc_step(crc_steps(register, n)),
        register < 0x8000 ==> crc_step(register) == 2 * register,
        register >= 0x8000 ==> crc_step(register) == ((2 * register - 0x1_0000) as u16) ^ 0x1021,
{
    assert(data.push(byte).drop_last() =~= data);
    assert(register < 0x8000 ==> crc_step(register) == 2 * register) by (bit_vector);
    assert(register >= 0x8000 ==> crc_step(register) == ((2 * register - 0x1_0000) as u16)
        ^ 0x1021) by (bit_vector);
}

/// The texts that read as strkeys are those that are written as such.
pub proof fn which_texts_are_strkeys(text: Seq<u8>, version: u8, payload: Seq<u8>)
    requires
        payload.len() == 32,
    ensures
        strkey_parts(text) == Ok::<(u8, Seq<u8>), XdrError>((version, payload)) <==> text
            == encode_utf8(strkey_text(version, payload)),
        contract_hash(text) == Ok::<Seq<u8>, XdrError>(payload) <==> text == encode_utf8(
            strkey_text(0x10, payload),
        ),
        strkey_parts(text) is Ok && strkey_parts(text)->Ok_0.0 != 0x10 ==> contract_hash(text)
            == Err::<Seq<u8>, XdrError>(
            XdrError::StrkeyVersion { version: strkey_parts(text)->Ok_0.0 },
        ),
        strkey_parts(text) matches Err(e) ==> contract_hash(text) == Err::<Seq<u8>, XdrError>(e),
{
    strkey_round_trip(version, payload);
    strkey_round_trip(0x10, payload);
    if strkey_parts(text) == Ok::<(u8, Seq<u8>), XdrError>((version, payload)) {
        strkey_text_is_unique(text, version, payload);
    }
    if contract_hash(text) == Ok::<Seq<u8>, XdrError>(payload) {
        strkey_text_is_unique(text, 0x10, payload);
    }
}

/// Why a text is no strkey: for its length first, then for the first byte that is
/// not in the alphabet, then for its checksum.
pub proof fn why_texts_are_no_strkeys(text: Seq<u8>, i: int)
    requires
        text.len() <= usize::MAX,
    ensures
        text.len() != 56 ==> strkey_parts(text) == Err::<(u8, Seq<u8>), XdrError>(
            XdrError::StrkeyLength { len: text.len() as usize },
        ),
        text.len() == 56 && 0 <= i < 56 && base32_value(text[i]) is None && (forall|k: int|
            0 <= k < i ==> base32_value(#[trigger] text[k]) is Some) ==> strkey_parts(text) == Err::<
            (u8, Seq<u8>),
            XdrError,
        >(XdrError::Base32Character { byte: text[i] }),
        text.len() == 56 && (forall|k: int|
            0 <= k < 56 ==> base32_value(#[trigger] text[k]) is Some) && strkey_parts(
            text,
        ) is Err ==> strkey_parts(text) == Err::<(u8, Seq<u8>), XdrError>(
            XdrError::StrkeyChecksum,
        ),
{
    if 0 <= i < text.len() && base32_value(text[i]) is None && (forall|k: int|
        0 <= k < i ==> base32_value(#[trigger] text[k]) is Some) {
        lemma_first_outside(text, i);
    }
    if forall|k: int| 0 <= k < text.len() ==> base32_value(#[trigger] text[k]) is Some {
        lemma_none_outside(text);
    }
}

proof fn lemma_first_outside(text: Seq<u8>, i: int)
    requires
        0 <= i < text.len(),
        base32_value(text[i]) is None,
        forall|k: int| 0 <= k < i ==> base32_value(#[trigger] text[k]) is Some,
    ensures
        first_outside_alphabet(text) == Some(text[i]),
    decreases i,
{
    if i > 0 {
        assert(base32_value(text[0]) is Some);
        let rest = text.drop_first();
        assert forall|k: int| 0 <= k < i - 1 implies base32_value(#[trigger] rest[k]) is Some by {
            assert(rest[k] == text[k + 1]);
        }
        lemma_first_outside(rest, i - 1);
    }
}

proof fn lemma_none_outside(text: Seq<u8>)
    requires
        forall|k: int| 0 <= k < text.len() ==> base32_value(#[trigger] text[k]) is Some,
    ensures
        first_outside_alphabet(text) is None,
    decreases text.len(),
{
    if text.len() > 0 {
        assert(base32_value(text[0]) is Some);
        let rest = text.drop_first();
        assert forall|k: int| 0 <= k < rest.len() implies base32_value(#[trigger] rest[k])
            is Some by {
            assert(rest[k] == text[k + 1]);
        }
        lemma_none_outside(rest);
    }
}

// ── Addresses ───────────────────────────────────────────────────────────────

/// An address is written as its kind, for an account the kind of its key, and its
/// 32 bytes; its strkey is that of its kind.
pub proof fn what_an_address_is(address: Address)
    ensures
        address matches Address::Account(key) ==> {
            &&& address.key() == key@
            &&& address.text() == strkey_text(0x30, key@)
            &&& address.xdr().len() == 40
            &&& address.xdr().take(8) == seq![0u8, 0, 0, 0, 0, 0, 0, 0]
            &&& address.xdr().skip(8) == key@
        },
        address matches Address::Contract(hash) ==> {
            &&& address.key() == hash@
            &&& address.text() == strkey_text(0x10, hash@)
            &&& address.xdr().len() == 36
            &&& address.xdr().take(4) == seq![0u8, 0, 0, 1]
            &&& address.xdr().skip(4) == hash@
        },
{
    match address {
        Address::Account(key) => {
            assert(key@.len() == 32);
            assert(address.xdr().take(8) =~= seq![0u8, 0, 0, 0, 0, 0, 0, 0]);
            assert(address.xdr().skip(8) =~= key@);
        },
        Address::Contract(hash) => {
            assert(hash@.len() == 32);
            assert(address.xdr().take(4) =~= seq![0u8, 0, 0, 1]);
            assert(address.xdr().skip(4) =~= hash@);
        },
    }
}

/// Any number of `=` behind a text changes nothing in what it decodes to, and a
/// text that does not end in one is read to its end.
pub proof fn base64_padding_does_not_count(text: Seq<u8>)
    ensures
        base64_bytes(text.push(61)) == base64_bytes(text),
        text.len() > 0 && text.last() != 61 ==> without_padding(text) == text,
        without_padding(Seq::<u8>::empty()).len() == 0,
{
    assert(text.push(61).drop_last() =~= text);
}

} // verus!
