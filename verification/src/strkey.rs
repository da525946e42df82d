//! Stellar strkeys: the text form of contract and account identifiers.
//!
//! A strkey is the base32 text of a version byte, 32 payload bytes and a
//! CRC-16/XModem checksum of those 33 bytes, low byte first.

use vstd::prelude::*;
use vstd::string::*;
use vstd::utf8::*;

use crate::error::XdrError;

verus! {

/// Version byte of a contract strkey, which then starts with `C`.
pub const VERSION_CONTRACT: u8 = 0x10;

/// Version byte of an account strkey, which then starts with `G`.
pub const VERSION_ACCOUNT: u8 = 0x30;

/// One step of the checksum: the register moves up one bit, and the polynomial
/// is taken off where a one falls out.
pub open spec fn crc_step(crc: u16) -> u16 {
    if crc & 0x8000 != 0 {
        (crc << 1) ^ 0x1021
    } else {
        crc << 1
    }
}

/// `n` steps of the checksum.
pub open spec fn crc_steps(crc: u16, n: nat) -> u16
    decreases n,
{
    if n == 0 {
        crc
    } else {
        crc_step(crc_steps(crc, (n - 1) as nat))
    }
}

/// The CRC-16/XModem checksum of `data`.
pub open spec fn crc16_of(data: Seq<u8>) -> u16
    decreases data.len(),
{
    if data.len() == 0 {
        0
    } else {
        crc_steps(crc16_of(data.drop_last()) ^ ((data.last() as u16) << 8), 8)
    }
}

/// CRC-16/XModem, the checksum inside a strkey.
pub fn crc16(data: &[u8]) -> (crc: u16)
    ensures
        crc == crc16_of(data@),
{
    let mut crc: u16 = 0;
    let mut i: usize = 0;
    while i < data.len()
        invariant
            i <= data@.len(),
            crc == crc16_of(data@.take(i as int)),
        decreases data@.len() - i,
    {
        let start: u16 = crc ^ ((data[i] as u16) << 8);
        crc = start;
        let mut n: u8 = 0;
        while n < 8
            invariant
                n <= 8,
                crc == crc_steps(start, n as nat),
            decreases 8 - n,
        {
            crc = if crc & 0x8000 != 0 {
                (crc << 1) ^ 0x1021
            } else {
                crc << 1
            };
            n = n + 1;
        }
        proof {
            let next = data@.take(i + 1);
            assert(next.drop_last() =~= data@.take(i as int));
            assert(next.last() == data@[i as int]);
        }
        i = i + 1;
    }
    assert(data@.take(i as int) =~= data@);
    crc
}

/// The character of the base32 alphabet that stands for the five bits `v`.
pub open spec fn base32_char(v: u8) -> char {
    if v < 26 {
        (65 + v) as char
    } else {
        (24 + v) as char
    }
}

/// The five bits that the byte `c` of a base32 text stands for.
pub open spec fn base32_value(c: u8) -> Option<u8> {
    if 65 <= c <= 90 {
        Some((c - 65) as u8)
    } else if 50 <= c <= 55 {
        Some((c - 24) as u8)
    } else {
        None
    }
}

/// The `i`-th group of five bits of `data`, five bytes making eight groups.
pub open spec fn quintet(data: Seq<u8>, i: int) -> u8 {
    let q = 5 * (i / 8);
    let r = i % 8;
    if r == 0 {
        data[q] >> 3
    } else if r == 1 {
        ((data[q] & 7) << 2) | (data[q + 1] >> 6)
    } else if r == 2 {
        (data[q + 1] >> 1) & 31
    } else if r == 3 {
        ((data[q + 1] & 1) << 4) | (data[q + 2] >> 4)
    } else if r == 4 {
        ((data[q + 2] & 15) << 1) | (data[q + 3] >> 7)
    } else if r == 5 {
        (data[q + 3] >> 2) & 31
    } else if r == 6 {
        ((data[q + 3] & 3) << 3) | (data[q + 4] >> 5)
    } else {
        data[q + 4] & 31
    }
}

/// The `j`-th byte that the groups of five bits `v` make up.
pub open spec fn byte_of_quintets(v: Seq<u8>, j: int) -> u8 {
    let q = 8 * (j / 5);
    let r = j % 5;
    if r == 0 {
        (v[q] << 3) | (v[q + 1] >> 2)
    } else if r == 1 {
        (v[q + 1] << 6) | (v[q + 2] << 1) | (v[q + 3] >> 4)
    } else if r == 2 {
        (v[q + 3] << 4) | (v[q + 4] >> 1)
    } else if r == 3 {
        (v[q + 4] << 7) | (v[q + 5] << 2) | (v[q + 6] >> 3)
    } else {
        (v[q + 6] << 5) | v[q + 7]
    }
}

/// The 35 bytes of a strkey with this version and payload.
pub open spec fn strkey_data(version: u8, payload: Seq<u8>) -> Seq<u8> {
    let body = seq![version] + payload;
    let crc = crc16_of(body);
    body + seq![(crc % 256) as u8, (crc / 256) as u8]
}

/// The strkey with this version and payload.
pub open spec fn strkey_text(version: u8, payload: Seq<u8>) -> Seq<char> {
    let data = strkey_data(version, payload);
    Seq::new(56, |i: int| base32_char(quintet(data, i)))
}

/// The first byte of `text` outside the base32 alphabet.
pub open spec fn first_outside_alphabet(text: Seq<u8>) -> Option<u8>
    decreases text.len(),
{
    if text.len() == 0 {
        None
    } else if base32_value(text[0]) is None {
        Some(text[0])
    } else {
        first_outside_alphabet(text.drop_first())
    }
}

/// The 35 bytes that 56 bytes of base32 stand for.
pub open spec fn base32_bytes(text: Seq<u8>) -> Seq<u8> {
    let values = text.map_values(|c: u8| base32_value(c)->0);
    Seq::new(35, |j: int| byte_of_quintets(values, j))
}

/// The version and payload of the strkey `text`, or why it is none.
pub open spec fn strkey_parts(text: Seq<u8>) -> Result<(u8, Seq<u8>), XdrError> {
    let data = base32_bytes(text);
    if text.len() != 56 {
        Err(XdrError::StrkeyLength { len: text.len() as usize })
    } else if first_outside_alphabet(text) is Some {
        Err(XdrError::Base32Character { byte: first_outside_alphabet(text)->0 })
    } else if crc16_of(data.take(33)) != data[33] + 256 * data[34] {
        Err(XdrError::StrkeyChecksum)
    } else {
        Ok((data[0], data.subrange(1, 33)))
    }
}

/// The 32-byte hash that the contract strkey `text` stands for.
pub open spec fn contract_hash(text: Seq<u8>) -> Result<Seq<u8>, XdrError> {
    match strkey_parts(text) {
        Err(e) => Err(e),
        Ok((version, hash)) => if version == VERSION_CONTRACT {
            Ok(hash)
        } else {
            Err(XdrError::StrkeyVersion { version })
        },
    }
}

fn encode_quintet(v: u8) -> (c: char)
    requires
        v < 32,
    ensures
        c == base32_char(v),
{
    if v < 26 {
        (65 + v) as char
    } else {
        (24 + v) as char
    }
}

fn decode_quintet(c: u8) -> (v: Option<u8>)
    ensures
        v == base32_value(c),
{
    if 65 <= c && c <= 90 {
        Some(c - 65)
    } else if 50 <= c && c <= 55 {
        Some(c - 24)
    } else {
        None
    }
}

/// Groups of five bits are five bits wide.
proof fn lemma_quintet_range(b0: u8, b1: u8, b2: u8, b3: u8, b4: u8)
    by (bit_vector)
    ensures
        b0 >> 3 < 32,
        ((b0 & 7) << 2) | (b1 >> 6) < 32,
        (b1 >> 1) & 31 < 32,
        ((b1 & 1) << 4) | (b2 >> 4) < 32,
        ((b2 & 15) << 1) | (b3 >> 7) < 32,
        (b3 >> 2) & 31 < 32,
        ((b3 & 3) << 3) | (b4 >> 5) < 32,
        b4 & 31 < 32,
{
}

/// Five bytes are found again in their eight groups.
proof fn lemma_quintets_hold_bytes(b0: u8, b1: u8, b2: u8, b3: u8, b4: u8)
    by (bit_vector)
    ensures
        ((b0 >> 3) << 3) | ((((b0 & 7) << 2) | (b1 >> 6)) >> 2) == b0,
        ((((b0 & 7) << 2) | (b1 >> 6)) << 6) | (((b1 >> 1) & 31) << 1) | ((((b1 & 1) << 4) | (b2
            >> 4)) >> 4) == b1,
        ((((b1 & 1) << 4) | (b2 >> 4)) << 4) | ((((b2 & 15) << 1) | (b3 >> 7)) >> 1) == b2,
        ((((b2 & 15) << 1) | (b3 >> 7)) << 7) | (((b3 >> 2) & 31) << 2) | ((((b3 & 3) << 3) | (b4
            >> 5)) >> 3) == b3,
        ((((b3 & 3) << 3) | (b4 >> 5)) << 5) | (b4 & 31) == b4,
{
}

/// Eight groups are found again in the five bytes that they make up.
proof fn lemma_bytes_hold_quintets(
    v0: u8,
    v1: u8,
    v2: u8,
    v3: u8,
    v4: u8,
    v5: u8,
    v6: u8,
    v7: u8,
)
    by (bit_vector)
    requires
        v0 < 32,
        v1 < 32,
        v2 < 32,
        v3 < 32,
        v4 < 32,
        v5 < 32,
        v6 < 32,
        v7 < 32,
    ensures
        ((v0 << 3) | (v1 >> 2)) >> 3 == v0,
        ((((v0 << 3) | (v1 >> 2)) & 7) << 2) | (((v1 << 6) | (v2 << 1) | (v3 >> 4)) >> 6) == v1,
        (((v1 << 6) | (v2 << 1) | (v3 >> 4)) >> 1) & 31 == v2,
        ((((v1 << 6) | (v2 << 1) | (v3 >> 4)) & 1) << 4) | (((v3 << 4) | (v4 >> 1)) >> 4) == v3,
        ((((v3 << 4) | (v4 >> 1)) & 15) << 1) | (((v4 << 7) | (v5 << 2) | (v6 >> 3)) >> 7) == v4,
        (((v4 << 7) | (v5 << 2) | (v6 >> 3)) >> 2) & 31 == v5,
        ((((v4 << 7) | (v5 << 2) | (v6 >> 3)) & 3) << 3) | (((v6 << 5) | v7) >> 5) == v6,
        ((v6 << 5) | v7) & 31 == v7,
{
}

/// Group `i` of five bits of `data`.
fn quintet_of(data: &[u8], i: usize) -> (v: u8)
    requires
        data@.len() == 35,
        i < 56,
    ensures
        v == quintet(data@, i as int),
        v < 32,
{
    let q: usize = 5 * (i / 8);
    let r: usize = i % 8;
    proof {
        lemma_quintet_small(data@, i as int);
    }
    if r == 0 {
        data[q] >> 3
    } else if r == 1 {
        ((data[q] & 7) << 2) | (data[q + 1] >> 6)
    } else if r == 2 {
        (data[q + 1] >> 1) & 31
    } else if r == 3 {
        ((data[q + 1] & 1) << 4) | (data[q + 2] >> 4)
    } else if r == 4 {
        ((data[q + 2] & 15) << 1) | (data[q + 3] >> 7)
    } else if r == 5 {
        (data[q + 3] >> 2) & 31
    } else if r == 6 {
        ((data[q + 3] & 3) << 3) | (data[q + 4] >> 5)
    } else {
        data[q + 4] & 31
    }
}

/// Writes 35 bytes as 56 characters of base32.
fn base32_encode(data: &[u8]) -> (text: String)
    requires
        data@.len() == 35,
    ensures
        text@ == Seq::new(56, |i: int| base32_char(quintet(data@, i))),
{
    let mut out = String::new();
    let mut i: usize = 0;
    while i < 56
        invariant
            i <= 56,
            data@.len() == 35,
            out@ == Seq::new(i as nat, |k: int| base32_char(quintet(data@, k))),
        decreases 56 - i,
    {
        out.push(encode_quintet(quintet_of(data, i)));
        i = i + 1;
        assert(out@ =~= Seq::new(i as nat, |k: int| base32_char(quintet(data@, k))));
    }
    out
}

/// The values of the bytes of a base32 text, or the first byte that has none.
fn base32_values(text: &[u8]) -> (values: Result<Vec<u8>, u8>)
    ensures
        match values {
            Ok(v) => first_outside_alphabet(text@) is None && v@ == text@.map_values(
                |c: u8| base32_value(c)->0,
            ),
            Err(byte) => first_outside_alphabet(text@) == Some(byte),
        },
{
    let mut out: Vec<u8> = Vec::new();
    let mut i: usize = 0;
    assert(text@.skip(0) =~= text@);
    while i < text.len()
        invariant
            i <= text@.len(),
            first_outside_alphabet(text@) == first_outside_alphabet(text@.skip(i as int)),
            out@ == text@.take(i as int).map_values(|c: u8| base32_value(c)->0),
        decreases text@.len() - i,
    {
        assert(text@.skip(i as int)[0] == text@[i as int]);
        assert(text@.skip(i as int).drop_first() =~= text@.skip(i + 1));
        match decode_quintet(text[i]) {
            Some(v) => {
                out.push(v);
            },
            None => {
                return Err(text[i]);
            },
        }
        i = i + 1;
        assert(out@ =~= text@.take(i as int).map_values(|c: u8| base32_value(c)->0));
    }
    assert(text@.take(i as int) =~= text@);
    Ok(out)
}

/// Byte `j` that the groups of five bits `v` make up.
fn packed_byte(v: &[u8], j: usize) -> (b: u8)
    requires
        v@.len() == 56,
        j < 35,
    ensures
        b == byte_of_quintets(v@, j as int),
{
    let q: usize = 8 * (j / 5);
    let r: usize = j % 5;
    if r == 0 {
        (v[q] << 3) | (v[q + 1] >> 2)
    } else if r == 1 {
        (v[q + 1] << 6) | (v[q + 2] << 1) | (v[q + 3] >> 4)
    } else if r == 2 {
        (v[q + 3] << 4) | (v[q + 4] >> 1)
    } else if r == 3 {
        (v[q + 4] << 7) | (v[q + 5] << 2) | (v[q + 6] >> 3)
    } else {
        (v[q + 6] << 5) | v[q + 7]
    }
}

/// Puts 56 groups of five bits together to 35 bytes.
fn pack_quintets(v: &[u8]) -> (data: Vec<u8>)
    requires
        v@.len() == 56,
    ensures
        data@ == Seq::new(35, |j: int| byte_of_quintets(v@, j)),
{
    let mut out: Vec<u8> = Vec::new();
    let mut j: usize = 0;
    while j < 35
        invariant
            j <= 35,
            v@.len() == 56,
            out@ == Seq::new(j as nat, |k: int| byte_of_quintets(v@, k)),
        decreases 35 - j,
    {
        out.push(packed_byte(v, j));
        j = j + 1;
        assert(out@ =~= Seq::new(j as nat, |k: int| byte_of_quintets(v@, k)));
    }
    out
}

/// The 32 bytes of `data` from `at` on, as an array.
pub(crate) fn array32(data: &[u8], at: usize) -> (array: [u8; 32])
    requires
        at + 32 <= data@.len(),
    ensures
        array@ == data@.subrange(at as int, at + 32),
{
    let mut array: [u8; 32] = [0; 32];
    let len: usize = data.len();
    let mut i: usize = 0;
    while i < 32
        invariant
            i <= 32,
            at + 32 <= len,
            len == data@.len(),
            forall|k: int| 0 <= k < i ==> #[trigger] array@[k] == data@[at + k],
        decreases 32 - i,
    {
        array[i] = data[at + i];
        i = i + 1;
    }
    assert(array@ =~= data@.subrange(at as int, at + 32));
    array
}

/// Splits a strkey into its version byte and payload.
pub fn strkey_decode(s: &str) -> (parts: Result<(u8, [u8; 32]), XdrError>)
    ensures
        match parts {
            Ok((version, payload)) => strkey_parts(s.spec_bytes()) == Ok::<
                (u8, Seq<u8>),
                XdrError,
            >((version, payload@)),
            Err(e) => strkey_parts(s.spec_bytes()) == Err::<(u8, Seq<u8>), XdrError>(e),
        },
{
    let text = s.as_bytes();
    if text.len() != 56 {
        return Err(XdrError::StrkeyLength { len: text.len() });
    }
    let values = match base32_values(text) {
        Ok(values) => values,
        Err(byte) => {
            return Err(XdrError::Base32Character { byte });
        },
    };
    let data = pack_quintets(values.as_slice());
    assert(data@ == base32_bytes(text@));
    let stored: u16 = data[33] as u16 + 256 * data[34] as u16;
    let body = vstd::slice::slice_subrange(data.as_slice(), 0, 33);
    assert(body@ =~= data@.take(33));
    if crc16(body) != stored {
        return Err(XdrError::StrkeyChecksum);
    }
    Ok((data[0], array32(data.as_slice(), 1)))
}

/// Writes a version byte and a payload as a strkey.
pub fn strkey_encode(version: u8, payload: &[u8; 32]) -> (text: String)
    ensures
        text@ == strkey_text(version, payload@),
{
    let mut data: Vec<u8> = Vec::new();
    data.push(version);
    data.extend_from_slice(payload.as_slice());
    assert(data@ =~= seq![version] + payload@);
    let crc: u16 = crc16(data.as_slice());
    data.push((crc % 256) as u8);
    data.push((crc / 256) as u8);
    assert(data@ =~= strkey_data(version, payload@));
    base32_encode(data.as_slice())
}

/// Decodes a contract strkey to the 32-byte hash of the contract.
pub fn decode_contract_id(strkey: &str) -> (hash: Result<[u8; 32], XdrError>)
    ensures
        match hash {
            Ok(h) => contract_hash(strkey.spec_bytes()) == Ok::<Seq<u8>, XdrError>(h@),
            Err(e) => contract_hash(strkey.spec_bytes()) == Err::<Seq<u8>, XdrError>(e),
        },
{
    match strkey_decode(strkey) {
        Err(e) => Err(e),
        Ok((version, hash)) => if version != VERSION_CONTRACT {
            Err(XdrError::StrkeyVersion { version })
        } else {
            Ok(hash)
        },
    }
}

/// Writes a 32-byte contract hash as a contract strkey.
pub fn encode_contract_strkey(hash: &[u8; 32]) -> (text: String)
    ensures
        text@ == strkey_text(VERSION_CONTRACT, hash@),
{
    strkey_encode(VERSION_CONTRACT, hash)
}

/// Writes a 32-byte Ed25519 public key as an account strkey.
pub fn encode_account_strkey(key: &[u8; 32]) -> (text: String)
    ensures
        text@ == strkey_text(VERSION_ACCOUNT, key@),
{
    strkey_encode(VERSION_ACCOUNT, key)
}

/// The characters of the alphabet are ASCII, and each stands for its own bits.
pub(crate) proof fn lemma_alphabet(v: u8)
    requires
        v < 32,
    ensures
        base32_char(v) <= '\u{7f}',
        base32_value(base32_char(v) as u8) == Some(v),
{
}

/// Each group of five bits of 35 bytes is five bits wide.
pub(crate) proof fn lemma_quintet_small(data: Seq<u8>, i: int)
    requires
        data.len() == 35,
        0 <= i < 56,
    ensures
        quintet(data, i) < 32,
{
    let q = 5 * (i / 8);
    lemma_quintet_range(data[q], data[q + 1], data[q + 2], data[q + 3], data[q + 4]);
}

proof fn lemma_nothing_outside_alphabet(text: Seq<u8>)
    requires
        forall|i: int| 0 <= i < text.len() ==> base32_value(#[trigger] text[i]) is Some,
    ensures
        first_outside_alphabet(text) is None,
    decreases text.len(),
{
    if text.len() > 0 {
        assert forall|i: int| 0 <= i < text.drop_first().len() implies base32_value(
            #[trigger] text.drop_first()[i],
        ) is Some by {
            assert(text.drop_first()[i] == text[i + 1]);
        }
        lemma_nothing_outside_alphabet(text.drop_first());
    }
}

proof fn lemma_all_in_alphabet(text: Seq<u8>, i: int)
    requires
        first_outside_alphabet(text) is None,
        0 <= i < text.len(),
    ensures
        base32_value(text[i]) is Some,
    decreases text.len(),
{
    if i > 0 {
        lemma_all_in_alphabet(text.drop_first(), i - 1);
    }
}

/// A strkey is plain ASCII: 56 bytes, one for each group of five bits.
proof fn lemma_strkey_bytes(version: u8, payload: Seq<u8>)
    requires
        payload.len() == 32,
    ensures
        encode_utf8(strkey_text(version, payload)) == Seq::new(
            56,
            |i: int| base32_char(quintet(strkey_data(version, payload), i)) as u8,
        ),
{
    let data = strkey_data(version, payload);
    let text = strkey_text(version, payload);
    assert forall|i: int| 0 <= i < text.len() implies '\0' <= #[trigger] text[i] <= '\u{7f}' by {
        lemma_quintet_small(data, i);
        lemma_alphabet(quintet(data, i));
    }
    is_ascii_chars_encode_utf8(text);
    assert(encode_utf8(text) =~= Seq::new(56, |i: int| base32_char(quintet(data, i)) as u8));
}

/// The groups of five bits of 35 bytes make up those bytes.
pub(crate) proof fn lemma_byte_of_quintets(data: Seq<u8>, values: Seq<u8>, j: int)
    requires
        data.len() == 35,
        values.len() == 56,
        forall|i: int| 0 <= i < 56 ==> #[trigger] values[i] == quintet(data, i),
        0 <= j < 35,
    ensures
        byte_of_quintets(values, j) == data[j],
{
    let q = j / 5;
    lemma_quintets_hold_bytes(
        data[5 * q],
        data[5 * q + 1],
        data[5 * q + 2],
        data[5 * q + 3],
        data[5 * q + 4],
    );
    assert(5 * q + j % 5 == j);
}

/// Reading a strkey gives back the version and the payload that it was written
/// from.
#[verifier::spinoff_prover]
#[verifier::rlimit(50)]
pub proof fn strkey_round_trip(version: u8, payload: Seq<u8>)
    requires
        payload.len() == 32,
    ensures
        strkey_parts(encode_utf8(strkey_text(version, payload))) == Ok::<(u8, Seq<u8>), XdrError>(
            (version, payload),
        ),
{
    let data = strkey_data(version, payload);
    let bytes = encode_utf8(strkey_text(version, payload));
    lemma_strkey_bytes(version, payload);
    assert forall|i: int| 0 <= i < 56 implies base32_value(#[trigger] bytes[i]) == Some(
        quintet(data, i),
    ) by {
        lemma_quintet_small(data, i);
        lemma_alphabet(quintet(data, i));
    }
    lemma_nothing_outside_alphabet(bytes);
    let values = bytes.map_values(|c: u8| base32_value(c)->0);
    assert forall|i: int| 0 <= i < 56 implies #[trigger] values[i] == quintet(data, i) by {
        assert(base32_value(bytes[i]) == Some(quintet(data, i)));
    }
    assert forall|j: int| 0 <= j < 35 implies #[trigger] byte_of_quintets(values, j)
        == data[j] by {
        lemma_byte_of_quintets(data, values, j);
    }
    assert(base32_bytes(bytes) =~= data);
    assert(data.take(33) =~= seq![version] + payload);
    assert(data.subrange(1, 33) =~= payload);
    let crc = crc16_of(seq![version] + payload);
    assert(crc == (crc % 256) as u8 + 256 * ((crc / 256) as u8));
}

/// A text that reads as a strkey is the one that its parts are written as: no
/// two texts stand for the same version and payload.
#[verifier::spinoff_prover]
#[verifier::rlimit(50)]
pub proof fn strkey_text_is_unique(text: Seq<u8>, version: u8, payload: Seq<u8>)
    requires
        strkey_parts(text) == Ok::<(u8, Seq<u8>), XdrError>((version, payload)),
    ensures
        payload.len() == 32,
        encode_utf8(strkey_text(version, payload)) == text,
{
    let data = base32_bytes(text);
    let values = text.map_values(|c: u8| base32_value(c)->0);
    let crc = crc16_of(data.take(33));
    assert(data.take(33) =~= seq![version] + payload);
    assert((crc % 256) as u8 == data[33] && (crc / 256) as u8 == data[34]);
    assert(strkey_data(version, payload) =~= data);
    lemma_strkey_bytes(version, payload);
    let written = encode_utf8(strkey_text(version, payload));
    assert forall|i: int| 0 <= i < 56 implies #[trigger] written[i] == text[i] by {
        let q = i / 8;
        assert forall|k: int| 0 <= k < 56 implies #[trigger] values[k] < 32 && base32_char(
            values[k],
        ) as u8 == text[k] by {
            lemma_all_in_alphabet(text, k);
        }
        lemma_bytes_hold_quintets(
            values[8 * q],
            values[8 * q + 1],
            values[8 * q + 2],
            values[8 * q + 3],
            values[8 * q + 4],
            values[8 * q + 5],
            values[8 * q + 6],
            values[8 * q + 7],
        );
        assert((5 * q) / 5 == q && (5 * q + 1) / 5 == q && (5 * q + 2) / 5 == q && (5 * q + 3) / 5
            == q && (5 * q + 4) / 5 == q);
        assert(data[5 * q] == byte_of_quintets(values, 5 * q));
        assert(data[5 * q + 1] == byte_of_quintets(values, 5 * q + 1));
        assert(data[5 * q + 2] == byte_of_quintets(values, 5 * q + 2));
        assert(data[5 * q + 3] == byte_of_quintets(values, 5 * q + 3));
        assert(data[5 * q + 4] == byte_of_quintets(values, 5 * q + 4));
        assert(8 * (i / 8) + i % 8 == i);
        assert(quintet(data, i) == values[i]);
    }
    assert(written =~= text);
}

/// Decoding a contract strkey gives back the hash that it was written from, and
/// an account strkey is refused.
pub proof fn contract_ids_are_contract_strkeys(key: Seq<u8>)
    requires
        key.len() == 32,
    ensures
        contract_hash(encode_utf8(strkey_text(VERSION_CONTRACT, key))) == Ok::<Seq<u8>, XdrError>(
            key,
        ),
        contract_hash(encode_utf8(strkey_text(VERSION_ACCOUNT, key))) == Err::<Seq<u8>, XdrError>(
            XdrError::StrkeyVersion { version: VERSION_ACCOUNT },
        ),
{
    strkey_round_trip(VERSION_CONTRACT, key);
    strkey_round_trip(VERSION_ACCOUNT, key);
}

} // verus!
