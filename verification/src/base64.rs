//! Base64 with the standard alphabet.

use vstd::prelude::*;
use vstd::string::*;
use vstd::utf8::*;

use crate::error::XdrError;

verus! {

/// The character of the base64 alphabet that stands for the six bits `v`.
pub open spec fn base64_char(v: u8) -> char {
    if v < 26 {
        (65 + v) as char
    } else if v < 52 {
        (71 + v) as char
    } else if v < 62 {
        (v - 4) as char
    } else if v == 62 {
        '+'
    } else {
        '/'
    }
}

/// The six bits that the byte `c` of a base64 text stands for.
pub open spec fn base64_value(c: u8) -> Option<u8> {
    if 65 <= c <= 90 {
        Some((c - 65) as u8)
    } else if 97 <= c <= 122 {
        Some((c - 71) as u8)
    } else if 48 <= c <= 57 {
        Some((c + 4) as u8)
    } else if c == 43 {
        Some(62)
    } else if c == 47 {
        Some(63)
    } else {
        None
    }
}

/// Byte `k` of `data`, or zero past its end.
pub open spec fn byte_or_zero(data: Seq<u8>, k: int) -> u8 {
    if 0 <= k < data.len() {
        data[k]
    } else {
        0
    }
}

/// The `i`-th group of six bits of `data`, three bytes making four groups.
pub open spec fn sextet(data: Seq<u8>, i: int) -> u8 {
    let b0 = byte_or_zero(data, 3 * (i / 4));
    let b1 = byte_or_zero(data, 3 * (i / 4) + 1);
    let b2 = byte_or_zero(data, 3 * (i / 4) + 2);
    if i % 4 == 0 {
        b0 >> 2
    } else if i % 4 == 1 {
        ((b0 & 3) << 4) | (b1 >> 4)
    } else if i % 4 == 2 {
        ((b1 & 15) << 2) | (b2 >> 6)
    } else {
        b2 & 63
    }
}

/// The base64 text of `data`: one character per group of six bits, and `=` for
/// each group that holds no bit of `data`.
pub open spec fn base64_text(data: Seq<u8>) -> Seq<char> {
    Seq::new(
        (4 * ((data.len() + 2) / 3)) as nat,
        |i: int| if 3 * (i / 4) + i % 4 > data.len() { '=' } else { base64_char(sextet(data, i)) },
    )
}

/// `s` without the `=` signs at its end.
pub open spec fn without_padding(s: Seq<u8>) -> Seq<u8>
    decreases s.len(),
{
    if s.len() > 0 && s.last() == 61 {
        without_padding(s.drop_last())
    } else {
        s
    }
}

/// Whether the bytes of `s` from `from` up to `to` are in the alphabet.
pub open spec fn in_alphabet(s: Seq<u8>, from: int, to: int) -> bool {
    forall|i: int| from <= i < to ==> base64_value(#[trigger] s[i]) is Some
}

/// The `j`-th byte that the base64 bytes `s` stand for.
pub open spec fn decoded_byte(s: Seq<u8>, j: int) -> u8 {
    let q = 4 * (j / 3);
    if j % 3 == 0 {
        (base64_value(s[q])->0 << 2) | (base64_value(s[q + 1])->0 >> 4)
    } else if j % 3 == 1 {
        (base64_value(s[q + 1])->0 << 4) | (base64_value(s[q + 2])->0 >> 2)
    } else {
        (base64_value(s[q + 2])->0 << 6) | base64_value(s[q + 3])->0
    }
}

/// What the base64 bytes `text` decode to. Padding at the end is optional, and
/// bits that fill up the last byte are ignored. Whole groups of four are looked
/// at before the length, and the rest after it.
pub open spec fn base64_bytes(text: Seq<u8>) -> Result<Seq<u8>, XdrError> {
    let s = without_padding(text);
    let whole = s.len() - s.len() % 4;
    if !in_alphabet(s, 0, whole) {
        Err(XdrError::Base64Character)
    } else if s.len() % 4 == 1 {
        Err(XdrError::Base64Length)
    } else if !in_alphabet(s, whole, s.len() as int) {
        Err(XdrError::Base64Character)
    } else {
        Ok(Seq::new((s.len() * 3 / 4) as nat, |j: int| decoded_byte(s, j)))
    }
}

fn encode_sextet(v: u8) -> (c: char)
    requires
        v < 64,
    ensures
        c == base64_char(v),
{
    if v < 26 {
        (65 + v) as char
    } else if v < 52 {
        (71 + v) as char
    } else if v < 62 {
        (v - 4) as char
    } else if v == 62 {
        '+'
    } else {
        '/'
    }
}

fn decode_sextet(c: u8) -> (v: Option<u8>)
    ensures
        v == base64_value(c),
{
    if 65 <= c && c <= 90 {
        Some(c - 65)
    } else if 97 <= c && c <= 122 {
        Some(c - 71)
    } else if 48 <= c && c <= 57 {
        Some(c + 4)
    } else if c == 43 {
        Some(62)
    } else if c == 47 {
        Some(63)
    } else {
        None
    }
}

/// The groups of three bytes are six bits wide.
proof fn lemma_sextet_range(b0: u8, b1: u8, b2: u8)
    ensures
        b0 >> 2 < 64,
        ((b0 & 3) << 4) | (b1 >> 4) < 64,
        ((b1 & 15) << 2) | (b2 >> 6) < 64,
        b2 & 63 < 64,
{
    assert(b0 >> 2 < 64) by (bit_vector);
    assert(((b0 & 3) << 4) | (b1 >> 4) < 64) by (bit_vector);
    assert(((b1 & 15) << 2) | (b2 >> 6) < 64) by (bit_vector);
    assert(b2 & 63 < 64) by (bit_vector);
}

/// Three bytes are found again in their four groups.
proof fn lemma_sextets_hold_bytes(b0: u8, b1: u8, b2: u8)
    ensures
        ((b0 >> 2) << 2) | ((((b0 & 3) << 4) | (b1 >> 4)) >> 4) == b0,
        ((((b0 & 3) << 4) | (b1 >> 4)) << 4) | ((((b1 & 15) << 2) | (b2 >> 6)) >> 2) == b1,
        ((((b1 & 15) << 2) | (b2 >> 6)) << 6) | (b2 & 63) == b2,
{
    assert(((b0 >> 2) << 2) | ((((b0 & 3) << 4) | (b1 >> 4)) >> 4) == b0) by (bit_vector);
    assert(((((b0 & 3) << 4) | (b1 >> 4)) << 4) | ((((b1 & 15) << 2) | (b2 >> 6)) >> 2) == b1)
        by (bit_vector);
    assert(((((b1 & 15) << 2) | (b2 >> 6)) << 6) | (b2 & 63) == b2) by (bit_vector);
}

/// Encodes bytes as base64, padded to a multiple of four characters.
pub fn base64_encode(input: &[u8]) -> (text: String)
    ensures
        text@ == base64_text(input@),
{
    let mut out = String::new();
    let mut at: usize = 0;
    while at < input.len()
        invariant
            at <= input@.len(),
            at % 3 == 0 || at == input@.len(),
            out@.len() == 4 * ((at + 2) / 3),
            forall|i: int| 0 <= i < out@.len() ==> #[trigger] out@[i] == base64_text(input@)[i],
        decreases input@.len() - at,
    {
        let have: usize = input.len() - at;
        let b0: u8 = input[at];
        let b1: u8 = if have > 1 { input[at + 1] } else { 0 };
        let b2: u8 = if have > 2 { input[at + 2] } else { 0 };
        proof {
            lemma_sextet_range(b0, b1, b2);
        }
        let ghost before = out@;
        out.push(encode_sextet(b0 >> 2));
        out.push(encode_sextet(((b0 & 3) << 4) | (b1 >> 4)));
        out.push(if have > 1 { encode_sextet(((b1 & 15) << 2) | (b2 >> 6)) } else { '=' });
        out.push(if have > 2 { encode_sextet(b2 & 63) } else { '=' });
        proof {
            let n = before.len() as int;
            assert(n == 4 * (at / 3));
            assert forall|i: int| 0 <= i < out@.len() implies #[trigger] out@[i] == base64_text(
                input@,
            )[i] by {
                if i < n {
                    assert(out@[i] == before[i]);
                } else {
                    assert(3 * (i / 4) == at && i % 4 == i - n);
                }
            }
        }
        at = if have > 3 { at + 3 } else { input.len() };
    }
    assert(out@ =~= base64_text(input@));
    out
}

/// The length of `input` without the `=` signs at its end.
fn unpadded_len(input: &[u8]) -> (len: usize)
    ensures
        len <= input@.len(),
        without_padding(input@) == input@.take(len as int),
{
    let mut len: usize = input.len();
    assert(input@.take(len as int) =~= input@);
    while len > 0 && input[len - 1] == 61
        invariant
            len <= input@.len(),
            without_padding(input@) == without_padding(input@.take(len as int)),
        ensures
            len <= input@.len(),
            without_padding(input@) == without_padding(input@.take(len as int)),
            len == 0 || input@[len - 1] != 61,
        decreases len,
    {
        assert(input@.take(len as int).drop_last() =~= input@.take(len - 1));
        len = len - 1;
    }
    len
}

/// Decodes base64. Padding is optional.
pub fn base64_decode(input: &str) -> (bytes: Result<Vec<u8>, XdrError>)
    ensures
        match bytes {
            Ok(b) => base64_bytes(input.spec_bytes()) == Ok::<Seq<u8>, XdrError>(b@),
            Err(e) => base64_bytes(input.spec_bytes()) == Err::<Seq<u8>, XdrError>(e),
        },
{
    let text = input.as_bytes();
    let len = unpadded_len(text);
    let ghost s = without_padding(text@);
    let whole: usize = len - len % 4;
    let mut out: Vec<u8> = Vec::new();
    let mut i: usize = 0;
    while i < whole
        invariant
            s == text@.take(len as int),
            len <= text@.len(),
            s == without_padding(text@),
            text@ == input.spec_bytes(),
            whole == len - len % 4,
            i <= whole,
            i % 4 == 0,
            in_alphabet(s, 0, i as int),
            out@.len() == i / 4 * 3,
            forall|j: int| 0 <= j < out@.len() ==> #[trigger] out@[j] == decoded_byte(s, j),
        decreases whole - i,
    {
        assert(s[i as int] == text@[i as int] && s[i + 1] == text@[i + 1] && s[i + 2] == text@[i + 2]
            && s[i + 3] == text@[i + 3]);
        match (
            decode_sextet(text[i]),
            decode_sextet(text[i + 1]),
            decode_sextet(text[i + 2]),
            decode_sextet(text[i + 3]),
        ) {
            (Some(c0), Some(c1), Some(c2), Some(c3)) => {
                let ghost before = out@;
                out.push((c0 << 2) | (c1 >> 4));
                out.push((c1 << 4) | (c2 >> 2));
                out.push((c2 << 6) | c3);
                proof {
                    let n = before.len() as int;
                    assert forall|j: int| 0 <= j < out@.len() implies #[trigger] out@[j]
                        == decoded_byte(s, j) by {
                        if j < n {
                            assert(out@[j] == before[j]);
                        } else {
                            assert(4 * (j / 3) == i && j % 3 == j - n);
                        }
                    }
                }
            },
            _ => {
                return Err(XdrError::Base64Character);
            },
        }
        i = i + 4;
    }
    let rest: usize = len - whole;
    if rest == 1 {
        return Err(XdrError::Base64Length);
    }
    if rest >= 2 {
        assert(s[i as int] == text@[i as int] && s[i + 1] == text@[i + 1]);
        match (decode_sextet(text[i]), decode_sextet(text[i + 1])) {
            (Some(c0), Some(c1)) => {
                out.push((c0 << 2) | (c1 >> 4));
                if rest == 3 {
                    assert(s[i + 2] == text@[i + 2]);
                    match decode_sextet(text[i + 2]) {
                        Some(c2) => {
                            out.push((c1 << 4) | (c2 >> 2));
                        },
                        None => {
                            return Err(XdrError::Base64Character);
                        },
                    }
                }
            },
            _ => {
                return Err(XdrError::Base64Character);
            },
        }
    }
    assert(out@ =~= Seq::new((s.len() * 3 / 4) as nat, |j: int| decoded_byte(s, j)));
    Ok(out)
}

/// The characters of the alphabet are ASCII, and each stands for its own bits.
proof fn lemma_alphabet(v: u8)
    requires
        v < 64,
    ensures
        base64_char(v) <= '\u{7f}',
        base64_char(v) as u8 != 61,
        base64_value(base64_char(v) as u8) == Some(v),
{
}

/// Where a text ends after `keep` bytes in a run of `=` signs, the run is its
/// padding.
proof fn lemma_without_padding(s: Seq<u8>, keep: int)
    requires
        0 <= keep <= s.len(),
        keep > 0 ==> s[keep - 1] != 61,
        forall|i: int| keep <= i < s.len() ==> s[i] == 61,
    ensures
        without_padding(s) == s.take(keep),
    decreases s.len(),
{
    if keep < s.len() {
        lemma_without_padding(s.drop_last(), keep);
        assert(s.drop_last().take(keep) =~= s.take(keep));
    } else {
        assert(s.take(keep) =~= s);
    }
}

/// Decoding gives back what was encoded, whatever the bytes are.
pub proof fn base64_round_trip(data: Seq<u8>)
    ensures
        base64_bytes(encode_utf8(base64_text(data))) == Ok::<Seq<u8>, XdrError>(data),
{
    let text = base64_text(data);
    let n = data.len() as int;
    assert forall|i: int| 0 <= i < text.len() && 3 * (i / 4) + i % 4 <= n implies sextet(data, i)
        < 64 by {
        lemma_sextet_range(
            byte_or_zero(data, 3 * (i / 4)),
            byte_or_zero(data, 3 * (i / 4) + 1),
            byte_or_zero(data, 3 * (i / 4) + 2),
        );
    }
    assert forall|i: int| 0 <= i < text.len() implies '\0' <= #[trigger] text[i] <= '\u{7f}' by {
        if 3 * (i / 4) + i % 4 <= n {
            lemma_alphabet(sextet(data, i));
        }
    }
    is_ascii_chars_encode_utf8(text);
    let bytes = encode_utf8(text);
    let keep = (n * 4 + 2) / 3;
    assert forall|i: int| 0 <= i < keep implies base64_value(#[trigger] bytes[i]) == Some(
        sextet(data, i),
    ) && bytes[i] != 61 by {
        assert(3 * (i / 4) + i % 4 <= n);
        lemma_alphabet(sextet(data, i));
        assert(text[i] as u8 == bytes[i]);
    }
    assert forall|i: int| keep <= i < bytes.len() implies bytes[i] == 61 by {
        assert(3 * (i / 4) + i % 4 > n);
        assert(text[i] as u8 == bytes[i]);
    }
    lemma_without_padding(bytes, keep);
    let s = without_padding(bytes);
    assert(s == bytes.take(keep));
    assert(forall|i: int| 0 <= i < keep ==> #[trigger] s[i] == bytes[i]);
    assert(keep % 4 != 1);
    assert(keep * 3 / 4 == n);
    let out = Seq::new((s.len() * 3 / 4) as nat, |j: int| decoded_byte(s, j));
    assert forall|j: int| 0 <= j < n implies #[trigger] out[j] == data[j] by {
        let q = 4 * (j / 3);
        assert(q / 4 == j / 3);
        assert((q + 1) / 4 == j / 3 && (q + 2) / 4 == j / 3 && (q + 3) / 4 == j / 3);
        lemma_sextets_hold_bytes(
            byte_or_zero(data, 3 * (j / 3)),
            byte_or_zero(data, 3 * (j / 3) + 1),
            byte_or_zero(data, 3 * (j / 3) + 2),
        );
        if j % 3 == 0 {
            assert(base64_value(s[q]) == Some(sextet(data, q)));
            assert(base64_value(s[q + 1]) == Some(sextet(data, q + 1)));
        } else if j % 3 == 1 {
            assert(base64_value(s[q + 1]) == Some(sextet(data, q + 1)));
            assert(base64_value(s[q + 2]) == Some(sextet(data, q + 2)));
        } else {
            assert(base64_value(s[q + 2]) == Some(sextet(data, q + 2)));
            assert(base64_value(s[q + 3]) == Some(sextet(data, q + 3)));
        }
    }
    assert(out =~= data);
}

/// Padding is optional: one `=` more at the end changes nothing.
pub proof fn padding_is_optional(text: Seq<u8>)
    ensures
        base64_bytes(text.push(61)) == base64_bytes(text),
{
    assert(text.push(61).drop_last() =~= text);
}

} // verus!
