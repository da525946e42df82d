//! What numbers, hexadecimal texts, parts of texts and error messages are.

use vstd::prelude::*;
use vstd::utf8::*;

use crate::error::XdrError;
use crate::rpc::RpcError;
use crate::text::{
    decimal_text, digit_char, digits_value, hex_char, hex_text, is_digits, is_part_of,
    signed_value, texts, unsigned_value, valid_up_to,
};

verus! {

/// The digits are the ten of the decimal, and the sixteen of the hexadecimal
/// system, the latter in lower case.
pub proof fn digits_are_these(d: nat)
    ensures
        d < 10 ==> digit_char(d) == "0123456789"@[d as int],
        d < 16 ==> hex_char(d as int) == "0123456789abcdef"@[d as int],
{
    reveal_strlit("0123456789");
    reveal_strlit("0123456789abcdef");
}

/// A written number is read back, is made of digits only, and has no zero in
/// front unless it is zero.
pub proof fn written_numbers_are_read_back(n: nat, max: nat)
    ensures
        is_digits(decimal_text(n)),
        digits_value(decimal_text(n)) == n,
        decimal_text(n)[0] == '0' ==> n == 0 && decimal_text(n).len() == 1,
        n <= max ==> unsigned_value(decimal_text(n), max) == Some(n),
        n > max ==> unsigned_value(decimal_text(n), max) is None,
        n <= max ==> unsigned_value(seq!['+'] + decimal_text(n), max) == Some(n),
        n <= i64::MAX ==> signed_value(decimal_text(n)) == Some(n as int),
        n <= i64::MAX ==> signed_value(seq!['+'] + decimal_text(n)) == Some(n as int),
        n <= i64::MAX + 1 ==> signed_value(seq!['-'] + decimal_text(n)) == Some(-(n as int)),
        n > i64::MAX ==> signed_value(decimal_text(n)) is None,
        n > i64::MAX + 1 ==> signed_value(seq!['-'] + decimal_text(n)) is None,
{
    lemma_decimal(n);
    let text = decimal_text(n);
    assert((seq!['+'] + text).drop_first() =~= text);
    assert((seq!['-'] + text).drop_first() =~= text);
    assert('0' <= text[0] <= '9');
}

proof fn lemma_decimal(n: nat)
    ensures
        is_digits(decimal_text(n)),
        digits_value(decimal_text(n)) == n,
        decimal_text(n)[0] == '0' ==> n == 0 && decimal_text(n).len() == 1,
    decreases n,
{
    let text = decimal_text(n);
    if n < 10 {
        assert(text.drop_last() =~= Seq::<char>::empty());
        assert(digits_value(Seq::<char>::empty()) == 0);
        assert(text.last() as nat - 48 == n);
    } else {
        let front = decimal_text(n / 10);
        lemma_decimal(n / 10);
        assert(text.drop_last() =~= front);
        assert(text.last() as nat - 48 == n % 10);
        assert forall|i: int| 0 <= i < text.len() implies '0' <= #[trigger] text[i] <= '9' by {
            if i < front.len() {
                assert(text[i] == front[i]);
            }
        }
        assert(text[0] == front[0]);
    }
}

/// The value of digits: nothing for none, and ten times as much and the digit for
/// one more.
pub proof fn digits_count_in_tens(s: Seq<char>, c: char)
    requires
        '0' <= c <= '9',
    ensures
        digits_value(Seq::empty()) == 0,
        digits_value(s.push(c)) == 10 * digits_value(s) + (c as int - '0' as int),
{
    assert(s.push(c).drop_last() =~= s);
}

/// Only digits behind at most one sign are a number: a text with anything else
/// in it, and one without digits, are none.
pub proof fn other_texts_are_no_numbers(s: Seq<char>, i: int, max: nat)
    requires
        s.len() == 0 || (0 <= i < s.len() && !('0' <= s[i] <= '9') && (i > 0 || s.len() == 1 || (s[0]
            != '+' && s[0] != '-'))),
    ensures
        unsigned_value(s, max) is None,
        signed_value(s) is None,
{
    if s.len() > 0 {
        let rest = s.drop_first();
        if i > 0 {
            assert(rest[i - 1] == s[i]);
        }
        assert(!is_digits(s)) by {
            assert(!('0' <= s[i] <= '9'));
        }
        if s[0] == '+' || s[0] == '-' {
            assert(!is_digits(rest)) by {
                if i > 0 {
                    assert(!('0' <= rest[i - 1] <= '9'));
                }
            }
        }
    }
}

/// An unsigned number has no minus sign.
pub proof fn unsigned_numbers_have_no_minus(s: Seq<char>, max: nat)
    requires
        s.len() > 0,
        s[0] == '-',
    ensures
        unsigned_value(s, max) is None,
{
    assert(!('0' <= s[0] <= '9'));
}

/// What is a number is digits behind an optional sign, and no larger than it may
/// be; and all such are numbers.
pub proof fn numbers_are_digits(s: Seq<char>, max: nat)
    ensures
        is_digits(s) && digits_value(s) <= max ==> unsigned_value(s, max) == Some(digits_value(s)),
        is_digits(s) && digits_value(s) > max ==> unsigned_value(s, max) is None,
        is_digits(s) && digits_value(s) <= i64::MAX ==> signed_value(s) == Some(
            digits_value(s) as int,
        ),
        unsigned_value(s, max) matches Some(n) ==> n <= max,
        signed_value(s) matches Some(n) ==> i64::MIN <= n <= i64::MAX,
{
    if is_digits(s) {
        assert('0' <= s[0] <= '9');
    }
}

/// Each byte is two hexadecimal digits, the upper half first.
pub proof fn bytes_are_two_digits(bytes: Seq<u8>, i: int)
    requires
        0 <= i < bytes.len(),
    ensures
        hex_text(bytes).len() == 2 * bytes.len(),
        hex_text(bytes)[2 * i] == "0123456789abcdef"@[bytes[i] as int / 16],
        hex_text(bytes)[2 * i + 1] == "0123456789abcdef"@[bytes[i] as int % 16],
{
    digits_are_these((bytes[i] / 16) as nat);
    digits_are_these((bytes[i] % 16) as nat);
    assert((2 * i) / 2 == i && (2 * i) % 2 == 0);
    assert((2 * i + 1) / 2 == i && (2 * i + 1) % 2 == 1);
}

/// A text is part of another exactly where it stands there between two texts.
pub proof fn parts_stand_in_the_text(before: Seq<char>, part: Seq<char>, after: Seq<char>)
    ensures
        is_part_of(part, before + part + after),
{
    let s = before + part + after;
    let n = before.len() as int;
    assert(s.subrange(n, n + part.len()) =~= part);
}

/// What is part of a text has something, or nothing, before and behind it there.
pub proof fn parts_have_a_place(part: Seq<char>, s: Seq<char>) -> (around: (Seq<char>, Seq<char>))
    requires
        is_part_of(part, s),
    ensures
        s == around.0 + part + around.1,
{
    let i = choose|i: int|
        0 <= i && i + part.len() <= s.len() && #[trigger] s.subrange(i, i + part.len()) == part;
    let before = s.take(i);
    let after = s.skip(i + part.len());
    assert(s =~= before + s.subrange(i, i + part.len()) + after);
    (before, after)
}

/// The texts of strings are those of each, in their order.
pub proof fn texts_are_in_order(list: Seq<String>, i: int)
    requires
        0 <= i < list.len(),
    ensures
        texts(list).len() == list.len(),
        texts(list)[i] == list[i]@,
{
}

/// How far bytes are valid: up to there they are, and to nowhere further.
pub proof fn valid_up_to_is_the_furthest(bytes: Seq<u8>, n: nat)
    requires
        n <= bytes.len(),
    ensures
        valid_up_to(bytes, n) <= n,
        valid_utf8(bytes.take(valid_up_to(bytes, n) as int)),
        forall|k: int|
            valid_up_to(bytes, n) < k <= n ==> !valid_utf8(#[trigger] bytes.take(k)),
    decreases n,
{
    if n == 0 {
        assert(bytes.take(0) =~= Seq::<u8>::empty());
        assert(valid_utf8(Seq::<u8>::empty()));
    } else if !valid_utf8(bytes.take(n as int)) {
        valid_up_to_is_the_furthest(bytes, (n - 1) as nat);
    }
}

/// What errors of the codecs say.
#[verifier::spinoff_prover]
#[verifier::rlimit(50)]
pub proof fn what_codec_errors_say(a: usize, b: usize, c: usize, k: u32)
    ensures
        (XdrError::StrkeyLength { len: a }).words() == "strkey must be 56 chars, got "@
            + decimal_text(a as nat),
        XdrError::StrkeyChecksum.words() == "strkey checksum mismatch"@,
        XdrError::Base64Character.words() == "invalid base64 input"@,
        XdrError::Base64Length.words() == "invalid base64 length"@,
        (XdrError::Underflow { pos: a, need: b, have: c }).words() == "XDR underflow at pos "@
            + decimal_text(a as nat) + (" (need "@ + decimal_text(b as nat)) + (" bytes, have "@
            + decimal_text(c as nat)) + ")"@,
        (XdrError::StringEncoding { valid_up_to: a, error_len: Some(b) }).words()
            == "XDR string UTF-8: invalid utf-8 sequence of "@ + decimal_text(b as nat)
            + " bytes from index "@ + decimal_text(a as nat),
        (XdrError::StringEncoding { valid_up_to: a, error_len: None }).words()
            == "XDR string UTF-8: incomplete utf-8 byte sequence from index "@ + decimal_text(
            a as nat,
        ),
        (XdrError::NotAVec { found: k }).words() == "expected SCV_VEC(16) or SCV_VOID(1), got "@
            + decimal_text(k as nat),
        (XdrError::NotAString { index: a, found: k }).words() == "vec element "@ + decimal_text(
            a as nat,
        ) + (" has type "@ + decimal_text(k as nat)) + " (expected SCV_STRING=14)"@,
        (XdrError::NotAMap { found: k }).words() == "expected SCV_MAP(17) or SCV_VOID(1), got "@
            + decimal_text(k as nat),
        (XdrError::UnknownAddress { found: k }).words() == "unknown SCAddress type "@ + decimal_text(
            k as nat,
        ),
        (XdrError::UnknownSkippedAddress { found: k }).words() == "unknown address type "@
            + decimal_text(k as nat) + " in skip"@,
        (XdrError::UnknownSkippedValue { found: k }).words() == "unknown ScVal type "@ + decimal_text(
            k as nat,
        ) + " in skip"@,
{
    reveal_strlit("");
    assert(""@ =~= Seq::<char>::empty());
    let (x, y, z, w) = (
        decimal_text(a as nat),
        decimal_text(b as nat),
        decimal_text(c as nat),
        decimal_text(k as nat),
    );
    lemma_nothing_behind("strkey must be 56 chars, got "@ + x);
    lemma_nothing_behind("XDR string UTF-8: incomplete utf-8 byte sequence from index "@ + x);
    lemma_nothing_behind("expected SCV_VEC(16) or SCV_VOID(1), got "@ + w);
    lemma_nothing_behind("expected SCV_MAP(17) or SCV_VOID(1), got "@ + w);
    lemma_nothing_behind("unknown SCAddress type "@ + w);
    lemma_pieces("XDR underflow at pos "@ + x, " (need "@, y, " bytes, have "@, z, ")"@);
    lemma_two_pieces("vec element "@ + x, " has type "@, w, " (expected SCV_STRING=14)"@);
}

proof fn lemma_nothing_behind(s: Seq<char>)
    ensures
        s + ""@ == s,
{
    reveal_strlit("");
    assert(s + ""@ =~= s);
}

proof fn lemma_pieces(
    a: Seq<char>,
    b: Seq<char>,
    c: Seq<char>,
    d: Seq<char>,
    e: Seq<char>,
    f: Seq<char>,
)
    ensures
        a + b + (""@ + c + d) + (""@ + e + f) == a + (b + c) + (d + e) + f,
{
    reveal_strlit("");
    assert(a + b + (""@ + c + d) + (""@ + e + f) =~= a + (b + c) + (d + e) + f);
}

proof fn lemma_two_pieces(a: Seq<char>, b: Seq<char>, c: Seq<char>, d: Seq<char>)
    ensures
        a + b + (""@ + c + d) == a + (b + c) + d,
{
    reveal_strlit("");
    assert(a + b + (""@ + c + d) =~= a + (b + c) + d);
}

/// What the other errors of the codecs say: the byte that is outside the
/// alphabet, and the version in two hexadecimal digits.
pub proof fn what_strkey_errors_say(byte: u8)
    ensures
        (XdrError::Base32Character { byte }).words() == "invalid base32 character '"@ + seq![
            byte as char,
        ] + "'"@,
        (XdrError::StrkeyVersion { version: byte }).words()
            == "expected contract strkey (C\u{2026}), got version 0x"@ + seq![
            "0123456789abcdef"@[byte as int / 16],
            "0123456789abcdef"@[byte as int % 16],
        ],
{
    bytes_are_two_digits(seq![byte], 0);
    assert(hex_text(seq![byte]) =~= seq![
        "0123456789abcdef"@[byte as int / 16],
        "0123456789abcdef"@[byte as int % 16],
    ]);
}

/// What errors of calls say.
pub proof fn what_call_errors_say(words: String, e: XdrError)
    ensures
        RpcError::NotConfigured.words() == "ROUTER_CORE_CONTRACT_ID not configured"@,
        RpcError::InvalidContract(e).words() == "invalid ROUTER_CORE_CONTRACT_ID: "@ + e.words(),
        RpcError::RequestFailed(words).words() == "RPC request failed: "@ + words@,
        RpcError::ResponseUnreadable(words).words() == "Failed to parse RPC response: "@ + words@,
        RpcError::Server(words).words() == "RPC error: "@ + words@,
        RpcError::Contract(words).words() == "contract error: "@ + words@,
        RpcError::Undecodable(e).words() == e.words(),
{
}

} // verus!
