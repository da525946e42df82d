//! Errors of the strkey, base64 and XDR codecs.

use vstd::prelude::*;
use vstd::string::*;

use crate::text::{decimal, decimal_text, hex, hex_text, join};

verus! {

/// Why a strkey, a base64 text or an XDR value was refused.
#[derive(Clone, Copy, Debug, PartialEq, Eq, Structural)]
pub enum XdrError {
    /// A strkey must be 56 characters long.
    StrkeyLength { len: usize },
    /// A strkey holds a byte outside the base32 alphabet.
    Base32Character { byte: u8 },
    /// The checksum inside a strkey does not match its contents.
    StrkeyChecksum,
    /// A contract strkey was expected, and another kind was found.
    StrkeyVersion { version: u8 },
    /// A base64 text holds a byte outside the alphabet.
    Base64Character,
    /// A base64 text has a length that no byte sequence encodes to.
    Base64Length,
    /// The value ends before the bytes that are needed.
    Underflow { pos: usize, need: usize, have: usize },
    /// A string is not valid UTF-8: how far it is, and how many bytes the invalid
    /// sequence takes that follows; `None` where the string ends too early.
    StringEncoding { valid_up_to: usize, error_len: Option<usize> },
    /// A vector or void was expected.
    NotAVec { found: u32 },
    /// A vector element is not a string.
    NotAString { index: usize, found: u32 },
    /// A map or void was expected.
    NotAMap { found: u32 },
    /// An address that has to be read is of an unknown kind.
    UnknownAddress { found: u32 },
    /// An address that has to be skipped is of an unknown kind.
    UnknownSkippedAddress { found: u32 },
    /// A value that has to be skipped is of an unknown kind.
    UnknownSkippedValue { found: u32 },
}

/// `prefix`, the number `n`, and `suffix`.
pub open spec fn numbered(prefix: Seq<char>, n: nat, suffix: Seq<char>) -> Seq<char> {
    prefix + decimal_text(n) + suffix
}

fn with_number(prefix: &str, n: u64, suffix: &str) -> (text: String)
    ensures
        text@ == numbered(prefix@, n as nat, suffix@),
{
    let number = decimal(n);
    let start = join(prefix, number.as_str());
    join(start.as_str(), suffix)
}

impl XdrError {
    /// The error in words.
    pub open spec fn words(self) -> Seq<char> {
        match self {
            XdrError::StrkeyLength { len } => numbered(
                "strkey must be 56 chars, got "@,
                len as nat,
                ""@,
            ),
            XdrError::Base32Character { byte } => "invalid base32 character '"@ + seq![
                byte as char,
            ] + "'"@,
            XdrError::StrkeyChecksum => "strkey checksum mismatch"@,
            XdrError::StrkeyVersion { version } => "expected contract strkey (C\u{2026}), got version 0x"@
                + hex_text(seq![version]),
            XdrError::Base64Character => "invalid base64 input"@,
            XdrError::Base64Length => "invalid base64 length"@,
            XdrError::Underflow { pos, need, have } => numbered(
                "XDR underflow at pos "@,
                pos as nat,
                " (need "@,
            ) + numbered(""@, need as nat, " bytes, have "@) + numbered(""@, have as nat, ")"@),
            XdrError::StringEncoding { valid_up_to, error_len } => match error_len {
                Some(len) => numbered(
                    "XDR string UTF-8: invalid utf-8 sequence of "@,
                    len as nat,
                    " bytes from index "@,
                ) + decimal_text(valid_up_to as nat),
                None => numbered(
                    "XDR string UTF-8: incomplete utf-8 byte sequence from index "@,
                    valid_up_to as nat,
                    ""@,
                ),
            },
            XdrError::NotAVec { found } => numbered(
                "expected SCV_VEC(16) or SCV_VOID(1), got "@,
                found as nat,
                ""@,
            ),
            XdrError::NotAString { index, found } => numbered(
                "vec element "@,
                index as nat,
                " has type "@,
            ) + numbered(""@, found as nat, " (expected SCV_STRING=14)"@),
            XdrError::NotAMap { found } => numbered(
                "expected SCV_MAP(17) or SCV_VOID(1), got "@,
                found as nat,
                ""@,
            ),
            XdrError::UnknownAddress { found } => numbered(
                "unknown SCAddress type "@,
                found as nat,
                ""@,
            ),
            XdrError::UnknownSkippedAddress { found } => numbered(
                "unknown address type "@,
                found as nat,
                " in skip"@,
            ),
            XdrError::UnknownSkippedValue { found } => numbered(
                "unknown ScVal type "@,
                found as nat,
                " in skip"@,
            ),
        }
    }

    /// The error in words.
    pub fn message(&self) -> (message: String)
        ensures
            message@ == self.words(),
    {
        match self {
            XdrError::StrkeyLength { len } => {
                with_number("strkey must be 56 chars, got ", *len as u64, "")
            },
            XdrError::Base32Character { byte } => {
                let mut text = "invalid base32 character '".to_string();
                text.push(*byte as char);
                text.append("'");
                assert(text@ =~= self.words());
                text
            },
            XdrError::StrkeyChecksum => "strkey checksum mismatch".to_string(),
            XdrError::StrkeyVersion { version } => {
                let byte: [u8; 1] = [*version];
                let digits = hex(byte.as_slice());
                assert(byte@ =~= seq![*version]);
                join(
                    "expected contract strkey (C\u{2026}), got version 0x",
                    digits.as_str(),
                )
            },
            XdrError::Base64Character => "invalid base64 input".to_string(),
            XdrError::Base64Length => "invalid base64 length".to_string(),
            XdrError::Underflow { pos, need, have } => {
                let at = with_number("XDR underflow at pos ", *pos as u64, " (need ");
                let wanted = with_number("", *need as u64, " bytes, have ");
                let there = with_number("", *have as u64, ")");
                let start = join(at.as_str(), wanted.as_str());
                join(start.as_str(), there.as_str())
            },
            XdrError::StringEncoding { valid_up_to, error_len } => match error_len {
                Some(len) => {
                    let start = with_number(
                        "XDR string UTF-8: invalid utf-8 sequence of ",
                        *len as u64,
                        " bytes from index ",
                    );
                    let index = decimal(*valid_up_to as u64);
                    join(start.as_str(), index.as_str())
                },
                None => with_number(
                    "XDR string UTF-8: incomplete utf-8 byte sequence from index ",
                    *valid_up_to as u64,
                    "",
                ),
            },
            XdrError::NotAVec { found } => {
                with_number("expected SCV_VEC(16) or SCV_VOID(1), got ", *found as u64, "")
            },
            XdrError::NotAString { index, found } => {
                let at = with_number("vec element ", *index as u64, " has type ");
                let kind = with_number("", *found as u64, " (expected SCV_STRING=14)");
                join(at.as_str(), kind.as_str())
            },
            XdrError::NotAMap { found } => {
                with_number("expected SCV_MAP(17) or SCV_VOID(1), got ", *found as u64, "")
            },
            XdrError::UnknownAddress { found } => {
                with_number("unknown SCAddress type ", *found as u64, "")
            },
            XdrError::UnknownSkippedAddress { found } => {
                with_number("unknown address type ", *found as u64, " in skip")
            },
            XdrError::UnknownSkippedValue { found } => {
                with_number("unknown ScVal type ", *found as u64, " in skip")
            },
        }
    }
}

} // verus!
