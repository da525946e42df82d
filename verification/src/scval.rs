//! Reading `ScVal`s: the list of route names, and a route entry.

use vstd::prelude::*;
use vstd::string::*;
use vstd::utf8::*;

use crate::address::Address;
use crate::base64::{base64_bytes, base64_decode, base64_round_trip, base64_text};
use crate::error::XdrError;
use crate::strkey::{array32, encode_account_strkey, encode_contract_strkey, strkey_text};
use crate::strkey::{VERSION_ACCOUNT, VERSION_CONTRACT};
use crate::text::{same_text, texts, utf8_error_len, utf8_string, valid_up_to};
use crate::xdr::{be32, opaque_fixed_bytes, opaque_var_bytes, padding, zeros};
use crate::xdr::{
    SCV_ADDRESS, SCV_BOOL, SCV_MAP, SCV_STRING, SCV_SYMBOL, SCV_VEC, SCV_VOID, SC_ADDR_ACCOUNT,
    SC_ADDR_CONTRACT,
};

verus! {

/// The number that four bytes stand for, most significant first.
pub open spec fn be32_value(b: Seq<u8>) -> u32 {
    (0x100_0000 * b[0] + 0x1_0000 * b[1] + 0x100 * b[2] + b[3]) as u32
}

/// `n` bytes of `buf` from `pos` on, and the position behind them.
pub open spec fn take_at(buf: Seq<u8>, pos: nat, n: nat) -> Result<(Seq<u8>, nat), XdrError> {
    if pos + n > buf.len() {
        Err(
            XdrError::Underflow {
                pos: pos as usize,
                need: n as usize,
                have: (buf.len() - pos) as usize,
            },
        )
    } else {
        Ok((buf.subrange(pos as int, (pos + n) as int), pos + n))
    }
}

/// The 32-bit integer at `pos`.
pub open spec fn u32_at(buf: Seq<u8>, pos: nat) -> Result<(u32, nat), XdrError> {
    match take_at(buf, pos, 4) {
        Err(e) => Err(e),
        Ok((b, p)) => Ok((be32_value(b), p)),
    }
}

/// `n` bytes at `pos`; behind them, whatever fills them up to a multiple of four
/// is passed over.
pub open spec fn fixed_at(buf: Seq<u8>, pos: nat, n: nat) -> Result<(Seq<u8>, nat), XdrError> {
    match take_at(buf, pos, n) {
        Err(e) => Err(e),
        Ok((data, p)) => match take_at(buf, p, padding(n)) {
            Err(e) => Err(e),
            Ok((_, q)) => Ok((data, q)),
        },
    }
}

/// The bytes at `pos` behind their length.
pub open spec fn var_at(buf: Seq<u8>, pos: nat) -> Result<(Seq<u8>, nat), XdrError> {
    match u32_at(buf, pos) {
        Err(e) => Err(e),
        Ok((n, p)) => fixed_at(buf, p, n as nat),
    }
}

/// Why bytes that are not valid UTF-8 are no string.
pub open spec fn encoding_error(bytes: Seq<u8>) -> XdrError {
    XdrError::StringEncoding {
        valid_up_to: valid_up_to(bytes, bytes.len()) as usize,
        error_len: utf8_error_len(bytes),
    }
}

/// The string at `pos`.
pub open spec fn string_at(buf: Seq<u8>, pos: nat) -> Result<(Seq<char>, nat), XdrError> {
    match var_at(buf, pos) {
        Err(e) => Err(e),
        Ok((b, p)) => if valid_utf8(b) {
            Ok((decode_utf8(b), p))
        } else {
            Err(encoding_error(b))
        },
    }
}

/// The strkey of the address at `pos`.
pub open spec fn address_at(buf: Seq<u8>, pos: nat) -> Result<(Seq<char>, nat), XdrError> {
    match u32_at(buf, pos) {
        Err(e) => Err(e),
        Ok((kind, p)) => if kind == SC_ADDR_ACCOUNT {
            match u32_at(buf, p) {
                Err(e) => Err(e),
                Ok((_, q)) => match take_at(buf, q, 32) {
                    Err(e) => Err(e),
                    Ok((key, r)) => Ok((strkey_text(VERSION_ACCOUNT, key), r)),
                },
            }
        } else if kind == SC_ADDR_CONTRACT {
            match take_at(buf, p, 32) {
                Err(e) => Err(e),
                Ok((hash, r)) => Ok((strkey_text(VERSION_CONTRACT, hash), r)),
            }
        } else {
            Err(XdrError::UnknownAddress { found: kind })
        },
    }
}

/// The position behind what was read.
pub open spec fn behind<T>(read: Result<(T, nat), XdrError>) -> Result<nat, XdrError> {
    match read {
        Err(e) => Err(e),
        Ok((_, p)) => Ok(p),
    }
}

/// The position behind the address at `pos`.
pub open spec fn behind_address(buf: Seq<u8>, pos: nat) -> Result<nat, XdrError> {
    match u32_at(buf, pos) {
        Err(e) => Err(e),
        Ok((kind, p)) => if kind == SC_ADDR_ACCOUNT {
            match u32_at(buf, p) {
                Err(e) => Err(e),
                Ok((_, q)) => behind(take_at(buf, q, 32)),
            }
        } else if kind == SC_ADDR_CONTRACT {
            behind(take_at(buf, p, 32))
        } else {
            Err(XdrError::UnknownSkippedAddress { found: kind })
        },
    }
}

/// The number of items of the vector or map at `pos`, zero where it is absent,
/// and the position of the first.
pub open spec fn count_at(buf: Seq<u8>, pos: nat) -> Result<(u32, nat), XdrError> {
    match u32_at(buf, pos) {
        Err(e) => Err(e),
        Ok((present, p)) => if present == 0 {
            Ok((0, p))
        } else {
            u32_at(buf, p)
        },
    }
}

/// The position behind the body of a value of kind `kind` that starts at `pos`.
pub open spec fn behind_body(buf: Seq<u8>, pos: nat, kind: u32) -> Result<nat, XdrError>
    decreases buf.len() - pos, 0nat,
{
    if kind == SCV_VOID {
        Ok(pos)
    } else if kind == SCV_BOOL || kind == 3 || kind == 4 {
        behind(u32_at(buf, pos))
    } else if 5 <= kind <= 8 {
        behind(take_at(buf, pos, 8))
    } else if kind == 9 || kind == 10 {
        behind(take_at(buf, pos, 16))
    } else if kind == 11 || kind == 12 {
        behind(take_at(buf, pos, 32))
    } else if kind == 13 || kind == SCV_STRING || kind == SCV_SYMBOL {
        behind(var_at(buf, pos))
    } else if kind == SCV_ADDRESS {
        behind_address(buf, pos)
    } else if kind == SCV_VEC || kind == SCV_MAP {
        match count_at(buf, pos) {
            Err(e) => Err(e),
            Ok((n, p)) => behind_values(
                buf,
                p,
                if kind == SCV_MAP {
                    2 * n as nat
                } else {
                    n as nat
                },
            ),
        }
    } else {
        Err(XdrError::UnknownSkippedValue { found: kind })
    }
}

/// The position behind the value at `pos`.
pub open spec fn behind_value(buf: Seq<u8>, pos: nat) -> Result<nat, XdrError>
    decreases buf.len() - pos, 0nat,
{
    match u32_at(buf, pos) {
        Err(e) => Err(e),
        Ok((kind, p)) => behind_body(buf, p, kind),
    }
}

/// The position behind `n` values that start at `pos`.
pub open spec fn behind_values(buf: Seq<u8>, pos: nat, n: nat) -> Result<nat, XdrError>
    decreases buf.len() - pos, 1nat,
{
    if n == 0 {
        Ok(pos)
    } else {
        match behind_value(buf, pos) {
            Err(e) => Err(e),
            Ok(p) => if pos < p <= buf.len() {
                behind_values(buf, p, (n - 1) as nat)
            } else {
                Ok(p)
            },
        }
    }
}

/// Element `i` of a vector of strings, which lies at `pos`.
pub open spec fn element_at(buf: Seq<u8>, pos: nat, i: nat) -> Result<(Seq<char>, nat), XdrError> {
    match u32_at(buf, pos) {
        Err(e) => Err(e),
        Ok((kind, p)) => if kind == SCV_STRING {
            string_at(buf, p)
        } else {
            Err(XdrError::NotAString { index: i as usize, found: kind })
        },
    }
}

/// The strings of a vector from element `i` up to `n`, which start at `pos`.
pub open spec fn elements_at(buf: Seq<u8>, pos: nat, i: nat, n: nat) -> Result<
    Seq<Seq<char>>,
    XdrError,
>
    decreases n - i,
{
    if i >= n {
        Ok(Seq::empty())
    } else {
        match element_at(buf, pos, i) {
            Err(e) => Err(e),
            Ok((s, p)) => match elements_at(buf, p, i + 1, n) {
                Err(e) => Err(e),
                Ok(rest) => Ok(seq![s] + rest),
            },
        }
    }
}

/// The list of strings that `buf` holds: a vector of strings, or void for none.
pub open spec fn string_list(buf: Seq<u8>) -> Result<Seq<Seq<char>>, XdrError> {
    match u32_at(buf, 0) {
        Err(e) => Err(e),
        Ok((kind, p)) => if kind == SCV_VOID {
            Ok(Seq::empty())
        } else if kind != SCV_VEC {
            Err(XdrError::NotAVec { found: kind })
        } else {
            match count_at(buf, p) {
                Err(e) => Err(e),
                Ok((n, q)) => elements_at(buf, q, 0, n as nat),
            }
        },
    }
}

/// What a route entry says, as text.
#[verifier::ext_equal]
pub struct RouteFields {
    pub address: Seq<char>,
    pub name: Seq<char>,
    pub paused: bool,
    pub updated_by: Seq<char>,
}

/// The address at `pos` if the value is one; no text for a value of another
/// kind, which is passed over.
pub open spec fn address_or_skip_at(buf: Seq<u8>, pos: nat, kind: u32) -> Result<
    (Seq<char>, nat),
    XdrError,
> {
    if kind == SCV_ADDRESS {
        address_at(buf, pos)
    } else {
        match behind_body(buf, pos, kind) {
            Err(e) => Err(e),
            Ok(p) => Ok((Seq::empty(), p)),
        }
    }
}

/// The key of a map entry: a symbol is its text, anything else is passed over
/// and names no field.
pub open spec fn key_at(buf: Seq<u8>, pos: nat) -> Result<(Seq<char>, nat), XdrError> {
    match u32_at(buf, pos) {
        Err(e) => Err(e),
        Ok((kind, p)) => if kind == SCV_SYMBOL {
            string_at(buf, p)
        } else {
            match behind_body(buf, p, kind) {
                Err(e) => Err(e),
                Ok(q) => Ok((Seq::empty(), q)),
            }
        },
    }
}

/// The fields after the value of kind `kind` at `pos` has been read under `key`.
/// An address that is none clears its field; a name that is no string and a flag
/// that is no boolean are passed over, as is a value under any other key.
pub open spec fn field_value_at(
    buf: Seq<u8>,
    pos: nat,
    kind: u32,
    key: Seq<char>,
    fields: RouteFields,
) -> Result<(RouteFields, nat), XdrError> {
    if key == "address"@ {
        match address_or_skip_at(buf, pos, kind) {
            Err(e) => Err(e),
            Ok((address, p)) => Ok((RouteFields { address, ..fields }, p)),
        }
    } else if key == "updated_by"@ {
        match address_or_skip_at(buf, pos, kind) {
            Err(e) => Err(e),
            Ok((updated_by, p)) => Ok((RouteFields { updated_by, ..fields }, p)),
        }
    } else if key == "name"@ && kind == SCV_STRING {
        match string_at(buf, pos) {
            Err(e) => Err(e),
            Ok((name, p)) => Ok((RouteFields { name, ..fields }, p)),
        }
    } else if key == "paused"@ && kind == SCV_BOOL {
        match u32_at(buf, pos) {
            Err(e) => Err(e),
            Ok((v, p)) => Ok((RouteFields { paused: v != 0, ..fields }, p)),
        }
    } else {
        match behind_body(buf, pos, kind) {
            Err(e) => Err(e),
            Ok(p) => Ok((fields, p)),
        }
    }
}

/// The fields after the map entry at `pos` has been read.
pub open spec fn field_at(buf: Seq<u8>, pos: nat, fields: RouteFields) -> Result<
    (RouteFields, nat),
    XdrError,
> {
    match key_at(buf, pos) {
        Err(e) => Err(e),
        Ok((key, p)) => match u32_at(buf, p) {
            Err(e) => Err(e),
            Ok((kind, q)) => field_value_at(buf, q, kind, key, fields),
        },
    }
}

/// The fields after `n` map entries that start at `pos` have been read. Where a
/// key comes twice, the later entry counts.
pub open spec fn fields_at(buf: Seq<u8>, pos: nat, n: nat, fields: RouteFields) -> Result<
    RouteFields,
    XdrError,
>
    decreases n,
{
    if n == 0 {
        Ok(fields)
    } else {
        match field_at(buf, pos, fields) {
            Err(e) => Err(e),
            Ok((f, p)) => fields_at(buf, p, (n - 1) as nat, f),
        }
    }
}

/// An entry that says nothing yet.
pub open spec fn no_fields() -> RouteFields {
    RouteFields {
        address: Seq::empty(),
        name: Seq::empty(),
        paused: false,
        updated_by: Seq::empty(),
    }
}

/// The route entry that `buf` holds: a map, or void for none. An entry without
/// an address is none.
pub open spec fn route_entry(buf: Seq<u8>) -> Result<Option<RouteFields>, XdrError> {
    match u32_at(buf, 0) {
        Err(e) => Err(e),
        Ok((kind, p)) => if kind == SCV_VOID {
            Ok(None)
        } else if kind != SCV_MAP {
            Err(XdrError::NotAMap { found: kind })
        } else {
            match count_at(buf, p) {
                Err(e) => Err(e),
                Ok((n, q)) => match fields_at(buf, q, n as nat, no_fields()) {
                    Err(e) => Err(e),
                    Ok(fields) => if fields.address.len() == 0 {
                        Ok(None)
                    } else {
                        Ok(Some(fields))
                    },
                },
            }
        },
    }
}

/// Where a reader is left that finds less at `pos` than `n` bytes and what fills
/// them up: behind the bytes, if it has those.
pub open spec fn fixed_stop(buf: Seq<u8>, pos: nat, n: nat) -> nat {
    if pos + n <= buf.len() {
        pos + n
    } else {
        pos
    }
}

/// Where a reader is left that finds no whole bytes behind their length at `pos`.
pub open spec fn var_stop(buf: Seq<u8>, pos: nat) -> nat {
    match u32_at(buf, pos) {
        Err(_) => pos,
        Ok((n, p)) => fixed_stop(buf, p, n as nat),
    }
}

/// Reads XDR values one after the other.
pub struct XdrReader<'a> {
    buf: &'a [u8],
    pos: usize,
}

impl<'a> XdrReader<'a> {
    /// The bytes that are read.
    pub closed spec fn bytes(self) -> Seq<u8> {
        self.buf@
    }

    /// How many of them have been read.
    pub closed spec fn position(self) -> nat {
        self.pos as nat
    }

    /// The position is at most the end of the bytes.
    pub open spec fn wf(self) -> bool {
        self.position() <= self.bytes().len()
    }

    /// A reader at the start of `buf`.
    pub fn new(buf: &'a [u8]) -> (r: Self)
        ensures
            r.wf(),
            r.bytes() == buf@,
            r.position() == 0,
    {
        XdrReader { buf, pos: 0 }
    }

    /// The next `n` bytes.
    pub fn take(&mut self, n: usize) -> (read: Result<&'a [u8], XdrError>)
        requires
            old(self).wf(),
        ensures
            final(self).wf(),
            final(self).bytes() == old(self).bytes(),
            match read {
                Ok(b) => take_at(old(self).bytes(), old(self).position(), n as nat) == Ok::<
                    (Seq<u8>, nat),
                    XdrError,
                >((b@, final(self).position())),
                Err(e) => take_at(old(self).bytes(), old(self).position(), n as nat) == Err::<
                    (Seq<u8>, nat),
                    XdrError,
                >(e),
            },
            read is Err ==> final(self).position() == old(self).position(),
    {
        let have: usize = self.buf.len() - self.pos;
        if n > have {
            return Err(XdrError::Underflow { pos: self.pos, need: n, have });
        }
        let end: usize = self.pos + n;
        let s = vstd::slice::slice_subrange(self.buf, self.pos, end);
        self.pos = end;
        Ok(s)
    }

    /// The next 32-bit integer.
    pub fn u32(&mut self) -> (read: Result<u32, XdrError>)
        requires
            old(self).wf(),
        ensures
            final(self).wf(),
            final(self).bytes() == old(self).bytes(),
            match read {
                Ok(v) => u32_at(old(self).bytes(), old(self).position()) == Ok::<
                    (u32, nat),
                    XdrError,
                >((v, final(self).position())),
                Err(e) => u32_at(old(self).bytes(), old(self).position()) == Err::<
                    (u32, nat),
                    XdrError,
                >(e),
            },
            read is Err ==> final(self).position() == old(self).position(),
    {
        match self.take(4) {
            Err(e) => Err(e),
            Ok(b) => Ok(
                0x100_0000 * b[0] as u32 + 0x1_0000 * b[1] as u32 + 0x100 * b[2] as u32
                    + b[3] as u32,
            ),
        }
    }

    /// The next `n` bytes and their padding.
    pub fn fixed(&mut self, n: usize) -> (read: Result<&'a [u8], XdrError>)
        requires
            old(self).wf(),
        ensures
            final(self).wf(),
            final(self).bytes() == old(self).bytes(),
            match read {
                Ok(b) => fixed_at(old(self).bytes(), old(self).position(), n as nat) == Ok::<
                    (Seq<u8>, nat),
                    XdrError,
                >((b@, final(self).position())),
                Err(e) => fixed_at(old(self).bytes(), old(self).position(), n as nat) == Err::<
                    (Seq<u8>, nat),
                    XdrError,
                >(e),
            },
            read is Err ==> final(self).position() == fixed_stop(
                old(self).bytes(),
                old(self).position(),
                n as nat,
            ),
    {
        let data = match self.take(n) {
            Err(e) => {
                return Err(e);
            },
            Ok(data) => data,
        };
        match self.take((4 - n % 4) % 4) {
            Err(e) => Err(e),
            Ok(_) => Ok(data),
        }
    }

    /// The next bytes behind their length.
    pub fn var(&mut self) -> (read: Result<&'a [u8], XdrError>)
        requires
            old(self).wf(),
        ensures
            final(self).wf(),
            final(self).bytes() == old(self).bytes(),
            match read {
                Ok(b) => var_at(old(self).bytes(), old(self).position()) == Ok::<
                    (Seq<u8>, nat),
                    XdrError,
                >((b@, final(self).position())),
                Err(e) => var_at(old(self).bytes(), old(self).position()) == Err::<
                    (Seq<u8>, nat),
                    XdrError,
                >(e),
            },
            read is Err ==> final(self).position() == var_stop(
                old(self).bytes(),
                old(self).position(),
            ),
    {
        match self.u32() {
            Err(e) => Err(e),
            Ok(n) => self.fixed(n as usize),
        }
    }

    /// The next string.
    pub fn string(&mut self) -> (read: Result<String, XdrError>)
        requires
            old(self).wf(),
        ensures
            final(self).wf(),
            final(self).bytes() == old(self).bytes(),
            match read {
                Ok(s) => string_at(old(self).bytes(), old(self).position()) == Ok::<
                    (Seq<char>, nat),
                    XdrError,
                >((s@, final(self).position())),
                Err(e) => string_at(old(self).bytes(), old(self).position()) == Err::<
                    (Seq<char>, nat),
                    XdrError,
                >(e),
            },
            read is Err ==> final(self).position() == match var_at(
                old(self).bytes(),
                old(self).position(),
            ) {
                Ok((_, p)) => p,
                Err(_) => var_stop(old(self).bytes(), old(self).position()),
            },
    {
        match self.var() {
            Err(e) => Err(e),
            Ok(b) => match utf8_string(vstd::slice::slice_to_vec(b)) {
                Ok(s) => Ok(s),
                Err((valid_up_to, error_len)) => Err(
                    XdrError::StringEncoding { valid_up_to, error_len },
                ),
            },
        }
    }

    /// The next address, as a strkey.
    fn address(&mut self) -> (read: Result<String, XdrError>)
        requires
            old(self).wf(),
        ensures
            final(self).wf(),
            final(self).bytes() == old(self).bytes(),
            match read {
                Ok(s) => address_at(old(self).bytes(), old(self).position()) == Ok::<
                    (Seq<char>, nat),
                    XdrError,
                >((s@, final(self).position())),
                Err(e) => address_at(old(self).bytes(), old(self).position()) == Err::<
                    (Seq<char>, nat),
                    XdrError,
                >(e),
            },
    {
        let kind: u32 = match self.u32() {
            Err(e) => {
                return Err(e);
            },
            Ok(kind) => kind,
        };
        if kind == SC_ADDR_ACCOUNT {
            match self.u32() {
                Err(e) => Err(e),
                Ok(_) => match self.take(32) {
                    Err(e) => Err(e),
                    Ok(key) => {
                        let key32 = array32(key, 0);
                        assert(key32@ =~= key@);
                        Ok(encode_account_strkey(&key32))
                    },
                },
            }
        } else if kind == SC_ADDR_CONTRACT {
            match self.take(32) {
                Err(e) => Err(e),
                Ok(hash) => {
                    let hash32 = array32(hash, 0);
                    assert(hash32@ =~= hash@);
                    Ok(encode_contract_strkey(&hash32))
                },
            }
        } else {
            Err(XdrError::UnknownAddress { found: kind })
        }
    }

    /// Passes over the next address.
    fn skip_address(&mut self) -> (read: Result<(), XdrError>)
        requires
            old(self).wf(),
        ensures
            final(self).wf(),
            final(self).bytes() == old(self).bytes(),
            match read {
                Ok(()) => behind_address(old(self).bytes(), old(self).position()) == Ok::<
                    nat,
                    XdrError,
                >(final(self).position()),
                Err(e) => behind_address(old(self).bytes(), old(self).position()) == Err::<
                    nat,
                    XdrError,
                >(e),
            },
    {
        let kind: u32 = match self.u32() {
            Err(e) => {
                return Err(e);
            },
            Ok(kind) => kind,
        };
        if kind == SC_ADDR_ACCOUNT {
            match self.u32() {
                Err(e) => Err(e),
                Ok(_) => match self.take(32) {
                    Err(e) => Err(e),
                    Ok(_) => Ok(()),
                },
            }
        } else if kind == SC_ADDR_CONTRACT {
            match self.take(32) {
                Err(e) => Err(e),
                Ok(_) => Ok(()),
            }
        } else {
            Err(XdrError::UnknownSkippedAddress { found: kind })
        }
    }

    /// Passes over the next `n` bytes.
    fn skip(&mut self, n: usize) -> (read: Result<(), XdrError>)
        requires
            old(self).wf(),
        ensures
            final(self).wf(),
            final(self).bytes() == old(self).bytes(),
            match read {
                Ok(()) => behind(take_at(old(self).bytes(), old(self).position(), n as nat)) == Ok::<
                    nat,
                    XdrError,
                >(final(self).position()),
                Err(e) => behind(take_at(old(self).bytes(), old(self).position(), n as nat)) == Err::<
                    nat,
                    XdrError,
                >(e),
            },
    {
        match self.take(n) {
            Err(e) => Err(e),
            Ok(_) => Ok(()),
        }
    }

    /// How many items the next vector or map has.
    fn count(&mut self) -> (read: Result<u32, XdrError>)
        requires
            old(self).wf(),
        ensures
            final(self).wf(),
            final(self).bytes() == old(self).bytes(),
            match read {
                Ok(n) => count_at(old(self).bytes(), old(self).position()) == Ok::<
                    (u32, nat),
                    XdrError,
                >((n, final(self).position())),
                Err(e) => count_at(old(self).bytes(), old(self).position()) == Err::<
                    (u32, nat),
                    XdrError,
                >(e),
            },
    {
        match self.u32() {
            Err(e) => Err(e),
            Ok(present) => if present == 0 {
                Ok(0)
            } else {
                self.u32()
            },
        }
    }
}

/// Passes over the body of a value whose kind has been read.
fn skip_scval_body(r: &mut XdrReader, kind: u32) -> (read: Result<(), XdrError>)
    requires
        old(r).wf(),
    ensures
        final(r).wf(),
        final(r).buf@ == old(r).buf@,
        match read {
            Ok(()) => final(r).pos >= old(r).pos && behind_body(
                old(r).buf@,
                old(r).pos as nat,
                kind,
            ) == Ok::<nat, XdrError>(final(r).pos as nat),
            Err(e) => behind_body(old(r).buf@, old(r).pos as nat, kind) == Err::<nat, XdrError>(e),
        },
    decreases old(r).buf@.len() - old(r).pos, 0nat,
{
    if kind == SCV_VOID {
        Ok(())
    } else if kind == SCV_BOOL || kind == 3 || kind == 4 {
        match r.u32() {
            Err(e) => Err(e),
            Ok(_) => Ok(()),
        }
    } else if 5 <= kind && kind <= 8 {
        r.skip(8)
    } else if kind == 9 || kind == 10 {
        r.skip(16)
    } else if kind == 11 || kind == 12 {
        r.skip(32)
    } else if kind == 13 || kind == SCV_STRING || kind == SCV_SYMBOL {
        match r.var() {
            Err(e) => Err(e),
            Ok(_) => Ok(()),
        }
    } else if kind == SCV_ADDRESS {
        r.skip_address()
    } else if kind == SCV_VEC || kind == SCV_MAP {
        match r.count() {
            Err(e) => Err(e),
            Ok(n) => {
                let items: u64 = if kind == SCV_MAP {
                    2 * n as u64
                } else {
                    n as u64
                };
                skip_scvals(r, items)
            },
        }
    } else {
        Err(XdrError::UnknownSkippedValue { found: kind })
    }
}

/// Passes over the next value.
fn skip_scval(r: &mut XdrReader) -> (read: Result<(), XdrError>)
    requires
        old(r).wf(),
    ensures
        final(r).wf(),
        final(r).buf@ == old(r).buf@,
        match read {
            Ok(()) => final(r).pos > old(r).pos && behind_value(old(r).buf@, old(r).pos as nat)
                == Ok::<nat, XdrError>(final(r).pos as nat),
            Err(e) => behind_value(old(r).buf@, old(r).pos as nat) == Err::<nat, XdrError>(e),
        },
    decreases old(r).buf@.len() - old(r).pos, 0nat,
{
    match r.u32() {
        Err(e) => Err(e),
        Ok(kind) => skip_scval_body(r, kind),
    }
}

/// Passes over the next `n` values.
fn skip_scvals(r: &mut XdrReader, n: u64) -> (read: Result<(), XdrError>)
    requires
        old(r).wf(),
    ensures
        final(r).wf(),
        final(r).buf@ == old(r).buf@,
        match read {
            Ok(()) => final(r).pos >= old(r).pos && behind_values(
                old(r).buf@,
                old(r).pos as nat,
                n as nat,
            ) == Ok::<nat, XdrError>(final(r).pos as nat),
            Err(e) => behind_values(old(r).buf@, old(r).pos as nat, n as nat) == Err::<
                nat,
                XdrError,
            >(e),
        },
    decreases old(r).buf@.len() - old(r).pos, 1nat,
{
    let mut i: u64 = 0;
    let ghost buf = r.buf@;
    let ghost start = r.pos;
    while i < n
        invariant
            i <= n,
            r.wf(),
            r.buf@ == buf,
            r.pos >= start,
            buf == old(r).buf@,
            start == old(r).pos,
            behind_values(buf, start as nat, n as nat) == behind_values(
                buf,
                r.pos as nat,
                (n - i) as nat,
            ),
        decreases n - i,
    {
        match skip_scval(r) {
            Err(e) => {
                return Err(e);
            },
            Ok(()) => {},
        }
        i = i + 1;
    }
    Ok(())
}

proof fn lemma_texts_push(list: Seq<String>, s: String)
    ensures
        texts(list.push(s)) == texts(list).push(s@),
{
    assert(texts(list.push(s)) =~= texts(list).push(s@));
}

/// Reads element `i` of a vector of strings.
fn read_element(r: &mut XdrReader, i: usize) -> (read: Result<String, XdrError>)
    requires
        old(r).wf(),
    ensures
        final(r).wf(),
        final(r).buf@ == old(r).buf@,
        match read {
            Ok(s) => element_at(old(r).buf@, old(r).pos as nat, i as nat) == Ok::<
                (Seq<char>, nat),
                XdrError,
            >((s@, final(r).pos as nat)),
            Err(e) => element_at(old(r).buf@, old(r).pos as nat, i as nat) == Err::<
                (Seq<char>, nat),
                XdrError,
            >(e),
        },
{
    match r.u32() {
        Err(e) => Err(e),
        Ok(kind) => if kind == SCV_STRING {
            r.string()
        } else {
            Err(XdrError::NotAString { index: i, found: kind })
        },
    }
}

/// Parses the base64 text of a list of strings, as `get_all_routes` returns it.
#[verifier::spinoff_prover]
#[verifier::rlimit(50)]
pub fn parse_string_vec(xdr_b64: &str) -> (list: Result<Vec<String>, XdrError>)
    ensures
        match (base64_bytes(xdr_b64.spec_bytes()), list) {
            (Err(refused), Err(e)) => e == refused,
            (Err(_), Ok(_)) => false,
            (Ok(bytes), Ok(v)) => string_list(bytes) == Ok::<Seq<Seq<char>>, XdrError>(
                texts(v@),
            ),
            (Ok(bytes), Err(e)) => string_list(bytes) == Err::<Seq<Seq<char>>, XdrError>(e),
        },
{
    let bytes = match base64_decode(xdr_b64) {
        Err(e) => {
            return Err(e);
        },
        Ok(bytes) => bytes,
    };
    let mut r = XdrReader::new(bytes.as_slice());
    let ghost buf = bytes@;
    let mut out: Vec<String> = Vec::new();
    assert(texts(out@) =~= Seq::<Seq<char>>::empty());
    match r.u32() {
        Err(e) => {
            return Err(e);
        },
        Ok(kind) => {
            if kind == SCV_VOID {
                return Ok(out);
            }
            if kind != SCV_VEC {
                return Err(XdrError::NotAVec { found: kind });
            }
        },
    }
    let count: usize = match r.count() {
        Err(e) => {
            return Err(e);
        },
        Ok(n) => n as usize,
    };
    let ghost whole = elements_at(buf, r.pos as nat, 0, count as nat);
    assert(whole matches Ok(list) ==> Seq::<Seq<char>>::empty() + list =~= list);
    let mut i: usize = 0;
    while i < count
        invariant
            i <= count,
            r.wf(),
            r.buf@ == buf,
            string_list(buf) == whole,
            base64_bytes(xdr_b64.spec_bytes()) == Ok::<Seq<u8>, XdrError>(buf),
            match elements_at(buf, r.pos as nat, i as nat, count as nat) {
                Err(e) => whole == Err::<Seq<Seq<char>>, XdrError>(e),
                Ok(rest) => whole == Ok::<Seq<Seq<char>>, XdrError>(
                    texts(out@) + rest,
                ),
            },
        decreases count - i,
    {
        let ghost before = out@;
        match read_element(&mut r, i) {
            Err(e) => {
                return Err(e);
            },
            Ok(s) => {
                out.push(s);
                proof {
                    lemma_texts_push(before, s);
                    if let Ok(rest) = elements_at(buf, r.pos as nat, (i + 1) as nat, count as nat) {
                        assert(texts(out@) + rest =~= texts(before) + (seq![s@] + rest));
                    }
                }
            },
        }
        i = i + 1;
    }
    assert(texts(out@) + Seq::<Seq<char>>::empty() =~= texts(out@));
    Ok(out)
}

/// What `get_route` says of a route.
pub struct ParsedRouteEntry {
    pub address: String,
    pub name: String,
    pub paused: bool,
    pub updated_by: String,
}

impl View for ParsedRouteEntry {
    type V = RouteFields;

    open spec fn view(&self) -> RouteFields {
        RouteFields {
            address: self.address@,
            name: self.name@,
            paused: self.paused,
            updated_by: self.updated_by@,
        }
    }
}

/// The next address as a strkey, or no text where the value is of another kind,
/// which is passed over.
fn read_sc_address_or_skip(r: &mut XdrReader, kind: u32) -> (read: Result<String, XdrError>)
    requires
        old(r).wf(),
    ensures
        final(r).wf(),
        final(r).buf@ == old(r).buf@,
        match read {
            Ok(s) => address_or_skip_at(old(r).buf@, old(r).pos as nat, kind) == Ok::<
                (Seq<char>, nat),
                XdrError,
            >((s@, final(r).pos as nat)),
            Err(e) => address_or_skip_at(old(r).buf@, old(r).pos as nat, kind) == Err::<
                (Seq<char>, nat),
                XdrError,
            >(e),
        },
{
    if kind == SCV_ADDRESS {
        r.address()
    } else {
        match skip_scval_body(r, kind) {
            Err(e) => Err(e),
            Ok(()) => Ok(String::new()),
        }
    }
}

/// The key of the next map entry.
fn read_key(r: &mut XdrReader) -> (read: Result<String, XdrError>)
    requires
        old(r).wf(),
    ensures
        final(r).wf(),
        final(r).buf@ == old(r).buf@,
        match read {
            Ok(s) => key_at(old(r).buf@, old(r).pos as nat) == Ok::<(Seq<char>, nat), XdrError>(
                (s@, final(r).pos as nat),
            ),
            Err(e) => key_at(old(r).buf@, old(r).pos as nat) == Err::<(Seq<char>, nat), XdrError>(
                e,
            ),
        },
{
    match r.u32() {
        Err(e) => Err(e),
        Ok(kind) => if kind == SCV_SYMBOL {
            r.string()
        } else {
            match skip_scval_body(r, kind) {
                Err(e) => Err(e),
                Ok(()) => Ok(String::new()),
            }
        },
    }
}

/// Reads the next map entry into `entry`.
fn read_field(r: &mut XdrReader, entry: ParsedRouteEntry) -> (read: Result<
    ParsedRouteEntry,
    XdrError,
>)
    requires
        old(r).wf(),
    ensures
        final(r).wf(),
        final(r).buf@ == old(r).buf@,
        match read {
            Ok(e) => field_at(old(r).buf@, old(r).pos as nat, entry@) == Ok::<
                (RouteFields, nat),
                XdrError,
            >((e@, final(r).pos as nat)),
            Err(e) => field_at(old(r).buf@, old(r).pos as nat, entry@) == Err::<
                (RouteFields, nat),
                XdrError,
            >(e),
        },
{
    let key = match read_key(r) {
        Err(e) => {
            return Err(e);
        },
        Ok(key) => key,
    };
    let kind: u32 = match r.u32() {
        Err(e) => {
            return Err(e);
        },
        Ok(kind) => kind,
    };
    let mut entry = entry;
    if same_text(key.as_str(), "address") {
        match read_sc_address_or_skip(r, kind) {
            Err(e) => Err(e),
            Ok(address) => {
                entry.address = address;
                Ok(entry)
            },
        }
    } else if same_text(key.as_str(), "updated_by") {
        match read_sc_address_or_skip(r, kind) {
            Err(e) => Err(e),
            Ok(updated_by) => {
                entry.updated_by = updated_by;
                Ok(entry)
            },
        }
    } else if same_text(key.as_str(), "name") && kind == SCV_STRING {
        match r.string() {
            Err(e) => Err(e),
            Ok(name) => {
                entry.name = name;
                Ok(entry)
            },
        }
    } else if same_text(key.as_str(), "paused") && kind == SCV_BOOL {
        match r.u32() {
            Err(e) => Err(e),
            Ok(v) => {
                entry.paused = v != 0;
                Ok(entry)
            },
        }
    } else {
        match skip_scval_body(r, kind) {
            Err(e) => Err(e),
            Ok(()) => Ok(entry),
        }
    }
}

/// Parses the base64 text of a route entry, as `get_route` returns it. `None`
/// stands for a route that does not exist.
#[verifier::spinoff_prover]
#[verifier::rlimit(50)]
pub fn parse_route_entry(xdr_b64: &str) -> (entry: Result<Option<ParsedRouteEntry>, XdrError>)
    ensures
        match (base64_bytes(xdr_b64.spec_bytes()), entry) {
            (Err(refused), Err(e)) => e == refused,
            (Err(_), Ok(_)) => false,
            (Ok(bytes), Ok(None)) => route_entry(bytes) == Ok::<Option<RouteFields>, XdrError>(
                None,
            ),
            (Ok(bytes), Ok(Some(entry))) => route_entry(bytes) == Ok::<
                Option<RouteFields>,
                XdrError,
            >(Some(entry@)),
            (Ok(bytes), Err(e)) => route_entry(bytes) == Err::<Option<RouteFields>, XdrError>(e),
        },
{
    let bytes = match base64_decode(xdr_b64) {
        Err(e) => {
            return Err(e);
        },
        Ok(bytes) => bytes,
    };
    let mut r = XdrReader::new(bytes.as_slice());
    let ghost buf = bytes@;
    match r.u32() {
        Err(e) => {
            return Err(e);
        },
        Ok(kind) => {
            if kind == SCV_VOID {
                return Ok(None);
            }
            if kind != SCV_MAP {
                return Err(XdrError::NotAMap { found: kind });
            }
        },
    }
    let count: u32 = match r.count() {
        Err(e) => {
            return Err(e);
        },
        Ok(n) => n,
    };
    let mut entry = ParsedRouteEntry {
        address: String::new(),
        name: String::new(),
        paused: false,
        updated_by: String::new(),
    };
    assert(entry@ =~= no_fields());
    let ghost whole = fields_at(buf, r.pos as nat, count as nat, no_fields());
    let mut i: u32 = 0;
    while i < count
        invariant
            i <= count,
            r.wf(),
            r.buf@ == buf,
            base64_bytes(xdr_b64.spec_bytes()) == Ok::<Seq<u8>, XdrError>(buf),
            whole == fields_at(buf, r.pos as nat, (count - i) as nat, entry@),
            route_entry(buf) == match whole {
                Err(e) => Err(e),
                Ok(fields) => if fields.address.len() == 0 {
                    Ok(None)
                } else {
                    Ok(Some(fields))
                },
            },
        decreases count - i,
    {
        match read_field(&mut r, entry) {
            Err(e) => {
                return Err(e);
            },
            Ok(e) => {
                entry = e;
            },
        }
        i = i + 1;
    }
    if same_text(entry.address.as_str(), "") {
        proof {
            reveal_strlit("");
        }
        return Ok(None);
    }
    proof {
        reveal_strlit("");
        assert(entry.address@.len() == 0 ==> entry.address@ =~= ""@);
    }
    Ok(Some(entry))
}

/// Whether `part` lies in `buf` at `pos`.
pub open spec fn lies_at(buf: Seq<u8>, pos: nat, part: Seq<u8>) -> bool {
    &&& pos + part.len() <= buf.len()
    &&& buf.subrange(pos as int, (pos + part.len()) as int) == part
}

/// Of two parts that lie one behind the other, each lies where it starts.
pub(crate) proof fn lemma_parts_lie_at(buf: Seq<u8>, pos: nat, a: Seq<u8>, b: Seq<u8>)
    requires
        lies_at(buf, pos, a + b),
    ensures
        lies_at(buf, pos, a),
        lies_at(buf, pos + a.len(), b),
{
    let both = buf.subrange(pos as int, (pos + (a + b).len()) as int);
    let first = buf.subrange(pos as int, (pos + a.len()) as int);
    let second = buf.subrange((pos + a.len()) as int, (pos + a.len() + b.len()) as int);
    assert forall|i: int| 0 <= i < a.len() implies #[trigger] first[i] == a[i] by {
        assert(both[i] == (a + b)[i]);
    }
    assert(first =~= a);
    assert forall|i: int| 0 <= i < b.len() implies #[trigger] second[i] == b[i] by {
        assert(both[a.len() + i] == (a + b)[a.len() + i]);
    }
    assert(second =~= b);
}

/// Reading an integer gives back the one that was written.
pub(crate) proof fn lemma_read_u32(buf: Seq<u8>, pos: nat, v: u32)
    requires
        lies_at(buf, pos, be32(v as nat)),
    ensures
        u32_at(buf, pos) == Ok::<(u32, nat), XdrError>((v, pos + 4)),
{
    let b = be32(v as nat);
    assert(take_at(buf, pos, 4) == Ok::<(Seq<u8>, nat), XdrError>((b, pos + 4)));
    assert(0x100_0000 * b[0] + 0x1_0000 * b[1] + 0x100 * b[2] + b[3] == v);
}

/// Reading opaque data gives back the data that were written.
pub(crate) proof fn lemma_read_var(buf: Seq<u8>, pos: nat, data: Seq<u8>)
    requires
        data.len() < 0x1_0000_0000,
        lies_at(buf, pos, opaque_var_bytes(data)),
    ensures
        var_at(buf, pos) == Ok::<(Seq<u8>, nat), XdrError>(
            (data, pos + opaque_var_bytes(data).len()),
        ),
{
    let len = data.len() as u32;
    lemma_parts_lie_at(buf, pos, be32(len as nat), opaque_fixed_bytes(data));
    lemma_read_u32(buf, pos, len);
    lemma_parts_lie_at(buf, pos + 4, data, zeros(padding(data.len())));
}

/// Reading a string gives back the one that was written.
pub(crate) proof fn lemma_read_string(buf: Seq<u8>, pos: nat, s: Seq<char>)
    requires
        encode_utf8(s).len() < 0x1_0000_0000,
        lies_at(buf, pos, opaque_var_bytes(encode_utf8(s))),
    ensures
        string_at(buf, pos) == Ok::<(Seq<char>, nat), XdrError>(
            (s, pos + opaque_var_bytes(encode_utf8(s)).len()),
        ),
{
    lemma_read_var(buf, pos, encode_utf8(s));
    encode_utf8_valid_utf8(s);
    encode_utf8_decode_utf8(s);
}

/// A string as an `ScVal` of kind `kind`.
pub open spec fn string_value_bytes(kind: u32, s: Seq<char>) -> Seq<u8> {
    be32(kind as nat) + opaque_var_bytes(encode_utf8(s))
}

/// Strings as `ScVal`s, one after the other.
pub open spec fn string_values_bytes(list: Seq<Seq<char>>) -> Seq<u8>
    decreases list.len(),
{
    if list.len() == 0 {
        Seq::empty()
    } else {
        string_value_bytes(SCV_STRING, list[0]) + string_values_bytes(list.drop_first())
    }
}

/// A list of strings as an `ScVal`.
pub open spec fn string_list_bytes(list: Seq<Seq<char>>) -> Seq<u8> {
    be32(SCV_VEC as nat) + (be32(1) + (be32(list.len()) + string_values_bytes(list)))
}

#[verifier::spinoff_prover]
#[verifier::rlimit(50)]
pub(crate) proof fn lemma_read_elements(buf: Seq<u8>, pos: nat, list: Seq<Seq<char>>, i: nat)
    requires
        lies_at(buf, pos, string_values_bytes(list)),
        forall|k: int| 0 <= k < list.len() ==> encode_utf8(#[trigger] list[k]).len() < 0x1_0000_0000,
    ensures
        elements_at(buf, pos, i, i + list.len()) == Ok::<Seq<Seq<char>>, XdrError>(list),
    decreases list.len(),
{
    if list.len() == 0 {
        assert(list =~= Seq::empty());
    } else {
        let first = string_value_bytes(SCV_STRING, list[0]);
        let rest = list.drop_first();
        lemma_parts_lie_at(buf, pos, first, string_values_bytes(rest));
        lemma_parts_lie_at(
            buf,
            pos,
            be32(SCV_STRING as nat),
            opaque_var_bytes(encode_utf8(list[0])),
        );
        lemma_read_u32(buf, pos, SCV_STRING);
        lemma_read_string(buf, pos + 4, list[0]);
        assert forall|k: int| 0 <= k < rest.len() implies encode_utf8(#[trigger] rest[k]).len()
            < 0x1_0000_0000 by {
            assert(rest[k] == list[k + 1]);
        }
        lemma_read_elements(buf, pos + first.len(), rest, i + 1);
        assert(seq![list[0]] + rest =~= list);
    }
}

/// A header of three parts stays one in front of a tail.
proof fn lemma_header_before_tail(a: Seq<u8>, b: Seq<u8>, c: Seq<u8>, body: Seq<u8>, tail: Seq<u8>)
    ensures
        a + (b + (c + body)) + tail == a + (b + (c + (body + tail))),
{
    assert(a + (b + (c + body)) + tail =~= a + (b + (c + (body + tail))));
}

/// Parsing the text of a list of strings gives back the list, whatever follows
/// it.
#[verifier::spinoff_prover]
#[verifier::rlimit(50)]
pub proof fn string_list_round_trip(list: Seq<Seq<char>>, tail: Seq<u8>)
    requires
        list.len() < 0x1_0000_0000,
        forall|k: int| 0 <= k < list.len() ==> encode_utf8(#[trigger] list[k]).len() < 0x1_0000_0000,
    ensures
        base64_bytes(encode_utf8(base64_text(string_list_bytes(list) + tail))) == Ok::<
            Seq<u8>,
            XdrError,
        >(string_list_bytes(list) + tail),
        string_list(string_list_bytes(list) + tail) == Ok::<Seq<Seq<char>>, XdrError>(list),
        string_list(string_list_bytes(list)) == Ok::<Seq<Seq<char>>, XdrError>(list),
{
    base64_round_trip(string_list_bytes(list) + tail);
    lemma_read_list(list, tail);
    lemma_read_list(list, Seq::empty());
    assert(string_list_bytes(list) + Seq::<u8>::empty() =~= string_list_bytes(list));
}

#[verifier::spinoff_prover]
#[verifier::rlimit(50)]
proof fn lemma_read_list(list: Seq<Seq<char>>, tail: Seq<u8>)
    requires
        list.len() < 0x1_0000_0000,
        forall|k: int| 0 <= k < list.len() ==> encode_utf8(#[trigger] list[k]).len() < 0x1_0000_0000,
    ensures
        string_list(string_list_bytes(list) + tail) == Ok::<Seq<Seq<char>>, XdrError>(list),
{
    let buf = string_list_bytes(list) + tail;
    let values = string_values_bytes(list);
    let counted = be32(list.len()) + (values + tail);
    lemma_header_before_tail(be32(SCV_VEC as nat), be32(1), be32(list.len()), values, tail);
    assert(buf.subrange(0, buf.len() as int) =~= buf);
    lemma_parts_lie_at(buf, 0, be32(SCV_VEC as nat), be32(1) + counted);
    lemma_parts_lie_at(buf, 4, be32(1), counted);
    lemma_parts_lie_at(buf, 8, be32(list.len()), values + tail);
    lemma_parts_lie_at(buf, 12, values, tail);
    lemma_read_u32(buf, 0, SCV_VEC);
    lemma_read_u32(buf, 4, 1);
    lemma_read_u32(buf, 8, list.len() as u32);
    lemma_read_elements(buf, 12, list, 0);
}

/// An address as an `ScVal`.
pub open spec fn address_value_bytes(address: Address) -> Seq<u8> {
    be32(SCV_ADDRESS as nat) + address.xdr()
}

/// A boolean as an `ScVal`.
pub open spec fn bool_value_bytes(v: bool) -> Seq<u8> {
    be32(SCV_BOOL as nat) + be32(
        if v {
            1
        } else {
            0
        },
    )
}

/// A map entry whose key is a symbol.
pub open spec fn entry_bytes(key: Seq<char>, value: Seq<u8>) -> Seq<u8> {
    string_value_bytes(SCV_SYMBOL, key) + value
}

/// A route entry as an `ScVal`, as the router contract returns it.
pub open spec fn route_entry_bytes(
    address: Address,
    name: Seq<char>,
    paused: bool,
    updated_by: Address,
) -> Seq<u8> {
    let fourth = entry_bytes("updated_by"@, address_value_bytes(updated_by));
    let third = entry_bytes("paused"@, bool_value_bytes(paused)) + fourth;
    let second = entry_bytes("name"@, string_value_bytes(SCV_STRING, name)) + third;
    let first = entry_bytes("address"@, address_value_bytes(address)) + second;
    be32(SCV_MAP as nat) + (be32(1) + (be32(4) + first))
}

/// Reading an address gives back the strkey of the one that was written.
pub(crate) proof fn lemma_read_address(buf: Seq<u8>, pos: nat, address: Address)
    requires
        lies_at(buf, pos, address.xdr()),
    ensures
        address_at(buf, pos) == Ok::<(Seq<char>, nat), XdrError>(
            (address.text(), pos + address.xdr().len()),
        ),
{
    match address {
        Address::Account(key) => {
            assert(address.xdr() =~= be32(SC_ADDR_ACCOUNT as nat) + (be32(0) + key@));
            lemma_parts_lie_at(buf, pos, be32(SC_ADDR_ACCOUNT as nat), be32(0) + key@);
            lemma_parts_lie_at(buf, pos + 4, be32(0), key@);
            lemma_read_u32(buf, pos, SC_ADDR_ACCOUNT);
            lemma_read_u32(buf, pos + 4, 0);
        },
        Address::Contract(hash) => {
            lemma_parts_lie_at(buf, pos, be32(SC_ADDR_CONTRACT as nat), hash@);
            lemma_read_u32(buf, pos, SC_ADDR_CONTRACT);
        },
    }
}

/// Reading the key of an entry gives back the one that was written.
pub(crate) proof fn lemma_read_key(buf: Seq<u8>, pos: nat, key: Seq<char>, value: Seq<u8>)
    requires
        encode_utf8(key).len() < 0x1_0000_0000,
        lies_at(buf, pos, entry_bytes(key, value)),
    ensures
        key_at(buf, pos) == Ok::<(Seq<char>, nat), XdrError>(
            (key, pos + string_value_bytes(SCV_SYMBOL, key).len()),
        ),
        lies_at(buf, pos + string_value_bytes(SCV_SYMBOL, key).len(), value),
{
    lemma_parts_lie_at(buf, pos, string_value_bytes(SCV_SYMBOL, key), value);
    lemma_parts_lie_at(buf, pos, be32(SCV_SYMBOL as nat), opaque_var_bytes(encode_utf8(key)));
    lemma_read_u32(buf, pos, SCV_SYMBOL);
    lemma_read_string(buf, pos + 4, key);
}

/// The four field names are different, and short.
pub(crate) proof fn lemma_field_names()
    ensures
        "address"@ != "updated_by"@,
        "address"@ != "name"@,
        "address"@ != "paused"@,
        "updated_by"@ != "name"@,
        "updated_by"@ != "paused"@,
        "name"@ != "paused"@,
        encode_utf8("address"@).len() < 0x1_0000_0000,
        encode_utf8("updated_by"@).len() < 0x1_0000_0000,
        encode_utf8("name"@).len() < 0x1_0000_0000,
        encode_utf8("paused"@).len() < 0x1_0000_0000,
{
    reveal_strlit("address");
    reveal_strlit("updated_by");
    reveal_strlit("name");
    reveal_strlit("paused");
    assert("address"@[0] == 'a' && "updated_by"@[0] == 'u' && "name"@[0] == 'n' && "paused"@[0]
        == 'p');
    is_ascii_chars_encode_utf8("address"@);
    is_ascii_chars_encode_utf8("updated_by"@);
    is_ascii_chars_encode_utf8("name"@);
    is_ascii_chars_encode_utf8("paused"@);
}

/// An entry that holds an address sets the field that its key names.
#[verifier::spinoff_prover]
#[verifier::rlimit(50)]
proof fn lemma_read_address_field(
    buf: Seq<u8>,
    pos: nat,
    key: Seq<char>,
    address: Address,
    fields: RouteFields,
)
    requires
        key == "address"@ || key == "updated_by"@,
        lies_at(buf, pos, entry_bytes(key, address_value_bytes(address))),
    ensures
        field_at(buf, pos, fields) == Ok::<(RouteFields, nat), XdrError>(
            (
                if key == "address"@ {
                    RouteFields { address: address.text(), ..fields }
                } else {
                    RouteFields { updated_by: address.text(), ..fields }
                },
                pos + entry_bytes(key, address_value_bytes(address)).len(),
            ),
        ),
{
    let p = pos + string_value_bytes(SCV_SYMBOL, key).len();
    lemma_field_names();
    lemma_read_key(buf, pos, key, address_value_bytes(address));
    lemma_parts_lie_at(buf, p, be32(SCV_ADDRESS as nat), address.xdr());
    lemma_read_u32(buf, p, SCV_ADDRESS);
    lemma_read_address(buf, p + 4, address);
}

/// An entry that holds a name sets it.
#[verifier::spinoff_prover]
#[verifier::rlimit(50)]
proof fn lemma_read_name_field(buf: Seq<u8>, pos: nat, name: Seq<char>, fields: RouteFields)
    requires
        encode_utf8(name).len() < 0x1_0000_0000,
        lies_at(buf, pos, entry_bytes("name"@, string_value_bytes(SCV_STRING, name))),
    ensures
        field_at(buf, pos, fields) == Ok::<(RouteFields, nat), XdrError>(
            (
                RouteFields { name, ..fields },
                pos + entry_bytes("name"@, string_value_bytes(SCV_STRING, name)).len(),
            ),
        ),
{
    let p = pos + string_value_bytes(SCV_SYMBOL, "name"@).len();
    lemma_field_names();
    lemma_read_key(buf, pos, "name"@, string_value_bytes(SCV_STRING, name));
    lemma_parts_lie_at(buf, p, be32(SCV_STRING as nat), opaque_var_bytes(encode_utf8(name)));
    lemma_read_u32(buf, p, SCV_STRING);
    lemma_read_string(buf, p + 4, name);
}

/// An entry that holds the flag sets it.
#[verifier::spinoff_prover]
#[verifier::rlimit(50)]
proof fn lemma_read_paused_field(buf: Seq<u8>, pos: nat, paused: bool, fields: RouteFields)
    requires
        lies_at(buf, pos, entry_bytes("paused"@, bool_value_bytes(paused))),
    ensures
        field_at(buf, pos, fields) == Ok::<(RouteFields, nat), XdrError>(
            (
                RouteFields { paused, ..fields },
                pos + entry_bytes("paused"@, bool_value_bytes(paused)).len(),
            ),
        ),
{
    let p = pos + string_value_bytes(SCV_SYMBOL, "paused"@).len();
    let flag: u32 = if paused {
        1
    } else {
        0
    };
    lemma_field_names();
    lemma_read_key(buf, pos, "paused"@, bool_value_bytes(paused));
    lemma_parts_lie_at(buf, p, be32(SCV_BOOL as nat), be32(flag as nat));
    lemma_read_u32(buf, p, SCV_BOOL);
    lemma_read_u32(buf, p + 4, flag);
}

/// Reading the four entries of a route one after the other sets the four fields.
#[verifier::spinoff_prover]
#[verifier::rlimit(50)]
proof fn lemma_read_fields(
    buf: Seq<u8>,
    pos: nat,
    address: Address,
    name: Seq<char>,
    paused: bool,
    updated_by: Address,
)
    requires
        encode_utf8(name).len() < 0x1_0000_0000,
        lies_at(
            buf,
            pos,
            entry_bytes("address"@, address_value_bytes(address)) + (entry_bytes(
                "name"@,
                string_value_bytes(SCV_STRING, name),
            ) + (entry_bytes("paused"@, bool_value_bytes(paused)) + entry_bytes(
                "updated_by"@,
                address_value_bytes(updated_by),
            ))),
        ),
    ensures
        fields_at(buf, pos, 4, no_fields()) == Ok::<RouteFields, XdrError>(
            RouteFields {
                address: address.text(),
                name,
                paused,
                updated_by: updated_by.text(),
            },
        ),
{
    let one = entry_bytes("address"@, address_value_bytes(address));
    let two = entry_bytes("name"@, string_value_bytes(SCV_STRING, name));
    let three = entry_bytes("paused"@, bool_value_bytes(paused));
    let four = entry_bytes("updated_by"@, address_value_bytes(updated_by));
    let p2 = pos + one.len();
    let p3 = p2 + two.len();
    let p4 = p3 + three.len();
    let p5 = p4 + four.len();
    let f0 = no_fields();
    let f1 = RouteFields { address: address.text(), ..f0 };
    let f2 = RouteFields { name, ..f1 };
    let f3 = RouteFields { paused, ..f2 };
    let f4 = RouteFields { updated_by: updated_by.text(), ..f3 };
    lemma_parts_lie_at(buf, pos, one, two + (three + four));
    lemma_parts_lie_at(buf, p2, two, three + four);
    lemma_parts_lie_at(buf, p3, three, four);
    assert(field_at(buf, pos, f0) == Ok::<(RouteFields, nat), XdrError>((f1, p2))) by {
        lemma_read_address_field(buf, pos, "address"@, address, f0);
    }
    assert(field_at(buf, p2, f1) == Ok::<(RouteFields, nat), XdrError>((f2, p3))) by {
        lemma_read_name_field(buf, p2, name, f1);
    }
    assert(field_at(buf, p3, f2) == Ok::<(RouteFields, nat), XdrError>((f3, p4))) by {
        lemma_read_paused_field(buf, p3, paused, f2);
    }
    assert(field_at(buf, p4, f3) == Ok::<(RouteFields, nat), XdrError>((f4, p5))) by {
        lemma_field_names();
        lemma_read_address_field(buf, p4, "updated_by"@, updated_by, f3);
    }
    lemma_fields_step(buf, p4, 1, f3, f4, p5);
    lemma_fields_step(buf, p3, 2, f2, f3, p4);
    lemma_fields_step(buf, p2, 3, f1, f2, p3);
    lemma_fields_step(buf, pos, 4, f0, f1, p2);
}

/// Reading entries is reading the first, then the others.
proof fn lemma_fields_step(
    buf: Seq<u8>,
    pos: nat,
    n: nat,
    fields: RouteFields,
    next: RouteFields,
    after: nat,
)
    requires
        n > 0,
        field_at(buf, pos, fields) == Ok::<(RouteFields, nat), XdrError>((next, after)),
    ensures
        fields_at(buf, pos, n, fields) == fields_at(buf, after, (n - 1) as nat, next),
        n == 1 ==> fields_at(buf, pos, n, fields) == Ok::<RouteFields, XdrError>(next),
{
}

/// Behind the header of a map of `n` entries lie the entries.
pub(crate) proof fn lemma_read_map_header(entries: Seq<u8>, n: u32)
    ensures
        ({
            let buf = be32(SCV_MAP as nat) + (be32(1) + (be32(n as nat) + entries));
            &&& u32_at(buf, 0) == Ok::<(u32, nat), XdrError>((SCV_MAP, 4))
            &&& count_at(buf, 4) == Ok::<(u32, nat), XdrError>((n, 12))
            &&& lies_at(buf, 12, entries)
        }),
{
    let buf = be32(SCV_MAP as nat) + (be32(1) + (be32(n as nat) + entries));
    assert(buf.subrange(0, buf.len() as int) =~= buf);
    lemma_parts_lie_at(buf, 0, be32(SCV_MAP as nat), be32(1) + (be32(n as nat) + entries));
    lemma_parts_lie_at(buf, 4, be32(1), be32(n as nat) + entries);
    lemma_parts_lie_at(buf, 8, be32(n as nat), entries);
    lemma_read_u32(buf, 0, SCV_MAP);
    lemma_read_u32(buf, 4, 1);
    lemma_read_u32(buf, 8, n);
}

/// Parsing the text of a route entry gives back what the entry says: its
/// addresses as strkeys, its name and its flag, whatever follows it.
#[verifier::spinoff_prover]
#[verifier::rlimit(50)]
pub proof fn route_entry_round_trip(
    address: Address,
    name: Seq<char>,
    paused: bool,
    updated_by: Address,
    tail: Seq<u8>,
)
    requires
        encode_utf8(name).len() < 0x1_0000_0000,
    ensures
        base64_bytes(
            encode_utf8(base64_text(route_entry_bytes(address, name, paused, updated_by) + tail)),
        ) == Ok::<Seq<u8>, XdrError>(route_entry_bytes(address, name, paused, updated_by) + tail),
        route_entry(route_entry_bytes(address, name, paused, updated_by) + tail) == Ok::<
            Option<RouteFields>,
            XdrError,
        >(
            Some(
                RouteFields {
                    address: address.text(),
                    name,
                    paused,
                    updated_by: updated_by.text(),
                },
            ),
        ),
{
    let buf = route_entry_bytes(address, name, paused, updated_by) + tail;
    let four = entry_bytes("updated_by"@, address_value_bytes(updated_by));
    let three = entry_bytes("paused"@, bool_value_bytes(paused)) + four;
    let two = entry_bytes("name"@, string_value_bytes(SCV_STRING, name)) + three;
    let one = entry_bytes("address"@, address_value_bytes(address)) + two;
    assert(base64_bytes(encode_utf8(base64_text(buf))) == Ok::<Seq<u8>, XdrError>(buf)) by {
        base64_round_trip(buf);
    }
    lemma_header_before_tail(be32(SCV_MAP as nat), be32(1), be32(4), one, tail);
    lemma_read_map_header(one + tail, 4);
    lemma_parts_lie_at(buf, 12, one, tail);
    lemma_read_fields(buf, 12, address, name, paused, updated_by);
    assert(address.text().len() == 56);
}

} // verus!
