//! XDR writing: integers, opaque data, and the transaction envelope that
//! simulates one contract call.

use vstd::prelude::*;
use vstd::string::*;
use vstd::utf8::*;

use crate::base64::base64_encode;
use crate::base64::{base64_bytes, base64_round_trip, base64_text};
use crate::error::XdrError;

verus! {

/// `ScVal` discriminant of a boolean.
pub const SCV_BOOL: u32 = 0;

/// `ScVal` discriminant of void.
pub const SCV_VOID: u32 = 1;

/// `ScVal` discriminant of a string.
pub const SCV_STRING: u32 = 14;

/// `ScVal` discriminant of a symbol.
pub const SCV_SYMBOL: u32 = 15;

/// `ScVal` discriminant of a vector.
pub const SCV_VEC: u32 = 16;

/// `ScVal` discriminant of a map.
pub const SCV_MAP: u32 = 17;

/// `ScVal` discriminant of an address.
pub const SCV_ADDRESS: u32 = 18;

/// `ScAddress` discriminant of an account.
pub const SC_ADDR_ACCOUNT: u32 = 0;

/// `ScAddress` discriminant of a contract.
pub const SC_ADDR_CONTRACT: u32 = 1;

/// The four bytes of `v`, most significant first.
pub open spec fn be32(v: nat) -> Seq<u8> {
    seq![
        (v / 0x100_0000 % 256) as u8,
        (v / 0x1_0000 % 256) as u8,
        (v / 0x100 % 256) as u8,
        (v % 256) as u8,
    ]
}

/// The eight bytes of `v`, most significant first.
pub open spec fn be64(v: nat) -> Seq<u8> {
    be32(v / 0x1_0000_0000) + be32(v % 0x1_0000_0000)
}

/// The number whose two's complement in 64 bits is `v`.
pub open spec fn twos_complement(v: i64) -> nat {
    if v < 0 {
        (v + 0x1_0000_0000_0000_0000) as nat
    } else {
        v as nat
    }
}

/// How many bytes fill up `n` bytes to a multiple of four.
pub open spec fn padding(n: nat) -> nat {
    ((4 - n % 4) % 4) as nat
}

/// `n` zero bytes.
pub open spec fn zeros(n: nat) -> Seq<u8> {
    Seq::new(n, |i: int| 0u8)
}

/// Opaque data of a length that the reader knows.
pub open spec fn opaque_fixed_bytes(data: Seq<u8>) -> Seq<u8> {
    data + zeros(padding(data.len()))
}

/// Opaque data behind its length, of which 32 bits are written.
pub open spec fn opaque_var_bytes(data: Seq<u8>) -> Seq<u8> {
    be32(data.len() % 0x1_0000_0000) + opaque_fixed_bytes(data)
}

/// Writes XDR values one after the other.
pub struct XdrWriter {
    bytes: Vec<u8>,
}

impl View for XdrWriter {
    type V = Seq<u8>;

    closed spec fn view(&self) -> Seq<u8> {
        self.bytes@
    }
}

impl XdrWriter {
    /// A writer that has written nothing.
    pub fn new() -> (w: Self)
        ensures
            w@ == Seq::<u8>::empty(),
    {
        XdrWriter { bytes: Vec::new() }
    }

    /// Appends an unsigned 32-bit integer.
    pub fn u32(&mut self, v: u32)
        ensures
            final(self)@ == old(self)@ + be32(v as nat),
    {
        self.bytes.push((v / 0x100_0000) as u8);
        self.bytes.push((v / 0x1_0000 % 256) as u8);
        self.bytes.push((v / 0x100 % 256) as u8);
        self.bytes.push((v % 256) as u8);
        assert(self@ =~= old(self)@ + be32(v as nat));
    }

    /// Appends a signed 64-bit integer.
    pub fn i64(&mut self, v: i64)
        ensures
            final(self)@ == old(self)@ + be64(twos_complement(v)),
    {
        let n: u64 = if v < 0 {
            (v as i128 + 0x1_0000_0000_0000_0000) as u64
        } else {
            v as u64
        };
        self.u32((n / 0x1_0000_0000) as u32);
        self.u32((n % 0x1_0000_0000) as u32);
        assert(self@ =~= old(self)@ + be64(twos_complement(v)));
    }

    /// Appends `data`, and zeros up to the next multiple of four bytes.
    pub fn opaque_fixed(&mut self, data: &[u8])
        ensures
            final(self)@ == old(self)@ + opaque_fixed_bytes(data@),
    {
        self.bytes.extend_from_slice(data);
        let pad: usize = (4 - data.len() % 4) % 4;
        let mut i: usize = 0;
        while i < pad
            invariant
                i <= pad,
                self@ =~= old(self)@ + data@ + zeros(i as nat),
            decreases pad - i,
        {
            self.bytes.push(0);
            i = i + 1;
        }
        assert(self@ =~= old(self)@ + opaque_fixed_bytes(data@));
    }

    /// Appends the length of `data`, then `data` itself, padded.
    pub fn opaque_var(&mut self, data: &[u8])
        ensures
            final(self)@ == old(self)@ + opaque_var_bytes(data@),
    {
        self.u32((data.len() as u64 % 0x1_0000_0000) as u32);
        self.opaque_fixed(data);
        assert(self@ =~= old(self)@ + opaque_var_bytes(data@));
    }

    /// The bytes written.
    pub fn into_bytes(self) -> (bytes: Vec<u8>)
        ensures
            bytes@ == self@,
    {
        self.bytes
    }
}

/// An argument of a contract call.
pub enum ScArg<'a> {
    /// A Soroban string.
    String(&'a str),
}

/// The `ScVal` of an argument.
pub open spec fn arg_bytes(arg: ScArg) -> Seq<u8> {
    match arg {
        ScArg::String(s) => be32(SCV_STRING as nat) + opaque_var_bytes(encode_utf8(s@)),
    }
}

/// The `ScVal`s of arguments, one after the other.
pub open spec fn args_bytes(args: Seq<ScArg>) -> Seq<u8>
    decreases args.len(),
{
    if args.len() == 0 {
        Seq::empty()
    } else {
        args_bytes(args.drop_last()) + arg_bytes(args.last())
    }
}

/// The transaction that calls `function` of the contract: the source is the
/// account with the all-zero key, the fee 100 stroops and the sequence number
/// zero; there are no preconditions, no memo, and one operation.
pub open spec fn invoke_transaction(
    contract: Seq<u8>,
    function: Seq<u8>,
    args: Seq<ScArg>,
) -> Seq<u8> {
    let source = be32(0) + zeros(32);
    let fee = be32(100);
    let sequence = be64(0);
    let conditions = be32(0);
    let memo = be32(0);
    let operation = be32(0) + be32(24);
    let call = be32(0) + be32(SC_ADDR_CONTRACT as nat) + opaque_fixed_bytes(contract)
        + opaque_var_bytes(function) + be32(args.len() % 0x1_0000_0000) + args_bytes(args);
    let auth = be32(0);
    let ext = be32(0);
    source + fee + sequence + conditions + memo + be32(1) + operation + call + auth + ext
}

/// The version 1 envelope of that transaction, without signatures.
pub open spec fn invoke_envelope(
    contract: Seq<u8>,
    function: Seq<u8>,
    args: Seq<ScArg>,
) -> Seq<u8> {
    be32(2) + invoke_transaction(contract, function, args) + be32(0)
}

/// Builds the base64 text of a transaction envelope whose one operation calls
/// `function` on a contract. It carries no signature: a simulation does not
/// look at them.
pub fn build_invoke_xdr(contract_hash: &[u8; 32], function: &str, args: &[ScArg]) -> (text: String)
    ensures
        text@ == base64_text(invoke_envelope(contract_hash@, function.spec_bytes(), args@)),
{
    let zero: [u8; 32] = [0; 32];
    let mut w = XdrWriter::new();
    w.u32(2);
    w.u32(0);
    w.opaque_fixed(zero.as_slice());
    w.u32(100);
    w.i64(0);
    w.u32(0);
    w.u32(0);
    w.u32(1);
    w.u32(0);
    w.u32(24);
    w.u32(0);
    w.u32(SC_ADDR_CONTRACT);
    w.opaque_fixed(contract_hash.as_slice());
    w.opaque_var(function.as_bytes());
    w.u32((args.len() as u64 % 0x1_0000_0000) as u32);
    let ghost head = w@;
    let mut i: usize = 0;
    assert(args@.take(0) =~= Seq::empty());
    assert(w@ =~= head + args_bytes(args@.take(0)));
    while i < args.len()
        invariant
            i <= args@.len(),
            w@ == head + args_bytes(args@.take(i as int)),
        decreases args@.len() - i,
    {
        let ghost before = w@;
        match &args[i] {
            ScArg::String(s) => {
                w.u32(SCV_STRING);
                w.opaque_var(s.as_bytes());
            },
        }
        proof {
            let next = args@.take(i + 1);
            assert(next.drop_last() =~= args@.take(i as int));
            assert(next.last() == args@[i as int]);
            assert(w@ =~= before + arg_bytes(args@[i as int]));
            assert(w@ =~= head + args_bytes(next));
        }
        i = i + 1;
    }
    assert(args@.take(i as int) =~= args@);
    w.u32(0);
    w.u32(0);
    w.u32(0);
    let bytes = w.into_bytes();
    proof {
        assert(zero@ =~= zeros(32));
        assert(opaque_fixed_bytes(zero@) =~= zeros(32));
        assert(bytes@ =~= invoke_envelope(contract_hash@, function.spec_bytes(), args@));
    }
    base64_encode(bytes.as_slice())
}

/// The text of an envelope decodes to the envelope, which starts with the tag of
/// a version 1 transaction.
pub proof fn invoke_text_holds_envelope(contract: Seq<u8>, function: Seq<u8>, args: Seq<ScArg>)
    ensures
        base64_bytes(encode_utf8(base64_text(invoke_envelope(contract, function, args)))) == Ok::<
            Seq<u8>,
            XdrError,
        >(invoke_envelope(contract, function, args)),
        invoke_envelope(contract, function, args).take(4) == seq![0u8, 0, 0, 2],
{
    let envelope = invoke_envelope(contract, function, args);
    base64_round_trip(envelope);
    assert(envelope.take(4) =~= be32(2));
}

/// What is written as opaque data fills a multiple of four bytes.
pub proof fn opaque_data_is_aligned(data: Seq<u8>)
    ensures
        opaque_fixed_bytes(data).len() % 4 == 0,
        opaque_var_bytes(data).len() % 4 == 0,
        opaque_fixed_bytes(data).take(data.len() as int) == data,
{
    assert(opaque_fixed_bytes(data).take(data.len() as int) =~= data);
}

} // verus!
