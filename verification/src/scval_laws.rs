//! What holds of the XDR codecs as a whole: what is written is read back, and
//! calls are written apart.

use vstd::prelude::*;
use vstd::utf8::*;

use crate::base64::{base64_round_trip, base64_text};
use crate::error::XdrError;
use crate::scval::{
    elements_at, lemma_parts_lie_at, lemma_read_elements, lemma_read_u32, lemma_read_var, lies_at,
    string_value_bytes, string_values_bytes, u32_at, var_at,
};
use crate::xdr::{
    arg_bytes, args_bytes, be32, be64, invoke_envelope, opaque_fixed_bytes, opaque_var_bytes, padding, zeros,
    ScArg,
};
use crate::xdr::{SCV_STRING, SC_ADDR_CONTRACT};

verus! {

// ── Opaque data ─────────────────────────────────────────────────────────────

/// Opaque data behind their length are read back wherever they stand, and the
/// reader goes on where the tail starts: behind four bytes of length, the data,
/// and what fills them up to a multiple of four.
#[verifier::spinoff_prover]
#[verifier::rlimit(50)]
pub proof fn opaque_data_are_read_back(head: Seq<u8>, data: Seq<u8>, tail: Seq<u8>)
    requires
        data.len() < 0x1_0000_0000,
    ensures
        var_at(head + opaque_var_bytes(data) + tail, head.len()) == Ok::<(Seq<u8>, nat), XdrError>(
            (data, head.len() + 4 + data.len() + padding(data.len())),
        ),
        (4 + data.len() + padding(data.len())) % 4 == 0,
        (head + opaque_var_bytes(data)).len() == head.len() + 4 + data.len() + padding(data.len()),
{
    let written = opaque_var_bytes(data);
    let buf = head + written + tail;
    assert(written.len() == 4 + data.len() + padding(data.len())) by {
        lemma_lengths_add(be32(data.len() % 0x1_0000_0000), opaque_fixed_bytes(data));
        lemma_lengths_add(data, zeros(padding(data.len())));
    }
    assert((4 + data.len() + padding(data.len())) % 4 == 0) by {
        lemma_fills_up(data.len());
    }
    lemma_middle_lies_at(head, written, tail);
    lemma_read_var(buf, head.len(), data);
}

proof fn lemma_fills_up(n: nat)
    ensures
        (4 + n + padding(n)) % 4 == 0,
{
}

proof fn lemma_middle_lies_at(a: Seq<u8>, b: Seq<u8>, c: Seq<u8>)
    ensures
        lies_at(a + b + c, a.len(), b),
        (a + b).len() == a.len() + b.len(),
{
    assert((a + b + c).subrange(a.len() as int, (a.len() + b.len()) as int) =~= b);
}

// ── Calls ───────────────────────────────────────────────────────────────────

/// The text that an argument holds.
pub open spec fn arg_text(arg: ScArg) -> Seq<char> {
    match arg {
        ScArg::String(s) => s@,
    }
}

/// The texts that arguments hold, in their order.
pub open spec fn arg_texts(args: Seq<ScArg>) -> Seq<Seq<char>> {
    Seq::new(args.len(), |i: int| arg_text(args[i]))
}

/// Whether a call can be written: every length fits in 32 bits.
pub open spec fn call_fits(contract: Seq<u8>, function: Seq<u8>, args: Seq<ScArg>) -> bool {
    &&& contract.len() == 32
    &&& function.len() < 0x1_0000_0000
    &&& args.len() < 0x1_0000_0000
    &&& forall|i: int|
        0 <= i < args.len() ==> encode_utf8(arg_text(#[trigger] args[i])).len() < 0x1_0000_0000
}

proof fn lemma_values_append(list: Seq<Seq<char>>, s: Seq<char>)
    ensures
        string_values_bytes(list.push(s)) == string_values_bytes(list) + string_value_bytes(
            SCV_STRING,
            s,
        ),
    decreases list.len(),
{
    let one = string_value_bytes(SCV_STRING, s);
    if list.len() == 0 {
        assert(list.push(s).drop_first() =~= list);
        assert(string_values_bytes(list.push(s)) =~= string_values_bytes(list) + one);
    } else {
        let first = string_value_bytes(SCV_STRING, list[0]);
        let rest = list.drop_first();
        assert(list.push(s).drop_first() =~= rest.push(s));
        lemma_values_append(rest, s);
        assert(first + (string_values_bytes(rest) + one) =~= first + string_values_bytes(rest)
            + one);
    }
}

/// Arguments are written as the list of their texts is.
proof fn lemma_args_are_values(args: Seq<ScArg>)
    ensures
        args_bytes(args) == string_values_bytes(arg_texts(args)),
    decreases args.len(),
{
    if args.len() > 0 {
        let rest = args.drop_last();
        lemma_args_are_values(rest);
        lemma_values_append(arg_texts(rest), arg_text(args.last()));
        assert(arg_texts(args) =~= arg_texts(rest).push(arg_text(args.last())));
    }
}

/// What an envelope starts with, up to the contract.
#[verifier::opaque]
spec fn envelope_head() -> Seq<u8> {
    be32(2) + (be32(0) + zeros(32) + be32(100) + be64(0) + be32(0) + be32(0) + be32(1) + (be32(0)
        + be32(24)) + (be32(0) + be32(SC_ADDR_CONTRACT as nat)))
}

proof fn lemma_envelope_parts(
    tag: Seq<u8>,
    front: Seq<u8>,
    kind: Seq<u8>,
    contract: Seq<u8>,
    function: Seq<u8>,
    count: Seq<u8>,
    args: Seq<u8>,
    auth: Seq<u8>,
    ext: Seq<u8>,
    signatures: Seq<u8>,
)
    ensures
        tag + (front + (kind + contract + function + count + args) + auth + ext) + signatures == tag
            + (front + kind) + (contract + (function + (count + (args + (auth + ext
            + signatures))))),
{
    assert(tag + (front + (kind + contract + function + count + args) + auth + ext) + signatures
        =~= tag + (front + kind) + (contract + (function + (count + (args + (auth + ext
        + signatures))))));
}

/// What an envelope says when it is read.
#[verifier::spinoff_prover]
#[verifier::rlimit(50)]
proof fn lemma_envelope_reads(contract: Seq<u8>, function: Seq<u8>, args: Seq<ScArg>)
    requires
        call_fits(contract, function, args),
    ensures
        ({
            let buf = invoke_envelope(contract, function, args);
            let start = envelope_head().len() + 32;
            let p = start + opaque_var_bytes(function).len();
            &&& lies_at(buf, envelope_head().len(), contract)
            &&& var_at(buf, start) == Ok::<(Seq<u8>, nat), XdrError>((function, p))
            &&& u32_at(buf, p) == Ok::<(u32, nat), XdrError>((args.len() as u32, p + 4))
            &&& elements_at(buf, p + 4, 0, args.len()) == Ok::<Seq<Seq<char>>, XdrError>(
                arg_texts(args),
            )
        }),
{
    let buf = invoke_envelope(contract, function, args);
    let head = envelope_head();
    let end = be32(0) + be32(0) + be32(0);
    lemma_envelope_is_head_and_call(contract, function, args);
    lemma_call_reads(buf, head, contract, function, args, end);
}

/// What a call says when it is read behind `head`.
#[verifier::spinoff_prover]
#[verifier::rlimit(50)]
proof fn lemma_call_reads(
    buf: Seq<u8>,
    head: Seq<u8>,
    contract: Seq<u8>,
    function: Seq<u8>,
    args: Seq<ScArg>,
    end: Seq<u8>,
)
    requires
        call_fits(contract, function, args),
        buf == head + (contract + (opaque_var_bytes(function) + (be32(args.len() % 0x1_0000_0000)
            + (args_bytes(args) + end)))),
    ensures
        ({
            let p = head.len() + 32 + opaque_var_bytes(function).len();
            &&& lies_at(buf, head.len(), contract)
            &&& var_at(buf, head.len() + 32) == Ok::<(Seq<u8>, nat), XdrError>((function, p))
            &&& u32_at(buf, p) == Ok::<(u32, nat), XdrError>((args.len() as u32, p + 4))
            &&& elements_at(buf, p + 4, 0, args.len()) == Ok::<Seq<Seq<char>>, XdrError>(
                arg_texts(args),
            )
        }),
{
    let start = head.len() + 32;
    let written = opaque_var_bytes(function);
    let p = start + written.len();
    let count = be32(args.len() % 0x1_0000_0000);
    let values = args_bytes(args);
    assert(count.len() == 4);
    lemma_call_layout(buf, head, contract, written, count, values, end);
    assert(var_at(buf, start) == Ok::<(Seq<u8>, nat), XdrError>((function, p))) by {
        lemma_read_var(buf, start, function);
    }
    assert(u32_at(buf, p) == Ok::<(u32, nat), XdrError>((args.len() as u32, p + 4))) by {
        lemma_read_u32(buf, p, args.len() as u32);
    }
    assert(elements_at(buf, p + 4, 0, args.len()) == Ok::<Seq<Seq<char>>, XdrError>(
        arg_texts(args),
    )) by {
        lemma_args_are_values(args);
        assert forall|k: int| 0 <= k < arg_texts(args).len() implies encode_utf8(
            #[trigger] arg_texts(args)[k],
        ).len() < 0x1_0000_0000 by {
            assert(arg_texts(args)[k] == arg_text(args[k]));
        }
        lemma_read_elements(buf, p + 4, arg_texts(args), 0);
    }
}

/// The parts of a call each lie where they start.
proof fn lemma_call_layout(
    buf: Seq<u8>,
    head: Seq<u8>,
    contract: Seq<u8>,
    function: Seq<u8>,
    count: Seq<u8>,
    args: Seq<u8>,
    end: Seq<u8>,
)
    requires
        buf == head + (contract + (function + (count + (args + end)))),
    ensures
        lies_at(buf, head.len(), contract),
        lies_at(buf, head.len() + contract.len(), function),
        lies_at(buf, head.len() + contract.len() + function.len(), count),
        lies_at(buf, head.len() + contract.len() + function.len() + count.len(), args),
{
    let p = head.len() + contract.len();
    let q = p + function.len();
    assert(buf.subrange(0, buf.len() as int) =~= buf);
    lemma_parts_lie_at(buf, 0, head, contract + (function + (count + (args + end))));
    lemma_parts_lie_at(buf, head.len(), contract, function + (count + (args + end)));
    lemma_parts_lie_at(buf, p, function, count + (args + end));
    lemma_parts_lie_at(buf, q, count, args + end);
    lemma_parts_lie_at(buf, q + count.len(), args, end);
}

/// Two calls are written as the same text exactly where they are the same call:
/// the same function of the same contract, with arguments that hold the same
/// texts in the same order.
pub proof fn calls_are_written_apart(
    contract: Seq<u8>,
    function: Seq<u8>,
    args: Seq<ScArg>,
    other_contract: Seq<u8>,
    other_function: Seq<u8>,
    other_args: Seq<ScArg>,
)
    requires
        call_fits(contract, function, args),
        call_fits(other_contract, other_function, other_args),
    ensures
        base64_text(invoke_envelope(contract, function, args)) == base64_text(
            invoke_envelope(other_contract, other_function, other_args),
        ) <==> {
            &&& contract == other_contract
            &&& function == other_function
            &&& arg_texts(args) == arg_texts(other_args)
        },
{
    let x = invoke_envelope(contract, function, args);
    let y = invoke_envelope(other_contract, other_function, other_args);
    if base64_text(x) == base64_text(y) {
        base64_round_trip(x);
        base64_round_trip(y);
        assert(x == y);
        lemma_envelope_reads(contract, function, args);
        lemma_envelope_reads(other_contract, other_function, other_args);
    }
    if contract == other_contract && function == other_function && arg_texts(args) == arg_texts(
        other_args,
    ) {
        lemma_args_are_values(args);
        lemma_args_are_values(other_args);
        assert(args.len() == arg_texts(args).len());
        assert(other_args.len() == arg_texts(other_args).len());
        assert(x == y);
    }
}

/// How many bytes the arguments of a call take: each the kind of a string, its
/// length, and its text up to a multiple of four.
pub open spec fn args_room(args: Seq<ScArg>) -> nat
    decreases args.len(),
{
    if args.len() == 0 {
        0
    } else {
        args_room(args.drop_last()) + 8 + (encode_utf8(arg_text(args.last())).len() + 3) / 4 * 4
    }
}

proof fn lemma_args_room(args: Seq<ScArg>)
    ensures
        args_bytes(args).len() == args_room(args),
    decreases args.len(),
{
    if args.len() > 0 {
        let text = encode_utf8(arg_text(args.last()));
        lemma_args_room(args.drop_last());
        lemma_var_room(text);
        assert(arg_bytes(args.last()) == be32(SCV_STRING as nat) + opaque_var_bytes(text));
        lemma_lengths_add(be32(SCV_STRING as nat), opaque_var_bytes(text));
        lemma_lengths_add(args_bytes(args.drop_last()), arg_bytes(args.last()));
    }
}

proof fn lemma_lengths_add(a: Seq<u8>, b: Seq<u8>)
    ensures
        (a + b).len() == a.len() + b.len(),
{
}

/// How many bytes opaque data take behind their length.
proof fn lemma_var_room(data: Seq<u8>)
    ensures
        opaque_var_bytes(data).len() == 4 + (data.len() + 3) / 4 * 4,
{
    let n = data.len() as int;
    assert(n + (4 - n % 4) % 4 == (n + 3) / 4 * 4) by {
        if n % 4 == 0 {
            assert((n + 3) / 4 == n / 4);
        } else {
            assert((n + 3) / 4 == n / 4 + 1);
        }
    }
}

/// Of words that lie one behind the other, each is read where it starts.
proof fn lemma_word_at(buf: Seq<u8>, pos: nat, words: Seq<u32>, rest: Seq<u8>, i: nat)
    requires
        lies_at(buf, pos, words_bytes(words) + rest),
        i < words.len(),
    ensures
        u32_at(buf, pos + 4 * i) == Ok::<(u32, nat), XdrError>((words[i as int], pos + 4 * i + 4)),
    decreases i,
{
    reveal_with_fuel(words_bytes, 2);
    let first = be32(words[0] as nat);
    let others = words.drop_first();
    let more = words_bytes(others) + rest;
    lemma_joined(first, words_bytes(others), rest);
    assert(first.len() == 4);
    lemma_parts_lie_at(buf, pos, first, more);
    if i == 0 {
        lemma_read_u32(buf, pos, words[0]);
    } else {
        lemma_word_at(buf, pos + 4, others, rest, (i - 1) as nat);
        assert(others[i - 1] == words[i as int]);
    }
}

proof fn lemma_joined(a: Seq<u8>, b: Seq<u8>, c: Seq<u8>)
    ensures
        a + b + c == a + (b + c),
{
    assert(a + b + c =~= a + (b + c));
}

/// Words, one after the other.
#[verifier::opaque]
spec fn words_bytes(words: Seq<u32>) -> Seq<u8>
    decreases words.len(),
{
    if words.len() == 0 {
        Seq::empty()
    } else {
        be32(words[0] as nat) + words_bytes(words.drop_first())
    }
}

/// What stands in front of the source key, between it and the contract, and
/// behind the arguments.
spec fn tag_words() -> Seq<u32> {
    seq![2u32, 0]
}

spec fn middle_words() -> Seq<u32> {
    seq![100u32, 0, 0, 0, 0, 1, 0, 24, 0, 1]
}

spec fn end_words() -> Seq<u32> {
    seq![0u32, 0, 0]
}

#[verifier::spinoff_prover]
#[verifier::rlimit(50)]
proof fn lemma_words()
    ensures
        words_bytes(tag_words()) == be32(2) + be32(0),
        words_bytes(middle_words()) == be32(100) + (be64(0) + (be32(0) + (be32(0) + (be32(1) + (
        be32(0) + (be32(24) + (be32(0) + be32(1)))))))),
        words_bytes(end_words()) == be32(0) + (be32(0) + be32(0)),
{
    lemma_words_step(tag_words());
    lemma_words_step(tag_words().skip(1));
    lemma_words_step(tag_words().skip(2));
    assert(tag_words().skip(1).skip(1) =~= tag_words().skip(2));
    lemma_words_step(end_words());
    lemma_words_step(end_words().skip(1));
    lemma_words_step(end_words().skip(2));
    lemma_words_step(end_words().skip(3));
    assert(end_words().skip(1).skip(1) =~= end_words().skip(2));
    assert(end_words().skip(2).skip(1) =~= end_words().skip(3));
    let m = middle_words();
    lemma_words_step(m);
    lemma_words_step(m.skip(1));
    lemma_words_step(m.skip(2));
    lemma_words_step(m.skip(3));
    lemma_words_step(m.skip(4));
    lemma_words_step(m.skip(5));
    lemma_words_step(m.skip(6));
    lemma_words_step(m.skip(7));
    lemma_words_step(m.skip(8));
    lemma_words_step(m.skip(9));
    lemma_words_step(m.skip(10));
    assert(m.skip(1).skip(1) =~= m.skip(2));
    assert(m.skip(2).skip(1) =~= m.skip(3));
    assert(m.skip(3).skip(1) =~= m.skip(4));
    assert(m.skip(4).skip(1) =~= m.skip(5));
    assert(m.skip(5).skip(1) =~= m.skip(6));
    assert(m.skip(6).skip(1) =~= m.skip(7));
    assert(m.skip(7).skip(1) =~= m.skip(8));
    assert(m.skip(8).skip(1) =~= m.skip(9));
    assert(m.skip(9).skip(1) =~= m.skip(10));
    lemma_right_nested(
        be32(100),
        be32(0),
        be32(0),
        be32(0) + (be32(0) + (be32(1) + (be32(0) + (be32(24) + (be32(0) + be32(1)))))),
    );
}

proof fn lemma_words_step(words: Seq<u32>)
    ensures
        words.len() > 0 ==> words_bytes(words) == be32(words[0] as nat) + words_bytes(
            words.skip(1),
        ),
        words.len() == 1 ==> words_bytes(words) == be32(words[0] as nat),
        words.len() == 0 ==> words_bytes(words) == Seq::<u8>::empty(),
{
    reveal_with_fuel(words_bytes, 2);
    if words.len() > 0 {
        assert(words.drop_first() =~= words.skip(1));
        if words.len() == 1 {
            assert(words_bytes(words.drop_first()) =~= Seq::<u8>::empty());
            assert(be32(words[0] as nat) + Seq::<u8>::empty() =~= be32(words[0] as nat));
        }
    }
}

proof fn lemma_right_nested(a: Seq<u8>, b: Seq<u8>, c: Seq<u8>, d: Seq<u8>)
    ensures
        a + (b + (c + d)) == a + ((b + c) + d),
{
    assert(a + (b + (c + d)) =~= a + ((b + c) + d));
}

/// The parts of an envelope, put together to three runs of words round the
/// source key and the call.
proof fn lemma_envelope_regrouped(
    tag: Seq<u8>,
    key: Seq<u8>,
    kind: Seq<u8>,
    fee: Seq<u8>,
    sequence: Seq<u8>,
    conditions: Seq<u8>,
    memo: Seq<u8>,
    count: Seq<u8>,
    source: Seq<u8>,
    body: Seq<u8>,
    host: Seq<u8>,
    address: Seq<u8>,
    call: Seq<u8>,
)
    ensures
        tag + (kind + key + fee + sequence + conditions + memo + count + (source + body) + (host
            + address)) + call == (tag + kind) + (key + ((fee + (sequence + (conditions + (memo + (
        count + (source + (body + (host + address)))))))) + call)),
{
    assert(tag + (kind + key + fee + sequence + conditions + memo + count + (source + body) + (host
        + address)) + call =~= (tag + kind) + (key + ((fee + (sequence + (conditions + (memo + (
    count + (source + (body + (host + address)))))))) + call)));
}

/// The envelope of a call, read field by field: version 1; a source of the key
/// type zero with a key of zeros; a fee of 100, the sequence number zero, no
/// preconditions and no memo; one operation, without a source of its own, that
/// invokes a host function; that calls a contract, by its hash, with the
/// function and the arguments; no authorizations, no extension, and no
/// signatures. Nothing follows.
#[verifier::spinoff_prover]
#[verifier::rlimit(80)]
pub proof fn envelopes_read_field_by_field(contract: Seq<u8>, function: Seq<u8>, args: Seq<ScArg>)
    requires
        call_fits(contract, function, args),
    ensures
        ({
            let buf = invoke_envelope(contract, function, args);
            let p = 116 + (function.len() + 3) / 4 * 4;
            let q = p + 4 + args_room(args);
            &&& u32_at(buf, 0) == Ok::<(u32, nat), XdrError>((2, 4))
            &&& u32_at(buf, 4) == Ok::<(u32, nat), XdrError>((0, 8))
            &&& buf.subrange(8, 40) == Seq::new(32, |i: int| 0u8)
            &&& u32_at(buf, 40) == Ok::<(u32, nat), XdrError>((100, 44))
            &&& u32_at(buf, 44) == Ok::<(u32, nat), XdrError>((0, 48))
            &&& u32_at(buf, 48) == Ok::<(u32, nat), XdrError>((0, 52))
            &&& u32_at(buf, 52) == Ok::<(u32, nat), XdrError>((0, 56))
            &&& u32_at(buf, 56) == Ok::<(u32, nat), XdrError>((0, 60))
            &&& u32_at(buf, 60) == Ok::<(u32, nat), XdrError>((1, 64))
            &&& u32_at(buf, 64) == Ok::<(u32, nat), XdrError>((0, 68))
            &&& u32_at(buf, 68) == Ok::<(u32, nat), XdrError>((24, 72))
            &&& u32_at(buf, 72) == Ok::<(u32, nat), XdrError>((0, 76))
            &&& u32_at(buf, 76) == Ok::<(u32, nat), XdrError>((1, 80))
            &&& buf.subrange(80, 112) == contract
            &&& var_at(buf, 112) == Ok::<(Seq<u8>, nat), XdrError>((function, p))
            &&& u32_at(buf, p) == Ok::<(u32, nat), XdrError>((args.len() as u32, p + 4))
            &&& elements_at(buf, p + 4, 0, args.len()) == Ok::<Seq<Seq<char>>, XdrError>(
                arg_texts(args),
            )
            &&& u32_at(buf, q) == Ok::<(u32, nat), XdrError>((0, q + 4))
            &&& u32_at(buf, q + 4) == Ok::<(u32, nat), XdrError>((0, q + 8))
            &&& u32_at(buf, q + 8) == Ok::<(u32, nat), XdrError>((0, q + 12))
            &&& buf.len() == q + 12
            &&& buf.len() == 132 + (function.len() + 3) / 4 * 4 + args_room(args)
        }),
{
    let buf = invoke_envelope(contract, function, args);
    lemma_envelope_is_head_and_call(contract, function, args);
    lemma_envelope_fields(buf, contract, function, args);
}

/// What the bytes of an envelope say.
#[verifier::spinoff_prover]
#[verifier::rlimit(50)]
proof fn lemma_envelope_fields(
    buf: Seq<u8>,
    contract: Seq<u8>,
    function: Seq<u8>,
    args: Seq<ScArg>,
)
    requires
        call_fits(contract, function, args),
        buf == envelope_head() + (contract + (opaque_var_bytes(function) + (be32(
            args.len() % 0x1_0000_0000,
        ) + (args_bytes(args) + (be32(0) + be32(0) + be32(0)))))),
    ensures
        ({
            let p = 116 + (function.len() + 3) / 4 * 4;
            let q = p + 4 + args_room(args);
            &&& u32_at(buf, 0) == Ok::<(u32, nat), XdrError>((2, 4))
            &&& u32_at(buf, 4) == Ok::<(u32, nat), XdrError>((0, 8))
            &&& buf.subrange(8, 40) == Seq::new(32, |i: int| 0u8)
            &&& u32_at(buf, 40) == Ok::<(u32, nat), XdrError>((100, 44))
            &&& u32_at(buf, 44) == Ok::<(u32, nat), XdrError>((0, 48))
            &&& u32_at(buf, 48) == Ok::<(u32, nat), XdrError>((0, 52))
            &&& u32_at(buf, 52) == Ok::<(u32, nat), XdrError>((0, 56))
            &&& u32_at(buf, 56) == Ok::<(u32, nat), XdrError>((0, 60))
            &&& u32_at(buf, 60) == Ok::<(u32, nat), XdrError>((1, 64))
            &&& u32_at(buf, 64) == Ok::<(u32, nat), XdrError>((0, 68))
            &&& u32_at(buf, 68) == Ok::<(u32, nat), XdrError>((24, 72))
            &&& u32_at(buf, 72) == Ok::<(u32, nat), XdrError>((0, 76))
            &&& u32_at(buf, 76) == Ok::<(u32, nat), XdrError>((1, 80))
            &&& buf.subrange(80, 112) == contract
            &&& var_at(buf, 112) == Ok::<(Seq<u8>, nat), XdrError>((function, p))
            &&& u32_at(buf, p) == Ok::<(u32, nat), XdrError>((args.len() as u32, p + 4))
            &&& elements_at(buf, p + 4, 0, args.len()) == Ok::<Seq<Seq<char>>, XdrError>(
                arg_texts(args),
            )
            &&& u32_at(buf, q) == Ok::<(u32, nat), XdrError>((0, q + 4))
            &&& u32_at(buf, q + 4) == Ok::<(u32, nat), XdrError>((0, q + 8))
            &&& u32_at(buf, q + 8) == Ok::<(u32, nat), XdrError>((0, q + 12))
            &&& buf.len() == q + 12
            &&& buf.len() == 132 + (function.len() + 3) / 4 * 4 + args_room(args)
        }),
{
    let written = opaque_var_bytes(function);
    let count = be32(args.len() % 0x1_0000_0000);
    let values = args_bytes(args);
    let end = be32(0) + be32(0) + be32(0);
    lemma_args_room(args);
    lemma_var_room(function);
    assert(count.len() == 4);
    lemma_envelope_front(buf, contract + (written + (count + (values + end))));
    lemma_call_reads(buf, envelope_head(), contract, function, args, end);
    lemma_envelope_end(buf, envelope_head(), contract, written, count, values);
}

/// What an envelope says in front of the call.
#[verifier::spinoff_prover]
#[verifier::rlimit(50)]
proof fn lemma_envelope_front(buf: Seq<u8>, call: Seq<u8>)
    requires
        buf == envelope_head() + call,
    ensures
        envelope_head().len() == 80,
        u32_at(buf, 0) == Ok::<(u32, nat), XdrError>((2, 4)),
        u32_at(buf, 4) == Ok::<(u32, nat), XdrError>((0, 8)),
        buf.subrange(8, 40) == Seq::new(32, |i: int| 0u8),
        u32_at(buf, 40) == Ok::<(u32, nat), XdrError>((100, 44)),
        u32_at(buf, 44) == Ok::<(u32, nat), XdrError>((0, 48)),
        u32_at(buf, 48) == Ok::<(u32, nat), XdrError>((0, 52)),
        u32_at(buf, 52) == Ok::<(u32, nat), XdrError>((0, 56)),
        u32_at(buf, 56) == Ok::<(u32, nat), XdrError>((0, 60)),
        u32_at(buf, 60) == Ok::<(u32, nat), XdrError>((1, 64)),
        u32_at(buf, 64) == Ok::<(u32, nat), XdrError>((0, 68)),
        u32_at(buf, 68) == Ok::<(u32, nat), XdrError>((24, 72)),
        u32_at(buf, 72) == Ok::<(u32, nat), XdrError>((0, 76)),
        u32_at(buf, 76) == Ok::<(u32, nat), XdrError>((1, 80)),
{
    let tag = tag_words();
    let middle = middle_words();
    let key = zeros(32);
    assert(key =~= Seq::new(32, |i: int| 0u8));
    lemma_head_is_words();
    lemma_words_room(tag);
    lemma_words_room(middle);
    lemma_three_parts(words_bytes(tag), key, words_bytes(middle), call);
    lemma_front_layout(buf, tag, key, middle, call);
    assert(u32_at(buf, 0) == Ok::<(u32, nat), XdrError>((2, 4))) by {
        lemma_word_at(buf, 0, tag, key + (words_bytes(middle) + call), 0);
    }
    assert(u32_at(buf, 4) == Ok::<(u32, nat), XdrError>((0, 8))) by {
        lemma_word_at(buf, 0, tag, key + (words_bytes(middle) + call), 1);
    }
    assert(u32_at(buf, 40) == Ok::<(u32, nat), XdrError>((100, 44))) by {
        lemma_word_at(buf, 40, middle, call, 0);
    }
    assert(u32_at(buf, 44) == Ok::<(u32, nat), XdrError>((0, 48))) by {
        lemma_word_at(buf, 40, middle, call, 1);
    }
    assert(u32_at(buf, 48) == Ok::<(u32, nat), XdrError>((0, 52))) by {
        lemma_word_at(buf, 40, middle, call, 2);
    }
    assert(u32_at(buf, 52) == Ok::<(u32, nat), XdrError>((0, 56))) by {
        lemma_word_at(buf, 40, middle, call, 3);
    }
    assert(u32_at(buf, 56) == Ok::<(u32, nat), XdrError>((0, 60))) by {
        lemma_word_at(buf, 40, middle, call, 4);
    }
    assert(u32_at(buf, 60) == Ok::<(u32, nat), XdrError>((1, 64))) by {
        lemma_word_at(buf, 40, middle, call, 5);
    }
    assert(u32_at(buf, 64) == Ok::<(u32, nat), XdrError>((0, 68))) by {
        lemma_word_at(buf, 40, middle, call, 6);
    }
    assert(u32_at(buf, 68) == Ok::<(u32, nat), XdrError>((24, 72))) by {
        lemma_word_at(buf, 40, middle, call, 7);
    }
    assert(u32_at(buf, 72) == Ok::<(u32, nat), XdrError>((0, 76))) by {
        lemma_word_at(buf, 40, middle, call, 8);
    }
    assert(u32_at(buf, 76) == Ok::<(u32, nat), XdrError>((1, 80))) by {
        lemma_word_at(buf, 40, middle, call, 9);
    }
}

proof fn lemma_front_layout(
    buf: Seq<u8>,
    tag: Seq<u32>,
    key: Seq<u8>,
    middle: Seq<u32>,
    call: Seq<u8>,
)
    requires
        buf == words_bytes(tag) + (key + (words_bytes(middle) + call)),
        tag.len() == 2,
        key.len() == 32,
    ensures
        lies_at(buf, 0, words_bytes(tag) + (key + (words_bytes(middle) + call))),
        buf.subrange(8, 40) == key,
        lies_at(buf, 40, words_bytes(middle) + call),
{
    lemma_words_room(tag);
    assert(buf.subrange(0, buf.len() as int) =~= buf);
    lemma_parts_lie_at(buf, 0, words_bytes(tag), key + (words_bytes(middle) + call));
    lemma_parts_lie_at(buf, 8, key, words_bytes(middle) + call);
}

proof fn lemma_words_room(words: Seq<u32>)
    ensures
        words_bytes(words).len() == 4 * words.len(),
    decreases words.len(),
{
    reveal_with_fuel(words_bytes, 2);
    if words.len() > 0 {
        lemma_words_room(words.drop_first());
    }
}

proof fn lemma_three_parts(a: Seq<u8>, b: Seq<u8>, c: Seq<u8>, d: Seq<u8>)
    ensures
        a + (b + c) + d == a + (b + (c + d)),
{
    assert(a + (b + c) + d =~= a + (b + (c + d)));
}

/// What an envelope says behind the call, and that it ends there.
proof fn lemma_envelope_end(
    buf: Seq<u8>,
    head: Seq<u8>,
    contract: Seq<u8>,
    function: Seq<u8>,
    count: Seq<u8>,
    args: Seq<u8>,
)
    requires
        buf == head + (contract + (function + (count + (args + (be32(0) + be32(0) + be32(0)))))),
    ensures
        ({
            let q = head.len() + contract.len() + function.len() + count.len() + args.len();
            &&& u32_at(buf, q) == Ok::<(u32, nat), XdrError>((0, q + 4))
            &&& u32_at(buf, q + 4) == Ok::<(u32, nat), XdrError>((0, q + 8))
            &&& u32_at(buf, q + 8) == Ok::<(u32, nat), XdrError>((0, q + 12))
            &&& buf.len() == q + 12
        }),
{
    let q = head.len() + contract.len() + function.len() + count.len() + args.len();
    let end = be32(0) + be32(0) + be32(0);
    lemma_last_part(buf, head, contract, function, count, args, end);
    lemma_parts_lie_at(buf, q, be32(0) + be32(0), be32(0));
    lemma_parts_lie_at(buf, q, be32(0), be32(0));
    assert(be32(0).len() == 4);
    lemma_read_u32(buf, q, 0);
    lemma_read_u32(buf, q + 4, 0);
    lemma_read_u32(buf, q + 8, 0);
}

proof fn lemma_last_part(
    buf: Seq<u8>,
    a: Seq<u8>,
    b: Seq<u8>,
    c: Seq<u8>,
    d: Seq<u8>,
    e: Seq<u8>,
    end: Seq<u8>,
)
    requires
        buf == a + (b + (c + (d + (e + end)))),
    ensures
        lies_at(buf, a.len() + b.len() + c.len() + d.len() + e.len(), end),
        buf.len() == a.len() + b.len() + c.len() + d.len() + e.len() + end.len(),
{
    let q = (a.len() + b.len() + c.len() + d.len() + e.len()) as int;
    assert(buf.subrange(q, q + end.len()) =~= end);
}

proof fn lemma_envelope_is_head_and_call(contract: Seq<u8>, function: Seq<u8>, args: Seq<ScArg>)
    requires
        contract.len() == 32,
    ensures
        invoke_envelope(contract, function, args) == envelope_head() + (contract + (
        opaque_var_bytes(function) + (be32(args.len() % 0x1_0000_0000) + (args_bytes(args) + (be32(
            0,
        ) + be32(0) + be32(0)))))),
{
    reveal(envelope_head);
    let front = be32(0) + zeros(32) + be32(100) + be64(0) + be32(0) + be32(0) + be32(1) + (be32(0)
        + be32(24));
    assert(opaque_fixed_bytes(contract) =~= contract);
    lemma_envelope_parts(
        be32(2),
        front,
        be32(0) + be32(SC_ADDR_CONTRACT as nat),
        contract,
        opaque_var_bytes(function),
        be32(args.len() % 0x1_0000_0000),
        args_bytes(args),
        be32(0),
        be32(0),
        be32(0),
    );
}

proof fn lemma_head_is_words()
    ensures
        envelope_head() == words_bytes(tag_words()) + (zeros(32) + words_bytes(middle_words())),
{
    reveal(envelope_head);
    lemma_words();
    lemma_envelope_regrouped(
        be32(2),
        zeros(32),
        be32(0),
        be32(100),
        be64(0),
        be32(0),
        be32(0),
        be32(1),
        be32(0),
        be32(24),
        be32(0),
        be32(1),
        Seq::empty(),
    );
    assert(envelope_head() + Seq::<u8>::empty() =~= envelope_head());
    assert(words_bytes(middle_words()) + Seq::<u8>::empty() =~= words_bytes(middle_words()));
}

} // verus!
