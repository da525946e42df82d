//! What holds of requests and of fees, whatever the call, the simulation, the
//! amount and the load are.

use vstd::prelude::*;
use vstd::utf8::*;

use crate::base64::{base64_bytes, base64_round_trip};
use crate::error::XdrError;
use crate::rpc::{decoded_entry, decoded_list, fees_in_range, fees_of, resource_fee_in};
use crate::rpc::{
    one_route_request, request_parts, route_in, routes_in, routes_request, simulation_request,
    transaction_text,
};
use crate::rpc::{InvokeOutcome, RpcOutcome, RpcRequest, SimulateTransactionResult};
use crate::scval::{elements_at, route_entry, string_at, string_list, RouteFields};
use crate::scval_laws::{arg_texts, call_fits, envelopes_read_field_by_field};
use crate::strkey::contract_hash;
use crate::text::signed_value;
use crate::xdr::{invoke_envelope, ScArg};

verus! {

/// A transaction would succeed exactly where its simulation came back without an
/// error, at every load; and the fee for resources is the number that the
/// simulation gives, or 1000 stroops where it gives none.
pub proof fn simulations_decide(
    result: SimulateTransactionResult,
    amount: i64,
    network_load_bps: u32,
)
    ensures
        ({
            let fees = fees_of(RpcOutcome::Done(result), amount, network_load_bps);
            &&& fees.would_succeed <==> result.error is None
            &&& signed_value(result.min_resource_fee@) matches Some(n) ==> fees.resource_fee == n
            &&& signed_value(result.min_resource_fee@) is None ==> fees.resource_fee == 1_000
        }),
{
}

/// Neither the amount nor the load changes what a simulation says, and only the
/// load decides how it is priced: where two simulations ask the same fee for
/// resources, everything but whether they would succeed is the same.
pub proof fn errors_do_not_change_fees(
    one: SimulateTransactionResult,
    other: SimulateTransactionResult,
    amount: i64,
    other_amount: i64,
    network_load_bps: u32,
    other_load: u32,
)
    requires
        one.min_resource_fee@ == other.min_resource_fee@,
    ensures
        ({
            let a = fees_of(RpcOutcome::Done(one), amount, network_load_bps);
            let b = fees_of(RpcOutcome::Done(other), other_amount, network_load_bps);
            let c = fees_of(RpcOutcome::Done(one), amount, other_load);
            &&& a.base_fee == b.base_fee
            &&& a.resource_fee == b.resource_fee
            &&& a.total_fee == b.total_fee
            &&& a.surge_multiplier == b.surge_multiplier
            &&& a.high_load == b.high_load
            &&& a.would_succeed == c.would_succeed
            &&& a.resource_fee == c.resource_fee
        }),
{
}

/// Where no simulation came back, for whatever reason, the transaction is taken
/// to succeed, and its resources cost a thousandth of the amount, rounded down,
/// or 100 stroops where that is more.
pub proof fn estimates_are_a_thousandth(
    outcome: RpcOutcome<SimulateTransactionResult>,
    amount: i64,
    network_load_bps: u32,
)
    requires
        !(outcome is Done),
    ensures
        ({
            let fees = fees_of(outcome, amount, network_load_bps);
            &&& fees.would_succeed
            &&& fees.resource_fee >= 100
            &&& amount >= 100_000 ==> fees.resource_fee * 1_000 <= amount < (fees.resource_fee + 1)
                * 1_000
            &&& amount < 100_000 ==> fees.resource_fee == 100
        }),
{
}

/// The total is 100 stroops and the fee for resources, once below a load of 80
/// percent and twice from there on, and the breakdown says which.
pub proof fn totals_add_up(
    outcome: RpcOutcome<SimulateTransactionResult>,
    amount: i64,
    network_load_bps: u32,
)
    requires
        outcome matches RpcOutcome::Done(result) ==> fees_in_range(
            resource_fee_in(result.min_resource_fee@),
            network_load_bps,
        ),
    ensures
        ({
            let fees = fees_of(outcome, amount, network_load_bps);
            &&& fees.base_fee == 100
            &&& fees.high_load <==> network_load_bps >= 8_000
            &&& network_load_bps >= 8_000 ==> fees.surge_multiplier == 200 && fees.total_fee == 2 * (
            100 + fees.resource_fee)
            &&& network_load_bps < 8_000 ==> fees.surge_multiplier == 100 && fees.total_fee == 100
                + fees.resource_fee
        }),
{
    let sum = 100 + fees_of(outcome, amount, network_load_bps).resource_fee;
    assert(sum * 200 / 100 == sum * 2) by (nonlinear_arith);
    assert(sum * 100 / 100 == sum) by (nonlinear_arith);
}

/// Fees can be computed exactly where the total, in hundredths, is a number of
/// 64 bits.
pub proof fn fees_in_range_are_those_that_fit(resource_fee: i64, network_load_bps: u32)
    ensures
        fees_in_range(resource_fee, network_load_bps) <==> {
            let percent: int = if network_load_bps >= 8_000 {
                200
            } else {
                100
            };
            &&& 100 + resource_fee <= i64::MAX
            &&& i64::MIN <= (100 + resource_fee) * percent <= i64::MAX
        },
{
}

/// The text of a request is the base64 of the envelope of its call, so that the
/// function and the arguments are read out of it again.
pub proof fn requests_carry_the_call(contract: Seq<u8>, function: Seq<char>, args: Seq<ScArg>)
    requires
        call_fits(contract, encode_utf8(function), args),
    ensures
        ({
            let bytes = base64_bytes(encode_utf8(transaction_text(contract, function, args)));
            &&& bytes is Ok
            &&& bytes->Ok_0.subrange(80, 112) == contract
            &&& string_at(bytes->Ok_0, 112) is Ok
            &&& string_at(bytes->Ok_0, 112)->Ok_0.0 == function
            &&& ({
                let p = string_at(bytes->Ok_0, 112)->Ok_0.1;
                elements_at(bytes->Ok_0, p + 4, 0, args.len()) == Ok::<Seq<Seq<char>>, XdrError>(
                    arg_texts(args),
                )
            })
            &&& bytes->Ok_0 == invoke_envelope(contract, encode_utf8(function), args)
        }),
{
    base64_round_trip(invoke_envelope(contract, encode_utf8(function), args));
    envelopes_read_field_by_field(contract, encode_utf8(function), args);
    encode_utf8_valid_utf8(function);
    encode_utf8_decode_utf8(function);
}

/// A text that came back is decoded from base64 first, and then read.
pub proof fn texts_are_decoded_first(text: Seq<char>)
    ensures
        base64_bytes(encode_utf8(text)) matches Ok(bytes) ==> {
            &&& decoded_list(text) == string_list(bytes)
            &&& decoded_entry(text) == route_entry(bytes)
        },
        base64_bytes(encode_utf8(text)) matches Err(e) ==> {
            &&& decoded_list(text) == Err::<Seq<Seq<char>>, XdrError>(e)
            &&& decoded_entry(text) == Err::<Option<RouteFields>, XdrError>(e)
        },
{
}

/// A simulation asks for the function alone, without arguments and without
/// leeway, and fails only where its target is no contract.
pub proof fn what_simulations_ask(target: Seq<u8>, function: Seq<char>)
    ensures
        contract_hash(target) matches Err(e) ==> simulation_request(target, function) == Err::<
            (Seq<char>, Option<u32>),
            XdrError,
        >(e),
        contract_hash(target) is Ok && contract_hash(target)->Ok_0.len() == 32 && encode_utf8(
            function,
        ).len() < 0x1_0000_0000 ==> {
            let request = simulation_request(target, function);
            let bytes = base64_bytes(encode_utf8(request->Ok_0.0));
            &&& request is Ok
            &&& request->Ok_0.1 is None
            &&& bytes is Ok
            &&& bytes->Ok_0.subrange(80, 112) == contract_hash(target)->Ok_0
            &&& string_at(bytes->Ok_0, 112) is Ok
            &&& string_at(bytes->Ok_0, 112)->Ok_0.0 == function
            &&& bytes->Ok_0 == invoke_envelope(
                contract_hash(target)->Ok_0,
                encode_utf8(function),
                Seq::empty(),
            )
        },
{
    if contract_hash(target) is Ok && contract_hash(target)->Ok_0.len() == 32 && encode_utf8(
        function,
    ).len() < 0x1_0000_0000 {
        requests_carry_the_call(contract_hash(target)->Ok_0, function, Seq::empty());
    }
}

/// All routes are asked for as a simulation of `get_all_routes`.
pub proof fn how_routes_are_asked_for(contract_id: Seq<u8>)
    ensures
        contract_hash(contract_id) matches Err(e) ==> routes_request(contract_id) == Err::<
            (Seq<char>, Option<u32>),
            Seq<char>,
        >("invalid ROUTER_CORE_CONTRACT_ID: "@ + e.words()),
        contract_hash(contract_id) is Ok && contract_hash(contract_id)->Ok_0.len() == 32 ==> {
            let request = routes_request(contract_id);
            let bytes = base64_bytes(encode_utf8(request->Ok_0.0));
            &&& request is Ok
            &&& request->Ok_0.1 is None
            &&& bytes is Ok
            &&& bytes->Ok_0.subrange(80, 112) == contract_hash(contract_id)->Ok_0
            &&& string_at(bytes->Ok_0, 112) is Ok
            &&& string_at(bytes->Ok_0, 112)->Ok_0.0 == "get_all_routes"@
            &&& bytes->Ok_0 == invoke_envelope(
                contract_hash(contract_id)->Ok_0,
                encode_utf8("get_all_routes"@),
                Seq::empty(),
            )
        },
{
    if contract_hash(contract_id) is Ok && contract_hash(contract_id)->Ok_0.len() == 32 {
        lemma_name_is_short();
        what_simulations_ask(contract_id, "get_all_routes"@);
    }
}

/// A route is asked for by its name, as the only argument of `get_route`, with a
/// leeway of three million instructions. There is no such request where no
/// contract is configured, or one whose identifier is none.
pub proof fn how_a_route_is_asked_for(contract_id: Option<Seq<u8>>, name: &str)
    ensures
        contract_id is None ==> one_route_request(contract_id, name) == Err::<
            (Seq<char>, Option<u32>),
            Seq<char>,
        >("ROUTER_CORE_CONTRACT_ID not configured"@),
        contract_id is Some && contract_hash(contract_id->0) is Err ==> one_route_request(
            contract_id,
            name,
        ) == Err::<(Seq<char>, Option<u32>), Seq<char>>(
            "invalid ROUTER_CORE_CONTRACT_ID: "@ + contract_hash(contract_id->0)->Err_0.words(),
        ),
        contract_id is Some && contract_hash(contract_id->0) is Ok && contract_hash(
            contract_id->0,
        )->Ok_0.len() == 32 && encode_utf8(name@).len() < 0x1_0000_0000 ==> {
            let request = one_route_request(contract_id, name);
            let bytes = base64_bytes(encode_utf8(request->Ok_0.0));
            let p = string_at(bytes->Ok_0, 112)->Ok_0.1;
            &&& request is Ok
            &&& request->Ok_0.1 == Some(3_000_000u32)
            &&& bytes is Ok
            &&& bytes->Ok_0.subrange(80, 112) == contract_hash(contract_id->0)->Ok_0
            &&& string_at(bytes->Ok_0, 112) is Ok
            &&& string_at(bytes->Ok_0, 112)->Ok_0.0 == "get_route"@
            &&& elements_at(bytes->Ok_0, p + 4, 0, 1) == Ok::<Seq<Seq<char>>, XdrError>(seq![name@])
        },
{
    if contract_id is Some && contract_hash(contract_id->0) is Ok && contract_hash(
        contract_id->0,
    )->Ok_0.len() == 32 && encode_utf8(name@).len() < 0x1_0000_0000 {
        lemma_name_is_short();
        let args = seq![ScArg::String(name)];
        assert(arg_texts(args) =~= seq![name@]);
        requests_carry_the_call(contract_hash(contract_id->0)->Ok_0, "get_route"@, args);
    }
}

proof fn lemma_name_is_short()
    ensures
        encode_utf8("get_all_routes"@).len() < 0x1_0000_0000,
        encode_utf8("get_route"@).len() < 0x1_0000_0000,
{
    reveal_strlit("get_all_routes");
    reveal_strlit("get_route");
    is_ascii_chars_encode_utf8("get_all_routes"@);
    is_ascii_chars_encode_utf8("get_route"@);
}

/// The names that come back are those of the first value. There are none where
/// nothing came back, and an error of the contract comes before any value.
pub proof fn which_routes_come_back(outcome: RpcOutcome<InvokeOutcome>)
    ensures
        outcome !is Done ==> routes_in(outcome) == Ok::<Seq<Seq<char>>, Seq<char>>(seq![]),
        outcome matches RpcOutcome::Done(invoked) ==> {
            &&& invoked.error matches Some(words) ==> routes_in(outcome) == Err::<
                Seq<Seq<char>>,
                Seq<char>,
            >("contract error: "@ + words@)
            &&& invoked.error is None && invoked.results@.len() == 0 ==> routes_in(outcome) == Ok::<
                Seq<Seq<char>>,
                Seq<char>,
            >(seq![])
            &&& invoked.error is None && invoked.results@.len() > 0 ==> {
                let list = decoded_list(invoked.results@[0]@);
                &&& list is Ok ==> routes_in(outcome) == Ok::<Seq<Seq<char>>, Seq<char>>(list->Ok_0)
                &&& list is Err ==> routes_in(outcome) == Err::<Seq<Seq<char>>, Seq<char>>(
                    list->Err_0.words(),
                )
            }
        },
{
}

/// A route comes back as the first value says. There is none where there is no
/// value, and every failure on the way is told in words of its own.
pub proof fn which_route_comes_back(outcome: RpcOutcome<InvokeOutcome>)
    ensures
        outcome matches RpcOutcome::Unreachable(words) ==> route_in(outcome) == Err::<
            Option<RouteFields>,
            Seq<char>,
        >("RPC request failed: "@ + words@),
        outcome matches RpcOutcome::Unreadable(words) ==> route_in(outcome) == Err::<
            Option<RouteFields>,
            Seq<char>,
        >("Failed to parse RPC response: "@ + words@),
        outcome matches RpcOutcome::Error(words) ==> route_in(outcome) == Err::<
            Option<RouteFields>,
            Seq<char>,
        >("RPC error: "@ + words@),
        outcome is Empty ==> route_in(outcome) == Ok::<Option<RouteFields>, Seq<char>>(None),
        outcome matches RpcOutcome::Done(invoked) ==> {
            &&& invoked.error matches Some(words) ==> route_in(outcome) == Err::<
                Option<RouteFields>,
                Seq<char>,
            >("contract error: "@ + words@)
            &&& invoked.error is None && invoked.results@.len() == 0 ==> route_in(outcome) == Ok::<
                Option<RouteFields>,
                Seq<char>,
            >(None)
            &&& invoked.error is None && invoked.results@.len() > 0 ==> {
                let entry = decoded_entry(invoked.results@[0]@);
                &&& entry is Ok ==> route_in(outcome) == Ok::<Option<RouteFields>, Seq<char>>(
                    entry->Ok_0,
                )
                &&& entry is Err ==> route_in(outcome) == Err::<Option<RouteFields>, Seq<char>>(
                    entry->Err_0.words(),
                )
            }
        },
{
}

/// A request says its transaction and its leeway.
pub proof fn what_requests_say(request: RpcRequest)
    ensures
        request_parts(request).0 == request.transaction@,
        request_parts(request).1 == request.instruction_leeway,
{
}

} // verus!
