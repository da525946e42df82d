//! Calls of the Soroban RPC: what is sent, and what is made of the reply.
//!
//! Requests are sent and replies are parsed elsewhere.

use vstd::prelude::*;
use vstd::string::*;
use vstd::utf8::*;

use crate::base64::{base64_bytes, base64_text};
use crate::error::XdrError;
use crate::json::Json;
use crate::scval::{parse_route_entry, parse_string_vec};
use crate::scval::{
    route_entry, string_list, string_list_bytes, string_list_round_trip, RouteFields,
};
use crate::strkey::{contract_hash, decode_contract_id};
use crate::text::{join, parse_i64, signed_value, texts};
use crate::xdr::{build_invoke_xdr, invoke_envelope, ScArg};

verus! {

/// The fee of a transaction without its resources, in stroops.
pub const BASE_FEE: i64 = 100;

/// The fee for resources where the simulation gives none that can be read.
pub const FALLBACK_RESOURCE_FEE: i64 = 1_000;

/// From this network load on, in basis points, fees are higher.
pub const HIGH_LOAD_BPS: u32 = 8_000;

/// What a transaction is expected to cost.
#[derive(Clone, Copy, Debug, PartialEq, Eq, Structural)]
pub struct FeeBreakdown {
    pub base_fee: i64,
    pub resource_fee: i64,
    pub total_fee: i64,
    /// In percent.
    pub surge_multiplier: u32,
    pub high_load: bool,
    pub would_succeed: bool,
}

/// What a simulation says of the fees of a transaction.
#[derive(Debug)]
pub struct SimulateTransactionResult {
    pub min_resource_fee: String,
    pub error: Option<String>,
    pub events: Vec<Json>,
}

/// The percentage of the fees that is asked at a network load.
pub open spec fn surge_at(network_load_bps: u32) -> u32 {
    if network_load_bps >= HIGH_LOAD_BPS {
        200
    } else {
        100
    }
}

/// The fees for these resources at a network load.
pub open spec fn fees_for(
    resource_fee: i64,
    network_load_bps: u32,
    would_succeed: bool,
) -> FeeBreakdown {
    let surge = surge_at(network_load_bps);
    FeeBreakdown {
        base_fee: BASE_FEE,
        resource_fee,
        total_fee: ((BASE_FEE + resource_fee) * surge / 100) as i64,
        surge_multiplier: surge,
        high_load: network_load_bps >= HIGH_LOAD_BPS,
        would_succeed,
    }
}

/// Whether the fees for these resources can be computed.
pub open spec fn fees_in_range(resource_fee: i64, network_load_bps: u32) -> bool {
    &&& BASE_FEE + resource_fee <= i64::MAX
    &&& i64::MIN <= (BASE_FEE + resource_fee) * surge_at(network_load_bps) <= i64::MAX
}

/// The fee for resources that a simulation asks.
pub open spec fn resource_fee_in(text: Seq<char>) -> i64 {
    match signed_value(text) {
        Some(n) => n as i64,
        None => FALLBACK_RESOURCE_FEE,
    }
}

/// The fee for resources that an amount stands for where there is no simulation:
/// a thousandth of it, and 100 stroops at least.
pub open spec fn heuristic_resource_fee(amount: i64) -> i64 {
    if amount >= 100_000 {
        (amount / 1_000) as i64
    } else {
        100
    }
}

/// The fees of a transaction: as its simulation says where there is one, and
/// estimated from the amount where there is none.
pub open spec fn fees_of(
    outcome: RpcOutcome<SimulateTransactionResult>,
    amount: i64,
    network_load_bps: u32,
) -> FeeBreakdown {
    match outcome {
        RpcOutcome::Done(result) => fees_for(
            resource_fee_in(result.min_resource_fee@),
            network_load_bps,
            result.error is None,
        ),
        _ => fees_for(heuristic_resource_fee(amount), network_load_bps, true),
    }
}

fn fees(resource_fee: i64, network_load_bps: u32, would_succeed: bool) -> (fees: FeeBreakdown)
    requires
        fees_in_range(resource_fee, network_load_bps),
    ensures
        fees == fees_for(resource_fee, network_load_bps, would_succeed),
{
    let high_load = network_load_bps >= HIGH_LOAD_BPS;
    let surge_multiplier: u32 = if high_load {
        200
    } else {
        100
    };
    let sum: i64 = BASE_FEE + resource_fee;
    let total_fee: i64 = if high_load {
        assert(sum * 200 / 100 == sum * 2) by (nonlinear_arith);
        sum * 2
    } else {
        assert(sum * 100 / 100 == sum) by (nonlinear_arith);
        sum
    };
    FeeBreakdown {
        base_fee: BASE_FEE,
        resource_fee,
        total_fee,
        surge_multiplier,
        high_load,
        would_succeed,
    }
}

/// Whether the fees for these resources can be computed.
pub fn fees_fit(resource_fee: i64, network_load_bps: u32) -> (fit: bool)
    ensures
        fit == fees_in_range(resource_fee, network_load_bps),
{
    let surge: i128 = if network_load_bps >= HIGH_LOAD_BPS {
        200
    } else {
        100
    };
    let sum: i128 = BASE_FEE as i128 + resource_fee as i128;
    let product: i128 = sum * surge;
    sum <= i64::MAX as i128 && i64::MIN as i128 <= product && product <= i64::MAX as i128
}

/// A request for a simulation.
#[derive(Debug)]
pub struct RpcRequest {
    /// The transaction envelope in base64.
    pub transaction: String,
    /// The leeway for instructions, if one is asked for.
    pub instruction_leeway: Option<u32>,
}

impl RpcRequest {
    /// The method that is called.
    pub fn method(&self) -> (method: &'static str)
        ensures
            method@ == "simulateTransaction"@,
    {
        "simulateTransaction"
    }
}

/// What came back of a request.
#[derive(Debug)]
pub enum RpcOutcome<T> {
    /// It could not be sent, for a reason.
    Unreachable(String),
    /// The response could not be read, for a reason.
    Unreadable(String),
    /// The server reported an error.
    Error(String),
    /// The response had neither an error nor a result.
    Empty,
    /// The result.
    Done(T),
}

impl<T> RpcOutcome<T> {
    /// What a response says: its error where it has one, else its result.
    pub fn of_response(error: Option<String>, result: Option<T>) -> (outcome: RpcOutcome<T>)
        ensures
            outcome == match (error, result) {
                (Some(words), _) => RpcOutcome::Error(words),
                (None, Some(result)) => RpcOutcome::Done(result),
                (None, None) => RpcOutcome::Empty,
            },
    {
        match (error, result) {
            (Some(words), _) => RpcOutcome::Error(words),
            (None, Some(result)) => RpcOutcome::Done(result),
            (None, None) => RpcOutcome::Empty,
        }
    }

    /// What came of a request that may not have been built: where it was not, it
    /// could not be sent.
    pub fn of_request(sent: Result<RpcOutcome<T>, XdrError>) -> (outcome: RpcOutcome<T>)
        ensures
            match sent {
                Ok(received) => outcome == received,
                Err(e) => outcome is Unreachable && outcome->Unreachable_0@ == e.words(),
            },
    {
        match sent {
            Ok(received) => received,
            Err(e) => RpcOutcome::Unreachable(e.message()),
        }
    }
}

/// What a simulated call returned: an error of the contract, or values in base64.
#[derive(Debug)]
pub struct InvokeOutcome {
    pub error: Option<String>,
    pub results: Vec<String>,
}

/// Why a call did not come to a result.
#[derive(Debug)]
pub enum RpcError {
    /// No router contract is configured.
    NotConfigured,
    /// The identifier of the router contract is none.
    InvalidContract(XdrError),
    /// The request could not be sent.
    RequestFailed(String),
    /// The response could not be read.
    ResponseUnreadable(String),
    /// The server reported an error.
    Server(String),
    /// The contract reported an error.
    Contract(String),
    /// The value returned could not be read.
    Undecodable(XdrError),
}

impl RpcError {
    /// The error in words.
    pub open spec fn words(self) -> Seq<char> {
        match self {
            RpcError::NotConfigured => "ROUTER_CORE_CONTRACT_ID not configured"@,
            RpcError::InvalidContract(e) => "invalid ROUTER_CORE_CONTRACT_ID: "@ + e.words(),
            RpcError::RequestFailed(e) => "RPC request failed: "@ + e@,
            RpcError::ResponseUnreadable(e) => "Failed to parse RPC response: "@ + e@,
            RpcError::Server(e) => "RPC error: "@ + e@,
            RpcError::Contract(e) => "contract error: "@ + e@,
            RpcError::Undecodable(e) => e.words(),
        }
    }

    /// The error in words.
    pub fn message(&self) -> (message: String)
        ensures
            message@ == self.words(),
    {
        match self {
            RpcError::NotConfigured => "ROUTER_CORE_CONTRACT_ID not configured".to_string(),
            RpcError::InvalidContract(e) => {
                let words = e.message();
                join("invalid ROUTER_CORE_CONTRACT_ID: ", words.as_str())
            },
            RpcError::RequestFailed(e) => join("RPC request failed: ", e.as_str()),
            RpcError::ResponseUnreadable(e) => join("Failed to parse RPC response: ", e.as_str()),
            RpcError::Server(e) => join("RPC error: ", e.as_str()),
            RpcError::Contract(e) => join("contract error: ", e.as_str()),
            RpcError::Undecodable(e) => e.message(),
        }
    }
}

/// What is known of a route.
#[derive(Debug)]
pub struct RouteEntryResponse {
    pub address: String,
    pub name: String,
    pub paused: bool,
    pub updated_by: String,
    /// Metadata is stored elsewhere and not fetched.
    pub metadata: Option<Json>,
}

impl RouteEntryResponse {
    /// What the entry says.
    pub open spec fn fields(self) -> RouteFields {
        RouteFields {
            address: self.address@,
            name: self.name@,
            paused: self.paused,
            updated_by: self.updated_by@,
        }
    }
}

/// The text of the transaction that calls `function` of the contract.
pub open spec fn transaction_text(contract: Seq<u8>, function: Seq<char>, args: Seq<ScArg>) -> Seq<
    char,
> {
    base64_text(invoke_envelope(contract, encode_utf8(function), args))
}

/// What a request says: its transaction, and its leeway.
pub open spec fn request_parts(request: RpcRequest) -> (Seq<char>, Option<u32>) {
    (request.transaction@, request.instruction_leeway)
}

/// What the request says that simulates a call without arguments.
pub open spec fn simulation_request(target: Seq<u8>, function: Seq<char>) -> Result<
    (Seq<char>, Option<u32>),
    XdrError,
> {
    match contract_hash(target) {
        Ok(hash) => Ok((transaction_text(hash, function, Seq::empty()), None)),
        Err(e) => Err(e),
    }
}

/// What the request for the names of all routes says, or why there is none, in
/// words.
pub open spec fn routes_request(contract_id: Seq<u8>) -> Result<
    (Seq<char>, Option<u32>),
    Seq<char>,
> {
    match simulation_request(contract_id, "get_all_routes"@) {
        Ok(parts) => Ok(parts),
        Err(e) => Err("invalid ROUTER_CORE_CONTRACT_ID: "@ + e.words()),
    }
}

/// What the request for a route says, or why there is none, in words.
pub open spec fn one_route_request(contract_id: Option<Seq<u8>>, name: &str) -> Result<
    (Seq<char>, Option<u32>),
    Seq<char>,
> {
    match contract_id {
        None => Err("ROUTER_CORE_CONTRACT_ID not configured"@),
        Some(id) => match contract_hash(id) {
            Ok(hash) => Ok(
                (
                    transaction_text(hash, "get_route"@, seq![ScArg::String(name)]),
                    Some(3_000_000u32),
                ),
            ),
            Err(e) => Err("invalid ROUTER_CORE_CONTRACT_ID: "@ + e.words()),
        },
    }
}

/// The names of the routes that came back, or why there are none, in words.
pub open spec fn routes_in(outcome: RpcOutcome<InvokeOutcome>) -> Result<
    Seq<Seq<char>>,
    Seq<char>,
> {
    match outcome {
        RpcOutcome::Done(invoked) => match invoked.error {
            Some(words) => Err("contract error: "@ + words@),
            None => if invoked.results@.len() == 0 {
                Ok(Seq::empty())
            } else {
                match decoded_list(invoked.results@[0]@) {
                    Ok(names) => Ok(names),
                    Err(e) => Err(e.words()),
                }
            },
        },
        _ => Ok(Seq::empty()),
    }
}

/// The route that came back, if there is one, or why it cannot be known, in
/// words.
pub open spec fn route_in(outcome: RpcOutcome<InvokeOutcome>) -> Result<
    Option<RouteFields>,
    Seq<char>,
> {
    match outcome {
        RpcOutcome::Unreachable(words) => Err("RPC request failed: "@ + words@),
        RpcOutcome::Unreadable(words) => Err("Failed to parse RPC response: "@ + words@),
        RpcOutcome::Error(words) => Err("RPC error: "@ + words@),
        RpcOutcome::Empty => Ok(None),
        RpcOutcome::Done(invoked) => match invoked.error {
            Some(words) => Err("contract error: "@ + words@),
            None => if invoked.results@.len() == 0 {
                Ok(None)
            } else {
                match decoded_entry(invoked.results@[0]@) {
                    Ok(entry) => Ok(entry),
                    Err(e) => Err(e.words()),
                }
            },
        },
    }
}

/// Where requests go, and which router contract they ask.
#[derive(Debug)]
pub struct SorobanRpcClient {
    pub rpc_url: String,
    pub router_core_contract_id: Option<String>,
}

impl SorobanRpcClient {
    /// A client.
    pub fn new(rpc_url: String, router_core_contract_id: Option<String>) -> (client: Self)
        ensures
            client.rpc_url == rpc_url,
            client.router_core_contract_id == router_core_contract_id,
    {
        SorobanRpcClient { rpc_url, router_core_contract_id }
    }

    /// The request that simulates a call without arguments, or why `target` is
    /// no contract.
    pub fn simulate_request(target: &str, function: &str) -> (request: Result<RpcRequest, XdrError>)
        ensures
            match request {
                Ok(r) => contract_hash(target.spec_bytes()) is Ok && r.transaction@
                    == transaction_text(
                    contract_hash(target.spec_bytes())->Ok_0,
                    function@,
                    Seq::empty(),
                ) && r.instruction_leeway is None,
                Err(e) => contract_hash(target.spec_bytes()) == Err::<Seq<u8>, XdrError>(e),
            },
            simulation_request(target.spec_bytes(), function@) == match request {
                Ok(r) => Ok::<(Seq<char>, Option<u32>), XdrError>(request_parts(r)),
                Err(e) => Err(e),
            },
    {
        match decode_contract_id(target) {
            Err(e) => Err(e),
            Ok(hash) => {
                let args: [ScArg; 0] = [];
                assert(args@ =~= Seq::empty());
                Ok(
                    RpcRequest {
                        transaction: build_invoke_xdr(&hash, function, args.as_slice()),
                        instruction_leeway: None,
                    },
                )
            },
        }
    }

    /// The fee for resources that a simulation asks.
    pub fn resource_fee(result: &SimulateTransactionResult) -> (fee: i64)
        ensures
            fee == resource_fee_in(result.min_resource_fee@),
    {
        match parse_i64(result.min_resource_fee.as_str()) {
            Some(n) => n,
            None => FALLBACK_RESOURCE_FEE,
        }
    }

    /// The fees of a transaction, as its simulation says, or estimated from the
    /// amount where there is no simulation.
    pub fn simulate(
        outcome: &RpcOutcome<SimulateTransactionResult>,
        amount: i64,
        network_load_bps: u32,
    ) -> (fees: FeeBreakdown)
        requires
            outcome matches RpcOutcome::Done(result) ==> fees_in_range(
                resource_fee_in(result.min_resource_fee@),
                network_load_bps,
            ),
        ensures
            fees == match *outcome {
                RpcOutcome::Done(result) => fees_for(
                    resource_fee_in(result.min_resource_fee@),
                    network_load_bps,
                    result.error is None,
                ),
                _ => fees_for(heuristic_resource_fee(amount), network_load_bps, true),
            },
            fees == fees_of(*outcome, amount, network_load_bps),
            *outcome matches RpcOutcome::Done(result) ==> fees.would_succeed
                == result.error is None,
    {
        match outcome {
            RpcOutcome::Done(result) => {
                let would_succeed = result.error.is_none();
                self::fees(Self::resource_fee(result), network_load_bps, would_succeed)
            },
            _ => Self::heuristic_estimate(amount, network_load_bps),
        }
    }

    /// The fees of a transaction, estimated from its amount.
    pub fn heuristic_estimate(amount: i64, network_load_bps: u32) -> (fees: FeeBreakdown)
        ensures
            fees == fees_for(heuristic_resource_fee(amount), network_load_bps, true),
            fees == fees_of(RpcOutcome::Empty, amount, network_load_bps),
    {
        let resource_fee: i64 = if amount >= 100_000 {
            amount / 1_000
        } else {
            100
        };
        self::fees(resource_fee, network_load_bps, true)
    }

    /// The request for the names of all routes of a router contract.
    pub fn all_routes_request(contract_id: &str) -> (request: Result<RpcRequest, RpcError>)
        ensures
            match request {
                Ok(r) => contract_hash(contract_id.spec_bytes()) is Ok && r.transaction@
                    == transaction_text(
                    contract_hash(contract_id.spec_bytes())->Ok_0,
                    "get_all_routes"@,
                    Seq::empty(),
                ) && r.instruction_leeway is None,
                Err(e) => e is InvalidContract && contract_hash(contract_id.spec_bytes()) == Err::<
                    Seq<u8>,
                    XdrError,
                >(e->InvalidContract_0),
            },
            routes_request(contract_id.spec_bytes()) == match request {
                Ok(r) => Ok::<(Seq<char>, Option<u32>), Seq<char>>(request_parts(r)),
                Err(e) => Err(e.words()),
            },
    {
        match Self::simulate_request(contract_id, "get_all_routes") {
            Ok(request) => Ok(request),
            Err(e) => Err(RpcError::InvalidContract(e)),
        }
    }

    /// The names of all routes, out of what came back. Where the server could
    /// not be asked there are none.
    pub fn get_all_routes(outcome: RpcOutcome<InvokeOutcome>) -> (routes: Result<
        Vec<String>,
        RpcError,
    >)
        ensures
            match (outcome, routes) {
                (RpcOutcome::Done(invoked), Ok(v)) => invoked.error is None && (
                if invoked.results@.len() == 0 {
                    v@.len() == 0
                } else {
                    decoded_list(invoked.results@[0]@) == Ok::<Seq<Seq<char>>, XdrError>(texts(v@))
                }),
                (RpcOutcome::Done(invoked), Err(e)) => match invoked.error {
                    Some(words) => e is Contract && e->Contract_0@ == words@,
                    None => invoked.results@.len() > 0 && e is Undecodable && decoded_list(
                        invoked.results@[0]@,
                    ) == Err::<Seq<Seq<char>>, XdrError>(e->Undecodable_0),
                },
                (_, Ok(v)) => v@.len() == 0,
                (_, Err(_)) => false,
            },
            routes_in(outcome) == match routes {
                Ok(v) => Ok::<Seq<Seq<char>>, Seq<char>>(texts(v@)),
                Err(e) => Err(e.words()),
            },
    {
        match outcome {
            RpcOutcome::Done(invoked) => {
                match invoked.error {
                    Some(words) => {
                        return Err(RpcError::Contract(words));
                    },
                    None => {},
                }
                if invoked.results.len() == 0 {
                    let none: Vec<String> = Vec::new();
                    assert(texts(none@) =~= Seq::empty());
                    return Ok(none);
                }
                match parse_string_vec(invoked.results[0].as_str()) {
                    Ok(routes) => Ok(routes),
                    Err(e) => Err(RpcError::Undecodable(e)),
                }
            },
            _ => {
                let none: Vec<String> = Vec::new();
                assert(texts(none@) =~= Seq::empty());
                Ok(none)
            },
        }
    }

    /// The request for a route of the configured router contract.
    pub fn route_request(&self, name: &str) -> (request: Result<RpcRequest, RpcError>)
        ensures
            match request {
                Ok(r) => {
                    &&& self.router_core_contract_id is Some
                    &&& contract_hash(encode_utf8(self.router_core_contract_id->0@)) is Ok
                    &&& r.transaction@ == transaction_text(
                        contract_hash(encode_utf8(self.router_core_contract_id->0@))->Ok_0,
                        "get_route"@,
                        seq![ScArg::String(name)],
                    )
                    &&& r.instruction_leeway == Some(3_000_000u32)
                },
                Err(e) => match self.router_core_contract_id {
                    None => e is NotConfigured,
                    Some(id) => e is InvalidContract && contract_hash(encode_utf8(id@)) == Err::<
                        Seq<u8>,
                        XdrError,
                    >(e->InvalidContract_0),
                },
            },
            one_route_request(
                match self.router_core_contract_id {
                    Some(id) => Some(encode_utf8(id@)),
                    None => None,
                },
                name,
            ) == match request {
                Ok(r) => Ok::<(Seq<char>, Option<u32>), Seq<char>>(request_parts(r)),
                Err(e) => Err(e.words()),
            },
    {
        match &self.router_core_contract_id {
            None => Err(RpcError::NotConfigured),
            Some(id) => match decode_contract_id(id.as_str()) {
                Err(e) => Err(RpcError::InvalidContract(e)),
                Ok(hash) => {
                    let args: [ScArg; 1] = [ScArg::String(name)];
                    assert(args@ =~= seq![ScArg::String(name)]);
                    Ok(
                        RpcRequest {
                            transaction: build_invoke_xdr(&hash, "get_route", args.as_slice()),
                            instruction_leeway: Some(3_000_000),
                        },
                    )
                },
            },
        }
    }

    /// A route, out of what came back. `None` stands for a route that does not
    /// exist.
    pub fn get_route(outcome: RpcOutcome<InvokeOutcome>) -> (route: Result<
        Option<RouteEntryResponse>,
        RpcError,
    >)
        ensures
            match (outcome, route) {
                (RpcOutcome::Unreachable(words), Err(e)) => e is RequestFailed
                    && e->RequestFailed_0@ == words@,
                (RpcOutcome::Unreadable(words), Err(e)) => e is ResponseUnreadable
                    && e->ResponseUnreadable_0@ == words@,
                (RpcOutcome::Error(words), Err(e)) => e is Server && e->Server_0@ == words@,
                (RpcOutcome::Empty, Ok(None)) => true,
                (RpcOutcome::Done(invoked), Ok(entry)) => invoked.error is None && (
                if invoked.results@.len() == 0 {
                    entry is None
                } else {
                    match entry {
                        None => decoded_entry(invoked.results@[0]@) == Ok::<
                            Option<RouteFields>,
                            XdrError,
                        >(None),
                        Some(entry) => entry.metadata is None && decoded_entry(
                            invoked.results@[0]@,
                        ) == Ok::<Option<RouteFields>, XdrError>(Some(entry.fields())),
                    }
                }),
                (RpcOutcome::Done(invoked), Err(e)) => match invoked.error {
                    Some(words) => e is Contract && e->Contract_0@ == words@,
                    None => invoked.results@.len() > 0 && e is Undecodable && decoded_entry(
                        invoked.results@[0]@,
                    ) == Err::<Option<RouteFields>, XdrError>(e->Undecodable_0),
                },
                _ => false,
            },
            route_in(outcome) == match route {
                Ok(Some(entry)) => Ok::<Option<RouteFields>, Seq<char>>(Some(entry.fields())),
                Ok(None) => Ok(None),
                Err(e) => Err(e.words()),
            },
            route matches Ok(Some(entry)) ==> entry.metadata is None,
    {
        match outcome {
            RpcOutcome::Unreachable(words) => Err(RpcError::RequestFailed(words)),
            RpcOutcome::Unreadable(words) => Err(RpcError::ResponseUnreadable(words)),
            RpcOutcome::Error(words) => Err(RpcError::Server(words)),
            RpcOutcome::Empty => Ok(None),
            RpcOutcome::Done(invoked) => {
                match invoked.error {
                    Some(words) => {
                        return Err(RpcError::Contract(words));
                    },
                    None => {},
                }
                if invoked.results.len() == 0 {
                    return Ok(None);
                }
                match parse_route_entry(invoked.results[0].as_str()) {
                    Err(e) => Err(RpcError::Undecodable(e)),
                    Ok(None) => Ok(None),
                    Ok(Some(entry)) => Ok(
                        Some(
                            RouteEntryResponse {
                                address: entry.address,
                                name: entry.name,
                                paused: entry.paused,
                                updated_by: entry.updated_by,
                                metadata: None,
                            },
                        ),
                    ),
                }
            },
        }
    }
}

/// The list of strings that a base64 text holds.
pub open spec fn decoded_list(text: Seq<char>) -> Result<Seq<Seq<char>>, XdrError> {
    match base64_bytes(encode_utf8(text)) {
        Err(e) => Err(e),
        Ok(bytes) => string_list(bytes),
    }
}

/// The route entry that a base64 text holds.
pub open spec fn decoded_entry(text: Seq<char>) -> Result<Option<RouteFields>, XdrError> {
    match base64_bytes(encode_utf8(text)) {
        Err(e) => Err(e),
        Ok(bytes) => route_entry(bytes),
    }
}

// ── What holds of fees and routes ───────────────────────────────────────────

/// Fees are never less than the base fee where resources cost something, high
/// load doubles them, and it is high from the limit on.
pub proof fn fees_grow_with_load(resource_fee: i64, low: u32, high: u32, succeed: bool)
    requires
        0 <= resource_fee,
        fees_in_range(resource_fee, high),
        low < HIGH_LOAD_BPS <= high,
    ensures
        fees_for(resource_fee, low, succeed).total_fee == BASE_FEE + resource_fee,
        fees_for(resource_fee, low, succeed).total_fee >= fees_for(
            resource_fee,
            low,
            succeed,
        ).base_fee,
        fees_for(resource_fee, high, succeed).total_fee == 2 * fees_for(
            resource_fee,
            low,
            succeed,
        ).total_fee,
        !fees_for(resource_fee, low, succeed).high_load,
        fees_for(resource_fee, high, succeed).high_load,
{
    let sum = BASE_FEE + resource_fee;
    assert(sum * 200 / 100 == sum * 2) by (nonlinear_arith);
    assert(sum * 100 / 100 == sum) by (nonlinear_arith);
}

/// An estimate can always be computed, costs at least 200 stroops, and costs no
/// less for a larger amount.
pub proof fn estimates_are_sound(amount: i64, larger: i64, network_load_bps: u32)
    requires
        amount <= larger,
    ensures
        fees_in_range(heuristic_resource_fee(amount), network_load_bps),
        fees_for(heuristic_resource_fee(amount), network_load_bps, true).total_fee >= 200,
        fees_for(heuristic_resource_fee(amount), network_load_bps, true).total_fee <= fees_for(
            heuristic_resource_fee(larger),
            network_load_bps,
            true,
        ).total_fee,
{
    let a = heuristic_resource_fee(amount);
    let b = heuristic_resource_fee(larger);
    assert(100 <= a <= b);
    let x = BASE_FEE + a;
    let y = BASE_FEE + b;
    assert(x * 200 / 100 == x * 2 && y * 200 / 100 == y * 2) by (nonlinear_arith);
    assert(x * 100 / 100 == x && y * 100 / 100 == y) by (nonlinear_arith);
}

/// The names that a router contract returns are the names that come out,
/// whatever follows them.
pub proof fn routes_are_read_back(list: Seq<Seq<char>>, tail: Seq<u8>)
    requires
        list.len() < 0x1_0000_0000,
        forall|k: int| 0 <= k < list.len() ==> encode_utf8(#[trigger] list[k]).len() < 0x1_0000_0000,
    ensures
        decoded_list(base64_text(string_list_bytes(list) + tail)) == Ok::<
            Seq<Seq<char>>,
            XdrError,
        >(list),
{
    string_list_round_trip(list, tail);
}

} // verus!
