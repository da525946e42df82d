//! Fees and routes out of replies.

use stellar_router::base64::{base64_decode, base64_encode};
use stellar_router::error::XdrError;
use stellar_router::rpc::{
    fees_fit, FeeBreakdown, InvokeOutcome, RpcError, RpcOutcome, SimulateTransactionResult,
    SorobanRpcClient,
};
use stellar_router::strkey::encode_contract_strkey;
use stellar_router::xdr::{build_invoke_xdr, ScArg, XdrWriter};

const ZERO_CONTRACT: &str = "CAAAAAAAAAAAAAAAAAAAAAAAAAAAAAAAAAAAAAAAAAAAAAAAAAAABSC4";

fn simulated(fee: &str, error: Option<&str>) -> RpcOutcome<SimulateTransactionResult> {
    RpcOutcome::Done(SimulateTransactionResult {
        min_resource_fee: fee.to_string(),
        error: error.map(|e| e.to_string()),
        events: vec![],
    })
}

#[test]
fn fees_of_a_simulation() {
    assert_eq!(
        SorobanRpcClient::simulate(&simulated("1000", None), 5, 5_000),
        FeeBreakdown {
            base_fee: 100,
            resource_fee: 1000,
            total_fee: 1100,
            surge_multiplier: 100,
            high_load: false,
            would_succeed: true,
        }
    );
    let high = SorobanRpcClient::simulate(&simulated("250", Some("boom")), 5, 8_000);
    assert_eq!((high.total_fee, high.surge_multiplier), (700, 200));
    assert!(high.high_load);
    assert!(!high.would_succeed);
    // A fee that cannot be read is taken for 1000.
    assert_eq!(SorobanRpcClient::simulate(&simulated("", None), 5, 0).resource_fee, 1000);
    assert_eq!(SorobanRpcClient::simulate(&simulated("-50", None), 5, 0).total_fee, 50);
}

#[test]
fn outcomes_of_responses() {
    let error = || Some("boom".to_string());
    assert!(matches!(RpcOutcome::of_response(error(), Some(3)), RpcOutcome::Error(e) if e == "boom"));
    assert!(matches!(RpcOutcome::<u8>::of_response(error(), None), RpcOutcome::Error(_)));
    assert!(matches!(RpcOutcome::of_response(None, Some(3)), RpcOutcome::Done(3)));
    assert!(matches!(RpcOutcome::<u8>::of_response(None, None), RpcOutcome::Empty));
}

#[test]
fn requests_that_cannot_be_built_are_estimated() {
    let refused = SorobanRpcClient::simulate_request("no contract", "swap").unwrap_err();
    let outcome = RpcOutcome::of_request(Err(refused));
    assert!(
        matches!(&outcome, RpcOutcome::Unreachable(e) if *e == "strkey must be 56 chars, got 11")
    );
    assert_eq!(
        SorobanRpcClient::simulate(&outcome, 1_000_000, 9_000),
        SorobanRpcClient::heuristic_estimate(1_000_000, 9_000)
    );
    let sent = RpcOutcome::of_request(Ok(simulated("250", None)));
    assert_eq!(SorobanRpcClient::simulate(&sent, 1_000_000, 0).resource_fee, 250);
}

#[test]
fn surge_pricing_at_high_load() {
    let fees = SorobanRpcClient::simulate(&RpcOutcome::Empty, 1_000_000, 9000);
    assert!(fees.high_load);
    assert_eq!(fees.surge_multiplier, 200);
    assert_eq!((fees.resource_fee, fees.total_fee), (1000, 2200));
    assert!(fees.would_succeed);
    assert!(!SorobanRpcClient::heuristic_estimate(0, 7_999).high_load);
}

#[test]
fn estimates() {
    let fee = |amount: i64| SorobanRpcClient::heuristic_estimate(amount, 0).resource_fee;
    assert_eq!(fee(0), 100);
    assert_eq!(fee(-5_000_000), 100);
    assert_eq!(fee(100_999), 100);
    assert_eq!(fee(101_000), 101);
    assert_eq!(fee(i64::MAX), i64::MAX / 1000);
    let unreachable = RpcOutcome::Unreachable("down".to_string());
    assert_eq!(
        SorobanRpcClient::simulate(&unreachable, 101_000, 0),
        SorobanRpcClient::heuristic_estimate(101_000, 0)
    );
    let error = RpcOutcome::Error("bad".to_string());
    assert_eq!(SorobanRpcClient::simulate(&error, 0, 0).total_fee, 200);
}

#[test]
fn fees_that_do_not_fit() {
    assert!(fees_fit(i64::MAX / 100 - 100, 0));
    assert!(!fees_fit(i64::MAX / 100, 0));
    assert!(!fees_fit(i64::MAX / 100 - 100, 8_000));
    assert!(!fees_fit(i64::MAX, 0));
    assert!(!fees_fit(i64::MIN, 0));
}

#[test]
fn requests() {
    let request = SorobanRpcClient::simulate_request(ZERO_CONTRACT, "transfer").unwrap();
    assert_eq!(request.transaction, build_invoke_xdr(&[0; 32], "transfer", &[]));
    assert_eq!(request.instruction_leeway, None);
    assert_eq!(request.method(), "simulateTransaction");
    assert_eq!(
        SorobanRpcClient::simulate_request("short", "f").unwrap_err(),
        XdrError::StrkeyLength { len: 5 }
    );
    let routes = SorobanRpcClient::all_routes_request(ZERO_CONTRACT).unwrap();
    assert_eq!(routes.transaction, build_invoke_xdr(&[0; 32], "get_all_routes", &[]));
    assert_eq!(&base64_decode(&routes.transaction).unwrap()[0..4], &[0, 0, 0, 2]);
    let id = encode_contract_strkey(&[5; 32]);
    let client = SorobanRpcClient::new("http://localhost:1".to_string(), Some(id));
    assert_eq!(client.rpc_url, "http://localhost:1");
    let route = client.route_request("oracle").unwrap();
    assert_eq!(
        route.transaction,
        build_invoke_xdr(&[5; 32], "get_route", &[ScArg::String("oracle")])
    );
    assert_eq!(route.instruction_leeway, Some(3_000_000));
}

#[test]
fn request_errors() {
    let none = SorobanRpcClient::new(String::new(), None);
    assert_eq!(
        none.route_request("oracle").unwrap_err().message(),
        "ROUTER_CORE_CONTRACT_ID not configured"
    );
    let bad = SorobanRpcClient::new(String::new(), Some("C1".to_string()));
    assert_eq!(
        bad.route_request("oracle").unwrap_err().message(),
        "invalid ROUTER_CORE_CONTRACT_ID: strkey must be 56 chars, got 2"
    );
    assert!(matches!(
        SorobanRpcClient::all_routes_request(""),
        Err(RpcError::InvalidContract(XdrError::StrkeyLength { len: 0 }))
    ));
}

fn invoked(error: Option<&str>, results: Vec<String>) -> RpcOutcome<InvokeOutcome> {
    RpcOutcome::Done(InvokeOutcome { error: error.map(|e| e.to_string()), results })
}

fn list_text(names: &[&str]) -> String {
    let mut w = XdrWriter::new();
    w.u32(16);
    w.u32(1);
    w.u32(names.len() as u32);
    for name in names {
        w.u32(14);
        w.opaque_var(name.as_bytes());
    }
    base64_encode(&w.into_bytes())
}

#[test]
fn all_routes() {
    let routes = SorobanRpcClient::get_all_routes(invoked(None, vec![list_text(&["a", "bc"])]));
    assert_eq!(routes.unwrap(), vec!["a".to_string(), "bc".to_string()]);
    assert!(SorobanRpcClient::get_all_routes(invoked(None, vec![])).unwrap().is_empty());
    // Where the server cannot be asked, the list is empty.
    let gone = RpcOutcome::Unreachable("x".to_string());
    assert!(SorobanRpcClient::get_all_routes(gone).unwrap().is_empty());
    let odd = RpcOutcome::Unreadable("x".to_string());
    assert!(SorobanRpcClient::get_all_routes(odd).unwrap().is_empty());
    let error = RpcOutcome::Error("x".to_string());
    assert!(SorobanRpcClient::get_all_routes(error).unwrap().is_empty());
    assert!(SorobanRpcClient::get_all_routes(RpcOutcome::Empty).unwrap().is_empty());
}

#[test]
fn all_routes_errors() {
    let contract = SorobanRpcClient::get_all_routes(invoked(Some("trap"), vec![]));
    assert_eq!(contract.unwrap_err().message(), "contract error: trap");
    let garbled = SorobanRpcClient::get_all_routes(invoked(None, vec!["!".to_string()]));
    assert_eq!(garbled.unwrap_err().message(), "invalid base64 length");
}

fn entry_text(hash: u8) -> String {
    let mut w = XdrWriter::new();
    w.u32(17);
    w.u32(1);
    w.u32(2);
    w.u32(15);
    w.opaque_var(b"address");
    w.u32(18);
    w.u32(1);
    w.opaque_fixed(&[hash; 32]);
    w.u32(15);
    w.opaque_var(b"name");
    w.u32(14);
    w.opaque_var(b"vault");
    base64_encode(&w.into_bytes())
}

#[test]
fn one_route() {
    let route = SorobanRpcClient::get_route(invoked(None, vec![entry_text(7)])).unwrap().unwrap();
    assert_eq!(route.address, encode_contract_strkey(&[7; 32]));
    assert_eq!(route.name, "vault");
    assert!(!route.paused);
    assert_eq!(route.updated_by, "");
    assert!(route.metadata.is_none());
    let void = base64_encode(&[0, 0, 0, 1]);
    assert!(SorobanRpcClient::get_route(invoked(None, vec![void])).unwrap().is_none());
    assert!(SorobanRpcClient::get_route(invoked(None, vec![])).unwrap().is_none());
    assert!(SorobanRpcClient::get_route(RpcOutcome::Empty).unwrap().is_none());
}

#[test]
fn one_route_errors() {
    let words = |outcome| SorobanRpcClient::get_route(outcome).unwrap_err().message();
    assert_eq!(words(RpcOutcome::Unreachable("x".to_string())), "RPC request failed: x");
    assert_eq!(words(RpcOutcome::Unreadable("x".to_string())), "Failed to parse RPC response: x");
    assert_eq!(words(RpcOutcome::Error("x".to_string())), "RPC error: x");
    assert_eq!(words(invoked(Some("x"), vec![])), "contract error: x");
    let vector = base64_encode(&[0, 0, 0, 16]);
    assert_eq!(words(invoked(None, vec![vector])), "expected SCV_MAP(17) or SCV_VOID(1), got 16");
}

#[test]
fn error_words() {
    assert_eq!(
        XdrError::Underflow { pos: 4, need: 8, have: 2 }.message(),
        "XDR underflow at pos 4 (need 8 bytes, have 2)"
    );
    assert_eq!(
        XdrError::StrkeyVersion { version: 0x30 }.message(),
        "expected contract strkey (C\u{2026}), got version 0x30"
    );
    assert_eq!(
        XdrError::Base32Character { byte: b'1' }.message(),
        "invalid base32 character '1'"
    );
    assert_eq!(
        XdrError::NotAString { index: 3, found: 15 }.message(),
        "vec element 3 has type 15 (expected SCV_STRING=14)"
    );
    assert_eq!(XdrError::UnknownAddress { found: 9 }.message(), "unknown SCAddress type 9");
    assert_eq!(
        XdrError::UnknownSkippedAddress { found: 9 }.message(),
        "unknown address type 9 in skip"
    );
    assert_eq!(
        XdrError::UnknownSkippedValue { found: 99 }.message(),
        "unknown ScVal type 99 in skip"
    );
    assert_eq!(XdrError::StrkeyChecksum.message(), "strkey checksum mismatch");
    assert_eq!(
        XdrError::StringEncoding { valid_up_to: 12, error_len: Some(2) }.message(),
        "XDR string UTF-8: invalid utf-8 sequence of 2 bytes from index 12"
    );
    assert_eq!(
        XdrError::StringEncoding { valid_up_to: 5, error_len: None }.message(),
        "XDR string UTF-8: incomplete utf-8 byte sequence from index 5"
    );
}
