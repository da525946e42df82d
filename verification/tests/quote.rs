//! The quote contract on concrete calls.

use stellar_router::address::Address;
use stellar_router::quote::{QuoteError, QuoteEvent, QuoteRequest, QuoteResponse, RouterQuote};
use stellar_router::soroban::Env;

const ADMIN: Address = Address::Account([1; 32]);
const OTHER: Address = Address::Account([2; 32]);
const TOKEN_IN: Address = Address::Contract([3; 32]);
const TOKEN_OUT: Address = Address::Contract([4; 32]);

fn env() -> Env {
    Env { timestamp: 0, authorized: vec![ADMIN, OTHER] }
}

fn setup() -> RouterQuote {
    let mut q = RouterQuote::new();
    q.initialize(ADMIN, 100).unwrap();
    q
}

fn request(route: &str, amount_in: i128) -> QuoteRequest {
    QuoteRequest {
        route: route.to_string(),
        token_in: TOKEN_IN,
        token_out: TOKEN_OUT,
        amount_in,
    }
}

fn make_request(q: &mut RouterQuote, route: &str, fee_bps: u32, amount_in: i128) -> QuoteRequest {
    q.set_route_fee(&env(), ADMIN, route.to_string(), fee_bps).unwrap();
    request(route, amount_in)
}

fn error<T>(result: Result<T, QuoteError>) -> QuoteError {
    match result {
        Err(e) => e,
        Ok(_) => panic!("accepted"),
    }
}

#[test]
fn test_initialize() {
    let q = setup();
    assert_eq!(q.admin(), ADMIN);
    assert_eq!(q.get_default_fee(), 100);
}

#[test]
fn test_initialize_twice_fails() {
    let mut q = setup();
    assert_eq!(q.initialize(ADMIN, 100), Err(QuoteError::AlreadyInitialized));
}

#[test]
fn test_initialize_invalid_fee_fails() {
    let mut q = RouterQuote::new();
    assert_eq!(q.initialize(ADMIN, 10001), Err(QuoteError::InvalidFeeBps));
}

#[test]
fn test_set_and_get_route_fee() {
    let mut q = setup();
    q.set_route_fee(&env(), ADMIN, "uniswap".to_string(), 50).unwrap();
    assert_eq!(q.get_route_fee(&"uniswap".to_string()), 50);
}

#[test]
fn test_get_route_fee_returns_default_when_not_set() {
    let q = setup();
    assert_eq!(q.get_route_fee(&"uniswap".to_string()), 100);
}

#[test]
fn test_unauthorized_set_route_fee_fails() {
    let mut q = setup();
    assert_eq!(
        q.set_route_fee(&env(), OTHER, "uniswap".to_string(), 50),
        Err(QuoteError::Unauthorized)
    );
}

#[test]
fn test_get_quote_with_default_fee() {
    let mut q = setup();
    let response = q.get_quote(&request("uniswap", 10000)).unwrap();
    assert_eq!(response.amount_in, 10000);
    assert_eq!(response.fee_bps, 100);
    assert_eq!(response.fee_amount, 100);
    assert_eq!(response.amount_out, 9900);
    assert_eq!(response.price_impact_bps, 100);
}

#[test]
fn test_get_quote_with_custom_route_fee() {
    let mut q = setup();
    q.set_route_fee(&env(), ADMIN, "sushiswap".to_string(), 30).unwrap();
    let response = q.get_quote(&request("sushiswap", 10000)).unwrap();
    assert_eq!(response.fee_bps, 30);
    assert_eq!(response.fee_amount, 30);
    assert_eq!(response.amount_out, 9970);
    assert_eq!(response.price_impact_bps, 30);
}

#[test]
fn test_get_quote_price_impact_bps_matches_fee_bps() {
    let mut q = setup();
    q.set_route_fee(&env(), ADMIN, "curve".to_string(), 75).unwrap();
    let response = q.get_quote(&request("curve", 1_000_000)).unwrap();
    assert_eq!(response.price_impact_bps, response.fee_bps as i128);
}

#[test]
fn test_get_quote_invalid_amount_fails() {
    let mut q = setup();
    assert_eq!(error(q.get_quote(&request("uniswap", 0))), QuoteError::InvalidAmount);
}

#[test]
fn test_get_quotes_multiple_routes() {
    let mut q = setup();
    q.set_route_fee(&env(), ADMIN, "uniswap".to_string(), 100).unwrap();
    q.set_route_fee(&env(), ADMIN, "sushiswap".to_string(), 30).unwrap();
    let requests = vec![request("uniswap", 10000), request("sushiswap", 10000)];
    let responses = q.get_quotes(&requests).unwrap();
    assert_eq!(responses.len(), 2);
    assert_eq!(responses[0].route, "uniswap");
    assert_eq!(responses[0].amount_out, 9900);
    assert_eq!(responses[0].price_impact_bps, 100);
    assert_eq!(responses[1].route, "sushiswap");
    assert_eq!(responses[1].amount_out, 9970);
    assert_eq!(responses[1].price_impact_bps, 30);
}

#[test]
fn test_get_quotes_empty_fails() {
    let mut q = setup();
    assert_eq!(error(q.get_quotes(&vec![])), QuoteError::NoQuotesProvided);
}

#[test]
fn test_get_best_quote() {
    let mut q = setup();
    let requests = vec![
        make_request(&mut q, "uniswap", 100, 10000),
        make_request(&mut q, "sushiswap", 30, 10000),
        make_request(&mut q, "pancakeswap", 50, 10000),
    ];
    let best = q.get_best_quote(&requests).unwrap();
    assert_eq!(best.route, "sushiswap");
    assert_eq!(best.amount_out, 9970);
    assert_eq!(best.fee_bps, 30);
}

#[test]
fn test_get_best_quote_empty_fails() {
    let mut q = setup();
    assert_eq!(error(q.get_best_quote(&vec![])), QuoteError::NoQuotesProvided);
}

#[test]
fn test_compare_quotes_filters_by_price_impact() {
    let mut q = setup();
    let requests = vec![
        make_request(&mut q, "route_a", 100, 10000),
        make_request(&mut q, "route_b", 30, 10000),
    ];
    let result = q.compare_quotes(&requests, 50).unwrap();
    assert_eq!(result.len(), 1);
    assert_eq!(result[0].fee_bps, 30);
}

#[test]
fn test_compare_quotes_returns_empty_when_all_exceed_threshold() {
    let mut q = setup();
    let requests = vec![
        make_request(&mut q, "route_a", 200, 10000),
        make_request(&mut q, "route_b", 300, 10000),
    ];
    let result = q.compare_quotes(&requests, 50).unwrap();
    assert_eq!(result.len(), 0);
}

#[test]
fn test_compare_quotes_sorts_by_amount_out_desc() {
    let mut q = setup();
    let requests = vec![
        make_request(&mut q, "route_worst", 100, 10000),
        make_request(&mut q, "route_best", 30, 10000),
        make_request(&mut q, "route_middle", 50, 10000),
    ];
    let result = q.compare_quotes(&requests, 10000).unwrap();
    assert_eq!(result.len(), 3);
    assert_eq!(result[0].amount_out, 9970);
    assert_eq!(result[1].amount_out, 9950);
    assert_eq!(result[2].amount_out, 9900);
}

#[test]
fn test_compare_quotes_accepts_exact_threshold_match() {
    let mut q = setup();
    let requests = vec![make_request(&mut q, "route_a", 100, 10000)];
    let result = q.compare_quotes(&requests, 100).unwrap();
    assert_eq!(result.len(), 1);
}

#[test]
fn test_compare_quotes_all_pass_preserves_sort() {
    let mut q = setup();
    let requests = vec![
        make_request(&mut q, "route_a", 50, 10000),
        make_request(&mut q, "route_b", 20, 10000),
    ];
    let result = q.compare_quotes(&requests, 10000).unwrap();
    assert_eq!(result.len(), 2);
    assert_eq!(result[0].amount_out, 9980);
    assert_eq!(result[1].amount_out, 9950);
}

#[test]
fn test_compare_quotes_invalid_threshold_too_high_fails() {
    let mut q = setup();
    let requests = vec![make_request(&mut q, "route_a", 100, 10000)];
    assert_eq!(error(q.compare_quotes(&requests, 10001)), QuoteError::InvalidPriceImpactBps);
}

#[test]
fn test_compare_quotes_invalid_threshold_negative_fails() {
    let mut q = setup();
    let requests = vec![make_request(&mut q, "route_a", 100, 10000)];
    assert_eq!(error(q.compare_quotes(&requests, -1)), QuoteError::InvalidPriceImpactBps);
}

#[test]
fn test_compare_quotes_empty_requests_fails() {
    let mut q = setup();
    assert_eq!(error(q.compare_quotes(&vec![], 100)), QuoteError::NoQuotesProvided);
}

#[test]
fn test_compare_quotes_zero_threshold_filters_all_nonzero_fee() {
    let mut q = setup();
    let requests = vec![
        make_request(&mut q, "route_a", 1, 10000),
        make_request(&mut q, "route_b", 0, 10000),
    ];
    let result = q.compare_quotes(&requests, 0).unwrap();
    assert_eq!(result.len(), 1);
    assert_eq!(result[0].fee_bps, 0);
    assert_eq!(result[0].price_impact_bps, 0);
}

#[test]
fn test_set_default_fee() {
    let mut q = setup();
    q.set_default_fee(&env(), ADMIN, 200).unwrap();
    assert_eq!(q.get_default_fee(), 200);
}

#[test]
fn test_set_default_fee_invalid_fails() {
    let mut q = setup();
    assert_eq!(q.set_default_fee(&env(), ADMIN, 10001), Err(QuoteError::InvalidFeeBps));
}

#[test]
fn test_transfer_admin() {
    let mut q = setup();
    q.transfer_admin(&env(), ADMIN, OTHER).unwrap();
    assert_eq!(q.admin(), OTHER);
}

#[test]
fn test_admin_getter() {
    let q = setup();
    assert_eq!(q.admin(), ADMIN);
}

#[test]
fn test_require_admin_returns_not_initialized_before_init() {
    let mut q = RouterQuote::new();
    assert_eq!(q.set_default_fee(&env(), OTHER, 100), Err(QuoteError::NotInitialized));
}

#[test]
fn a_fresh_contract_quotes_with_one_percent() {
    let mut q = RouterQuote::new();
    assert!(!q.is_initialized());
    assert_eq!(q.get_default_fee(), 100);
    assert_eq!(q.get_quote(&request("any", 200)).unwrap().fee_amount, 2);
}

#[test]
fn fees_round_down() {
    let mut q = setup();
    // One percent of 99 is less than one unit.
    let response = q.get_quote(&request("r", 99)).unwrap();
    assert_eq!(
        response,
        QuoteResponse {
            route: "r".to_string(),
            token_in: TOKEN_IN,
            token_out: TOKEN_OUT,
            amount_in: 99,
            amount_out: 99,
            fee_amount: 0,
            fee_bps: 100,
            price_impact_bps: 0,
        }
    );
    let response = q.get_quote(&request("r", 150)).unwrap();
    assert_eq!((response.fee_amount, response.amount_out), (1, 149));
    assert_eq!(response.price_impact_bps, 66);
}

#[test]
fn amounts_beyond_the_product_pay_no_fee() {
    let mut q = setup();
    let response = q.get_quote(&request("r", i128::MAX)).unwrap();
    assert_eq!(response.fee_amount, 0);
    assert_eq!(response.amount_out, i128::MAX);
    assert_eq!(response.price_impact_bps, 0);
    let largest = i128::MAX / 100;
    let response = q.get_quote(&request("r", largest)).unwrap();
    assert_eq!(response.fee_amount, largest / 100);
    assert_eq!(response.amount_out + response.fee_amount, largest);
}

#[test]
fn one_bad_amount_refuses_all_and_publishes_nothing() {
    let mut q = setup();
    let published = q.events().len();
    let requests = vec![request("a", 5), request("b", -1)];
    assert_eq!(error(q.get_quotes(&requests)), QuoteError::InvalidAmount);
    assert_eq!(error(q.get_best_quote(&requests)), QuoteError::InvalidAmount);
    assert_eq!(error(q.compare_quotes(&requests, 0)), QuoteError::InvalidAmount);
    assert_eq!(q.events().len(), published);
}

#[test]
fn ties_go_to_the_first_as_best_and_to_the_last_in_a_comparison() {
    let mut q = setup();
    let requests = vec![
        make_request(&mut q, "first", 10, 10000),
        make_request(&mut q, "worse", 20, 10000),
        make_request(&mut q, "second", 10, 10000),
        make_request(&mut q, "third", 10, 10000),
    ];
    assert_eq!(q.get_best_quote(&requests).unwrap().route, "first");
    let ranked = q.compare_quotes(&requests, 10_000).unwrap();
    let names: Vec<&str> = ranked.iter().map(|r| r.route.as_str()).collect();
    assert_eq!(names, vec!["third", "second", "first", "worse"]);
}

#[test]
fn events_of_each_call() {
    let mut q = setup();
    assert_eq!(
        q.events()[0],
        QuoteEvent::Initialized { admin: ADMIN, default_fee_bps: 100 }
    );
    let requests = vec![request("a", 10000), request("b", 20000)];
    q.compare_quotes(&requests, 100).unwrap();
    assert_eq!(
        q.events()[1],
        QuoteEvent::QuoteCalculated {
            route: "a".to_string(),
            amount_out: 9900,
            fee_amount: 100,
            price_impact_bps: 100
        }
    );
    assert_eq!(q.events()[2].topic(), "quote_calculated");
    assert_eq!(
        q.events()[3],
        QuoteEvent::QuotesCompared { count: 2, max_price_impact_bps: 100 }
    );
    q.get_best_quote(&requests).unwrap();
    assert_eq!(
        q.events().last().unwrap(),
        &QuoteEvent::BestQuoteSelected { route: "b".to_string(), amount_out: 19800 }
    );
    q.set_default_fee(&env(), ADMIN, 5).unwrap();
    assert_eq!(q.events().last().unwrap().topic(), "default_fee_updated");
    q.set_route_fee(&env(), ADMIN, "a".to_string(), 5).unwrap();
    assert_eq!(q.events().last().unwrap().topic(), "route_fee_set");
    q.transfer_admin(&env(), ADMIN, OTHER).unwrap();
    assert_eq!(q.events().last().unwrap().topic(), "admin_transferred");
    assert_eq!(q.set_default_fee(&env(), ADMIN, 5), Err(QuoteError::Unauthorized));
}

#[test]
fn quote_error_numbers() {
    assert_eq!(QuoteError::AlreadyInitialized.code(), 1);
    assert_eq!(QuoteError::RouteNotFound.code(), 7);
    assert_eq!(QuoteError::InvalidPriceImpactBps.code(), 8);
}

#[test]
fn a_restored_contract_goes_on() {
    let mut q = RouterQuote::restore(Some(ADMIN), Some(200));
    q.put_route_fee("r".to_string(), 30);
    assert!(q.events().is_empty());
    assert_eq!(q.get_route_fee(&"r".to_string()), 30);
    assert_eq!(q.get_route_fee(&"s".to_string()), 200);
    assert_eq!(q.initialize(ADMIN, 1), Err(QuoteError::AlreadyInitialized));
}
