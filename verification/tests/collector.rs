//! Scrape cycles against canned replies.

use stellar_router::collector::{
    choose_number, encode_contract_data_key, encode_string_arg, extract_circuit_breaker_state,
    extract_route_paused, extract_u64_from_entry, Change, Collector, ContractKind, LedgerEntry,
    Metric, RpcCall, RpcReply, Targets,
};
use stellar_router::json::Json;

fn obj(fields: Vec<(&str, Json)>) -> Json {
    Json::Object(fields.into_iter().map(|(k, v)| (k.to_string(), v)).collect())
}

fn returned(retval: Json) -> Json {
    obj(vec![("results", Json::Array(vec![obj(vec![("retval", retval)])]))])
}

fn breaker(open: bool, count: u64, opened_at: u64) -> Json {
    obj(vec![(
        "some",
        obj(vec![
            ("is_open", Json::Bool(open)),
            ("failure_count", Json::Unsigned(count)),
            ("opened_at", Json::Unsigned(opened_at)),
        ]),
    )])
}

fn collector(ids: [&str; 5]) -> Collector {
    Collector::new(Targets {
        core_contract_id: ids[0].to_string(),
        middleware_contract_id: ids[1].to_string(),
        registry_contract_id: ids[2].to_string(),
        quote_contract_id: ids[3].to_string(),
        execution_contract_id: ids[4].to_string(),
    })
}

/// Gauges and counters by metric and labels.
struct Gauges(Vec<(Metric, Vec<String>, u64)>);

impl Gauges {
    fn get(&self, metric: Metric, labels: &[&str]) -> Option<u64> {
        self.0
            .iter()
            .find(|(m, l, _)| *m == metric && l.iter().map(|s| s.as_str()).eq(labels.iter().copied()))
            .map(|(_, _, v)| *v)
    }

    fn change(&mut self, metric: Metric, labels: Vec<String>, change: Change) {
        let at = match self.0.iter().position(|(m, l, _)| *m == metric && *l == labels) {
            Some(i) => i,
            None => {
                self.0.push((metric, labels, 0));
                self.0.len() - 1
            }
        };
        match change {
            Change::Replace(n) => self.0[at].2 = n,
            Change::Increase(n) => self.0[at].2 += n,
            Change::ObserveElapsed => self.0[at].2 += 1,
        }
    }
}

fn run(
    collector: &mut Collector,
    gauges: &mut Gauges,
    reply: &dyn Fn(&RpcCall) -> RpcReply,
) -> (bool, Vec<RpcCall>) {
    let mut cycle = collector.start_cycle();
    let mut calls = vec![];
    while let Some(call) = cycle.next_call() {
        let answer = reply(&call);
        calls.push(call);
        let (next, updates) = collector.on_reply(cycle, answer);
        cycle = next;
        for u in updates {
            gauges.change(u.metric, u.labels, u.change);
        }
    }
    let up = cycle.up_update();
    gauges.change(up.metric, up.labels, up.change);
    (cycle.succeeded(), calls)
}

fn strings(list: &[&str]) -> Vec<String> {
    list.iter().map(|s| s.to_string()).collect()
}

#[test]
fn test_scrape_core_updates_metrics() {
    let mut c = collector(["CORE_ID", "", "", "", ""]);
    let mut g = Gauges(vec![]);
    let (ok, _) = run(&mut c, &mut g, &|call| match call {
        RpcCall::CallU64 { function, .. } if function == "total_routed" => RpcReply::Number(42),
        RpcCall::CallStringVec { function, .. } if function == "get_all_routes" => {
            RpcReply::Names(vec![])
        }
        _ => RpcReply::Failed,
    });
    assert!(ok);
    assert_eq!(g.get(Metric::CoreTotalRouted, &["CORE_ID"]), Some(42));
    assert_eq!(g.get(Metric::CorePaused, &["CORE_ID"]), Some(0));
    assert_eq!(g.get(Metric::ScrapeDurationSeconds, &["CORE_ID"]), Some(1));
    assert_eq!(g.get(Metric::Up, &[]), Some(1));
}

#[test]
fn test_scrape_middleware_updates_metrics() {
    let mut c = collector(["", "MW_ID", "", "", ""]);
    let mut g = Gauges(vec![]);
    let (ok, _) = run(&mut c, &mut g, &|call| match call {
        RpcCall::CallU64 { function, .. } if function == "total_calls" => RpcReply::Number(7),
        RpcCall::CallStringVec { function, .. } if function == "get_configured_routes" => {
            RpcReply::Names(vec![])
        }
        _ => RpcReply::Failed,
    });
    assert!(ok);
    assert_eq!(g.get(Metric::MiddlewareTotalCalls, &["MW_ID"]), Some(7));
}

#[test]
fn test_scrape_registry_updates_metrics() {
    let mut c = collector(["", "", "REG_ID", "", ""]);
    let mut g = Gauges(vec![]);
    let (ok, _) = run(&mut c, &mut g, &|call| match call {
        RpcCall::CallStringVec { function, .. } if function == "get_all_names" => {
            RpcReply::Names(strings(&["oracle", "vault"]))
        }
        RpcCall::CallU32Vec { function, name, .. } if function == "versions" => {
            RpcReply::Versions(if name == "oracle" { vec![1, 2, 3] } else { vec![1] })
        }
        _ => RpcReply::Failed,
    });
    assert!(ok);
    assert_eq!(g.get(Metric::RegistryTotalNames, &["REG_ID"]), Some(2));
    assert_eq!(g.get(Metric::RegistryVersionCount, &["REG_ID", "oracle"]), Some(3));
    assert_eq!(g.get(Metric::RegistryVersionCount, &["REG_ID", "vault"]), Some(1));
}

#[test]
fn test_scrape_registry_empty_versions_for_name() {
    let mut c = collector(["", "", "REG_ID", "", ""]);
    let mut g = Gauges(vec![]);
    let (ok, _) = run(&mut c, &mut g, &|call| match call {
        RpcCall::CallStringVec { .. } => RpcReply::Names(strings(&["ghost"])),
        _ => RpcReply::Versions(vec![]),
    });
    assert!(ok);
    assert_eq!(g.get(Metric::RegistryVersionCount, &["REG_ID", "ghost"]), Some(0));
}

#[test]
fn test_scrape_failure_returns_false_and_increments_error_counter() {
    let mut c = collector(["CORE_ID", "", "", "", ""]);
    let mut g = Gauges(vec![]);
    let (ok, _) = run(&mut c, &mut g, &|_| RpcReply::Failed);
    assert!(!ok);
    assert_eq!(g.get(Metric::ScrapeErrorsTotal, &["CORE_ID"]), Some(1));
    assert_eq!(g.get(Metric::ScrapeDurationSeconds, &["CORE_ID"]), None);
    assert_eq!(g.get(Metric::Up, &[]), Some(0));
}

#[test]
fn test_scrape_core_with_routes_and_circuit_breaker() {
    let mut c = collector(["CORE_ID", "MW_ID", "", "", ""]);
    let mut g = Gauges(vec![]);
    let (ok, calls) = run(&mut c, &mut g, &|call| match call {
        RpcCall::CallU64 { contract_id, .. } => {
            RpcReply::Number(if contract_id == "CORE_ID" { 100 } else { 50 })
        }
        RpcCall::CallStringVec { .. } => RpcReply::Names(strings(&["oracle"])),
        RpcCall::SimulateInvoke { function, .. } if function == "get_route" => {
            RpcReply::Value(returned(obj(vec![("paused", Json::Bool(false))])))
        }
        RpcCall::SimulateInvoke { .. } => RpcReply::Value(returned(breaker(true, 3, 1000))),
        _ => RpcReply::Failed,
    });
    assert!(ok);
    assert_eq!(g.get(Metric::CoreTotalRouted, &["CORE_ID"]), Some(100));
    assert_eq!(g.get(Metric::CoreRoutePaused, &["CORE_ID", "oracle"]), Some(0));
    assert_eq!(g.get(Metric::MiddlewareCircuitOpen, &["MW_ID", "oracle"]), Some(1));
    assert_eq!(g.get(Metric::MiddlewareFailureCount, &["MW_ID", "oracle"]), Some(3));
    assert_eq!(calls.len(), 6);
    assert_eq!(
        calls[2],
        RpcCall::SimulateInvoke {
            contract_id: "CORE_ID".to_string(),
            function: "get_route".to_string(),
            args: strings(&["6f7261636c65"]),
        }
    );
}

fn quote_events(quotes: Vec<u32>, fees: Vec<u32>) -> impl Fn(&RpcCall) -> RpcReply {
    move |call| match call {
        RpcCall::GetEvents { topic, .. } if topic == "quote_generated" => {
            RpcReply::Events(quotes.clone())
        }
        RpcCall::GetEvents { topic, .. } if topic == "fee_estimated" => {
            RpcReply::Events(fees.clone())
        }
        _ => RpcReply::Failed,
    }
}

#[test]
fn test_scrape_quote_baseline_sets_gauges() {
    let mut c = collector(["", "", "", "QUOTE_ID", ""]);
    let mut g = Gauges(vec![]);
    let (ok, _) = run(&mut c, &mut g, &quote_events(vec![100, 101], vec![102]));
    assert!(ok);
    assert_eq!(g.get(Metric::QuoteTotalGenerated, &["QUOTE_ID"]), Some(2));
    assert_eq!(g.get(Metric::QuoteTotalFeeEstimated, &["QUOTE_ID"]), Some(1));
    assert_eq!(c.last_ledger(ContractKind::Quote, "QUOTE_ID"), 102);
}

#[test]
fn test_scrape_quote_increments_on_second_scrape() {
    let mut c = collector(["", "", "", "QUOTE_ID", ""]);
    let mut g = Gauges(vec![]);
    run(&mut c, &mut g, &quote_events(vec![100, 100], vec![]));
    let (ok, calls) = run(&mut c, &mut g, &quote_events(vec![101], vec![]));
    assert!(ok);
    assert_eq!(g.get(Metric::QuoteTotalGenerated, &["QUOTE_ID"]), Some(3));
    assert_eq!(
        calls[0],
        RpcCall::GetEvents {
            contract_id: "QUOTE_ID".to_string(),
            topic: "quote_generated".to_string(),
            start_ledger: 100,
        }
    );
}

fn executions(results: Vec<u32>, errors: Vec<u32>, retries: &str) -> impl Fn(&RpcCall) -> RpcReply {
    let retries = retries.to_string();
    move |call| match call {
        RpcCall::GetEvents { topic, .. } if topic == "execution_result" => {
            RpcReply::Events(results.clone())
        }
        RpcCall::GetEvents { topic, .. } if topic == "execution_error" => {
            RpcReply::Events(errors.clone())
        }
        RpcCall::GetLedgerEntries { keys } => {
            assert_eq!(*keys, strings(&["EXEC_ID:MaxRetries"]));
            RpcReply::Entries(vec![LedgerEntry {
                key: "EXEC_ID:MaxRetries".to_string(),
                xdr: retries.clone(),
            }])
        }
        _ => RpcReply::Failed,
    }
}

#[test]
fn test_scrape_execution_uses_events() {
    let mut c = collector(["", "", "", "", "EXEC_ID"]);
    let mut g = Gauges(vec![]);
    let (ok, _) = run(&mut c, &mut g, &executions(vec![200, 201, 202], vec![203], "3"));
    assert!(ok);
    assert_eq!(g.get(Metric::ExecutionTotalExecutions, &["EXEC_ID"]), Some(3));
    assert_eq!(g.get(Metric::ExecutionTotalErrors, &["EXEC_ID"]), Some(1));
    assert_eq!(g.get(Metric::ExecutionMaxRetries, &["EXEC_ID"]), Some(3));
    assert_eq!(c.last_ledger(ContractKind::Execution, "EXEC_ID"), 203);
}

#[test]
fn test_scrape_execution_increments_on_second_scrape() {
    let mut c = collector(["", "", "", "", "EXEC_ID"]);
    let mut g = Gauges(vec![]);
    run(&mut c, &mut g, &executions(vec![300; 5], vec![300], "2"));
    let (ok, _) = run(&mut c, &mut g, &executions(vec![301, 301], vec![], "2"));
    assert!(ok);
    assert_eq!(g.get(Metric::ExecutionTotalExecutions, &["EXEC_ID"]), Some(7));
    assert_eq!(g.get(Metric::ExecutionTotalErrors, &["EXEC_ID"]), Some(1));
}

#[test]
fn test_extract_route_paused_true() {
    let val = returned(obj(vec![("paused", Json::Bool(true))]));
    assert_eq!(extract_route_paused(&val), Some(true));
}

#[test]
fn test_extract_route_paused_false() {
    let val = obj(vec![("paused", Json::Bool(false))]);
    assert_eq!(extract_route_paused(&val), Some(false));
}

#[test]
fn test_extract_circuit_breaker_open() {
    assert_eq!(extract_circuit_breaker_state(&returned(breaker(true, 5, 1000))), Some((true, 5)));
}

#[test]
fn test_extract_circuit_breaker_none() {
    assert_eq!(extract_circuit_breaker_state(&returned(Json::Null)), Some((false, 0)));
}

#[test]
fn test_extract_circuit_breaker_closed() {
    assert_eq!(extract_circuit_breaker_state(&returned(breaker(false, 2, 0))), Some((false, 2)));
}

#[test]
fn breaker_edge_cases() {
    let none = returned(obj(vec![("none", Json::Null)]));
    assert_eq!(extract_circuit_breaker_state(&none), Some((false, 0)));
    // Without a `some`, the value itself is the state; wrong kinds count as missing.
    let bare = obj(vec![("is_open", Json::Bool(true)), ("failure_count", Json::OtherNumber)]);
    assert_eq!(extract_circuit_breaker_state(&bare), Some((true, 0)));
    let odd = returned(obj(vec![("is_open", Json::Text("yes".to_string()))]));
    assert_eq!(extract_circuit_breaker_state(&odd), Some((false, 0)));
    // Of a count that does not fit, the low 32 bits are kept.
    let large = returned(breaker(true, 0x1_0000_0007, 0));
    assert_eq!(extract_circuit_breaker_state(&large), Some((true, 7)));
}

#[test]
fn route_paused_edge_cases() {
    assert_eq!(extract_route_paused(&Json::Null), None);
    assert_eq!(extract_route_paused(&obj(vec![("results", Json::Array(vec![]))])), None);
    // A flag of the wrong kind inside falls back to the reply itself.
    let mut fields = match returned(obj(vec![("paused", Json::Unsigned(1))])) {
        Json::Object(fields) => fields,
        _ => unreachable!(),
    };
    fields.push(("paused".to_string(), Json::Bool(true)));
    assert_eq!(extract_route_paused(&Json::Object(fields)), Some(true));
}

fn entry(key: &str, xdr: &str) -> LedgerEntry {
    LedgerEntry { key: key.to_string(), xdr: xdr.to_string() }
}

#[test]
fn entry_numbers() {
    let value = |xdr: &str| extract_u64_from_entry(&vec![entry("X:MaxRetries", xdr)], "MaxRetries");
    assert_eq!(value("3"), Some(3));
    assert_eq!(value("+3"), Some(3));
    assert_eq!(value("18446744073709551615"), Some(u64::MAX));
    assert_eq!(value("18446744073709551616"), None);
    assert_eq!(value("{\"u64\": 9}"), Some(9));
    assert_eq!(value("{\"u32\": 9}"), None);
    assert_eq!(value(" 12 "), Some(12));
    assert_eq!(value("-1"), None);
    assert_eq!(value("AAAA"), None);
    assert_eq!(value(""), None);
}

#[test]
fn entries_are_matched_by_key() {
    let entries = vec![
        entry("X:Other", "1"),
        entry("X:MaxRetries", "unreadable"),
        entry("pre MaxRetries post", "5"),
        entry("X:MaxRetries", "6"),
    ];
    assert_eq!(extract_u64_from_entry(&entries, "MaxRetries"), Some(5));
    assert_eq!(extract_u64_from_entry(&entries, "Absent"), None);
    assert_eq!(choose_number("x", Some(1), Some(2)), Some(1));
    assert_eq!(choose_number("x", None, Some(2)), Some(2));
    assert_eq!(choose_number("7", Some(1), Some(2)), Some(7));
}

#[test]
fn arguments_and_keys() {
    assert_eq!(encode_string_arg("az\u{e9}"), "617ac3a9");
    assert_eq!(encode_contract_data_key("C1", "MaxRetries"), "C1:MaxRetries");
}

#[test]
fn failed_items_do_not_fail_a_scrape() {
    let mut c = collector(["CORE_ID", "MW_ID", "REG_ID", "", ""]);
    let mut g = Gauges(vec![]);
    let (ok, calls) = run(&mut c, &mut g, &|call| match call {
        RpcCall::CallU64 { .. } => RpcReply::Number(1),
        RpcCall::CallStringVec { .. } => RpcReply::Names(strings(&["a", "b"])),
        _ => RpcReply::Failed,
    });
    assert!(ok);
    assert_eq!(calls.len(), 4 + 4 + 3);
    assert_eq!(g.get(Metric::CoreRoutePaused, &["CORE_ID", "a"]), None);
    assert_eq!(g.get(Metric::RegistryTotalNames, &["REG_ID"]), Some(2));
}

#[test]
fn one_failed_contract_lets_the_others_go_on() {
    let mut c = collector(["CORE_ID", "", "", "QUOTE_ID", "EXEC_ID"]);
    let mut g = Gauges(vec![]);
    let (ok, _) = run(&mut c, &mut g, &|call| match call {
        RpcCall::GetEvents { contract_id, topic, .. } => {
            if contract_id == "QUOTE_ID" && topic == "fee_estimated" {
                RpcReply::Failed
            } else {
                RpcReply::Events(vec![9])
            }
        }
        _ => RpcReply::Failed,
    });
    assert!(!ok);
    assert_eq!(g.get(Metric::ScrapeErrorsTotal, &["CORE_ID"]), Some(1));
    assert_eq!(g.get(Metric::ScrapeErrorsTotal, &["QUOTE_ID"]), Some(1));
    // A failed scrape counts nothing and moves no cursor.
    assert_eq!(g.get(Metric::QuoteTotalGenerated, &["QUOTE_ID"]), None);
    assert_eq!(c.last_ledger(ContractKind::Quote, "QUOTE_ID"), 0);
    // Failed ledger entries leave the retries at zero.
    assert_eq!(g.get(Metric::ExecutionMaxRetries, &["EXEC_ID"]), Some(0));
    assert_eq!(c.last_ledger(ContractKind::Execution, "EXEC_ID"), 9);
    assert_eq!(c.last_ledger(ContractKind::Core, "EXEC_ID"), 0);
}

#[test]
fn cursors_do_not_go_back() {
    let mut c = collector(["", "", "", "Q", ""]);
    let mut g = Gauges(vec![]);
    run(&mut c, &mut g, &quote_events(vec![50], vec![40]));
    run(&mut c, &mut g, &quote_events(vec![10], vec![]));
    assert_eq!(c.last_ledger(ContractKind::Quote, "Q"), 50);
    assert_eq!(g.get(Metric::QuoteTotalGenerated, &["Q"]), Some(1));
    assert_eq!(g.get(Metric::QuoteTotalFeeEstimated, &["Q"]), Some(1));
}

#[test]
fn quote_events_are_counted_once() {
    let mut c = collector(["", "", "", "Q", ""]);
    let mut g = Gauges(vec![]);
    run(&mut c, &mut g, &quote_events(vec![48, 50], vec![49]));
    // The same events once more, and new ones behind the cursor.
    run(&mut c, &mut g, &quote_events(vec![48, 50, 51, 60], vec![49, 50]));
    assert_eq!(g.get(Metric::QuoteTotalGenerated, &["Q"]), Some(4));
    assert_eq!(g.get(Metric::QuoteTotalFeeEstimated, &["Q"]), Some(1));
    assert_eq!(c.last_ledger(ContractKind::Quote, "Q"), 60);
}

#[test]
fn execution_events_are_counted_once() {
    let mut c = collector(["", "", "", "", "EXEC_ID"]);
    let mut g = Gauges(vec![]);
    run(&mut c, &mut g, &executions(vec![7, 9], vec![8], "1"));
    run(&mut c, &mut g, &executions(vec![7, 9, 10, 10], vec![8, 9], "1"));
    assert_eq!(g.get(Metric::ExecutionTotalExecutions, &["EXEC_ID"]), Some(4));
    assert_eq!(g.get(Metric::ExecutionTotalErrors, &["EXEC_ID"]), Some(1));
    assert_eq!(c.last_ledger(ContractKind::Execution, "EXEC_ID"), 10);
}

#[test]
fn nothing_to_scrape_is_a_success() {
    let mut c = collector([""; 5]);
    let mut g = Gauges(vec![]);
    let (ok, calls) = run(&mut c, &mut g, &|_| RpcReply::Failed);
    assert!(ok);
    assert!(calls.is_empty());
    assert_eq!(c.start_cycle().position(), 5);
}
