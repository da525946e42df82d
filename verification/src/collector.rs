//! One scrape cycle over the router contracts: which call to make next, what a
//! reply does to the metrics, and how far the events have been counted.
//!
//! Calls are made and metrics are kept elsewhere. A cycle names the next call,
//! takes the reply, and hands back what to do to the metrics.
//!
//! Events of the quote and the execution contract are counted by ledger. A
//! cursor for each contract holds the newest ledger seen. While it is zero, all
//! events that come in make up the count; afterwards those of later ledgers are
//! added to it, and others are passed over.

use vstd::prelude::*;
use vstd::string::*;
use vstd::utf8::*;

use crate::json::Json;
use crate::table::Table;
use crate::text::{contains_text, hex, join, parse_unsigned, same_text};
use crate::text::{hex_text, is_part_of, texts, unsigned_value};

verus! {

// ── Reading replies ─────────────────────────────────────────────────────────

/// A ledger entry: its key, and its value as text.
#[derive(Debug, PartialEq, Eq)]
pub struct LedgerEntry {
    pub key: String,
    pub xdr: String,
}

/// What a simulation returned: `results[0].retval`.
pub open spec fn returned(val: Json) -> Option<Json> {
    match val.member("results"@) {
        None => None,
        Some(results) => match results.head() {
            None => None,
            Some(result) => result.member("retval"@),
        },
    }
}

/// The flag under `key`.
pub open spec fn flag(val: Json, key: Seq<char>) -> Option<bool> {
    match val.member(key) {
        None => None,
        Some(v) => v.truth(),
    }
}

/// Whether a route is paused, as the value returned says, or else the reply
/// itself.
pub open spec fn route_paused(val: Json) -> Option<bool> {
    let inner = match returned(val) {
        None => None,
        Some(entry) => flag(entry, "paused"@),
    };
    match inner {
        Some(paused) => Some(paused),
        None => flag(val, "paused"@),
    }
}

/// Whether a circuit breaker is open, and how many failures it has counted. No
/// state stands for closed with none; a missing flag for closed, a missing count
/// for none.
pub open spec fn breaker_state(val: Json) -> (bool, u32) {
    let retval = match returned(val) {
        Some(v) => v,
        None => val,
    };
    if retval is Null || retval.member("none"@) is Some {
        (false, 0)
    } else {
        let state = match retval.member("some"@) {
            Some(s) => s,
            None => retval,
        };
        let count = match state.member("failure_count"@) {
            Some(v) => match v.unsigned() {
                Some(n) => n,
                None => 0,
            },
            None => 0,
        };
        (flag(state, "is_open"@) == Some(true), (count % 0x1_0000_0000) as u32)
    }
}

fn returned_value(val: &Json) -> (value: Option<&Json>)
    ensures
        match value {
            Some(v) => returned(*val) == Some(*v),
            None => returned(*val) is None,
        },
{
    match val.get("results") {
        None => None,
        Some(results) => match results.first() {
            None => None,
            Some(result) => result.get("retval"),
        },
    }
}

fn get_flag(val: &Json, key: &str) -> (value: Option<bool>)
    ensures
        value == flag(*val, key@),
{
    match val.get(key) {
        None => None,
        Some(v) => v.as_bool(),
    }
}

/// Reads whether a route is paused out of the reply to `get_route`.
pub fn extract_route_paused(val: &Json) -> (paused: Option<bool>)
    ensures
        paused == route_paused(*val),
{
    let inner = match returned_value(val) {
        None => None,
        Some(entry) => get_flag(entry, "paused"),
    };
    match inner {
        Some(paused) => Some(paused),
        None => get_flag(val, "paused"),
    }
}

/// Reads whether a circuit breaker is open, and its failure count, out of the
/// reply to `circuit_breaker_state`. There is always an answer. Of a count, the
/// low 32 bits are kept.
pub fn extract_circuit_breaker_state(val: &Json) -> (state: Option<(bool, u32)>)
    ensures
        state == Some(breaker_state(*val)),
{
    let retval = match returned_value(val) {
        Some(v) => v,
        None => val,
    };
    let is_null = match retval {
        Json::Null => true,
        _ => false,
    };
    if is_null || retval.get("none").is_some() {
        return Some((false, 0));
    }
    let state = match retval.get("some") {
        Some(s) => s,
        None => retval,
    };
    let is_open = match get_flag(state, "is_open") {
        Some(open) => open,
        None => false,
    };
    let count: u64 = match state.get("failure_count") {
        Some(v) => match v.as_u64() {
            Some(n) => n,
            None => 0,
        },
        None => 0,
    };
    Some((is_open, (count % 0x1_0000_0000) as u32))
}

/// What `serde_json` reads as an unsigned integer under `member` of the object
/// that `text` holds.
pub uninterp spec fn json_member_u64_of(text: Seq<char>, member: Seq<char>) -> Option<u64>;

/// What `serde_json` reads `text` as, where that is an unsigned integer.
pub uninterp spec fn json_u64_of(text: Seq<char>) -> Option<u64>;

/// Calls `serde_json::from_str`, then `Value::get` and `Value::as_u64`: the
/// unsigned integer under `member`, if `text` is JSON for an object that has one
/// there.
#[verifier::external_body]
pub(crate) fn json_member_u64(text: &str, member: &str) -> (n: Option<u64>)
    ensures
        n == json_member_u64_of(text@, member@),
{
    let value: serde_json::Value = serde_json::from_str(text).ok()?;
    value.get(member)?.as_u64()
}

/// Calls `serde_json::from_str`, then `Value::as_u64`: the unsigned integer, if
/// `text` is JSON for one.
#[verifier::external_body]
pub(crate) fn json_u64(text: &str) -> (n: Option<u64>)
    ensures
        n == json_u64_of(text@),
{
    let value: serde_json::Value = serde_json::from_str(text).ok()?;
    value.as_u64()
}

/// The number that an entry's text holds: written out, or else under `"u64"` of
/// a JSON object, or else as JSON.
pub open spec fn number_of(text: Seq<char>, member: Option<u64>, plain: Option<u64>) -> Option<
    u64,
> {
    match unsigned_value(text, u64::MAX as nat) {
        Some(n) => Some(n as u64),
        None => match member {
            Some(n) => Some(n),
            None => plain,
        },
    }
}

/// Chooses the number that an entry's text holds, given what JSON makes of it.
pub fn choose_number(text: &str, member: Option<u64>, plain: Option<u64>) -> (n: Option<u64>)
    ensures
        n == number_of(text@, member, plain),
{
    match parse_unsigned(text, u64::MAX) {
        Some(n) => Some(n),
        None => match member {
            Some(n) => Some(n),
            None => plain,
        },
    }
}

/// The number that an entry's text holds.
pub open spec fn entry_number(text: Seq<char>) -> Option<u64> {
    number_of(text, json_member_u64_of(text, "u64"@), json_u64_of(text))
}

/// The number of the first entry from place `i` on whose key mentions
/// `key_name` and whose text holds a number.
pub open spec fn entries_number(entries: Seq<LedgerEntry>, key_name: Seq<char>, i: int) -> Option<
    u64,
>
    decreases entries.len() - i,
{
    if i < 0 || i >= entries.len() {
        None
    } else if is_part_of(key_name, entries[i].key@) && entry_number(entries[i].xdr@) is Some {
        entry_number(entries[i].xdr@)
    } else {
        entries_number(entries, key_name, i + 1)
    }
}

/// Reads the number stored under a key out of ledger entries.
pub fn extract_u64_from_entry(entries: &Vec<LedgerEntry>, key_name: &str) -> (n: Option<u64>)
    ensures
        n == entries_number(entries@, key_name@, 0),
{
    let mut i: usize = 0;
    while i < entries.len()
        invariant
            i <= entries@.len(),
            entries_number(entries@, key_name@, 0) == entries_number(
                entries@,
                key_name@,
                i as int,
            ),
        decreases entries@.len() - i,
    {
        if contains_text(entries[i].key.as_str(), key_name) {
            let text = entries[i].xdr.as_str();
            let member = json_member_u64(text, "u64");
            let plain = json_u64(text);
            match choose_number(text, member, plain) {
                Some(n) => {
                    return Some(n);
                },
                None => {},
            }
        }
        i = i + 1;
    }
    None
}

/// Writes a route name as an argument of a call: its bytes in hexadecimal.
pub fn encode_string_arg(s: &str) -> (arg: String)
    ensures
        arg@ == hex_text(s.spec_bytes()),
{
    hex(s.as_bytes())
}

/// The key of a ledger entry that holds data of a contract.
pub open spec fn data_key(contract: Seq<char>, storage_key: Seq<char>) -> Seq<char> {
    contract + ":"@ + storage_key
}

/// Writes the key of a ledger entry that holds data of a contract.
pub fn encode_contract_data_key(contract_id: &str, storage_key: &str) -> (key: String)
    ensures
        key@ == data_key(contract_id@, storage_key@),
{
    let start = join(contract_id, ":");
    join(start.as_str(), storage_key)
}

// ── Calls, replies, metrics ─────────────────────────────────────────────────

/// A call to make.
#[derive(Debug, PartialEq, Eq)]
pub enum RpcCall {
    /// Call a function that returns a number.
    CallU64 { contract_id: String, function: String },
    /// Call a function that returns a list of strings.
    CallStringVec { contract_id: String, function: String },
    /// Simulate a call and hand back the whole reply.
    SimulateInvoke { contract_id: String, function: String, args: Vec<String> },
    /// Call a function of a name that returns a list of numbers.
    CallU32Vec { contract_id: String, function: String, name: String },
    /// Fetch the events with a topic from `start_ledger` on, all of them where it
    /// is zero. Events of that ledger or an earlier one are not counted again.
    GetEvents { contract_id: String, topic: String, start_ledger: u32 },
    /// Fetch ledger entries.
    GetLedgerEntries { keys: Vec<String> },
}

/// What a call says.
pub enum CallView {
    CallU64 { contract: Seq<char>, function: Seq<char> },
    CallStringVec { contract: Seq<char>, function: Seq<char> },
    SimulateInvoke { contract: Seq<char>, function: Seq<char>, args: Seq<Seq<char>> },
    CallU32Vec { contract: Seq<char>, function: Seq<char>, name: Seq<char> },
    GetEvents { contract: Seq<char>, topic: Seq<char>, start_ledger: u32 },
    GetLedgerEntries { keys: Seq<Seq<char>> },
}

impl View for RpcCall {
    type V = CallView;

    open spec fn view(&self) -> CallView {
        match *self {
            RpcCall::CallU64 { contract_id, function } => {
                CallView::CallU64 { contract: contract_id@, function: function@ }
            },
            RpcCall::CallStringVec { contract_id, function } => {
                CallView::CallStringVec { contract: contract_id@, function: function@ }
            },
            RpcCall::SimulateInvoke { contract_id, function, args } => {
                CallView::SimulateInvoke {
                    contract: contract_id@,
                    function: function@,
                    args: texts(args@),
                }
            },
            RpcCall::CallU32Vec { contract_id, function, name } => {
                CallView::CallU32Vec {
                    contract: contract_id@,
                    function: function@,
                    name: name@,
                }
            },
            RpcCall::GetEvents { contract_id, topic, start_ledger } => {
                CallView::GetEvents { contract: contract_id@, topic: topic@, start_ledger }
            },
            RpcCall::GetLedgerEntries { keys } => {
                CallView::GetLedgerEntries { keys: texts(keys@) }
            },
        }
    }
}

/// The reply to a call.
#[derive(Debug, PartialEq, Eq)]
pub enum RpcReply {
    /// The call failed.
    Failed,
    Number(u64),
    Names(Vec<String>),
    Value(Json),
    Versions(Vec<u32>),
    /// The ledger of each event.
    Events(Vec<u32>),
    Entries(Vec<LedgerEntry>),
}

/// A metric.
#[derive(Clone, Copy, Debug, PartialEq, Eq, Structural)]
pub enum Metric {
    CoreTotalRouted,
    CorePaused,
    CoreRoutePaused,
    MiddlewareTotalCalls,
    MiddlewareCircuitOpen,
    MiddlewareFailureCount,
    RegistryTotalNames,
    RegistryVersionCount,
    QuoteTotalGenerated,
    QuoteTotalFeeEstimated,
    ExecutionTotalExecutions,
    ExecutionTotalErrors,
    ExecutionMaxRetries,
    ScrapeErrorsTotal,
    ScrapeDurationSeconds,
    Up,
}

/// What happens to a metric.
#[derive(Clone, Copy, Debug, PartialEq, Eq, Structural)]
pub enum Change {
    Replace(u64),
    Increase(u64),
    /// Observe how long the scrape of the contract has taken.
    ObserveElapsed,
}

/// A change of the metric with these labels.
#[derive(Debug, PartialEq, Eq)]
pub struct MetricUpdate {
    pub metric: Metric,
    pub labels: Vec<String>,
    pub change: Change,
}

/// What an update says.
pub struct UpdateView {
    pub metric: Metric,
    pub labels: Seq<Seq<char>>,
    pub change: Change,
}

impl View for MetricUpdate {
    type V = UpdateView;

    open spec fn view(&self) -> UpdateView {
        UpdateView { metric: self.metric, labels: texts(self.labels@), change: self.change }
    }
}

/// What each update says.
pub open spec fn update_views(updates: Seq<MetricUpdate>) -> Seq<UpdateView> {
    updates.map_values(|u: MetricUpdate| u@)
}

fn update(metric: Metric, contract_id: &str, change: Change) -> (u: MetricUpdate)
    ensures
        u@ == update_of(metric, contract_id@, change),
{
    let mut labels: Vec<String> = Vec::new();
    labels.push(contract_id.to_string());
    assert(texts(labels@) =~= seq![contract_id@]);
    MetricUpdate { metric, labels, change }
}

fn named_update(metric: Metric, contract_id: &str, name: &str, change: Change) -> (u: MetricUpdate)
    ensures
        u@ == named_update_of(metric, contract_id@, name@, change),
{
    let mut labels: Vec<String> = Vec::new();
    labels.push(contract_id.to_string());
    labels.push(name.to_string());
    assert(texts(labels@) =~= seq![contract_id@, name@]);
    MetricUpdate { metric, labels, change }
}

/// A change of a metric of a contract.
pub open spec fn update_of(metric: Metric, contract: Seq<char>, change: Change) -> UpdateView {
    UpdateView { metric, labels: seq![contract], change }
}

/// A change of a metric of something named, in a contract.
pub open spec fn named_update_of(
    metric: Metric,
    contract: Seq<char>,
    name: Seq<char>,
    change: Change,
) -> UpdateView {
    UpdateView { metric, labels: seq![contract, name], change }
}

/// One for true, zero for false.
pub open spec fn as_gauge(b: bool) -> u64 {
    if b {
        1
    } else {
        0
    }
}

fn gauge(b: bool) -> (n: u64)
    ensures
        n == as_gauge(b),
{
    if b {
        1
    } else {
        0
    }
}

/// How many events are of ledgers after `start`.
pub open spec fn new_events(ledgers: Seq<u32>, start: u32) -> nat {
    ledgers.filter(|ledger: u32| ledger > start).len()
}

/// What events do to their metric: all of them are the baseline while the cursor
/// is zero, and those of later ledgers than the cursor are added afterwards.
pub open spec fn counted(start_ledger: u32, ledgers: Seq<u32>) -> Change {
    if start_ledger == 0 {
        Change::Replace(ledgers.len() as u64)
    } else {
        Change::Increase(new_events(ledgers, start_ledger) as u64)
    }
}

fn count_new_events(ledgers: &Vec<u32>, start: u32) -> (count: usize)
    ensures
        count == new_events(ledgers@, start),
{
    let mut count: usize = 0;
    let mut i: usize = 0;
    proof {
        reveal(Seq::filter);
        assert(new_events(ledgers@.take(0), start) == 0);
    }
    while i < ledgers.len()
        invariant
            count <= i <= ledgers@.len(),
            count == new_events(ledgers@.take(i as int), start),
        decreases ledgers@.len() - i,
    {
        proof {
            reveal(Seq::filter);
            let now = ledgers@.take(i + 1);
            assert(now.drop_last() =~= ledgers@.take(i as int));
            assert(now.last() == ledgers@[i as int]);
        }
        if ledgers[i] > start {
            count = count + 1;
        }
        i = i + 1;
    }
    assert(ledgers@.take(i as int) =~= ledgers@);
    count
}

fn count_change(start_ledger: u32, ledgers: &Vec<u32>) -> (change: Change)
    ensures
        change == counted(start_ledger, ledgers@),
{
    if start_ledger == 0 {
        Change::Replace(ledgers.len() as u64)
    } else {
        Change::Increase(count_new_events(ledgers, start_ledger) as u64)
    }
}

/// The newest of the ledgers, or `start` if none is newer.
pub open spec fn newest(ledgers: Seq<u32>, start: u32) -> u32
    decreases ledgers.len(),
{
    if ledgers.len() == 0 {
        start
    } else {
        let rest = newest(ledgers.drop_last(), start);
        if ledgers.last() > rest {
            ledgers.last()
        } else {
            rest
        }
    }
}

fn newest_ledger(ledgers: &Vec<u32>, start: u32) -> (ledger: u32)
    ensures
        ledger == newest(ledgers@, start),
{
    let mut ledger: u32 = start;
    let mut i: usize = 0;
    while i < ledgers.len()
        invariant
            i <= ledgers@.len(),
            ledger == newest(ledgers@.take(i as int), start),
        decreases ledgers@.len() - i,
    {
        proof {
            let now = ledgers@.take(i + 1);
            assert(now.drop_last() =~= ledgers@.take(i as int));
            assert(now.last() == ledgers@[i as int]);
        }
        if ledgers[i] > ledger {
            ledger = ledgers[i];
        }
        i = i + 1;
    }
    assert(ledgers@.take(i as int) =~= ledgers@);
    ledger
}

// ── The scrape of one contract ──────────────────────────────────────────────

/// The contracts, in the order in which they are scraped.
#[derive(Clone, Copy, Debug, PartialEq, Eq, Structural)]
pub enum ContractKind {
    Core,
    Middleware,
    Registry,
    Quote,
    Execution,
}

/// How far the scrape of a contract has come.
#[derive(Clone, Copy, Debug, PartialEq, Eq, Structural)]
pub enum Phase {
    /// Its total is asked for.
    Total,
    /// Its names are asked for.
    Names,
    /// Its names are asked about one by one.
    Item,
    /// Events of the first topic are asked for.
    First,
    /// Events of the second topic are asked for.
    Second,
    /// Ledger entries are asked for.
    Entries,
}

/// The scrape of one contract.
#[derive(Debug)]
pub struct Scrape {
    kind: ContractKind,
    phase: Phase,
    contract_id: String,
    names: Vec<String>,
    next: usize,
    start_ledger: u32,
    first: Vec<u32>,
    second: Vec<u32>,
}

/// What the scrape of one contract remembers.
#[verifier::ext_equal]
pub struct ScrapeView {
    pub kind: ContractKind,
    pub phase: Phase,
    pub contract: Seq<char>,
    /// The names that are asked about.
    pub names: Seq<Seq<char>>,
    /// Which of them is next.
    pub next: nat,
    /// The cursor when the scrape began.
    pub start_ledger: u32,
    /// The ledgers of the events of the first topic.
    pub first: Seq<u32>,
    /// The ledgers of the events of the second topic.
    pub second: Seq<u32>,
}

impl View for Scrape {
    type V = ScrapeView;

    closed spec fn view(&self) -> ScrapeView {
        ScrapeView {
            kind: self.kind,
            phase: self.phase,
            contract: self.contract_id@,
            names: texts(self.names@),
            next: self.next as nat,
            start_ledger: self.start_ledger,
            first: self.first@,
            second: self.second@,
        }
    }
}

impl ScrapeView {
    /// Whether the phase is one that the kind of contract has, and the next name
    /// is there.
    pub open spec fn in_order(self) -> bool {
        &&& match self.kind {
            ContractKind::Core | ContractKind::Middleware => self.phase is Total || self.phase
                is Names || self.phase is Item,
            ContractKind::Registry => self.phase is Names || self.phase is Item,
            ContractKind::Quote => self.phase is First || self.phase is Second,
            ContractKind::Execution => self.phase is First || self.phase is Second || self.phase
                is Entries,
        }
        &&& self.phase is Item ==> self.next < self.names.len()
    }
}

/// The phase with which the scrape of a contract begins.
pub open spec fn first_phase(kind: ContractKind) -> Phase {
    match kind {
        ContractKind::Core | ContractKind::Middleware => Phase::Total,
        ContractKind::Registry => Phase::Names,
        ContractKind::Quote | ContractKind::Execution => Phase::First,
    }
}

/// The scrape of a contract, at its beginning.
pub open spec fn fresh_scrape(kind: ContractKind, contract: Seq<char>, start_ledger: u32) -> ScrapeView {
    ScrapeView {
        kind,
        phase: first_phase(kind),
        contract,
        names: Seq::empty(),
        next: 0,
        start_ledger,
        first: Seq::empty(),
        second: Seq::empty(),
    }
}

/// The call that a scrape makes next.
pub open spec fn call_of(s: ScrapeView) -> CallView {
    match (s.kind, s.phase) {
        (ContractKind::Core, Phase::Total) => CallView::CallU64 {
            contract: s.contract,
            function: "total_routed"@,
        },
        (ContractKind::Core, Phase::Names) => CallView::CallStringVec {
            contract: s.contract,
            function: "get_all_routes"@,
        },
        (ContractKind::Core, _) => CallView::SimulateInvoke {
            contract: s.contract,
            function: "get_route"@,
            args: seq![hex_text(encode_utf8(s.names[s.next as int]))],
        },
        (ContractKind::Middleware, Phase::Total) => CallView::CallU64 {
            contract: s.contract,
            function: "total_calls"@,
        },
        (ContractKind::Middleware, Phase::Names) => CallView::CallStringVec {
            contract: s.contract,
            function: "get_configured_routes"@,
        },
        (ContractKind::Middleware, _) => CallView::SimulateInvoke {
            contract: s.contract,
            function: "circuit_breaker_state"@,
            args: seq![hex_text(encode_utf8(s.names[s.next as int]))],
        },
        (ContractKind::Registry, Phase::Names) => CallView::CallStringVec {
            contract: s.contract,
            function: "get_all_names"@,
        },
        (ContractKind::Registry, _) => CallView::CallU32Vec {
            contract: s.contract,
            function: "versions"@,
            name: s.names[s.next as int],
        },
        (ContractKind::Quote, Phase::First) => CallView::GetEvents {
            contract: s.contract,
            topic: "quote_generated"@,
            start_ledger: s.start_ledger,
        },
        (ContractKind::Quote, _) => CallView::GetEvents {
            contract: s.contract,
            topic: "fee_estimated"@,
            start_ledger: s.start_ledger,
        },
        (ContractKind::Execution, Phase::First) => CallView::GetEvents {
            contract: s.contract,
            topic: "execution_result"@,
            start_ledger: s.start_ledger,
        },
        (ContractKind::Execution, Phase::Second) => CallView::GetEvents {
            contract: s.contract,
            topic: "execution_error"@,
            start_ledger: s.start_ledger,
        },
        (ContractKind::Execution, _) => CallView::GetLedgerEntries {
            keys: seq![data_key(s.contract, "MaxRetries"@)],
        },
    }
}

/// Where the scrape of a contract stands after a reply.
pub enum Outcome {
    /// It goes on.
    Next(ScrapeView),
    /// It is done. The cursor moves to this ledger if it is newer.
    Done(u32),
    /// It has failed.
    Failed,
}

/// Where a scrape stands when its names are known.
pub open spec fn after_names(s: ScrapeView, names: Seq<Seq<char>>) -> Outcome {
    if names.len() == 0 {
        Outcome::Done(s.start_ledger)
    } else {
        Outcome::Next(ScrapeView { phase: Phase::Item, names, next: 0, ..s })
    }
}

/// Where a scrape stands when the next name has been asked about.
pub open spec fn after_item(s: ScrapeView) -> Outcome {
    if s.next + 1 < s.names.len() {
        Outcome::Next(ScrapeView { next: s.next + 1, ..s })
    } else {
        Outcome::Done(s.start_ledger)
    }
}

/// Where a scrape stands after a reply. A reply of a shape that the call does
/// not have counts as a failed call. A failed call for one of several names, or
/// for ledger entries, does not fail the scrape.
pub open spec fn outcome_of(s: ScrapeView, reply: RpcReply) -> Outcome {
    match s.phase {
        Phase::Total => if reply is Number {
            Outcome::Next(ScrapeView { phase: Phase::Names, ..s })
        } else {
            Outcome::Failed
        },
        Phase::Names => match reply {
            RpcReply::Names(names) => after_names(s, texts(names@)),
            _ => Outcome::Failed,
        },
        Phase::Item => after_item(s),
        Phase::First => match reply {
            RpcReply::Events(ledgers) => Outcome::Next(
                ScrapeView { phase: Phase::Second, first: ledgers@, ..s },
            ),
            _ => Outcome::Failed,
        },
        Phase::Second => match reply {
            RpcReply::Events(ledgers) => if s.kind is Execution {
                Outcome::Next(ScrapeView { phase: Phase::Entries, second: ledgers@, ..s })
            } else {
                Outcome::Done(newest(s.first + ledgers@, s.start_ledger))
            },
            _ => Outcome::Failed,
        },
        Phase::Entries => Outcome::Done(newest(s.first + s.second, s.start_ledger)),
    }
}

/// The number of retries that a reply gives, zero if it gives none.
pub open spec fn retries_in(reply: RpcReply) -> u64 {
    match reply {
        RpcReply::Entries(entries) => match entries_number(entries@, "MaxRetries"@, 0) {
            Some(n) => n,
            None => 0,
        },
        _ => 0,
    }
}

/// What a reply does to the metrics.
pub open spec fn updates_of(s: ScrapeView, reply: RpcReply) -> Seq<UpdateView> {
    let id = s.contract;
    match (s.kind, s.phase, reply) {
        (ContractKind::Core, Phase::Total, RpcReply::Number(n)) => seq![
            update_of(Metric::CoreTotalRouted, id, Change::Replace(n)),
            update_of(Metric::CorePaused, id, Change::Replace(0)),
        ],
        (ContractKind::Core, Phase::Item, RpcReply::Value(val)) => seq![
            named_update_of(
                Metric::CoreRoutePaused,
                id,
                s.names[s.next as int],
                Change::Replace(as_gauge(route_paused(val) == Some(true))),
            ),
        ],
        (ContractKind::Middleware, Phase::Total, RpcReply::Number(n)) => seq![
            update_of(Metric::MiddlewareTotalCalls, id, Change::Replace(n)),
        ],
        (ContractKind::Middleware, Phase::Item, RpcReply::Value(val)) => seq![
            named_update_of(
                Metric::MiddlewareCircuitOpen,
                id,
                s.names[s.next as int],
                Change::Replace(as_gauge(breaker_state(val).0)),
            ),
            named_update_of(
                Metric::MiddlewareFailureCount,
                id,
                s.names[s.next as int],
                Change::Replace(breaker_state(val).1 as u64),
            ),
        ],
        (ContractKind::Registry, Phase::Names, RpcReply::Names(names)) => seq![
            update_of(Metric::RegistryTotalNames, id, Change::Replace(names@.len() as u64)),
        ],
        (ContractKind::Registry, Phase::Item, RpcReply::Versions(versions)) => seq![
            named_update_of(
                Metric::RegistryVersionCount,
                id,
                s.names[s.next as int],
                Change::Replace(versions@.len() as u64),
            ),
        ],
        (ContractKind::Quote, Phase::Second, RpcReply::Events(ledgers)) => seq![
            update_of(Metric::QuoteTotalGenerated, id, counted(s.start_ledger, s.first)),
            update_of(Metric::QuoteTotalFeeEstimated, id, counted(s.start_ledger, ledgers@)),
        ],
        (ContractKind::Execution, Phase::Entries, _) => seq![
            update_of(Metric::ExecutionTotalExecutions, id, counted(s.start_ledger, s.first)),
            update_of(Metric::ExecutionTotalErrors, id, counted(s.start_ledger, s.second)),
            update_of(Metric::ExecutionMaxRetries, id, Change::Replace(retries_in(reply))),
        ],
        _ => Seq::empty(),
    }
}

/// What `Scrape::on_reply` hands back.
enum Progress {
    Next(Scrape),
    Done(u32),
    Failed,
}

impl Scrape {
    spec fn wf(&self) -> bool {
        self@.in_order()
    }

    fn begin(kind: ContractKind, contract_id: &str, start_ledger: u32) -> (s: Scrape)
        ensures
            s.wf(),
            s@ == fresh_scrape(kind, contract_id@, start_ledger),
    {
        let phase = match kind {
            ContractKind::Core | ContractKind::Middleware => Phase::Total,
            ContractKind::Registry => Phase::Names,
            ContractKind::Quote | ContractKind::Execution => Phase::First,
        };
        let s = Scrape {
            kind,
            phase,
            contract_id: contract_id.to_string(),
            names: Vec::new(),
            next: 0,
            start_ledger,
            first: Vec::new(),
            second: Vec::new(),
        };
        assert(s@ =~= fresh_scrape(kind, contract_id@, start_ledger));
        s
    }

    /// The name that is asked about.
    fn current_name(&self) -> (name: &String)
        requires
            self.wf(),
            self@.phase is Item,
        ensures
            name@ == self@.names[self@.next as int],
    {
        &self.names[self.next]
    }

    fn simulate(&self, function: &str) -> (call: RpcCall)
        requires
            self.wf(),
            self@.phase is Item,
        ensures
            call@ == (CallView::SimulateInvoke {
                contract: self@.contract,
                function: function@,
                args: seq![hex_text(encode_utf8(self@.names[self@.next as int]))],
            }),
    {
        let mut args: Vec<String> = Vec::new();
        args.push(encode_string_arg(self.current_name().as_str()));
        assert(texts(args@) =~= seq![hex_text(encode_utf8(self@.names[self@.next as int]))]);
        RpcCall::SimulateInvoke {
            contract_id: self.contract_id.clone(),
            function: function.to_string(),
            args,
        }
    }

    fn events(&self, topic: &str) -> (call: RpcCall)
        ensures
            call@ == (CallView::GetEvents {
                contract: self@.contract,
                topic: topic@,
                start_ledger: self@.start_ledger,
            }),
    {
        RpcCall::GetEvents {
            contract_id: self.contract_id.clone(),
            topic: topic.to_string(),
            start_ledger: self.start_ledger,
        }
    }

    fn total(&self, function: &str) -> (call: RpcCall)
        ensures
            call@ == (CallView::CallU64 { contract: self@.contract, function: function@ }),
    {
        RpcCall::CallU64 {
            contract_id: self.contract_id.clone(),
            function: function.to_string(),
        }
    }

    fn list(&self, function: &str) -> (call: RpcCall)
        ensures
            call@ == (CallView::CallStringVec { contract: self@.contract, function: function@ }),
    {
        RpcCall::CallStringVec {
            contract_id: self.contract_id.clone(),
            function: function.to_string(),
        }
    }

    /// The call to make next.
    fn next_call(&self) -> (call: RpcCall)
        requires
            self.wf(),
        ensures
            call@ == call_of(self@),
    {
        match (self.kind, self.phase) {
            (ContractKind::Core, Phase::Total) => self.total("total_routed"),
            (ContractKind::Core, Phase::Names) => self.list("get_all_routes"),
            (ContractKind::Core, _) => self.simulate("get_route"),
            (ContractKind::Middleware, Phase::Total) => self.total("total_calls"),
            (ContractKind::Middleware, Phase::Names) => self.list("get_configured_routes"),
            (ContractKind::Middleware, _) => self.simulate("circuit_breaker_state"),
            (ContractKind::Registry, Phase::Names) => self.list("get_all_names"),
            (ContractKind::Registry, _) => RpcCall::CallU32Vec {
                contract_id: self.contract_id.clone(),
                function: "versions".to_string(),
                name: self.current_name().clone(),
            },
            (ContractKind::Quote, Phase::First) => self.events("quote_generated"),
            (ContractKind::Quote, _) => self.events("fee_estimated"),
            (ContractKind::Execution, Phase::First) => self.events("execution_result"),
            (ContractKind::Execution, Phase::Second) => self.events("execution_error"),
            (ContractKind::Execution, _) => {
                let mut keys: Vec<String> = Vec::new();
                keys.push(encode_contract_data_key(self.contract_id.as_str(), "MaxRetries"));
                assert(texts(keys@) =~= seq![data_key(self@.contract, "MaxRetries"@)]);
                RpcCall::GetLedgerEntries { keys }
            },
        }
    }

    /// What a reply does to the metrics.
    fn updates(&self, reply: &RpcReply) -> (updates: Vec<MetricUpdate>)
        requires
            self.wf(),
        ensures
            update_views(updates@) == updates_of(self@, *reply),
    {
        let id = self.contract_id.as_str();
        let mut out: Vec<MetricUpdate> = Vec::new();
        match (self.kind, self.phase, reply) {
            (ContractKind::Core, Phase::Total, RpcReply::Number(n)) => {
                out.push(update(Metric::CoreTotalRouted, id, Change::Replace(*n)));
                out.push(update(Metric::CorePaused, id, Change::Replace(0)));
            },
            (ContractKind::Core, Phase::Item, RpcReply::Value(val)) => {
                let name = self.current_name().as_str();
                let paused = match extract_route_paused(val) {
                    Some(paused) => paused,
                    None => false,
                };
                let change = Change::Replace(gauge(paused));
                out.push(named_update(Metric::CoreRoutePaused, id, name, change));
            },
            (ContractKind::Middleware, Phase::Total, RpcReply::Number(n)) => {
                out.push(update(Metric::MiddlewareTotalCalls, id, Change::Replace(*n)));
            },
            (ContractKind::Middleware, Phase::Item, RpcReply::Value(val)) => {
                let name = self.current_name().as_str();
                let state = match extract_circuit_breaker_state(val) {
                    Some(state) => state,
                    None => (false, 0u32),
                };
                let open = Change::Replace(gauge(state.0));
                let failures = Change::Replace(state.1 as u64);
                out.push(named_update(Metric::MiddlewareCircuitOpen, id, name, open));
                out.push(named_update(Metric::MiddlewareFailureCount, id, name, failures));
            },
            (ContractKind::Registry, Phase::Names, RpcReply::Names(names)) => {
                let count = Change::Replace(names.len() as u64);
                out.push(update(Metric::RegistryTotalNames, id, count));
            },
            (ContractKind::Registry, Phase::Item, RpcReply::Versions(versions)) => {
                let name = self.current_name().as_str();
                let count = Change::Replace(versions.len() as u64);
                out.push(named_update(Metric::RegistryVersionCount, id, name, count));
            },
            (ContractKind::Quote, Phase::Second, RpcReply::Events(ledgers)) => {
                let quotes = count_change(self.start_ledger, &self.first);
                let fees = count_change(self.start_ledger, ledgers);
                out.push(update(Metric::QuoteTotalGenerated, id, quotes));
                out.push(update(Metric::QuoteTotalFeeEstimated, id, fees));
            },
            (ContractKind::Execution, Phase::Entries, _) => {
                let executions = count_change(self.start_ledger, &self.first);
                let errors = count_change(self.start_ledger, &self.second);
                let retries: u64 = match reply {
                    RpcReply::Entries(entries) => match extract_u64_from_entry(
                        entries,
                        "MaxRetries",
                    ) {
                        Some(n) => n,
                        None => 0,
                    },
                    _ => 0,
                };
                out.push(update(Metric::ExecutionTotalExecutions, id, executions));
                out.push(update(Metric::ExecutionTotalErrors, id, errors));
                out.push(update(Metric::ExecutionMaxRetries, id, Change::Replace(retries)));
            },
            _ => {},
        }
        assert(update_views(out@) =~= updates_of(self@, *reply));
        out
    }

    /// The newest ledger among the events of both topics.
    fn newest_seen(start_ledger: u32, first: &Vec<u32>, second: &Vec<u32>) -> (ledger: u32)
        ensures
            ledger == newest(first@ + second@, start_ledger),
    {
        proof {
            lemma_newest_append(first@, second@, start_ledger);
        }
        newest_ledger(second, newest_ledger(first, start_ledger))
    }

    /// Takes a reply.
    fn on_reply(self, reply: RpcReply) -> (progress: Progress)
        requires
            self.wf(),
        ensures
            match (progress, outcome_of(self@, reply)) {
                (Progress::Next(s), Outcome::Next(view)) => s@ == view && s.wf(),
                (Progress::Done(ledger), Outcome::Done(newest)) => ledger == newest,
                (Progress::Failed, Outcome::Failed) => true,
                _ => false,
            },
    {
        let ghost before = self@;
        let mut s = self;
        match s.phase {
            Phase::Total => match reply {
                RpcReply::Number(_) => {
                    s.phase = Phase::Names;
                    assert(s@ =~= (ScrapeView { phase: Phase::Names, ..before }));
                    Progress::Next(s)
                },
                _ => Progress::Failed,
            },
            Phase::Names => match reply {
                RpcReply::Names(names) => {
                    if names.len() == 0 {
                        Progress::Done(s.start_ledger)
                    } else {
                        s.phase = Phase::Item;
                        s.names = names;
                        s.next = 0;
                        assert(s@ =~= (ScrapeView {
                            phase: Phase::Item,
                            names: texts(names@),
                            next: 0,
                            ..before
                        }));
                        Progress::Next(s)
                    }
                },
                _ => Progress::Failed,
            },
            Phase::Item => {
                if s.next < s.names.len() - 1 {
                    s.next = s.next + 1;
                    assert(s@ =~= (ScrapeView { next: before.next + 1, ..before }));
                    Progress::Next(s)
                } else {
                    Progress::Done(s.start_ledger)
                }
            },
            Phase::First => match reply {
                RpcReply::Events(ledgers) => {
                    s.phase = Phase::Second;
                    s.first = ledgers;
                    assert(s@ =~= (ScrapeView {
                        phase: Phase::Second,
                        first: ledgers@,
                        ..before
                    }));
                    Progress::Next(s)
                },
                _ => Progress::Failed,
            },
            Phase::Second => match reply {
                RpcReply::Events(ledgers) => match s.kind {
                    ContractKind::Execution => {
                        s.phase = Phase::Entries;
                        s.second = ledgers;
                        assert(s@ =~= (ScrapeView {
                            phase: Phase::Entries,
                            second: ledgers@,
                            ..before
                        }));
                        Progress::Next(s)
                    },
                    _ => Progress::Done(Self::newest_seen(s.start_ledger, &s.first, &ledgers)),
                },
                _ => Progress::Failed,
            },
            Phase::Entries => Progress::Done(
                Self::newest_seen(s.start_ledger, &s.first, &s.second),
            ),
        }
    }
}

proof fn lemma_newest_append(a: Seq<u32>, b: Seq<u32>, start: u32)
    ensures
        newest(a + b, start) == newest(b, newest(a, start)),
    decreases b.len(),
{
    if b.len() == 0 {
        assert(a + b =~= a);
    } else {
        assert((a + b).drop_last() =~= a + b.drop_last());
        lemma_newest_append(a, b.drop_last(), start);
    }
}

// ── The cycle over all contracts ────────────────────────────────────────────

/// The contracts to scrape. An empty identifier leaves a contract out.
#[derive(Debug)]
pub struct Targets {
    pub core_contract_id: String,
    pub middleware_contract_id: String,
    pub registry_contract_id: String,
    pub quote_contract_id: String,
    pub execution_contract_id: String,
}

impl View for Targets {
    type V = Seq<Seq<char>>;

    open spec fn view(&self) -> Seq<Seq<char>> {
        seq![
            self.core_contract_id@,
            self.middleware_contract_id@,
            self.registry_contract_id@,
            self.quote_contract_id@,
            self.execution_contract_id@,
        ]
    }
}

/// The kind of the contract at a place of the order.
pub open spec fn kind_of(at: nat) -> ContractKind {
    if at == 0 {
        ContractKind::Core
    } else if at == 1 {
        ContractKind::Middleware
    } else if at == 2 {
        ContractKind::Registry
    } else if at == 3 {
        ContractKind::Quote
    } else {
        ContractKind::Execution
    }
}

fn kind_at(at: usize) -> (kind: ContractKind)
    ensures
        kind == kind_of(at as nat),
{
    if at == 0 {
        ContractKind::Core
    } else if at == 1 {
        ContractKind::Middleware
    } else if at == 2 {
        ContractKind::Registry
    } else if at == 3 {
        ContractKind::Quote
    } else {
        ContractKind::Execution
    }
}

impl Targets {
    fn id(&self, at: usize) -> (id: &String)
        requires
            at < 5,
        ensures
            id@ == self@[at as int],
    {
        if at == 0 {
            &self.core_contract_id
        } else if at == 1 {
            &self.middleware_contract_id
        } else if at == 2 {
            &self.registry_contract_id
        } else if at == 3 {
            &self.quote_contract_id
        } else {
            &self.execution_contract_id
        }
    }
}

/// What the collector remembers between cycles.
#[verifier::ext_equal]
pub struct CollectorView {
    pub targets: Seq<Seq<char>>,
    pub cursors: Map<Seq<char>, u32>,
}

/// The key of the cursor of a contract whose events are counted.
pub open spec fn cursor_key(kind: ContractKind, contract: Seq<char>) -> Seq<char> {
    if kind is Quote {
        "quote:"@ + contract
    } else {
        "execution:"@ + contract
    }
}

/// Whether events of the contract are counted.
pub open spec fn counts_events(kind: ContractKind) -> bool {
    kind is Quote || kind is Execution
}

impl CollectorView {
    /// The newest ledger whose events have been counted, zero before the first.
    pub open spec fn cursor(self, kind: ContractKind, contract: Seq<char>) -> u32 {
        let key = cursor_key(kind, contract);
        if counts_events(kind) && self.cursors.contains_key(key) {
            self.cursors[key]
        } else {
            0
        }
    }

    /// After the cursor of a contract has been moved to `ledger`, if that is
    /// newer than `start_ledger`.
    pub open spec fn moved(
        self,
        kind: ContractKind,
        contract: Seq<char>,
        start_ledger: u32,
        ledger: u32,
    ) -> CollectorView {
        if counts_events(kind) && ledger > start_ledger {
            CollectorView {
                cursors: self.cursors.insert(cursor_key(kind, contract), ledger),
                ..self
            }
        } else {
            self
        }
    }
}

/// One cycle.
#[derive(Debug)]
pub struct Cycle {
    at: usize,
    ok: bool,
    scrape: Option<Scrape>,
}

/// What a cycle remembers.
pub struct CycleView {
    /// Which contract is being scraped.
    pub at: nat,
    /// Whether every scrape so far has succeeded.
    pub ok: bool,
    /// Its scrape, none once the cycle is over.
    pub scrape: Option<ScrapeView>,
}

impl View for Cycle {
    type V = CycleView;

    closed spec fn view(&self) -> CycleView {
        CycleView {
            at: self.at as nat,
            ok: self.ok,
            scrape: match self.scrape {
                Some(s) => Some(s@),
                None => None,
            },
        }
    }
}

/// The cycle at the first contract from place `from` on that is not left out.
pub open spec fn cycle_from(s: CollectorView, from: nat, ok: bool) -> CycleView
    decreases 5 - from,
{
    if from >= 5 {
        CycleView { at: 5, ok, scrape: None }
    } else if s.targets[from as int].len() == 0 {
        cycle_from(s, from + 1, ok)
    } else {
        let kind = kind_of(from);
        let id = s.targets[from as int];
        CycleView { at: from, ok, scrape: Some(fresh_scrape(kind, id, s.cursor(kind, id))) }
    }
}

/// Where collector and cycle stand after a reply.
pub open spec fn step(s: CollectorView, c: CycleView, reply: RpcReply) -> (
    CollectorView,
    CycleView,
) {
    let scrape = c.scrape->0;
    match outcome_of(scrape, reply) {
        Outcome::Next(next) => (s, CycleView { scrape: Some(next), ..c }),
        Outcome::Done(ledger) => {
            let moved = s.moved(scrape.kind, scrape.contract, scrape.start_ledger, ledger);
            (moved, cycle_from(moved, c.at + 1, c.ok))
        },
        Outcome::Failed => (s, cycle_from(s, c.at + 1, false)),
    }
}

/// What a reply does to the metrics: a scrape that is done tells how long it
/// took, one that has failed is counted.
pub open spec fn step_updates(c: CycleView, reply: RpcReply) -> Seq<UpdateView> {
    let scrape = c.scrape->0;
    let own = updates_of(scrape, reply);
    match outcome_of(scrape, reply) {
        Outcome::Next(_) => own,
        Outcome::Done(_) => own.push(
            update_of(Metric::ScrapeDurationSeconds, scrape.contract, Change::ObserveElapsed),
        ),
        Outcome::Failed => own.push(
            update_of(Metric::ScrapeErrorsTotal, scrape.contract, Change::Increase(1)),
        ),
    }
}

impl Cycle {
    /// Whether the scrape is that of the contract at hand, and in order.
    pub closed spec fn wf(&self) -> bool {
        &&& self.at <= 5
        &&& match self.scrape {
            Some(s) => self.at < 5 && s.wf() && s.kind == kind_of(self.at as nat),
            None => self.at == 5,
        }
    }

    /// The call to make next, none once the cycle is over.
    pub fn next_call(&self) -> (call: Option<RpcCall>)
        requires
            self.wf(),
        ensures
            match call {
                Some(call) => self@.scrape is Some && call@ == call_of(self@.scrape->0),
                None => self@.scrape is None,
            },
    {
        match &self.scrape {
            Some(s) => Some(s.next_call()),
            None => None,
        }
    }

    /// Which contract is being scraped.
    pub fn position(&self) -> (at: usize)
        ensures
            at == self@.at,
    {
        self.at
    }

    /// Whether every scrape so far has succeeded.
    pub fn succeeded(&self) -> (ok: bool)
        ensures
            ok == self@.ok,
    {
        self.ok
    }

    /// What the end of a cycle does to the metric that tells whether the last
    /// cycle went well.
    pub fn up_update(&self) -> (update: MetricUpdate)
        ensures
            update@ == (UpdateView {
                metric: Metric::Up,
                labels: Seq::empty(),
                change: Change::Replace(as_gauge(self@.ok)),
            }),
    {
        let labels: Vec<String> = Vec::new();
        assert(texts(labels@) =~= Seq::empty());
        MetricUpdate { metric: Metric::Up, labels, change: Change::Replace(gauge(self.ok)) }
    }
}

/// Drives scrape cycles.
pub struct Collector {
    targets: Targets,
    cursors: Table<String, u32>,
}

impl View for Collector {
    type V = CollectorView;

    closed spec fn view(&self) -> CollectorView {
        CollectorView { targets: self.targets@, cursors: self.cursors@ }
    }
}

impl Collector {
    /// Whether the table inside is in order.
    pub closed spec fn wf(&self) -> bool {
        self.cursors.wf()
    }

    /// A collector that has counted nothing.
    pub fn new(targets: Targets) -> (collector: Self)
        ensures
            collector.wf(),
            collector@ == (CollectorView { targets: targets@, cursors: Map::empty() }),
    {
        let collector = Collector { targets, cursors: Table::new() };
        assert(collector@ =~= (CollectorView { targets: targets@, cursors: Map::empty() }));
        collector
    }

    fn key(kind: ContractKind, contract_id: &str) -> (key: String)
        ensures
            key@ == cursor_key(kind, contract_id@),
    {
        match kind {
            ContractKind::Quote => join("quote:", contract_id),
            _ => join("execution:", contract_id),
        }
    }

    fn counts(kind: ContractKind) -> (counts: bool)
        ensures
            counts == counts_events(kind),
    {
        match kind {
            ContractKind::Quote | ContractKind::Execution => true,
            _ => false,
        }
    }

    /// The newest ledger whose events have been counted, zero before the first.
    pub fn last_ledger(&self, kind: ContractKind, contract_id: &str) -> (ledger: u32)
        requires
            self.wf(),
        ensures
            ledger == self@.cursor(kind, contract_id@),
    {
        if !Self::counts(kind) {
            return 0;
        }
        match self.cursors.get(&Self::key(kind, contract_id)) {
            Some(ledger) => *ledger,
            None => 0,
        }
    }

    fn cycle_at(&self, from: usize, ok: bool) -> (cycle: Cycle)
        requires
            self.wf(),
            from <= 5,
        ensures
            cycle.wf(),
            cycle@ == cycle_from(self@, from as nat, ok),
    {
        let mut at: usize = from;
        while at < 5
            invariant
                self.wf(),
                at <= 5,
                cycle_from(self@, from as nat, ok) == cycle_from(self@, at as nat, ok),
            decreases 5 - at,
        {
            let id = self.targets.id(at);
            if !same_text(id.as_str(), "") {
                proof {
                    reveal_strlit("");
                    assert(id@.len() == 0 ==> id@ =~= ""@);
                }
                let kind = kind_at(at);
                let start: u32 = self.last_ledger(kind, id.as_str());
                return Cycle { at, ok, scrape: Some(Scrape::begin(kind, id.as_str(), start)) };
            }
            proof {
                reveal_strlit("");
            }
            at = at + 1;
        }
        Cycle { at: 5, ok, scrape: None }
    }

    /// Begins a cycle.
    pub fn start_cycle(&self) -> (cycle: Cycle)
        requires
            self.wf(),
        ensures
            cycle.wf(),
            cycle@ == cycle_from(self@, 0, true),
    {
        self.cycle_at(0, true)
    }

    /// Takes the reply to the call that a cycle has asked for.
    pub fn on_reply(&mut self, cycle: Cycle, reply: RpcReply) -> (after: (Cycle, Vec<MetricUpdate>))
        requires
            old(self).wf(),
            cycle.wf(),
            cycle@.scrape is Some,
        ensures
            final(self).wf(),
            after.0.wf(),
            (final(self)@, after.0@) == step(old(self)@, cycle@, reply),
            update_views(after.1@) == step_updates(cycle@, reply),
    {
        let ghost before = self@;
        let at: usize = cycle.at;
        let ok = cycle.ok;
        let scrape = match cycle.scrape {
            Some(s) => s,
            None => {
                proof {
                    assert(false);
                }
                return (Cycle { at: 5, ok, scrape: None }, Vec::new());
            },
        };
        let mut updates = scrape.updates(&reply);
        let ghost own = updates@;
        let id = scrape.contract_id.clone();
        let kind = scrape.kind;
        let start: u32 = scrape.start_ledger;
        match scrape.on_reply(reply) {
            Progress::Next(next) => (Cycle { at, ok, scrape: Some(next) }, updates),
            Progress::Done(ledger) => {
                if Self::counts(kind) && ledger > start {
                    let key = Self::key(kind, id.as_str());
                    self.cursors.insert(key, ledger);
                }
                assert(self@ =~= before.moved(kind, id@, start, ledger));
                updates.push(
                    update(Metric::ScrapeDurationSeconds, id.as_str(), Change::ObserveElapsed),
                );
                assert(update_views(updates@) =~= update_views(own).push(updates@.last()@));
                (self.cycle_at(at + 1, ok), updates)
            },
            Progress::Failed => {
                updates.push(update(Metric::ScrapeErrorsTotal, id.as_str(), Change::Increase(1)));
                assert(update_views(updates@) =~= update_views(own).push(updates@.last()@));
                (self.cycle_at(at + 1, false), updates)
            },
        }
    }
}

} // verus!
