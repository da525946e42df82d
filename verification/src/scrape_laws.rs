//! What the scrape of each contract asks for, what it makes of each reply, and
//! where it goes from there.

use vstd::prelude::*;
use vstd::utf8::*;

use crate::collector::{
    as_gauge, breaker_state, call_of, counted, cursor_key, cycle_from, data_key, entries_number, entry_number,
    fresh_scrape, json_member_u64_of, json_u64_of, kind_of, new_events, newest, number_of,
    outcome_of, retries_in, returned, route_paused, step, step_updates, updates_of,
};
use crate::collector::{
    CallView, Change, ContractKind, LedgerEntry, Metric, Outcome, Phase, RpcReply, ScrapeView,
    UpdateView,
};
use crate::collector::{CollectorView, CycleView};
use crate::json::{field_from, Json};
use crate::text::{hex_text, is_part_of, texts, unsigned_value};

verus! {

// ── JSON ────────────────────────────────────────────────────────────────────

/// The value under a key is the one of the first field with that key.
pub proof fn members_are_first_fields(fields: Vec<(String, Json)>, key: Seq<char>, i: int)
    requires
        0 <= i < fields@.len(),
        fields@[i].0@ == key,
        forall|j: int| 0 <= j < i ==> (#[trigger] fields@[j]).0@ != key,
    ensures
        Json::Object(fields).member(key) == Some(fields@[i].1),
{
    lemma_field_from(fields@, key, 0, i);
}

proof fn lemma_field_from(fields: Seq<(String, Json)>, key: Seq<char>, from: int, i: int)
    requires
        0 <= from <= i < fields.len(),
        fields[i].0@ == key,
        forall|j: int| 0 <= j < i ==> (#[trigger] fields[j]).0@ != key,
    ensures
        field_from(fields, key, from) == Some(fields[i].1),
    decreases i - from,
{
    if from < i {
        assert(fields[from].0@ != key);
        lemma_field_from(fields, key, from + 1, i);
    }
}

/// Where no field has a key there is no value under it, and nothing but an
/// object has fields.
pub proof fn absent_members_are_none(val: Json, key: Seq<char>)
    requires
        val matches Json::Object(fields) ==> forall|j: int|
            0 <= j < fields@.len() ==> (#[trigger] fields@[j]).0@ != key,
    ensures
        val.member(key) is None,
{
    if let Json::Object(fields) = val {
        lemma_no_field_from(fields@, key, 0);
    }
}

proof fn lemma_no_field_from(fields: Seq<(String, Json)>, key: Seq<char>, from: int)
    requires
        0 <= from <= fields.len(),
        forall|j: int| 0 <= j < fields.len() ==> (#[trigger] fields[j]).0@ != key,
    ensures
        field_from(fields, key, from) is None,
    decreases fields.len() - from,
{
    if from < fields.len() {
        assert(fields[from].0@ != key);
        lemma_no_field_from(fields, key, from + 1);
    }
}

/// Items, truth values and numbers are those of arrays, of booleans and of
/// unsigned integers, and of nothing else.
pub proof fn values_are_of_their_kind(val: Json)
    ensures
        val.head() matches Some(item) ==> val is Array && val->Array_0@.len() > 0 && item
            == val->Array_0@[0],
        val is Array && val->Array_0@.len() > 0 ==> val.head() is Some,
        val.truth() matches Some(b) ==> val == Json::Bool(b),
        val is Bool ==> val.truth() is Some,
        val.unsigned() matches Some(n) ==> val == Json::Unsigned(n),
        val is Unsigned ==> val.unsigned() is Some,
{
}

// ── Reading replies ─────────────────────────────────────────────────────────

/// Whether `retval` is what a reply returned: under `retval` of the first item
/// under `results`.
pub open spec fn hands_back(val: Json, retval: Json) -> bool {
    &&& val.member("results"@) is Some
    &&& val.member("results"@)->0.head() is Some
    &&& val.member("results"@)->0.head()->0.member("retval"@) == Some(retval)
}

/// Whether a reply returned nothing.
pub open spec fn hands_back_nothing(val: Json) -> bool {
    forall|retval: Json| !#[trigger] hands_back(val, retval)
}

/// A core scrape exports each route as paused or not: by the flag in the value
/// that came back, whatever else the reply holds; by the flag in the reply where
/// the value has none; and as running where there is neither.
pub proof fn paused_routes_are_exported(scrape: ScrapeView, val: Json, retval: Json, b: bool)
    requires
        scrape.kind is Core,
        scrape.phase is Item,
    ensures
        ({
            let updates = updates_of(scrape, RpcReply::Value(val));
            let exported = |paused: bool|
                {
                    &&& updates.len() == 1
                    &&& updates[0].metric == Metric::CoreRoutePaused
                    &&& updates[0].labels.len() == 2
                    &&& updates[0].labels[0] == scrape.contract
                    &&& updates[0].labels[1] == scrape.names[scrape.next as int]
                    &&& paused ==> updates[0].change == Change::Replace(1)
                    &&& !paused ==> updates[0].change == Change::Replace(0)
                };
            &&& hands_back(val, retval) && retval.member("paused"@) == Some(Json::Bool(b)) ==> exported(
                b,
            )
            &&& hands_back(val, retval) && !(retval.member("paused"@) is Some && retval.member(
                "paused"@,
            )->0 is Bool) && val.member("paused"@) == Some(Json::Bool(b)) ==> exported(b)
            &&& hands_back_nothing(val) && val.member("paused"@) == Some(Json::Bool(b)) ==> exported(b)
            &&& hands_back(val, retval) && !(retval.member("paused"@) is Some && retval.member(
                "paused"@,
            )->0 is Bool) && !(val.member("paused"@) is Some && val.member("paused"@)->0
                is Bool) ==> exported(false)
            &&& hands_back_nothing(val) && !(val.member("paused"@) is Some && val.member("paused"@)->0
                is Bool) ==> exported(false)
        }),
{
    lemma_nothing_returned(val);
}

proof fn lemma_nothing_returned(val: Json)
    ensures
        hands_back_nothing(val) ==> returned(val) is None,
{
    if returned(val) is Some {
        assert(hands_back(val, returned(val)->0));
    }
}

/// The same of what is read out of the reply itself.
pub proof fn paused_flags_are_read(val: Json, retval: Json, b: bool)
    ensures
        hands_back(val, retval) && retval.member("paused"@) == Some(Json::Bool(b)) ==> route_paused(
            val,
        ) == Some(b),
        (hands_back_nothing(val) || hands_back(val, retval) && !(retval.member("paused"@) is Some
            && retval.member("paused"@)->0 is Bool)) && val.member("paused"@) == Some(
            Json::Bool(b),
        ) ==> route_paused(val) == Some(b),
        (hands_back_nothing(val) || hands_back(val, retval) && !(retval.member("paused"@) is Some
            && retval.member("paused"@)->0 is Bool)) && !(val.member("paused"@) is Some
            && val.member("paused"@)->0 is Bool) ==> route_paused(val) is None,
{
    lemma_nothing_returned(val);
}

/// The state of a breaker: `state`, where it is not one of those that stand for
/// none.
pub open spec fn breaker_of(shown: Json, state: Json) -> bool {
    &&& !(shown is Null)
    &&& shown.member("none"@) is None
    &&& shown.member("some"@) is Some ==> state == shown.member("some"@)->0
    &&& shown.member("some"@) is None ==> state == shown
}

/// A breaker is open exactly where its state has `is_open` true, and its count is
/// the low half of `failure_count`, or none. Null, and what has `none`, stand for
/// a breaker that is closed without failures. What the reply returned is looked
/// at, and the reply itself where it returned nothing.
pub proof fn breakers_are_read(val: Json, shown: Json, state: Json)
    requires
        hands_back(val, shown) || hands_back_nothing(val) && shown == val,
    ensures
        shown is Null ==> breaker_state(val) == (false, 0u32),
        shown.member("none"@) is Some ==> breaker_state(val) == (false, 0u32),
        breaker_of(shown, state) ==> {
            &&& breaker_state(val).0 <==> state.member("is_open"@) == Some(Json::Bool(true))
            &&& state.member("failure_count"@) is Some && state.member("failure_count"@)->0
                is Unsigned ==> (state.member("failure_count"@)->0->Unsigned_0 - breaker_state(
                val,
            ).1) % 0x1_0000_0000 == 0
            &&& !(state.member("failure_count"@) is Some && state.member("failure_count"@)->0
                is Unsigned) ==> breaker_state(val).1 == 0
        },
{
    lemma_nothing_returned(val);
}

/// A middleware scrape exports for each route whether its breaker is open, and
/// how many failures it has counted.
pub proof fn breakers_are_exported(scrape: ScrapeView, val: Json)
    requires
        scrape.kind is Middleware,
        scrape.phase is Item,
    ensures
        ({
            let updates = updates_of(scrape, RpcReply::Value(val));
            let labels = seq![scrape.contract, scrape.names[scrape.next as int]];
            &&& updates.len() == 2
            &&& updates[0].metric == Metric::MiddlewareCircuitOpen
            &&& updates[0].labels == labels
            &&& breaker_state(val).0 ==> updates[0].change == Change::Replace(1)
            &&& !breaker_state(val).0 ==> updates[0].change == Change::Replace(0)
            &&& updates[1].metric == Metric::MiddlewareFailureCount
            &&& updates[1].labels == labels
            &&& updates[1].change == Change::Replace(breaker_state(val).1 as u64)
        }),
{
}

/// Totals and counts are exported as they come: the calls that were routed, with
/// the contract itself as running, the calls that the middleware saw, the number
/// of names, and for each name the number of its versions.
pub proof fn totals_are_exported(
    scrape: ScrapeView,
    n: u64,
    names: Vec<String>,
    versions: Vec<u32>,
)
    ensures
        ({
            let own = seq![scrape.contract];
            let total = updates_of(scrape, RpcReply::Number(n));
            let listed = updates_of(scrape, RpcReply::Names(names));
            let item = updates_of(scrape, RpcReply::Versions(versions));
            &&& scrape.kind is Core && scrape.phase is Total ==> {
                &&& total.len() == 2
                &&& total[0] == (UpdateView {
                    metric: Metric::CoreTotalRouted,
                    labels: own,
                    change: Change::Replace(n),
                })
                &&& total[1] == (UpdateView {
                    metric: Metric::CorePaused,
                    labels: own,
                    change: Change::Replace(0),
                })
            }
            &&& scrape.kind is Middleware && scrape.phase is Total ==> {
                &&& total.len() == 1
                &&& total[0] == (UpdateView {
                    metric: Metric::MiddlewareTotalCalls,
                    labels: own,
                    change: Change::Replace(n),
                })
            }
            &&& scrape.kind is Registry && scrape.phase is Names ==> {
                &&& listed.len() == 1
                &&& listed[0] == (UpdateView {
                    metric: Metric::RegistryTotalNames,
                    labels: own,
                    change: Change::Replace(names@.len() as u64),
                })
            }
            &&& scrape.kind is Registry && scrape.phase is Item ==> {
                &&& item.len() == 1
                &&& item[0] == (UpdateView {
                    metric: Metric::RegistryVersionCount,
                    labels: seq![scrape.contract, scrape.names[scrape.next as int]],
                    change: Change::Replace(versions@.len() as u64),
                })
            }
        }),
{
}

/// The events of a quote contract are exported when both topics are there: the
/// first under the quotes, the second under the fees.
pub proof fn quote_events_are_exported(scrape: ScrapeView, ledgers: Vec<u32>)
    requires
        scrape.kind is Quote,
        scrape.phase is Second,
    ensures
        ({
            let updates = updates_of(scrape, RpcReply::Events(ledgers));
            &&& updates.len() == 2
            &&& updates[0].metric == Metric::QuoteTotalGenerated
            &&& updates[0].labels == seq![scrape.contract]
            &&& updates[0].change == counted(scrape.start_ledger, scrape.first)
            &&& updates[1].metric == Metric::QuoteTotalFeeEstimated
            &&& updates[1].labels == seq![scrape.contract]
            &&& updates[1].change == counted(scrape.start_ledger, ledgers@)
        }),
{
}

/// The events of an execution contract are exported when the ledger entries are
/// asked for, whatever comes back: the first topic under the executions, the
/// second under the errors, and the retries that the entries give, or none.
pub proof fn executions_are_exported(scrape: ScrapeView, reply: RpcReply)
    requires
        scrape.kind is Execution,
        scrape.phase is Entries,
    ensures
        ({
            let updates = updates_of(scrape, reply);
            &&& updates.len() == 3
            &&& updates[0].metric == Metric::ExecutionTotalExecutions
            &&& updates[0].labels == seq![scrape.contract]
            &&& updates[0].change == counted(scrape.start_ledger, scrape.first)
            &&& updates[1].metric == Metric::ExecutionTotalErrors
            &&& updates[1].labels == seq![scrape.contract]
            &&& updates[1].change == counted(scrape.start_ledger, scrape.second)
            &&& updates[2].metric == Metric::ExecutionMaxRetries
            &&& updates[2].labels == seq![scrape.contract]
            &&& updates[2].change == Change::Replace(retries_in(reply))
            &&& !(reply is Entries) ==> updates[2].change == Change::Replace(0)
            &&& reply matches RpcReply::Entries(entries) ==> updates[2].change == Change::Replace(
                match entries_number(entries@, "MaxRetries"@, 0) {
                    Some(n) => n,
                    None => 0,
                },
            )
        }),
{
}

/// A reply of another shape than the call has exports nothing.
pub proof fn other_replies_export_nothing(scrape: ScrapeView, reply: RpcReply)
    requires
        scrape.in_order(),
        !(scrape.kind is Execution && scrape.phase is Entries),
        scrape.phase is Total ==> !(reply is Number),
        scrape.kind is Registry && scrape.phase is Names ==> !(reply is Names),
        scrape.kind is Core && scrape.phase is Item ==> !(reply is Value),
        scrape.kind is Middleware && scrape.phase is Item ==> !(reply is Value),
        scrape.kind is Registry && scrape.phase is Item ==> !(reply is Versions),
        scrape.kind is Quote && scrape.phase is Second ==> !(reply is Events),
    ensures
        updates_of(scrape, reply).len() == 0,
{
}

/// While the cursor is zero, a count of events is set to their number. Afterwards
/// it grows, by one for each event of a later ledger than the cursor and by
/// nothing for any other.
pub proof fn events_count_one_by_one(start: u32, ledgers: Seq<u32>, next: u32)
    requires
        ledgers.len() < u64::MAX,
    ensures
        counted(0, ledgers) == Change::Replace(ledgers.len() as u64),
        start > 0 ==> {
            &&& counted(start, ledgers) is Increase
            &&& counted(start, ledgers)->Increase_0 == new_events(ledgers, start)
            &&& counted(start, Seq::empty()) == Change::Increase(0)
        },
        new_events(Seq::empty(), start) == 0,
        next > start ==> new_events(ledgers.push(next), start) == new_events(ledgers, start) + 1,
        next <= start ==> new_events(ledgers.push(next), start) == new_events(ledgers, start),
{
    reveal(Seq::filter);
    assert(ledgers.push(next).drop_last() =~= ledgers);
    ledgers.lemma_filter_len(|ledger: u32| ledger > start);
    assert(new_events(Seq::empty(), start) == 0);
}

/// The number in ledger entries is that of the first whose key holds the name and
/// whose text holds a number; entries before it are passed over.
pub proof fn first_numbered_entry_counts(entries: Seq<LedgerEntry>, name: Seq<char>, i: int)
    requires
        0 <= i < entries.len(),
        is_part_of(name, entries[i].key@),
        entry_number(entries[i].xdr@) is Some,
        forall|j: int|
            0 <= j < i ==> !(is_part_of(name, (#[trigger] entries[j]).key@) && entry_number(
                entries[j].xdr@,
            ) is Some),
    ensures
        entries_number(entries, name, 0) == entry_number(entries[i].xdr@),
{
    lemma_first_numbered_entry(entries, name, 0, i);
}

proof fn lemma_first_numbered_entry(
    entries: Seq<LedgerEntry>,
    name: Seq<char>,
    from: int,
    i: int,
)
    requires
        0 <= from <= i < entries.len(),
        is_part_of(name, entries[i].key@),
        entry_number(entries[i].xdr@) is Some,
        forall|j: int|
            0 <= j < i ==> !(is_part_of(name, (#[trigger] entries[j]).key@) && entry_number(
                entries[j].xdr@,
            ) is Some),
    ensures
        entries_number(entries, name, from) == entry_number(entries[i].xdr@),
    decreases i - from,
{
    if from < i {
        assert(!(is_part_of(name, entries[from].key@) && entry_number(entries[from].xdr@) is Some));
        lemma_first_numbered_entry(entries, name, from + 1, i);
    }
}

/// Where no entry has both the name in its key and a number in its text, there is
/// none.
pub proof fn entries_without_a_number(entries: Seq<LedgerEntry>, name: Seq<char>, from: int)
    requires
        0 <= from,
        forall|j: int|
            0 <= j < entries.len() ==> !(is_part_of(name, (#[trigger] entries[j]).key@)
                && entry_number(entries[j].xdr@) is Some),
    ensures
        entries_number(entries, name, from) is None,
    decreases entries.len() - from,
{
    if from < entries.len() {
        assert(!(is_part_of(name, entries[from].key@) && entry_number(entries[from].xdr@) is Some));
        entries_without_a_number(entries, name, from + 1);
    }
}

/// The text of an entry is read as a number of 64 bits that is written out, or
/// else as JSON: under `u64` of an object, or else as the number itself.
pub proof fn numbers_are_read_in_this_order(
    text: Seq<char>,
    member: Option<u64>,
    plain: Option<u64>,
)
    ensures
        unsigned_value(text, 0xffff_ffff_ffff_ffff) matches Some(n) ==> number_of(
            text,
            member,
            plain,
        ) == Some(n as u64),
        unsigned_value(text, 0xffff_ffff_ffff_ffff) is None && member is Some ==> number_of(
            text,
            member,
            plain,
        ) == member,
        unsigned_value(text, 0xffff_ffff_ffff_ffff) is None && member is None ==> number_of(
            text,
            member,
            plain,
        ) == plain,
        entry_number(text) == number_of(
            text,
            json_member_u64_of(text, "u64"@),
            json_u64_of(text),
        ),
{
}

// ── Calls ───────────────────────────────────────────────────────────────────

/// What a scrape asks its contract for, phase by phase. Names are handed over in
/// hexadecimal where a call is simulated, and events are asked for from the
/// cursor on.
pub proof fn what_scrapes_ask_for(s: ScrapeView)
    requires
        s.in_order(),
    ensures
        ({
            let call = call_of(s);
            let name = s.names[s.next as int];
            &&& s.kind is Core && s.phase is Total ==> call == (CallView::CallU64 {
                contract: s.contract,
                function: "total_routed"@,
            })
            &&& s.kind is Core && s.phase is Names ==> call == (CallView::CallStringVec {
                contract: s.contract,
                function: "get_all_routes"@,
            })
            &&& s.kind is Core && s.phase is Item ==> call == (CallView::SimulateInvoke {
                contract: s.contract,
                function: "get_route"@,
                args: seq![hex_text(encode_utf8(name))],
            })
            &&& s.kind is Middleware && s.phase is Total ==> call == (CallView::CallU64 {
                contract: s.contract,
                function: "total_calls"@,
            })
            &&& s.kind is Middleware && s.phase is Names ==> call == (CallView::CallStringVec {
                contract: s.contract,
                function: "get_configured_routes"@,
            })
            &&& s.kind is Middleware && s.phase is Item ==> call == (CallView::SimulateInvoke {
                contract: s.contract,
                function: "circuit_breaker_state"@,
                args: seq![hex_text(encode_utf8(name))],
            })
            &&& s.kind is Registry && s.phase is Names ==> call == (CallView::CallStringVec {
                contract: s.contract,
                function: "get_all_names"@,
            })
            &&& s.kind is Registry && s.phase is Item ==> call == (CallView::CallU32Vec {
                contract: s.contract,
                function: "versions"@,
                name,
            })
            &&& s.kind is Quote && s.phase is First ==> call == (CallView::GetEvents {
                contract: s.contract,
                topic: "quote_generated"@,
                start_ledger: s.start_ledger,
            })
            &&& s.kind is Quote && s.phase is Second ==> call == (CallView::GetEvents {
                contract: s.contract,
                topic: "fee_estimated"@,
                start_ledger: s.start_ledger,
            })
            &&& s.kind is Execution && s.phase is First ==> call == (CallView::GetEvents {
                contract: s.contract,
                topic: "execution_result"@,
                start_ledger: s.start_ledger,
            })
            &&& s.kind is Execution && s.phase is Second ==> call == (CallView::GetEvents {
                contract: s.contract,
                topic: "execution_error"@,
                start_ledger: s.start_ledger,
            })
            &&& s.kind is Execution && s.phase is Entries ==> call == (CallView::GetLedgerEntries {
                keys: seq![s.contract + ":"@ + "MaxRetries"@],
            })
        }),
{
}

/// The key of contract data is the contract, a colon, and the key inside it.
pub proof fn data_keys_are_joined(contract: Seq<char>, key: Seq<char>)
    ensures
        data_key(contract, key).len() == contract.len() + 1 + key.len(),
        data_key(contract, key).take(contract.len() as int) == contract,
        data_key(contract, key)[contract.len() as int] == ':',
        data_key(contract, key).skip(contract.len() as int + 1) == key,
{
    reveal_strlit(":");
    assert(data_key(contract, key).take(contract.len() as int) =~= contract);
    assert(data_key(contract, key).skip(contract.len() as int + 1) =~= key);
}

// ── The course of a scrape ──────────────────────────────────────────────────

/// A scrape begins with the total of a core or a middleware contract, with the
/// names of a registry, and with the first topic of a contract with events.
pub proof fn how_scrapes_begin(kind: ContractKind, contract: Seq<char>, ledger: u32)
    ensures
        ({
            let s = fresh_scrape(kind, contract, ledger);
            &&& s.kind == kind
            &&& s.contract == contract
            &&& s.start_ledger == ledger
            &&& s.names.len() == 0
            &&& s.next == 0
            &&& s.first.len() == 0
            &&& s.second.len() == 0
            &&& kind is Core || kind is Middleware ==> s.phase is Total
            &&& kind is Registry ==> s.phase is Names
            &&& kind is Quote || kind is Execution ==> s.phase is First
        }),
{
}

/// Where a scrape goes from a reply. Only its place changes, and what it has
/// found: the names, or the ledgers of a topic. The names are asked about one
/// after the other, and a scrape without names is done. A reply of another shape
/// than the call has fails it, but for one about a name or about ledger entries.
pub proof fn where_scrapes_go(s: ScrapeView, reply: RpcReply)
    requires
        s.in_order(),
    ensures
        ({
            let after = outcome_of(s, reply);
            &&& s.phase is Total ==> {
                &&& reply is Number ==> after == Outcome::Next(
                    ScrapeView { phase: Phase::Names, ..s },
                )
                &&& !(reply is Number) ==> after is Failed
            }
            &&& s.phase is Names ==> {
                &&& !(reply is Names) ==> after is Failed
                &&& reply matches RpcReply::Names(names) ==> {
                    &&& names@.len() == 0 ==> after == Outcome::Done(s.start_ledger)
                    &&& names@.len() > 0 ==> after == Outcome::Next(
                        ScrapeView { phase: Phase::Item, names: texts(names@), next: 0, ..s },
                    )
                }
            }
            &&& s.phase is Item ==> {
                &&& s.next == s.names.len() - 1 ==> after == Outcome::Done(s.start_ledger)
                &&& s.next < s.names.len() - 1 ==> after == Outcome::Next(
                    ScrapeView { next: s.next + 1, ..s },
                )
            }
            &&& s.phase is First ==> {
                &&& !(reply is Events) ==> after is Failed
                &&& reply matches RpcReply::Events(ledgers) ==> after == Outcome::Next(
                    ScrapeView { phase: Phase::Second, first: ledgers@, ..s },
                )
            }
            &&& s.phase is Second ==> {
                &&& !(reply is Events) ==> after is Failed
                &&& reply matches RpcReply::Events(ledgers) ==> {
                    &&& s.kind is Quote ==> after == Outcome::Done(
                        newest(s.first + ledgers@, s.start_ledger),
                    )
                    &&& s.kind is Execution ==> after == Outcome::Next(
                        ScrapeView { phase: Phase::Entries, second: ledgers@, ..s },
                    )
                }
            }
            &&& s.phase is Entries ==> after == Outcome::Done(
                newest(s.first + s.second, s.start_ledger),
            )
        }),
{
}

/// The newest of ledgers is the largest of them and of where it started.
pub proof fn newest_is_the_largest(ledgers: Seq<u32>, start: u32)
    ensures
        newest(ledgers, start) >= start,
        forall|i: int| 0 <= i < ledgers.len() ==> newest(ledgers, start) >= #[trigger] ledgers[i],
        newest(ledgers, start) == start || exists|i: int|
            0 <= i < ledgers.len() && newest(ledgers, start) == #[trigger] ledgers[i],
    decreases ledgers.len(),
{
    if ledgers.len() > 0 {
        let rest = ledgers.drop_last();
        newest_is_the_largest(rest, start);
        assert forall|i: int| 0 <= i < ledgers.len() implies newest(ledgers, start)
            >= #[trigger] ledgers[i] by {
            if i < rest.len() {
                assert(rest[i] == ledgers[i]);
            }
        }
        let n = newest(ledgers, start);
        if n == ledgers.last() {
            assert(ledgers[ledgers.len() - 1] == n);
        } else if n != start {
            let i = choose|i: int| 0 <= i < rest.len() && n == #[trigger] rest[i];
            assert(ledgers[i] == n);
        }
    }
}

/// What a reply exports besides: how long a scrape took that is done, and one
/// more error of a contract whose scrape has failed, behind what the reply
/// itself says. While a scrape goes on, nothing besides.
pub proof fn ends_of_scrapes_are_exported(c: CycleView, reply: RpcReply)
    requires
        c.scrape is Some,
    ensures
        ({
            let scrape = c.scrape->0;
            let own = updates_of(scrape, reply);
            let all = step_updates(c, reply);
            &&& outcome_of(scrape, reply) is Next ==> all == own
            &&& outcome_of(scrape, reply) is Done ==> all == own.push(
                UpdateView {
                    metric: Metric::ScrapeDurationSeconds,
                    labels: seq![scrape.contract],
                    change: Change::ObserveElapsed,
                },
            )
            &&& outcome_of(scrape, reply) is Failed ==> all == own.push(
                UpdateView {
                    metric: Metric::ScrapeErrorsTotal,
                    labels: seq![scrape.contract],
                    change: Change::Increase(1),
                },
            )
        }),
{
}

/// While a scrape goes on, the cycle stays at its contract, and the collector
/// remembers what it did. A scrape of events that is done moves the cursor of its
/// contract to the newest ledger, if that is newer than where it began; no other
/// scrape moves a cursor.
pub proof fn what_collectors_remember(s: CollectorView, c: CycleView, reply: RpcReply)
    requires
        c.scrape is Some,
    ensures
        ({
            let scrape = c.scrape->0;
            let (t, d) = step(s, c, reply);
            let key = if scrape.kind is Quote {
                "quote:"@ + scrape.contract
            } else {
                "execution:"@ + scrape.contract
            };
            let events = scrape.kind is Quote || scrape.kind is Execution;
            &&& t.targets == s.targets
            &&& outcome_of(scrape, reply) matches Outcome::Next(next) ==> {
                &&& t == s
                &&& d.at == c.at
                &&& d.ok == c.ok
                &&& d.scrape == Some(next)
            }
            &&& outcome_of(scrape, reply) is Failed ==> t == s && d == cycle_from(
                s,
                c.at + 1,
                false,
            )
            &&& outcome_of(scrape, reply) is Done ==> d == cycle_from(t, c.at + 1, c.ok)
            &&& outcome_of(scrape, reply) matches Outcome::Done(ledger) ==> {
                &&& events && ledger > scrape.start_ledger ==> t.cursors == s.cursors.insert(
                    key,
                    ledger,
                )
                &&& !(events && ledger > scrape.start_ledger) ==> t == s
            }
        }),
{
}

/// A cycle goes on with the next contract that has an identifier, from its
/// beginning and from its cursor, and is over where there is none.
pub proof fn where_cycles_go_on(s: CollectorView, from: nat, ok: bool, i: nat)
    requires
        s.targets.len() == 5,
        from <= i <= 5,
        forall|k: int| from <= k < i ==> (#[trigger] s.targets[k]).len() == 0,
        i < 5 ==> s.targets[i as int].len() > 0,
    ensures
        cycle_from(s, from, ok).at == i,
        cycle_from(s, from, ok).ok == ok,
        i == 5 ==> cycle_from(s, from, ok).scrape is None,
        i < 5 ==> cycle_from(s, from, ok).scrape == Some(
            fresh_scrape(
                kind_of(i),
                s.targets[i as int],
                s.cursor(kind_of(i), s.targets[i as int]),
            ),
        ),
    decreases i - from,
{
    if from < i {
        assert(s.targets[from as int].len() == 0);
        where_cycles_go_on(s, from + 1, ok, i);
    }
}

/// Where a contract has a cursor it is the one kept under its kind and
/// identifier, and zero before the first.
pub proof fn where_cursors_are_kept(s: CollectorView, contract: Seq<char>)
    ensures
        s.cursors.contains_key("quote:"@ + contract) ==> s.cursor(ContractKind::Quote, contract)
            == s.cursors["quote:"@ + contract],
        !s.cursors.contains_key("quote:"@ + contract) ==> s.cursor(ContractKind::Quote, contract)
            == 0,
        s.cursors.contains_key("execution:"@ + contract) ==> s.cursor(
            ContractKind::Execution,
            contract,
        ) == s.cursors["execution:"@ + contract],
        !s.cursors.contains_key("execution:"@ + contract) ==> s.cursor(
            ContractKind::Execution,
            contract,
        ) == 0,
        s.cursor(ContractKind::Core, contract) == 0,
        s.cursor(ContractKind::Middleware, contract) == 0,
        s.cursor(ContractKind::Registry, contract) == 0,
        cursor_key(ContractKind::Quote, contract) == "quote:"@ + contract,
        cursor_key(ContractKind::Execution, contract) == "execution:"@ + contract,
{
}

/// The order in which contracts are scraped, and what a flag is as a number.
pub proof fn orders_and_gauges()
    ensures
        kind_of(0) is Core,
        kind_of(1) is Middleware,
        kind_of(2) is Registry,
        kind_of(3) is Quote,
        kind_of(4) is Execution,
        as_gauge(true) == 1,
        as_gauge(false) == 0,
{
}

} // verus!
