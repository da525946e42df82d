//! What values say is what they hold, field by field.

use vstd::prelude::*;

use crate::address::Address;
use crate::collector::{update_views, MetricUpdate, RpcCall, Targets};
use crate::quote::{QuoteEvent, QuoteRequest, QuoteResponse};
use crate::rpc::RouteEntryResponse;
use crate::scval::ParsedRouteEntry;
use crate::soroban::Env;
use crate::timelock::{Op, TimelockEvent};
use crate::websocket::{action_views, Action, ServerMessage};

verus! {

/// What requests and quotes say.
pub proof fn what_quotes_hold(r: QuoteRequest, q: QuoteResponse)
    ensures
        r@.route == r.route@,
        r@.token_in == r.token_in,
        r@.token_out == r.token_out,
        r@.amount_in == r.amount_in,
        q@.route == q.route@,
        q@.token_in == q.token_in,
        q@.token_out == q.token_out,
        q@.amount_in == q.amount_in,
        q@.amount_out == q.amount_out,
        q@.fee_amount == q.fee_amount,
        q@.fee_bps == q.fee_bps,
        q@.price_impact_bps == q.price_impact_bps,
{
}

/// What the events of the quote contract say.
pub proof fn what_quote_events_hold(e: QuoteEvent)
    ensures
        e matches QuoteEvent::Initialized { admin, default_fee_bps } ==> e@ is Initialized
            && e@->Initialized_admin == admin && e@->Initialized_default_fee_bps == default_fee_bps,
        e matches QuoteEvent::RouteFeeSet { route, fee_bps } ==> e@ is RouteFeeSet
            && e@->RouteFeeSet_route == route@ && e@->RouteFeeSet_fee_bps == fee_bps,
        e matches QuoteEvent::QuoteCalculated {
            route,
            amount_out,
            fee_amount,
            price_impact_bps,
        } ==> e@ is QuoteCalculated && e@->QuoteCalculated_route == route@
            && e@->QuoteCalculated_amount_out == amount_out && e@->QuoteCalculated_fee_amount
            == fee_amount && e@->QuoteCalculated_price_impact_bps == price_impact_bps,
        e matches QuoteEvent::BestQuoteSelected { route, amount_out } ==> e@ is BestQuoteSelected
            && e@->BestQuoteSelected_route == route@ && e@->BestQuoteSelected_amount_out
            == amount_out,
        e matches QuoteEvent::QuotesCompared { count, max_price_impact_bps } ==> e@
            is QuotesCompared && e@->QuotesCompared_count == count
            && e@->QuotesCompared_max_price_impact_bps == max_price_impact_bps,
        e matches QuoteEvent::DefaultFeeUpdated { fee_bps } ==> e@ is DefaultFeeUpdated
            && e@->DefaultFeeUpdated_fee_bps == fee_bps,
        e matches QuoteEvent::AdminTransferred { current, new_admin } ==> e@ is AdminTransferred
            && e@->AdminTransferred_current == current && e@->AdminTransferred_new_admin
            == new_admin,
{
}

/// What operations say.
pub proof fn what_operations_hold(op: Op)
    ensures
        op@.proposer == op.proposer,
        op@.description == op.description@,
        op@.target == op.target,
        op@.eta == op.eta,
        op@.grace_period_seconds == op.grace_period_seconds,
        op@.executed == op.executed,
        op@.cancelled == op.cancelled,
{
}

/// What the events of the timelock say.
pub proof fn what_timelock_events_hold(e: TimelockEvent)
    ensures
        e matches TimelockEvent::OpQueued { op_id, target, eta, grace_period_seconds } ==> e@
            is OpQueued && e@->OpQueued_op_id == op_id@ && e@->OpQueued_target == target
            && e@->OpQueued_eta == eta && e@->OpQueued_grace_period_seconds == grace_period_seconds,
        e matches TimelockEvent::OpExecuted { op_id, target } ==> e@ is OpExecuted
            && e@->OpExecuted_op_id == op_id@ && e@->OpExecuted_target == target,
        e matches TimelockEvent::OpCancelled { op_id } ==> e@ is OpCancelled
            && e@->OpCancelled_op_id == op_id@,
        e matches TimelockEvent::OpDescriptionUpdated { op_id, new_description } ==> e@
            is OpDescriptionUpdated && e@->OpDescriptionUpdated_op_id == op_id@
            && e@->OpDescriptionUpdated_new_description == new_description@,
        e matches TimelockEvent::CouncilUpdated { required, council } ==> e@ is CouncilUpdated
            && e@->CouncilUpdated_required == required && e@->CouncilUpdated_council == council@,
        e matches TimelockEvent::CouncilMemberAdded { member } ==> e@ is CouncilMemberAdded
            && e@->CouncilMemberAdded_member == member,
        e matches TimelockEvent::CouncilMemberRemoved { member } ==> e@ is CouncilMemberRemoved
            && e@->CouncilMemberRemoved_member == member,
        e matches TimelockEvent::FastTrackToggled { enabled } ==> e@ is FastTrackToggled
            && e@->FastTrackToggled_enabled == enabled,
        e matches TimelockEvent::CriticalFastTracked { op_id, target, approval_count } ==> e@
            is CriticalFastTracked && e@->CriticalFastTracked_op_id == op_id@
            && e@->CriticalFastTracked_target == target && e@->CriticalFastTracked_approval_count
            == approval_count,
        e matches TimelockEvent::AdminTransferred { current, new_admin } ==> e@ is AdminTransferred
            && e@->AdminTransferred_current == current && e@->AdminTransferred_new_admin
            == new_admin,
        e matches TimelockEvent::MinDelayUpdated { new_delay } ==> e@ is MinDelayUpdated
            && e@->MinDelayUpdated_new_delay == new_delay,
{
}

/// What calls of a scrape say.
pub proof fn what_calls_hold(c: RpcCall, i: int)
    ensures
        c matches RpcCall::CallU64 { contract_id, function } ==> c@ is CallU64
            && c@->CallU64_contract == contract_id@ && c@->CallU64_function == function@,
        c matches RpcCall::CallStringVec { contract_id, function } ==> c@ is CallStringVec
            && c@->CallStringVec_contract == contract_id@ && c@->CallStringVec_function
            == function@,
        c matches RpcCall::SimulateInvoke { contract_id, function, args } ==> c@ is SimulateInvoke
            && c@->SimulateInvoke_contract == contract_id@ && c@->SimulateInvoke_function
            == function@ && c@->SimulateInvoke_args.len() == args@.len() && (0 <= i < args@.len()
            ==> c@->SimulateInvoke_args[i] == args@[i]@),
        c matches RpcCall::CallU32Vec { contract_id, function, name } ==> c@ is CallU32Vec
            && c@->CallU32Vec_contract == contract_id@ && c@->CallU32Vec_function == function@
            && c@->CallU32Vec_name == name@,
        c matches RpcCall::GetEvents { contract_id, topic, start_ledger } ==> c@ is GetEvents
            && c@->GetEvents_contract == contract_id@ && c@->GetEvents_topic == topic@
            && c@->GetEvents_start_ledger == start_ledger,
        c matches RpcCall::GetLedgerEntries { keys } ==> c@ is GetLedgerEntries
            && c@->GetLedgerEntries_keys.len() == keys@.len() && (0 <= i < keys@.len()
            ==> c@->GetLedgerEntries_keys[i] == keys@[i]@),
{
}

/// What updates of metrics say, one for each, in their order.
pub proof fn what_updates_hold(u: MetricUpdate, updates: Seq<MetricUpdate>, i: int, k: int)
    ensures
        u@.metric == u.metric,
        u@.change == u.change,
        u@.labels.len() == u.labels@.len(),
        0 <= k < u.labels@.len() ==> u@.labels[k] == u.labels@[k]@,
        update_views(updates).len() == updates.len(),
        0 <= i < updates.len() ==> update_views(updates)[i] == updates[i]@,
{
}

/// The contracts that are scraped, in their order.
pub proof fn what_targets_hold(t: Targets)
    ensures
        t@.len() == 5,
        t@[0] == t.core_contract_id@,
        t@[1] == t.middleware_contract_id@,
        t@[2] == t.registry_contract_id@,
        t@[3] == t.quote_contract_id@,
        t@[4] == t.execution_contract_id@,
{
}

/// What messages to a client, and actions, say.
pub proof fn what_actions_hold(m: ServerMessage, a: Action, actions: Seq<Action>, i: int, k: int)
    ensures
        m@.msg_type == m.msg_type@,
        m@.data.len() == m.data@.len(),
        0 <= k < m.data@.len() ==> {
            &&& m@.data[k].0 == m.data@[k].0@
            &&& m.data@[k].1 is None ==> m@.data[k].1 is None
            &&& m.data@[k].1 matches Some(text) ==> m@.data[k].1 == Some(text@)
        },
        a matches Action::AddSubscriber(id) ==> a@ is AddSubscriber && a@->AddSubscriber_0 == id@,
        a matches Action::RemoveSubscriber(id) ==> a@ is RemoveSubscriber
            && a@->RemoveSubscriber_0 == id@,
        a matches Action::OpenReceiver(id) ==> a@ is OpenReceiver && a@->OpenReceiver_0 == id@,
        a matches Action::DropReceivers(id) ==> a@ is DropReceivers && a@->DropReceivers_0 == id@,
        a matches Action::Send(message) ==> a@ is Send && a@->Send_0 == message@,
        a is Stop ==> a@ is Stop,
        action_views(actions).len() == actions.len(),
        0 <= i < actions.len() ==> action_views(actions)[i] == actions[i]@,
{
}

/// What routes say.
pub proof fn what_routes_hold(p: ParsedRouteEntry, r: RouteEntryResponse)
    ensures
        p@.address == p.address@,
        p@.name == p.name@,
        p@.paused == p.paused,
        p@.updated_by == p.updated_by@,
        r.fields().address == r.address@,
        r.fields().name == r.name@,
        r.fields().paused == r.paused,
        r.fields().updated_by == r.updated_by@,
{
}

/// A call is authorized by those who are listed.
pub proof fn who_authorizes(env: Env, address: Address)
    ensures
        env.authorizes(address) <==> exists|i: int|
            0 <= i < env.authorized@.len() && #[trigger] env.authorized@[i] == address,
{
}

} // verus!
