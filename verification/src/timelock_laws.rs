//! What holds of the timelock whatever calls are made.

use vstd::prelude::*;
use vstd::utf8::*;

use crate::address::Address;
use crate::error::XdrError;
use crate::scval::{address_at, lies_at, string_at, u32_at};
use crate::scval::{lemma_parts_lie_at, lemma_read_address, lemma_read_string, lemma_read_u32};
use crate::soroban::sha256_of;
use crate::strkey::{strkey_round_trip, VERSION_ACCOUNT, VERSION_CONTRACT};
use crate::timelock::{
    add_council_member_step, cancel_step, execute_step, fast_track_approve_step, initialize_step,
    op_id_of, op_preimage, queue_step, remove_council_member_step, set_emergency_council_step,
    set_fast_track_enabled_step, set_min_delay_step, status_at, transfer_admin_step,
    update_description_step, without,
};
use crate::timelock::{OpView, TimelockState};
use crate::timelock::{OperationStatus, TimelockError};
use crate::xdr::{be32, opaque_var_bytes, SCV_ADDRESS, SCV_STRING};

verus! {

/// A call of the timelock that may change it.
pub enum TimelockCall {
    Initialize { admin: Address, min_delay: u64 },
    Queue {
        now: u64,
        caller: Address,
        description: Seq<char>,
        target: Address,
        delay: u64,
        grace_period_seconds: u64,
    },
    Cancel { caller: Address, op_id: Seq<u8> },
    Execute { now: u64, caller: Address, op_id: Seq<u8> },
    UpdateDescription { caller: Address, op_id: Seq<u8>, new_description: Seq<char> },
    SetEmergencyCouncil { caller: Address, council: Seq<Address>, required: u32 },
    AddCouncilMember { caller: Address, member: Address },
    RemoveCouncilMember { caller: Address, member: Address },
    FastTrackApprove { now: u64, member: Address, op_id: Seq<u8> },
    SetFastTrackEnabled { caller: Address, enabled: bool },
    SetMinDelay { caller: Address, new_delay: u64 },
    TransferAdmin { caller: Address, new_admin: Address },
}

impl TimelockCall {
    /// The state after the call, or why it is refused.
    pub open spec fn step(self, s: TimelockState) -> Result<TimelockState, TimelockError> {
        match self {
            TimelockCall::Initialize { admin, min_delay } => initialize_step(s, admin, min_delay),
            TimelockCall::Queue {
                now,
                caller,
                description,
                target,
                delay,
                grace_period_seconds,
            } => queue_step(s, now, caller, description, target, delay, grace_period_seconds),
            TimelockCall::Cancel { caller, op_id } => cancel_step(s, caller, op_id),
            TimelockCall::Execute { now, caller, op_id } => execute_step(s, now, caller, op_id),
            TimelockCall::UpdateDescription { caller, op_id, new_description } => {
                update_description_step(s, caller, op_id, new_description)
            },
            TimelockCall::SetEmergencyCouncil { caller, council, required } => {
                set_emergency_council_step(s, caller, council, required)
            },
            TimelockCall::AddCouncilMember { caller, member } => {
                add_council_member_step(s, caller, member)
            },
            TimelockCall::RemoveCouncilMember { caller, member } => {
                remove_council_member_step(s, caller, member)
            },
            TimelockCall::FastTrackApprove { now, member, op_id } => {
                fast_track_approve_step(s, now, member, op_id)
            },
            TimelockCall::SetFastTrackEnabled { caller, enabled } => {
                set_fast_track_enabled_step(s, caller, enabled)
            },
            TimelockCall::SetMinDelay { caller, new_delay } => {
                set_min_delay_step(s, caller, new_delay)
            },
            TimelockCall::TransferAdmin { caller, new_admin } => {
                transfer_admin_step(s, caller, new_admin)
            },
        }
    }

    /// What the machine asks of the call: times and counts that fit.
    pub open spec fn fits(self, s: TimelockState) -> bool {
        match self {
            TimelockCall::Queue { now, delay, .. } => now + delay <= u64::MAX && s.pending_count
                < u64::MAX,
            TimelockCall::FastTrackApprove { op_id, .. } => s.approvals_of(op_id).len() < u32::MAX,
            _ => true,
        }
    }

    /// The admin that the call says it comes from, if only an admin may make it.
    pub open spec fn admin_caller(self) -> Option<Address> {
        match self {
            TimelockCall::Initialize { .. } => None,
            TimelockCall::Queue { caller, .. } => Some(caller),
            TimelockCall::Cancel { caller, .. } => Some(caller),
            TimelockCall::Execute { caller, .. } => Some(caller),
            TimelockCall::UpdateDescription { caller, .. } => Some(caller),
            TimelockCall::SetEmergencyCouncil { caller, .. } => Some(caller),
            TimelockCall::AddCouncilMember { caller, .. } => Some(caller),
            TimelockCall::RemoveCouncilMember { caller, .. } => Some(caller),
            TimelockCall::FastTrackApprove { .. } => None,
            TimelockCall::SetFastTrackEnabled { caller, .. } => Some(caller),
            TimelockCall::SetMinDelay { caller, .. } => Some(caller),
            TimelockCall::TransferAdmin { caller, .. } => Some(caller),
        }
    }

    /// The operation that the call is about.
    pub open spec fn subject(self) -> Option<Seq<u8>> {
        match self {
            TimelockCall::Queue { now, description, target, delay, .. } => Some(
                op_id_of(description, target, (now + delay) as u64),
            ),
            TimelockCall::Cancel { op_id, .. } => Some(op_id),
            TimelockCall::Execute { op_id, .. } => Some(op_id),
            TimelockCall::UpdateDescription { op_id, .. } => Some(op_id),
            TimelockCall::FastTrackApprove { op_id, .. } => Some(op_id),
            _ => None,
        }
    }
}

/// Whether an operation is neither executed nor cancelled.
pub open spec fn is_pending(op: OpView) -> bool {
    !op.executed && !op.cancelled
}

/// The identifiers of the pending operations.
pub open spec fn pending_ids(s: TimelockState) -> Set<Seq<u8>> {
    s.ops.dom().filter(|id: Seq<u8>| is_pending(s.ops[id]))
}

/// What every state of a timelock keeps.
pub open spec fn timelock_inv(s: TimelockState) -> bool {
    &&& s.admin is Some <==> s.min_delay is Some
    &&& s.min_delay matches Some(d) ==> d > 0
    &&& s.admin is None ==> s == TimelockState::fresh()
    &&& s.ops.dom().finite()
    &&& forall|id: Seq<u8>|
        s.ops.contains_key(id) ==> !((#[trigger] s.ops[id]).executed && s.ops[id].cancelled)
    &&& forall|id: Seq<u8>| #[trigger]
        s.approvals.contains_key(id) ==> s.ops.contains_key(id) && s.approvals[id].no_duplicates()
    &&& s.pending_count == pending_ids(s).len()
}

/// A timelock that nobody has initialized is in order.
pub proof fn fresh_timelock_is_in_order()
    ensures
        timelock_inv(TimelockState::fresh()),
        !TimelockState::fresh().fast_track_enabled,
{
    let s = TimelockState::fresh();
    assert(pending_ids(s) =~= Set::empty());
}

/// Marking an operation changes the pending operations by that one at most.
proof fn lemma_pending_after_insert(s: TimelockState, t: TimelockState, id: Seq<u8>, op: OpView)
    requires
        s.ops.dom().finite(),
        t.ops == s.ops.insert(id, op),
    ensures
        t.ops.dom().finite(),
        pending_ids(s).finite(),
        pending_ids(t).finite(),
        ({
            let was = s.ops.contains_key(id) && is_pending(s.ops[id]);
            let now = is_pending(op);
            pending_ids(t).len() == pending_ids(s).len() + (if now && !was {
                1int
            } else if was && !now {
                -1int
            } else {
                0int
            })
        }),
{
    s.ops.dom().lemma_len_filter(|k: Seq<u8>| is_pending(s.ops[k]));
    let before = pending_ids(s);
    let after = pending_ids(t);
    if is_pending(op) {
        assert(after =~= before.insert(id));
    } else {
        assert(after =~= before.remove(id));
    }
}

/// Every call that goes through keeps the timelock in order. With
/// `fresh_timelock_is_in_order`, every timelock is: among others, the count of
/// pending operations is exact.
#[verifier::spinoff_prover]
#[verifier::rlimit(60)]
pub proof fn calls_keep_the_timelock_in_order(s: TimelockState, call: TimelockCall)
    requires
        timelock_inv(s),
        call.fits(s),
        call.step(s) is Ok,
    ensures
        timelock_inv(call.step(s)->Ok_0),
{
    let t = call.step(s)->Ok_0;
    match call {
        TimelockCall::Queue { now, caller, description, target, delay, grace_period_seconds } => {
            let id = op_id_of(description, target, (now + delay) as u64);
            lemma_pending_after_insert(s, t, id, t.ops[id]);
        },
        TimelockCall::Cancel { op_id, .. } => {
            lemma_one_is_pending(s, op_id);
            lemma_pending_after_insert(s, t, op_id, t.ops[op_id]);
        },
        TimelockCall::Execute { op_id, .. } => {
            lemma_one_is_pending(s, op_id);
            lemma_pending_after_insert(s, t, op_id, t.ops[op_id]);
        },
        TimelockCall::UpdateDescription { op_id, .. } => {
            lemma_pending_after_insert(s, t, op_id, t.ops[op_id]);
        },
        TimelockCall::FastTrackApprove { member, op_id, .. } => {
            let given = s.approvals_of(op_id);
            assert(given.no_duplicates());
            assert(given.push(member).no_duplicates());
            assert(t.approvals == s.approvals.insert(op_id, given.push(member)));
            lemma_one_is_pending(s, op_id);
            if t.ops != s.ops {
                lemma_pending_after_insert(s, t, op_id, t.ops[op_id]);
            } else {
                assert(pending_ids(t) =~= pending_ids(s));
            }
        },
        _ => {
            assert(pending_ids(t) =~= pending_ids(s));
        },
    }
}

/// Where an operation is pending, the pending operations are more than none.
proof fn lemma_one_is_pending(s: TimelockState, id: Seq<u8>)
    requires
        s.ops.dom().finite(),
        s.ops.contains_key(id),
        is_pending(s.ops[id]),
    ensures
        pending_ids(s).len() > 0,
{
    s.ops.dom().lemma_len_filter(|k: Seq<u8>| is_pending(s.ops[k]));
    assert(pending_ids(s).contains(id));
    if pending_ids(s).len() == 0 {
        pending_ids(s).lemma_len0_is_empty();
        assert(false);
    }
}

/// A timelock is initialized once: afterwards it has an admin for ever, and
/// `initialize` is refused.
pub proof fn initialized_for_ever(s: TimelockState, call: TimelockCall, admin: Address, delay: u64)
    requires
        s.admin is Some,
    ensures
        call.step(s) matches Ok(t) ==> t.admin is Some,
        initialize_step(s, admin, delay) == Err::<TimelockState, TimelockError>(
            TimelockError::AlreadyInitialized,
        ),
{
}

/// A call that only the admin may make is refused from anyone else, before
/// anything else about it is looked at.
pub proof fn only_the_admin(s: TimelockState, call: TimelockCall)
    requires
        call.admin_caller() is Some,
        s.admin != call.admin_caller(),
    ensures
        call.step(s) == Err::<TimelockState, TimelockError>(
            if s.admin is Some {
                TimelockError::Unauthorized
            } else {
                TimelockError::NotInitialized
            },
        ),
{
}

/// Handing the admin role over locks the old admin out of every call of the
/// admin.
pub proof fn transfer_locks_out_the_old_admin(
    s: TimelockState,
    current: Address,
    new_admin: Address,
    call: TimelockCall,
)
    requires
        transfer_admin_step(s, current, new_admin) is Ok,
        new_admin != current,
        call.admin_caller() == Some(current),
    ensures
        call.step(transfer_admin_step(s, current, new_admin)->Ok_0) == Err::<
            TimelockState,
            TimelockError,
        >(TimelockError::Unauthorized),
{
}

/// A call leaves every operation but its own as it was.
pub proof fn other_operations_stay(s: TimelockState, call: TimelockCall, id: Seq<u8>)
    requires
        call.step(s) is Ok,
        call.subject() != Some(id),
    ensures
        call.step(s)->Ok_0.ops.contains_key(id) == s.ops.contains_key(id),
        s.ops.contains_key(id) ==> call.step(s)->Ok_0.ops[id] == s.ops[id],
        call.step(s)->Ok_0.approvals_of(id) == s.approvals_of(id),
{
}

/// An operation that is executed or cancelled stays as it is, whatever is
/// called, unless the same operation is queued again.
pub proof fn done_stays_done(s: TimelockState, call: TimelockCall, id: Seq<u8>)
    requires
        call.step(s) is Ok,
        s.ops.contains_key(id),
        !is_pending(s.ops[id]),
        call is Queue ==> call.subject() != Some(id),
    ensures
        call.step(s)->Ok_0.ops.contains_key(id),
        call.step(s)->Ok_0.ops[id] == s.ops[id],
{
}

/// An operation that a call of `queue` has put in place may be executed no
/// earlier than the minimum delay after the call, and waits for that.
pub proof fn queued_operations_wait(
    s: TimelockState,
    now: u64,
    caller: Address,
    description: Seq<char>,
    target: Address,
    delay: u64,
    grace: u64,
)
    requires
        now + delay <= u64::MAX,
        queue_step(s, now, caller, description, target, delay, grace) is Ok,
    ensures
        ({
            let t = queue_step(s, now, caller, description, target, delay, grace)->Ok_0;
            let id = op_id_of(description, target, (now + delay) as u64);
            &&& t.ops.contains_key(id)
            &&& t.ops[id] == (OpView {
                proposer: caller,
                description,
                target,
                eta: (now + delay) as u64,
                grace_period_seconds: grace,
                executed: false,
                cancelled: false,
            })
            &&& t.ops[id].eta >= now + s.min_delay->0
        }),
{
}

/// An operation becomes executed in two ways only: by the admin between its time
/// and the end of its grace period, or by an approval of a council member that
/// makes the approvals enough, while that path is enabled and before the end of
/// the grace period.
pub proof fn ways_to_execute(s: TimelockState, call: TimelockCall, id: Seq<u8>)
    requires
        call.step(s) is Ok,
        s.ops.contains_key(id),
        !s.ops[id].executed,
        call.step(s)->Ok_0.ops[id].executed,
    ensures
        match call {
            TimelockCall::Execute { now, caller, op_id } => op_id == id && s.admin == Some(caller)
                && s.ops[id].eta <= now <= s.ops[id].eta + s.ops[id].grace_period_seconds,
            TimelockCall::FastTrackApprove { now, member, op_id } => op_id == id
                && s.fast_track_enabled && now <= s.ops[id].eta + s.ops[id].grace_period_seconds
                && s.council.contains(member) && s.required_approvals > 0
                && call.step(s)->Ok_0.approvals_of(id).len() >= s.required_approvals,
            _ => false,
        },
{
}

/// While the fast-track path is disabled, no approval goes through, and no call
/// but one of the admin enables it.
pub proof fn fast_track_needs_the_admin(
    s: TimelockState,
    call: TimelockCall,
    now: u64,
    member: Address,
    id: Seq<u8>,
)
    requires
        !s.fast_track_enabled,
    ensures
        fast_track_approve_step(s, now, member, id) == Err::<TimelockState, TimelockError>(
            TimelockError::FastTrackDisabled,
        ),
        call.step(s) matches Ok(t) && t.fast_track_enabled ==> call is SetFastTrackEnabled
            && s.admin == call.admin_caller(),
{
}

/// Approvals come from council members, and never change the council, the
/// number of approvals required, or who the admin is.
pub proof fn approvals_leave_the_council_alone(
    s: TimelockState,
    now: u64,
    member: Address,
    id: Seq<u8>,
)
    requires
        fast_track_approve_step(s, now, member, id) is Ok,
    ensures
        ({
            let t = fast_track_approve_step(s, now, member, id)->Ok_0;
            &&& s.council.contains(member)
            &&& t.council == s.council
            &&& t.required_approvals == s.required_approvals
            &&& t.admin == s.admin
            &&& t.approvals_of(id) == s.approvals_of(id).push(member)
        }),
{
}

/// Nobody but the admin changes the council.
pub proof fn council_changes_need_the_admin(s: TimelockState, call: TimelockCall)
    requires
        call.step(s) is Ok,
        call.step(s)->Ok_0.council != s.council,
    ensures
        s.admin is Some,
        s.admin == call.admin_caller(),
{
}

/// Taking a member off the council undoes adding it.
pub proof fn remove_undoes_add(s: TimelockState, caller: Address, member: Address)
    requires
        add_council_member_step(s, caller, member) is Ok,
    ensures
        ({
            let t = add_council_member_step(s, caller, member)->Ok_0;
            &&& t.council.contains(member)
            &&& remove_council_member_step(t, caller, member) is Ok
            &&& remove_council_member_step(t, caller, member)->Ok_0.council == s.council
            &&& !remove_council_member_step(t, caller, member)->Ok_0.council.contains(member)
        }),
{
    let t = add_council_member_step(s, caller, member)->Ok_0;
    assert(t.council.last() == member);
    assert(t.council.contains(member));
    assert(t.council.drop_last() =~= s.council);
    lemma_without_absent(s.council, member);
    reveal_with_fuel(Seq::filter, 2);
}

/// Leaving out an address that is not there changes nothing.
proof fn lemma_without_absent(list: Seq<Address>, address: Address)
    requires
        !list.contains(address),
    ensures
        without(list, address) == list,
    decreases list.len(),
{
    reveal(Seq::filter);
    if list.len() > 0 {
        assert(list.last() != address) by {
            assert(list[list.len() - 1] == list.last());
        }
        assert(!list.drop_last().contains(address)) by {
            if list.drop_last().contains(address) {
                let i = choose|i: int| 0 <= i < list.drop_last().len() && list.drop_last()[i]
                    == address;
                assert(list[i] == address);
            }
        }
        lemma_without_absent(list.drop_last(), address);
        assert(list.drop_last().push(list.last()) =~= list);
    }
}

/// A new minimum delay leaves the operations that are queued already as they
/// are.
pub proof fn new_delay_leaves_operations_alone(s: TimelockState, caller: Address, new_delay: u64)
    requires
        set_min_delay_step(s, caller, new_delay) is Ok,
    ensures
        set_min_delay_step(s, caller, new_delay)->Ok_0.ops == s.ops,
        set_min_delay_step(s, caller, new_delay)->Ok_0.min_delay == Some(new_delay),
{
}

/// The admin can execute exactly the operations that are shown as ready.
pub proof fn ready_is_what_can_be_executed(
    s: TimelockState,
    now: u64,
    caller: Address,
    id: Seq<u8>,
)
    requires
        s.admin == Some(caller),
        s.ops.contains_key(id),
    ensures
        execute_step(s, now, caller, id) is Ok <==> status_at(s.ops[id], now)
            == OperationStatus::Ready,
        execute_step(s, now, caller, id) matches Ok(t) ==> status_at(t.ops[id], now)
            == OperationStatus::Executed,
        status_at(s.ops[id], now) == OperationStatus::Queued ==> execute_step(s, now, caller, id)
            == Err::<TimelockState, TimelockError>(TimelockError::NotReady),
        status_at(s.ops[id], now) == OperationStatus::Expired ==> execute_step(s, now, caller, id)
            == Err::<TimelockState, TimelockError>(TimelockError::Expired),
{
}

/// An operation whose grace period is over is executed by nobody: a call of the
/// admin is refused, and an approval of a council member leaves every operation
/// as it is and publishes nothing. The approval that would execute the operation
/// is refused, a second one of the same member too, and others are recorded.
pub proof fn expired_operations_are_not_executed(
    s: TimelockState,
    now: u64,
    caller: Address,
    id: Seq<u8>,
)
    requires
        s.ops.contains_key(id),
        status_at(s.ops[id], now) == OperationStatus::Expired,
    ensures
        execute_step(s, now, caller, id) is Err,
        s.admin == Some(caller) ==> execute_step(s, now, caller, id) == Err::<
            TimelockState,
            TimelockError,
        >(TimelockError::Expired),
        fast_track_approve_step(s, now, caller, id) matches Ok(t) ==> {
            &&& !t.ops[id].executed
            &&& t.events == s.events
            &&& t == (TimelockState { approvals: t.approvals, ..s })
        },
        s.fast_track_enabled && s.council.contains(caller) ==> fast_track_approve_step(
            s,
            now,
            caller,
            id,
        ) == if s.approvals_of(id).contains(caller) {
            Err::<TimelockState, TimelockError>(TimelockError::AlreadyApproved)
        } else if s.required_approvals > 0 && s.approvals_of(id).len() + 1
            >= s.required_approvals {
            Err(TimelockError::Expired)
        } else {
            Ok(
                TimelockState {
                    approvals: s.approvals.insert(id, s.approvals_of(id).push(caller)),
                    ..s
                },
            )
        },
{
}

/// A cancelled operation is shown as cancelled, and cannot be executed, approved,
/// described anew or cancelled.
pub proof fn cancelled_is_final(
    s: TimelockState,
    now: u64,
    caller: Address,
    member: Address,
    id: Seq<u8>,
    text: Seq<char>,
)
    requires
        cancel_step(s, caller, id) is Ok,
    ensures
        ({
            let t = cancel_step(s, caller, id)->Ok_0;
            let refused = Err::<TimelockState, TimelockError>(TimelockError::Cancelled);
            &&& status_at(t.ops[id], now) == OperationStatus::Cancelled
            &&& execute_step(t, now, caller, id) == refused
            &&& cancel_step(t, caller, id) == refused
            &&& update_description_step(t, caller, id, text) == refused
            &&& fast_track_approve_step(t, now, member, id) is Err
        }),
{
}

/// Events are only ever added, at most one by each call.
pub proof fn events_only_grow(s: TimelockState, call: TimelockCall)
    requires
        call.step(s) is Ok,
    ensures
        call.step(s)->Ok_0.events.len() <= s.events.len() + 1,
        s.events.is_prefix_of(call.step(s)->Ok_0.events),
{
}

/// What a state says beside operations, approvals and events.
pub open spec fn same_but_for_operations(s: TimelockState, t: TimelockState) -> bool {
    &&& s.admin == t.admin
    &&& s.min_delay == t.min_delay
    &&& s.fast_track_enabled == t.fast_track_enabled
    &&& s.pending_count == t.pending_count
    &&& s.council == t.council
    &&& s.required_approvals == t.required_approvals
}

/// Whether two states say the same of one operation.
pub open spec fn same_of(s: TimelockState, t: TimelockState, id: Seq<u8>) -> bool {
    &&& s.ops.contains_key(id) == t.ops.contains_key(id)
    &&& s.ops.contains_key(id) ==> s.ops[id] == t.ops[id]
    &&& s.approvals_of(id) == t.approvals_of(id)
}

/// What a call does depends on no other operation than its own: where two states
/// differ in others only, it is refused in both for the same reason, or goes
/// through in both, with the same event and the same change.
pub proof fn only_its_own_operation_matters(s: TimelockState, t: TimelockState, call: TimelockCall)
    requires
        same_but_for_operations(s, t),
        call.subject() matches Some(id) ==> same_of(s, t, id),
    ensures
        match (call.step(s), call.step(t)) {
            (Ok(a), Ok(b)) => {
                &&& same_but_for_operations(a, b)
                &&& call.subject() matches Some(id) ==> same_of(a, b, id)
                &&& a.events.skip(s.events.len() as int) == b.events.skip(t.events.len() as int)
            },
            (Err(a), Err(b)) => a == b,
            _ => false,
        },
{
    if let (Ok(a), Ok(b)) = (call.step(s), call.step(t)) {
        assert(a.events.skip(s.events.len() as int) =~= b.events.skip(t.events.len() as int));
    }
}

/// The strkeys of different addresses are different.
proof fn lemma_strkeys_tell_addresses_apart(a: Address, b: Address)
    requires
        a.text() == b.text(),
    ensures
        a == b,
{
    let version = |x: Address|
        match x {
            Address::Account(_) => VERSION_ACCOUNT,
            Address::Contract(_) => VERSION_CONTRACT,
        };
    strkey_round_trip(version(a), a.key());
    strkey_round_trip(version(b), b.key());
    match (a, b) {
        (Address::Account(x), Address::Account(y)) => {
            assert(x@ == y@);
            assert(x =~= y);
        },
        (Address::Contract(x), Address::Contract(y)) => {
            assert(x@ == y@);
            assert(x =~= y);
        },
        _ => {},
    }
}

/// Parts that lie one behind the other each lie where they start.
proof fn lemma_layout(
    buf: Seq<u8>,
    a: Seq<u8>,
    b: Seq<u8>,
    c: Seq<u8>,
    d: Seq<u8>,
    e: Seq<u8>,
    f: Seq<u8>,
)
    requires
        buf == a + b + (c + d) + (e + f),
    ensures
        lies_at(buf, a.len(), b),
        lies_at(buf, a.len() + b.len() + c.len(), d),
        lies_at(buf, a.len() + b.len() + c.len() + d.len(), e),
        lies_at(buf, a.len() + b.len() + c.len() + d.len() + e.len(), f),
{
    assert(buf =~= a + (b + (c + (d + (e + f)))));
    assert(buf.subrange(0, buf.len() as int) =~= buf);
    lemma_parts_lie_at(buf, 0, a, b + (c + (d + (e + f))));
    lemma_parts_lie_at(buf, a.len(), b, c + (d + (e + f)));
    lemma_parts_lie_at(buf, a.len() + b.len(), c, d + (e + f));
    lemma_parts_lie_at(buf, a.len() + b.len() + c.len(), d, e + f);
    lemma_parts_lie_at(buf, a.len() + b.len() + c.len() + d.len(), e, f);
}

/// What the bytes that are hashed to an identifier say when they are read.
#[verifier::spinoff_prover]
#[verifier::rlimit(50)]
proof fn lemma_preimage_reads(description: Seq<char>, target: Address, eta: u64)
    requires
        encode_utf8(description).len() < 0x1_0000_0000,
    ensures
        ({
            let buf = op_preimage(description, target, eta);
            let p = 4 + opaque_var_bytes(encode_utf8(description)).len();
            let q = p + 4 + target.xdr().len();
            &&& string_at(buf, 4) == Ok::<(Seq<char>, nat), XdrError>((description, p))
            &&& address_at(buf, p + 4) == Ok::<(Seq<char>, nat), XdrError>((target.text(), q))
            &&& u32_at(buf, q) == Ok::<(u32, nat), XdrError>(
                ((eta / 0x1_0000_0000) as u32, q + 4),
            )
            &&& u32_at(buf, q + 4) == Ok::<(u32, nat), XdrError>(
                ((eta % 0x1_0000_0000) as u32, q + 8),
            )
        }),
{
    let buf = op_preimage(description, target, eta);
    let kind = be32(SCV_STRING as nat);
    let text = opaque_var_bytes(encode_utf8(description));
    let tag = be32(SCV_ADDRESS as nat);
    let high: u32 = (eta / 0x1_0000_0000) as u32;
    let low: u32 = (eta % 0x1_0000_0000) as u32;
    let p = 4 + text.len();
    let q = p + 4 + target.xdr().len();
    lemma_layout(buf, kind, text, tag, target.xdr(), be32(high as nat), be32(low as nat));
    assert(string_at(buf, 4) == Ok::<(Seq<char>, nat), XdrError>((description, p))) by {
        lemma_read_string(buf, 4, description);
    }
    assert(address_at(buf, p + 4) == Ok::<(Seq<char>, nat), XdrError>((target.text(), q))) by {
        lemma_read_address(buf, p + 4, target);
    }
    assert(u32_at(buf, q) == Ok::<(u32, nat), XdrError>((high, q + 4))) by {
        lemma_read_u32(buf, q, high);
    }
    assert(u32_at(buf, q + 4) == Ok::<(u32, nat), XdrError>((low, q + 8))) by {
        lemma_read_u32(buf, q + 4, low);
    }
}

/// Different operations are hashed from different bytes: the description, the
/// target and the time can be read back from what is hashed.
pub proof fn operations_are_hashed_apart(
    description: Seq<char>,
    target: Address,
    eta: u64,
    other_description: Seq<char>,
    other_target: Address,
    other_eta: u64,
)
    requires
        encode_utf8(description).len() < 0x1_0000_0000,
        encode_utf8(other_description).len() < 0x1_0000_0000,
        op_preimage(description, target, eta) == op_preimage(
            other_description,
            other_target,
            other_eta,
        ),
    ensures
        description == other_description,
        target == other_target,
        eta == other_eta,
{
    lemma_preimage_reads(description, target, eta);
    lemma_preimage_reads(other_description, other_target, other_eta);
    assert(description == other_description);
    assert(target.text() == other_target.text());
    lemma_strkeys_tell_addresses_apart(target, other_target);
}

/// What is hashed to the identifier of an operation, read part by part: a string
/// value that holds the description, an address value that holds the target, and
/// the time in eight bytes, the more significant half first. Nothing follows.
#[verifier::spinoff_prover]
#[verifier::rlimit(50)]
pub proof fn identifiers_hash_description_target_and_time(
    description: Seq<char>,
    target: Address,
    eta: u64,
)
    requires
        encode_utf8(description).len() < 0x1_0000_0000,
    ensures
        op_id_of(description, target, eta) == sha256_of(op_preimage(description, target, eta)),
        ({
            let buf = op_preimage(description, target, eta);
            let p = 8 + (encode_utf8(description).len() + 3) / 4 * 4;
            let q = (p + 4 + (if target is Account {
                40int
            } else {
                36int
            })) as nat;
            &&& u32_at(buf, 0) == Ok::<(u32, nat), XdrError>((14, 4))
            &&& string_at(buf, 4) == Ok::<(Seq<char>, nat), XdrError>((description, p))
            &&& u32_at(buf, p) == Ok::<(u32, nat), XdrError>((18, p + 4))
            &&& address_at(buf, p + 4) == Ok::<(Seq<char>, nat), XdrError>((target.text(), q))
            &&& u32_at(buf, q) matches Ok((high, _)) && (u32_at(buf, q + 4) matches Ok((low, _))
                && high * 0x1_0000_0000 + low == eta)
            &&& buf.len() == q + 8
        }),
{
    lemma_preimage_reads(description, target, eta);
    lemma_preimage_frame(description, target, eta);
    lemma_text_room(encode_utf8(description));
    lemma_address_room(target);
    let high: u32 = (eta / 0x1_0000_0000) as u32;
    let low: u32 = (eta % 0x1_0000_0000) as u32;
    assert(high * 0x1_0000_0000 + low == eta);
}

proof fn lemma_text_room(data: Seq<u8>)
    ensures
        opaque_var_bytes(data).len() == 4 + (data.len() + 3) / 4 * 4,
{
    let n = data.len() as int;
    assert(n + (4 - n % 4) % 4 == (n + 3) / 4 * 4) by {
        if n % 4 == 0 {
            assert((n + 3) / 4 == n / 4);
        } else {
            assert((n + 3) / 4 == n / 4 + 1);
        }
    }
}

proof fn lemma_address_room(address: Address)
    ensures
        address.xdr().len() == if address is Account {
            40int
        } else {
            36int
        },
{
    match address {
        Address::Account(key) => {
            assert(key@.len() == 32);
        },
        Address::Contract(hash) => {
            assert(hash@.len() == 32);
        },
    }
}

/// The kinds of the two values that are hashed, and the end of what is hashed.
#[verifier::spinoff_prover]
#[verifier::rlimit(50)]
proof fn lemma_preimage_frame(description: Seq<char>, target: Address, eta: u64)
    ensures
        ({
            let buf = op_preimage(description, target, eta);
            let p = 4 + opaque_var_bytes(encode_utf8(description)).len();
            &&& u32_at(buf, 0) == Ok::<(u32, nat), XdrError>((14, 4))
            &&& u32_at(buf, p) == Ok::<(u32, nat), XdrError>((18, p + 4))
            &&& buf.len() == p + 4 + target.xdr().len() + 8
        }),
{
    let buf = op_preimage(description, target, eta);
    let text = opaque_var_bytes(encode_utf8(description));
    let high: u32 = (eta / 0x1_0000_0000) as u32;
    let low: u32 = (eta % 0x1_0000_0000) as u32;
    lemma_first_words(
        buf,
        be32(SCV_STRING as nat),
        text,
        be32(SCV_ADDRESS as nat),
        target.xdr(),
        be32(high as nat),
        be32(low as nat),
    );
    assert(u32_at(buf, 0) == Ok::<(u32, nat), XdrError>((14, 4))) by {
        lemma_read_u32(buf, 0, SCV_STRING);
    }
    let p = 4 + text.len();
    assert(u32_at(buf, p) == Ok::<(u32, nat), XdrError>((18, p + 4))) by {
        lemma_read_u32(buf, p, SCV_ADDRESS);
    }
}

proof fn lemma_first_words(
    buf: Seq<u8>,
    a: Seq<u8>,
    b: Seq<u8>,
    c: Seq<u8>,
    d: Seq<u8>,
    e: Seq<u8>,
    f: Seq<u8>,
)
    requires
        buf == a + b + (c + d) + (e + f),
    ensures
        lies_at(buf, 0, a),
        lies_at(buf, a.len() + b.len(), c),
        buf.len() == a.len() + b.len() + c.len() + d.len() + e.len() + f.len(),
{
    assert(buf =~= a + (b + (c + (d + (e + f)))));
    assert(buf.subrange(0, buf.len() as int) =~= buf);
    lemma_parts_lie_at(buf, 0, a, b + (c + (d + (e + f))));
    lemma_parts_lie_at(buf, a.len(), b, c + (d + (e + f)));
    lemma_parts_lie_at(buf, a.len() + b.len(), c, d + (e + f));
}

} // verus!
