//! What each call of the timelock comes to: when it goes through, why it is
//! refused otherwise, what it changes, and that it changes nothing else.

use vstd::prelude::*;
use vstd::utf8::*;

use crate::address::Address;
use crate::soroban::sha256_of;
use crate::timelock::{
    add_council_member_step, cancel_step, execute_step, fast_track_approve_step, initialize_step,
    op_id_of, op_preimage, queue_step, remove_council_member_step, set_emergency_council_step,
    set_fast_track_enabled_step, set_min_delay_step, status_at, transfer_admin_step,
    update_description_step, went, without,
};
use crate::timelock::{OpView, TimelockEventView, TimelockState};
use crate::timelock::{OperationStatus, TimelockError};

verus! {

/// A refusal.
pub open spec fn refused(e: TimelockError) -> Result<TimelockState, TimelockError> {
    Err(e)
}

/// The number of approvals that an operation has.
pub open spec fn approval_count(s: TimelockState, id: Seq<u8>) -> nat {
    if s.approvals.contains_key(id) {
        s.approvals[id].len()
    } else {
        0
    }
}

/// Whether a member has approved an operation.
pub open spec fn has_approved(s: TimelockState, id: Seq<u8>, member: Address) -> bool {
    s.approvals.contains_key(id) && s.approvals[id].contains(member)
}

/// Whether nothing differs but operations, the number of pending ones, approvals
/// and events.
pub open spec fn same_settings(s: TimelockState, t: TimelockState) -> bool {
    &&& t.admin == s.admin
    &&& t.min_delay == s.min_delay
    &&& t.fast_track_enabled == s.fast_track_enabled
    &&& t.council == s.council
    &&& t.required_approvals == s.required_approvals
}

/// Whether operations, the number of pending ones, and approvals are the same.
pub open spec fn same_operations(s: TimelockState, t: TimelockState) -> bool {
    &&& t.ops == s.ops
    &&& t.pending_count == s.pending_count
    &&& t.approvals == s.approvals
}

/// A call that goes through leaves the state of its step, and one that is refused
/// changes nothing.
pub proof fn refusals_change_nothing<T>(
    s: TimelockState,
    t: TimelockState,
    result: Result<T, TimelockError>,
    step: Result<TimelockState, TimelockError>,
)
    requires
        went(s, t, result, step),
    ensures
        step matches Ok(u) ==> result is Ok && t == u,
        step matches Err(e) ==> result == Err::<T, TimelockError>(e) && t == s,
{
}

/// A timelock can be initialized while it has no admin, with a delay above zero.
/// It then has that admin and that delay.
pub proof fn what_initialize_does(s: TimelockState, admin: Address, min_delay: u64)
    ensures
        s.admin is Some ==> initialize_step(s, admin, min_delay) == refused(
            TimelockError::AlreadyInitialized,
        ),
        s.admin is None && min_delay == 0 ==> initialize_step(s, admin, min_delay) == refused(
            TimelockError::InvalidDelay,
        ),
        s.admin is None && min_delay > 0 ==> {
            &&& initialize_step(s, admin, min_delay) is Ok
            &&& ({
                let t = initialize_step(s, admin, min_delay)->Ok_0;
                &&& t.admin == Some(admin)
                &&& t.min_delay == Some(min_delay)
                &&& t.fast_track_enabled == s.fast_track_enabled
                &&& t.council == s.council
                &&& t.required_approvals == s.required_approvals
                &&& same_operations(s, t)
                &&& t.events == s.events
            })
        },
{
}

/// The admin can queue an operation with a delay of at least the minimum. It then
/// stands under the hash of its description, target and time, waits for the
/// delay, is pending, and is told of. One more operation is pending, unless the
/// same one was.
pub proof fn what_queue_does(
    s: TimelockState,
    now: u64,
    caller: Address,
    description: Seq<char>,
    target: Address,
    delay: u64,
    grace: u64,
)
    requires
        now + delay <= u64::MAX,
        s.pending_count < u64::MAX,
    ensures
        ({
            let r = queue_step(s, now, caller, description, target, delay, grace);
            let eta = (now + delay) as u64;
            let id = sha256_of(op_preimage(description, target, eta));
            &&& s.admin is None ==> r == refused(TimelockError::NotInitialized)
            &&& s.admin is Some && s.admin != Some(caller) ==> r == refused(
                TimelockError::Unauthorized,
            )
            &&& s.admin == Some(caller) && s.min_delay is None ==> r == refused(
                TimelockError::NotInitialized,
            )
            &&& s.admin == Some(caller) && s.min_delay is Some && delay < s.min_delay->0 ==> r
                == refused(TimelockError::DelayTooShort)
            &&& s.admin == Some(caller) && s.min_delay is Some && delay >= s.min_delay->0 ==> {
                &&& r is Ok
                &&& same_settings(s, r->Ok_0)
                &&& r->Ok_0.approvals == s.approvals
                &&& r->Ok_0.ops == s.ops.insert(
                    id,
                    (OpView {
                        proposer: caller,
                        description,
                        target,
                        eta,
                        grace_period_seconds: grace,
                        executed: false,
                        cancelled: false,
                    }),
                )
                &&& r->Ok_0.pending_count - s.pending_count == if s.ops.contains_key(id)
                    && !s.ops[id].executed && !s.ops[id].cancelled {
                    0int
                } else {
                    1int
                }
                &&& r->Ok_0.events == s.events.push(
                    TimelockEventView::OpQueued { op_id: id, target, eta, grace_period_seconds: grace },
                )
            }
        }),
{
    assert(op_id_of(description, target, (now + delay) as u64) == sha256_of(
        op_preimage(description, target, (now + delay) as u64),
    ));
}

/// Why an admin call on an operation is refused: for its caller first, then for
/// want of the operation.
proof fn lemma_admin_call(s: TimelockState, caller: Address, id: Seq<u8>, now: u64, text: Seq<char>)
    ensures
        s.admin is None ==> cancel_step(s, caller, id) == refused(TimelockError::NotInitialized)
            && execute_step(s, now, caller, id) == refused(TimelockError::NotInitialized)
            && update_description_step(s, caller, id, text) == refused(
            TimelockError::NotInitialized,
        ),
        s.admin is Some && s.admin != Some(caller) ==> cancel_step(s, caller, id) == refused(
            TimelockError::Unauthorized,
        ) && execute_step(s, now, caller, id) == refused(TimelockError::Unauthorized)
            && update_description_step(s, caller, id, text) == refused(TimelockError::Unauthorized),
        s.admin == Some(caller) && !s.ops.contains_key(id) ==> cancel_step(s, caller, id)
            == refused(TimelockError::NotFound) && execute_step(s, now, caller, id) == refused(
            TimelockError::NotFound,
        ) && update_description_step(s, caller, id, text) == refused(TimelockError::NotFound),
{
}

/// The admin can cancel any pending operation, whatever the time is. It is then
/// cancelled and otherwise as it was, one operation less is pending, and the
/// cancellation is told of.
pub proof fn what_cancel_does(s: TimelockState, caller: Address, id: Seq<u8>)
    ensures
        ({
            let r = cancel_step(s, caller, id);
            let op = s.ops[id];
            &&& s.admin is None ==> r == refused(TimelockError::NotInitialized)
            &&& s.admin is Some && s.admin != Some(caller) ==> r == refused(
                TimelockError::Unauthorized,
            )
            &&& s.admin == Some(caller) && !s.ops.contains_key(id) ==> r == refused(
                TimelockError::NotFound,
            )
            &&& s.admin == Some(caller) && s.ops.contains_key(id) ==> {
                &&& op.cancelled ==> r == refused(TimelockError::Cancelled)
                &&& op.executed && !op.cancelled ==> r == refused(TimelockError::AlreadyExecuted)
                &&& !op.executed && !op.cancelled ==> {
                    &&& r is Ok
                    &&& same_settings(s, r->Ok_0)
                    &&& r->Ok_0.approvals == s.approvals
                    &&& r->Ok_0.ops == s.ops.insert(id, (OpView { cancelled: true, ..op }))
                    &&& s.pending_count > 0 ==> r->Ok_0.pending_count == s.pending_count - 1
                    &&& s.pending_count == 0 ==> r->Ok_0.pending_count == 0
                    &&& r->Ok_0.events == s.events.push(
                        TimelockEventView::OpCancelled { op_id: id },
                    )
                }
            }
        }),
{
    lemma_admin_call(s, caller, id, 0, Seq::empty());
}

/// The admin can execute a pending operation from its time on to the end of its
/// grace period, both included. It is then executed and otherwise as it was, one
/// operation less is pending, and the execution is told of.
pub proof fn what_execute_does(s: TimelockState, now: u64, caller: Address, id: Seq<u8>)
    ensures
        ({
            let r = execute_step(s, now, caller, id);
            let op = s.ops[id];
            &&& s.admin is None ==> r == refused(TimelockError::NotInitialized)
            &&& s.admin is Some && s.admin != Some(caller) ==> r == refused(
                TimelockError::Unauthorized,
            )
            &&& s.admin == Some(caller) && !s.ops.contains_key(id) ==> r == refused(
                TimelockError::NotFound,
            )
            &&& s.admin == Some(caller) && s.ops.contains_key(id) ==> {
                &&& op.cancelled ==> r == refused(TimelockError::Cancelled)
                &&& op.executed && !op.cancelled ==> r == refused(TimelockError::AlreadyExecuted)
                &&& !op.executed && !op.cancelled && now < op.eta ==> r == refused(
                    TimelockError::NotReady,
                )
                &&& !op.executed && !op.cancelled && now > op.eta + op.grace_period_seconds ==> r
                    == refused(TimelockError::Expired)
                &&& !op.executed && !op.cancelled && op.eta <= now <= op.eta
                    + op.grace_period_seconds ==> {
                    &&& r is Ok
                    &&& same_settings(s, r->Ok_0)
                    &&& r->Ok_0.approvals == s.approvals
                    &&& r->Ok_0.ops == s.ops.insert(id, (OpView { executed: true, ..op }))
                    &&& s.pending_count > 0 ==> r->Ok_0.pending_count == s.pending_count - 1
                    &&& s.pending_count == 0 ==> r->Ok_0.pending_count == 0
                    &&& r->Ok_0.events == s.events.push(
                        TimelockEventView::OpExecuted { op_id: id, target: op.target },
                    )
                }
            }
        }),
{
    lemma_admin_call(s, caller, id, now, Seq::empty());
}

/// The admin can describe any pending operation anew. Only its description
/// changes, not what it stands under, and the change is told of.
pub proof fn what_update_description_does(
    s: TimelockState,
    caller: Address,
    id: Seq<u8>,
    text: Seq<char>,
)
    ensures
        ({
            let r = update_description_step(s, caller, id, text);
            let op = s.ops[id];
            &&& s.admin is None ==> r == refused(TimelockError::NotInitialized)
            &&& s.admin is Some && s.admin != Some(caller) ==> r == refused(
                TimelockError::Unauthorized,
            )
            &&& s.admin == Some(caller) && !s.ops.contains_key(id) ==> r == refused(
                TimelockError::NotFound,
            )
            &&& s.admin == Some(caller) && s.ops.contains_key(id) ==> {
                &&& op.executed ==> r == refused(TimelockError::AlreadyExecuted)
                &&& op.cancelled && !op.executed ==> r == refused(TimelockError::Cancelled)
                &&& !op.executed && !op.cancelled ==> {
                    &&& r is Ok
                    &&& same_settings(s, r->Ok_0)
                    &&& r->Ok_0.approvals == s.approvals
                    &&& r->Ok_0.pending_count == s.pending_count
                    &&& r->Ok_0.ops == s.ops.insert(id, (OpView { description: text, ..op }))
                    &&& r->Ok_0.events == s.events.push(
                        TimelockEventView::OpDescriptionUpdated { op_id: id, new_description: text },
                    )
                }
            }
        }),
{
    lemma_admin_call(s, caller, id, 0, text);
}

/// Why a call of `fast_track_approve` is refused, and when it is not: any member
/// of the council may approve any pending operation once, while the path is
/// enabled, but for the approval that would execute one whose grace period is
/// over.
pub proof fn who_may_approve(s: TimelockState, now: u64, member: Address, id: Seq<u8>)
    ensures
        ({
            let r = fast_track_approve_step(s, now, member, id);
            let op = s.ops[id];
            let over = now > op.eta + op.grace_period_seconds;
            let enough = s.required_approvals > 0 && approval_count(s, id) + 1
                >= s.required_approvals;
            let may = s.fast_track_enabled && s.council.contains(member) && s.ops.contains_key(id);
            &&& !s.fast_track_enabled ==> r == refused(TimelockError::FastTrackDisabled)
            &&& s.fast_track_enabled && !s.council.contains(member) ==> r == refused(
                TimelockError::NotCouncilMember,
            )
            &&& s.fast_track_enabled && s.council.contains(member) && !s.ops.contains_key(id) ==> r
                == refused(TimelockError::NotFound)
            &&& may && op.cancelled ==> r == refused(TimelockError::Cancelled)
            &&& may && op.executed && !op.cancelled ==> r == refused(
                TimelockError::AlreadyExecuted,
            )
            &&& may && !op.executed && !op.cancelled && has_approved(s, id, member) ==> r
                == refused(TimelockError::AlreadyApproved)
            &&& may && !op.executed && !op.cancelled && !has_approved(s, id, member) && over
                && enough ==> r == refused(TimelockError::Expired)
            &&& r is Ok <==> may && !op.executed && !op.cancelled && !has_approved(s, id, member)
                && !(over && enough)
        }),
{
}

/// Whenever an approval goes through and the operation then has as many
/// approvals as are required, be the council as large as it may, the operation
/// is executed, one operation less is pending, and `critical_fast_tracked` is
/// published with the number of approvals. Where it has fewer, or none are
/// required, only the approval is recorded.
pub proof fn enough_approvals_execute(s: TimelockState, now: u64, member: Address, id: Seq<u8>)
    requires
        fast_track_approve_step(s, now, member, id) is Ok,
        approval_count(s, id) < u32::MAX,
    ensures
        ({
            let t = fast_track_approve_step(s, now, member, id)->Ok_0;
            let given = t.approvals[id];
            &&& same_settings(s, t)
            &&& t.approvals == s.approvals.insert(id, given)
            &&& given.len() == approval_count(s, id) + 1
            &&& given.last() == member
            &&& given.drop_last() == if s.approvals.contains_key(id) {
                s.approvals[id]
            } else {
                Seq::empty()
            }
            &&& s.required_approvals > 0 && given.len() >= s.required_approvals ==> {
                &&& t.ops == s.ops.insert(id, (OpView { executed: true, ..s.ops[id] }))
                &&& s.pending_count > 0 ==> t.pending_count == s.pending_count - 1
                &&& s.pending_count == 0 ==> t.pending_count == 0
                &&& t.events.len() == s.events.len() + 1
                &&& t.events.drop_last() == s.events
                &&& t.events.last() is CriticalFastTracked
                &&& t.events.last()->CriticalFastTracked_op_id == id
                &&& t.events.last()->CriticalFastTracked_target == s.ops[id].target
                &&& t.events.last()->CriticalFastTracked_approval_count == given.len()
            }
            &&& s.required_approvals == 0 || given.len() < s.required_approvals ==> {
                &&& t.ops == s.ops
                &&& t.pending_count == s.pending_count
                &&& t.events == s.events
            }
        }),
{
    let t = fast_track_approve_step(s, now, member, id)->Ok_0;
    let before = s.approvals_of(id);
    assert(t.approvals[id] == before.push(member));
    assert(before.push(member).drop_last() =~= before);
    assert(t.events.len() > s.events.len() ==> t.events.drop_last() =~= s.events);
}

/// The council that the admin sets is the one that the timelock then has, with
/// the number of approvals, which is between one and the number of members.
pub proof fn what_set_emergency_council_does(
    s: TimelockState,
    caller: Address,
    council: Seq<Address>,
    required: u32,
)
    ensures
        ({
            let r = set_emergency_council_step(s, caller, council, required);
            &&& s.admin is None ==> r == refused(TimelockError::NotInitialized)
            &&& s.admin is Some && s.admin != Some(caller) ==> r == refused(
                TimelockError::Unauthorized,
            )
            &&& s.admin == Some(caller) && !(1 <= required <= council.len()) ==> r == refused(
                TimelockError::InvalidConfig,
            )
            &&& s.admin == Some(caller) && 1 <= required <= council.len() ==> {
                &&& r is Ok
                &&& r->Ok_0.council == council
                &&& r->Ok_0.required_approvals == required
                &&& r->Ok_0.admin == s.admin
                &&& r->Ok_0.min_delay == s.min_delay
                &&& r->Ok_0.fast_track_enabled == s.fast_track_enabled
                &&& same_operations(s, r->Ok_0)
                &&& r->Ok_0.events == s.events.push(
                    TimelockEventView::CouncilUpdated { required, council },
                )
            }
        }),
{
}

/// The admin can add anyone to the council who is not in it, behind the others,
/// and take anyone off it who is in it, as often as they are. The number of
/// approvals required stays.
pub proof fn what_changing_the_council_does(s: TimelockState, caller: Address, member: Address)
    ensures
        ({
            let a = add_council_member_step(s, caller, member);
            let r = remove_council_member_step(s, caller, member);
            &&& s.admin is None ==> a == refused(TimelockError::NotInitialized) && r == refused(
                TimelockError::NotInitialized,
            )
            &&& s.admin is Some && s.admin != Some(caller) ==> a == refused(
                TimelockError::Unauthorized,
            ) && r == refused(TimelockError::Unauthorized)
            &&& s.admin == Some(caller) && s.council.contains(member) ==> {
                &&& a == refused(TimelockError::AlreadyMember)
                &&& r is Ok
                &&& r->Ok_0.council == without(s.council, member)
                &&& r->Ok_0.events == s.events.push(
                    TimelockEventView::CouncilMemberRemoved { member },
                )
                &&& r->Ok_0 == (TimelockState {
                    council: r->Ok_0.council,
                    events: r->Ok_0.events,
                    ..s
                })
            }
            &&& s.admin == Some(caller) && !s.council.contains(member) ==> {
                &&& r == refused(TimelockError::NotCouncilMember)
                &&& a is Ok
                &&& a->Ok_0.council == s.council.push(member)
                &&& a->Ok_0.events == s.events.push(
                    TimelockEventView::CouncilMemberAdded { member },
                )
                &&& a->Ok_0 == (TimelockState {
                    council: a->Ok_0.council,
                    events: a->Ok_0.events,
                    ..s
                })
            }
        }),
{
}

/// Leaving an address out of a list takes out every copy of it, and keeps the
/// others in their order.
pub proof fn leaving_out_keeps_the_others(list: Seq<Address>, address: Address, next: Address)
    ensures
        without(Seq::empty(), address) == Seq::<Address>::empty(),
        without(list.push(address), address) == without(list, address),
        next != address ==> without(list.push(next), address) == without(list, address).push(next),
        !without(list, address).contains(address),
    decreases list.len(),
{
    reveal(Seq::filter);
    assert(list.push(address).drop_last() =~= list);
    assert(list.push(next).drop_last() =~= list);
    if list.len() > 0 {
        let rest = list.drop_last();
        leaving_out_keeps_the_others(rest, address, list.last());
        assert(rest.push(list.last()) =~= list);
        let kept = without(rest, address);
        if list.last() != address {
            assert forall|i: int| 0 <= i < without(list, address).len() implies without(
                list,
                address,
            )[i] != address by {
                if i < kept.len() {
                    assert(kept[i] != address) by {
                        if kept[i] == address {
                            assert(kept.contains(address));
                        }
                    }
                }
            }
        }
    }
}

/// The other settings: only the admin changes them, a minimum delay of zero is
/// refused, each changes what it says and nothing else, and each is told of.
pub proof fn what_the_other_settings_do(
    s: TimelockState,
    caller: Address,
    enabled: bool,
    new_delay: u64,
    new_admin: Address,
)
    ensures
        ({
            let f = set_fast_track_enabled_step(s, caller, enabled);
            let d = set_min_delay_step(s, caller, new_delay);
            let a = transfer_admin_step(s, caller, new_admin);
            &&& s.admin is None ==> {
                &&& f == refused(TimelockError::NotInitialized)
                &&& d == refused(TimelockError::NotInitialized)
                &&& a == refused(TimelockError::NotInitialized)
            }
            &&& s.admin is Some && s.admin != Some(caller) ==> {
                &&& f == refused(TimelockError::Unauthorized)
                &&& d == refused(TimelockError::Unauthorized)
                &&& a == refused(TimelockError::Unauthorized)
            }
            &&& s.admin == Some(caller) ==> {
                &&& f is Ok
                &&& f->Ok_0.fast_track_enabled == enabled
                &&& f->Ok_0.events == s.events.push(TimelockEventView::FastTrackToggled { enabled })
                &&& f->Ok_0 == (TimelockState {
                    fast_track_enabled: f->Ok_0.fast_track_enabled,
                    events: f->Ok_0.events,
                    ..s
                })
                &&& d is Ok <==> new_delay > 0
                &&& new_delay == 0 ==> d == refused(TimelockError::InvalidDelay)
                &&& new_delay > 0 ==> {
                    &&& d->Ok_0.min_delay == Some(new_delay)
                    &&& d->Ok_0.events == s.events.push(
                        TimelockEventView::MinDelayUpdated { new_delay },
                    )
                    &&& d->Ok_0 == (TimelockState {
                        min_delay: d->Ok_0.min_delay,
                        events: d->Ok_0.events,
                        ..s
                    })
                }
                &&& a is Ok
                &&& a->Ok_0.admin == Some(new_admin)
                &&& a->Ok_0.events == s.events.push(
                    TimelockEventView::AdminTransferred { current: caller, new_admin },
                )
                &&& a->Ok_0 == (TimelockState {
                    admin: a->Ok_0.admin,
                    events: a->Ok_0.events,
                    ..s
                })
            }
        }),
{
}

/// An operation that was cancelled or executed is shown as that at every time.
/// Any other is shown as queued before its time, as ready from then to the end of
/// its grace period, and as expired afterwards.
pub proof fn what_status_shows(op: OpView, now: u64)
    ensures
        op.cancelled <==> status_at(op, now) == OperationStatus::Cancelled,
        op.executed && !op.cancelled <==> status_at(op, now) == OperationStatus::Executed,
        !op.executed && !op.cancelled ==> {
            &&& now < op.eta <==> status_at(op, now) == OperationStatus::Queued
            &&& op.eta <= now <= op.eta + op.grace_period_seconds <==> status_at(op, now)
                == OperationStatus::Ready
            &&& now > op.eta + op.grace_period_seconds <==> status_at(op, now)
                == OperationStatus::Expired
        },
{
}

/// A timelock that nobody has initialized has no admin, no delay, no council, no
/// operations and nothing to tell, and its fast-track path is disabled.
pub proof fn what_a_fresh_timelock_is()
    ensures
        ({
            let s = TimelockState::fresh();
            &&& s.admin is None
            &&& s.min_delay is None
            &&& !s.fast_track_enabled
            &&& s.pending_count == 0
            &&& s.ops == Map::<Seq<u8>, OpView>::empty()
            &&& s.council.len() == 0
            &&& s.required_approvals == 0
            &&& s.approvals == Map::<Seq<u8>, Seq<Address>>::empty()
            &&& s.events.len() == 0
        }),
{
}

/// The numbers under which errors are reported.
pub proof fn error_numbers_stay()
    ensures
        TimelockError::AlreadyInitialized.number() == 1,
        TimelockError::NotInitialized.number() == 2,
        TimelockError::Unauthorized.number() == 3,
        TimelockError::NotFound.number() == 4,
        TimelockError::NotReady.number() == 5,
        TimelockError::AlreadyExecuted.number() == 6,
        TimelockError::Cancelled.number() == 7,
        TimelockError::DelayTooShort.number() == 8,
        TimelockError::Expired.number() == 9,
        TimelockError::InvalidDelay.number() == 10,
        TimelockError::InvalidConfig.number() == 11,
        TimelockError::NotCouncilMember.number() == 12,
        TimelockError::FastTrackDisabled.number() == 13,
        TimelockError::AlreadyApproved.number() == 14,
        TimelockError::AlreadyMember.number() == 15,
{
}

/// The names under which events are published, whatever they say.
pub proof fn event_names_stay(event: TimelockEventView)
    ensures
        event is OpQueued ==> event.name() == "op_queued"@,
        event is OpExecuted ==> event.name() == "op_executed"@,
        event is OpCancelled ==> event.name() == "op_cancelled"@,
        event is OpDescriptionUpdated ==> event.name() == "op_description_updated"@,
        event is CouncilUpdated ==> event.name() == "council_updated"@,
        event is CouncilMemberAdded ==> event.name() == "council_member_added"@,
        event is CouncilMemberRemoved ==> event.name() == "council_member_removed"@,
        event is FastTrackToggled ==> event.name() == "fast_track_toggled"@,
        event is CriticalFastTracked ==> event.name() == "critical_fast_tracked"@,
        event is AdminTransferred ==> event.name() == "admin_transferred"@,
        event is MinDelayUpdated ==> event.name() == "min_delay_updated"@,
{
}

} // verus!
