//! A delayed execution queue for sensitive router configuration changes.
//!
//! An operation waits for a configurable minimum delay, may be cancelled before
//! it is executed, and expires when its grace period is over. A council of which
//! enough members approve may execute an operation at once, where the admin has
//! enabled that path.

use vstd::prelude::*;
use vstd::string::*;
use vstd::utf8::*;

use crate::address::Address;
use crate::soroban::{address_xdr, sha256, sha256_of, string_xdr, Env, MAX_TEXT};
use crate::table::Table;
use crate::xdr::{be32, be64, opaque_var_bytes, XdrWriter, SCV_ADDRESS, SCV_STRING};

verus! {

/// A queued operation.
#[derive(Debug, PartialEq, Eq)]
pub struct Op {
    pub proposer: Address,
    pub description: String,
    pub target: Address,
    pub eta: u64,
    /// Seconds after `eta` during which the operation may still be executed.
    pub grace_period_seconds: u64,
    pub executed: bool,
    pub cancelled: bool,
}

/// What an operation says.
pub struct OpView {
    pub proposer: Address,
    pub description: Seq<char>,
    pub target: Address,
    pub eta: u64,
    pub grace_period_seconds: u64,
    pub executed: bool,
    pub cancelled: bool,
}

impl View for Op {
    type V = OpView;

    open spec fn view(&self) -> OpView {
        OpView {
            proposer: self.proposer,
            description: self.description@,
            target: self.target,
            eta: self.eta,
            grace_period_seconds: self.grace_period_seconds,
            executed: self.executed,
            cancelled: self.cancelled,
        }
    }
}

impl Op {
    fn copy(&self) -> (op: Op)
        ensures
            op@ == self@,
    {
        Op {
            proposer: self.proposer,
            description: self.description.clone(),
            target: self.target,
            eta: self.eta,
            grace_period_seconds: self.grace_period_seconds,
            executed: self.executed,
            cancelled: self.cancelled,
        }
    }
}

/// Where an operation stands.
#[derive(Clone, Copy, Debug, PartialEq, Eq, Structural)]
pub enum OperationStatus {
    /// Waiting for its time.
    Queued,
    /// Its time has come, and it may be executed.
    Ready,
    /// Executed.
    Executed,
    /// Cancelled before it was executed.
    Cancelled,
    /// Its grace period is over, and it cannot be executed any more.
    Expired,
}

/// Why a call was refused.
#[derive(Clone, Copy, Debug, PartialEq, Eq, Structural)]
pub enum TimelockError {
    AlreadyInitialized,
    NotInitialized,
    Unauthorized,
    NotFound,
    NotReady,
    AlreadyExecuted,
    Cancelled,
    DelayTooShort,
    /// The grace period is over.
    Expired,
    /// A minimum delay of zero.
    InvalidDelay,
    /// No approval required, or more than the council has members.
    InvalidConfig,
    /// The caller is not in the council, or the address to remove is not.
    NotCouncilMember,
    /// The fast-track path is disabled.
    FastTrackDisabled,
    /// The member has approved this operation before.
    AlreadyApproved,
    /// The address is in the council already.
    AlreadyMember,
}

impl TimelockError {
    /// The number under which the contract reports the error.
    pub open spec fn number(self) -> u32 {
        match self {
            TimelockError::AlreadyInitialized => 1,
            TimelockError::NotInitialized => 2,
            TimelockError::Unauthorized => 3,
            TimelockError::NotFound => 4,
            TimelockError::NotReady => 5,
            TimelockError::AlreadyExecuted => 6,
            TimelockError::Cancelled => 7,
            TimelockError::DelayTooShort => 8,
            TimelockError::Expired => 9,
            TimelockError::InvalidDelay => 10,
            TimelockError::InvalidConfig => 11,
            TimelockError::NotCouncilMember => 12,
            TimelockError::FastTrackDisabled => 13,
            TimelockError::AlreadyApproved => 14,
            TimelockError::AlreadyMember => 15,
        }
    }

    /// The number under which the contract reports the error.
    pub fn code(&self) -> (code: u32)
        ensures
            code == self.number(),
    {
        match self {
            TimelockError::AlreadyInitialized => 1,
            TimelockError::NotInitialized => 2,
            TimelockError::Unauthorized => 3,
            TimelockError::NotFound => 4,
            TimelockError::NotReady => 5,
            TimelockError::AlreadyExecuted => 6,
            TimelockError::Cancelled => 7,
            TimelockError::DelayTooShort => 8,
            TimelockError::Expired => 9,
            TimelockError::InvalidDelay => 10,
            TimelockError::InvalidConfig => 11,
            TimelockError::NotCouncilMember => 12,
            TimelockError::FastTrackDisabled => 13,
            TimelockError::AlreadyApproved => 14,
            TimelockError::AlreadyMember => 15,
        }
    }
}

/// What the timelock tells the world.
#[derive(Debug, PartialEq, Eq)]
pub enum TimelockEvent {
    OpQueued { op_id: Vec<u8>, target: Address, eta: u64, grace_period_seconds: u64 },
    OpExecuted { op_id: Vec<u8>, target: Address },
    OpCancelled { op_id: Vec<u8> },
    OpDescriptionUpdated { op_id: Vec<u8>, new_description: String },
    CouncilUpdated { required: u32, council: Vec<Address> },
    CouncilMemberAdded { member: Address },
    CouncilMemberRemoved { member: Address },
    FastTrackToggled { enabled: bool },
    CriticalFastTracked { op_id: Vec<u8>, target: Address, approval_count: u32 },
    AdminTransferred { current: Address, new_admin: Address },
    MinDelayUpdated { new_delay: u64 },
}

/// What an event says.
pub enum TimelockEventView {
    OpQueued { op_id: Seq<u8>, target: Address, eta: u64, grace_period_seconds: u64 },
    OpExecuted { op_id: Seq<u8>, target: Address },
    OpCancelled { op_id: Seq<u8> },
    OpDescriptionUpdated { op_id: Seq<u8>, new_description: Seq<char> },
    CouncilUpdated { required: u32, council: Seq<Address> },
    CouncilMemberAdded { member: Address },
    CouncilMemberRemoved { member: Address },
    FastTrackToggled { enabled: bool },
    CriticalFastTracked { op_id: Seq<u8>, target: Address, approval_count: u32 },
    AdminTransferred { current: Address, new_admin: Address },
    MinDelayUpdated { new_delay: u64 },
}

impl View for TimelockEvent {
    type V = TimelockEventView;

    open spec fn view(&self) -> TimelockEventView {
        match *self {
            TimelockEvent::OpQueued { op_id, target, eta, grace_period_seconds } => {
                TimelockEventView::OpQueued { op_id: op_id@, target, eta, grace_period_seconds }
            },
            TimelockEvent::OpExecuted { op_id, target } => {
                TimelockEventView::OpExecuted { op_id: op_id@, target }
            },
            TimelockEvent::OpCancelled { op_id } => {
                TimelockEventView::OpCancelled { op_id: op_id@ }
            },
            TimelockEvent::OpDescriptionUpdated { op_id, new_description } => {
                TimelockEventView::OpDescriptionUpdated {
                    op_id: op_id@,
                    new_description: new_description@,
                }
            },
            TimelockEvent::CouncilUpdated { required, council } => {
                TimelockEventView::CouncilUpdated { required, council: council@ }
            },
            TimelockEvent::CouncilMemberAdded { member } => {
                TimelockEventView::CouncilMemberAdded { member }
            },
            TimelockEvent::CouncilMemberRemoved { member } => {
                TimelockEventView::CouncilMemberRemoved { member }
            },
            TimelockEvent::FastTrackToggled { enabled } => {
                TimelockEventView::FastTrackToggled { enabled }
            },
            TimelockEvent::CriticalFastTracked { op_id, target, approval_count } => {
                TimelockEventView::CriticalFastTracked { op_id: op_id@, target, approval_count }
            },
            TimelockEvent::AdminTransferred { current, new_admin } => {
                TimelockEventView::AdminTransferred { current, new_admin }
            },
            TimelockEvent::MinDelayUpdated { new_delay } => {
                TimelockEventView::MinDelayUpdated { new_delay }
            },
        }
    }
}

/// What each event says.
pub open spec fn event_views(events: Seq<TimelockEvent>) -> Seq<TimelockEventView> {
    events.map_values(|e: TimelockEvent| e@)
}

impl TimelockEventView {
    /// The name under which the event is published.
    pub open spec fn name(self) -> Seq<char> {
        match self {
            TimelockEventView::OpQueued { .. } => "op_queued"@,
            TimelockEventView::OpExecuted { .. } => "op_executed"@,
            TimelockEventView::OpCancelled { .. } => "op_cancelled"@,
            TimelockEventView::OpDescriptionUpdated { .. } => "op_description_updated"@,
            TimelockEventView::CouncilUpdated { .. } => "council_updated"@,
            TimelockEventView::CouncilMemberAdded { .. } => "council_member_added"@,
            TimelockEventView::CouncilMemberRemoved { .. } => "council_member_removed"@,
            TimelockEventView::FastTrackToggled { .. } => "fast_track_toggled"@,
            TimelockEventView::CriticalFastTracked { .. } => "critical_fast_tracked"@,
            TimelockEventView::AdminTransferred { .. } => "admin_transferred"@,
            TimelockEventView::MinDelayUpdated { .. } => "min_delay_updated"@,
        }
    }
}

impl TimelockEvent {
    /// The name under which the event is published.
    pub fn topic(&self) -> (topic: &'static str)
        ensures
            topic@ == self@.name(),
    {
        match self {
            TimelockEvent::OpQueued { .. } => "op_queued",
            TimelockEvent::OpExecuted { .. } => "op_executed",
            TimelockEvent::OpCancelled { .. } => "op_cancelled",
            TimelockEvent::OpDescriptionUpdated { .. } => "op_description_updated",
            TimelockEvent::CouncilUpdated { .. } => "council_updated",
            TimelockEvent::CouncilMemberAdded { .. } => "council_member_added",
            TimelockEvent::CouncilMemberRemoved { .. } => "council_member_removed",
            TimelockEvent::FastTrackToggled { .. } => "fast_track_toggled",
            TimelockEvent::CriticalFastTracked { .. } => "critical_fast_tracked",
            TimelockEvent::AdminTransferred { .. } => "admin_transferred",
            TimelockEvent::MinDelayUpdated { .. } => "min_delay_updated",
        }
    }
}

/// What the timelock remembers.
#[verifier::ext_equal]
pub struct TimelockState {
    pub admin: Option<Address>,
    pub min_delay: Option<u64>,
    pub fast_track_enabled: bool,
    pub pending_count: u64,
    pub ops: Map<Seq<u8>, OpView>,
    pub council: Seq<Address>,
    pub required_approvals: u32,
    pub approvals: Map<Seq<u8>, Seq<Address>>,
    pub events: Seq<TimelockEventView>,
}

impl TimelockState {
    /// A timelock that nobody has initialized.
    pub open spec fn fresh() -> TimelockState {
        TimelockState {
            admin: None,
            min_delay: None,
            fast_track_enabled: false,
            pending_count: 0,
            ops: Map::empty(),
            council: Seq::empty(),
            required_approvals: 0,
            approvals: Map::empty(),
            events: Seq::empty(),
        }
    }

    /// Why `caller` is not let through as admin.
    pub open spec fn admin_refusal(self, caller: Address) -> Option<TimelockError> {
        match self.admin {
            None => Some(TimelockError::NotInitialized),
            Some(admin) => if admin == caller {
                None
            } else {
                Some(TimelockError::Unauthorized)
            },
        }
    }

    /// Who has approved an operation so far.
    pub open spec fn approvals_of(self, op_id: Seq<u8>) -> Seq<Address> {
        if self.approvals.contains_key(op_id) {
            self.approvals[op_id]
        } else {
            Seq::empty()
        }
    }

    /// Whether there is an operation under `op_id` that is neither executed nor
    /// cancelled.
    pub open spec fn has_pending(self, op_id: Seq<u8>) -> bool {
        self.ops.contains_key(op_id) && pending_refusal(self.ops[op_id]) is None
    }

    /// The count of pending operations, one lower unless it is zero.
    pub open spec fn one_less_pending(self) -> u64 {
        if self.pending_count > 0 {
            (self.pending_count - 1) as u64
        } else {
            0
        }
    }

    /// After an event has been published.
    pub open spec fn publish(self, event: TimelockEventView) -> TimelockState {
        TimelockState { events: self.events.push(event), ..self }
    }

    /// After an operation has been marked executed.
    pub open spec fn mark_executed(self, op_id: Seq<u8>) -> TimelockState {
        TimelockState {
            ops: self.ops.insert(op_id, (OpView { executed: true, ..self.ops[op_id] })),
            pending_count: self.one_less_pending(),
            ..self
        }
    }
}

/// Why an operation is not pending: cancelled before executed.
pub open spec fn pending_refusal(op: OpView) -> Option<TimelockError> {
    if op.cancelled {
        Some(TimelockError::Cancelled)
    } else if op.executed {
        Some(TimelockError::AlreadyExecuted)
    } else {
        None
    }
}

/// The bytes that are hashed to the identifier of an operation: the description
/// and the target as `ScVal`s, and the time.
pub open spec fn op_preimage(description: Seq<char>, target: Address, eta: u64) -> Seq<u8> {
    be32(SCV_STRING as nat) + opaque_var_bytes(encode_utf8(description)) + (be32(
        SCV_ADDRESS as nat,
    ) + target.xdr()) + be64(eta as nat)
}

/// The identifier of an operation.
pub open spec fn op_id_of(description: Seq<char>, target: Address, eta: u64) -> Seq<u8> {
    sha256_of(op_preimage(description, target, eta))
}

/// What `initialize` does.
pub open spec fn initialize_step(s: TimelockState, admin: Address, min_delay: u64) -> Result<
    TimelockState,
    TimelockError,
> {
    if s.admin is Some {
        Err(TimelockError::AlreadyInitialized)
    } else if min_delay == 0 {
        Err(TimelockError::InvalidDelay)
    } else {
        Ok(TimelockState { admin: Some(admin), min_delay: Some(min_delay), ..s })
    }
}

/// Why `queue` is refused.
pub open spec fn queue_refusal(s: TimelockState, proposer: Address, delay: u64) -> Option<
    TimelockError,
> {
    match s.admin_refusal(proposer) {
        Some(e) => Some(e),
        None => match s.min_delay {
            None => Some(TimelockError::NotInitialized),
            Some(min_delay) => if delay < min_delay {
                Some(TimelockError::DelayTooShort)
            } else {
                None
            },
        },
    }
}

/// What `queue` does at the time `now`.
pub open spec fn queue_step(
    s: TimelockState,
    now: u64,
    proposer: Address,
    description: Seq<char>,
    target: Address,
    delay: u64,
    grace_period_seconds: u64,
) -> Result<TimelockState, TimelockError> {
    match queue_refusal(s, proposer, delay) {
        Some(e) => Err(e),
        None => {
            let eta = (now + delay) as u64;
            let op_id = op_id_of(description, target, eta);
            let op = OpView {
                proposer,
                description,
                target,
                eta,
                grace_period_seconds,
                executed: false,
                cancelled: false,
            };
            Ok(
                (TimelockState {
                    ops: s.ops.insert(op_id, op),
                    pending_count: if s.has_pending(op_id) {
                        s.pending_count
                    } else {
                        (s.pending_count + 1) as u64
                    },
                    ..s
                }).publish(
                    TimelockEventView::OpQueued { op_id, target, eta, grace_period_seconds },
                ),
            )
        },
    }
}

/// Why an admin call on a pending operation is refused.
pub open spec fn pending_op_refusal(s: TimelockState, caller: Address, op_id: Seq<u8>) -> Option<
    TimelockError,
> {
    match s.admin_refusal(caller) {
        Some(e) => Some(e),
        None => if !s.ops.contains_key(op_id) {
            Some(TimelockError::NotFound)
        } else {
            pending_refusal(s.ops[op_id])
        },
    }
}

/// What `cancel` does.
pub open spec fn cancel_step(s: TimelockState, caller: Address, op_id: Seq<u8>) -> Result<
    TimelockState,
    TimelockError,
> {
    match pending_op_refusal(s, caller, op_id) {
        Some(e) => Err(e),
        None => Ok(
            (TimelockState {
                ops: s.ops.insert(op_id, (OpView { cancelled: true, ..s.ops[op_id] })),
                pending_count: s.one_less_pending(),
                ..s
            }).publish(TimelockEventView::OpCancelled { op_id }),
        ),
    }
}

/// What `execute` does at the time `now`.
pub open spec fn execute_step(s: TimelockState, now: u64, caller: Address, op_id: Seq<u8>) -> Result<
    TimelockState,
    TimelockError,
> {
    let op = s.ops[op_id];
    match pending_op_refusal(s, caller, op_id) {
        Some(e) => Err(e),
        None => if now < op.eta {
            Err(TimelockError::NotReady)
        } else if is_expired(op, now) {
            Err(TimelockError::Expired)
        } else {
            Ok(
                s.mark_executed(op_id).publish(
                    TimelockEventView::OpExecuted { op_id, target: op.target },
                ),
            )
        },
    }
}

/// What `update_description` does.
pub open spec fn update_description_step(
    s: TimelockState,
    caller: Address,
    op_id: Seq<u8>,
    new_description: Seq<char>,
) -> Result<TimelockState, TimelockError> {
    match s.admin_refusal(caller) {
        Some(e) => Err(e),
        None => if !s.ops.contains_key(op_id) {
            Err(TimelockError::NotFound)
        } else if s.ops[op_id].executed {
            Err(TimelockError::AlreadyExecuted)
        } else if s.ops[op_id].cancelled {
            Err(TimelockError::Cancelled)
        } else {
            Ok(
                (TimelockState {
                    ops: s.ops.insert(
                        op_id,
                        (OpView { description: new_description, ..s.ops[op_id] }),
                    ),
                    ..s
                }).publish(TimelockEventView::OpDescriptionUpdated { op_id, new_description }),
            )
        },
    }
}

/// What `set_emergency_council` does.
pub open spec fn set_emergency_council_step(
    s: TimelockState,
    caller: Address,
    council: Seq<Address>,
    required: u32,
) -> Result<TimelockState, TimelockError> {
    match s.admin_refusal(caller) {
        Some(e) => Err(e),
        None => if required == 0 || required > council.len() {
            Err(TimelockError::InvalidConfig)
        } else {
            Ok(
                (TimelockState { council, required_approvals: required, ..s }).publish(
                    TimelockEventView::CouncilUpdated { required, council },
                ),
            )
        },
    }
}

/// What `add_council_member` does.
pub open spec fn add_council_member_step(
    s: TimelockState,
    caller: Address,
    member: Address,
) -> Result<TimelockState, TimelockError> {
    match s.admin_refusal(caller) {
        Some(e) => Err(e),
        None => if s.council.contains(member) {
            Err(TimelockError::AlreadyMember)
        } else {
            Ok(
                (TimelockState { council: s.council.push(member), ..s }).publish(
                    TimelockEventView::CouncilMemberAdded { member },
                ),
            )
        },
    }
}

/// The addresses of `list` but for `address`.
pub open spec fn without(list: Seq<Address>, address: Address) -> Seq<Address> {
    list.filter(|m: Address| m != address)
}

/// What `remove_council_member` does.
pub open spec fn remove_council_member_step(
    s: TimelockState,
    caller: Address,
    member: Address,
) -> Result<TimelockState, TimelockError> {
    match s.admin_refusal(caller) {
        Some(e) => Err(e),
        None => if !s.council.contains(member) {
            Err(TimelockError::NotCouncilMember)
        } else {
            Ok(
                (TimelockState { council: without(s.council, member), ..s }).publish(
                    TimelockEventView::CouncilMemberRemoved { member },
                ),
            )
        },
    }
}

/// Whether the grace period of an operation is over at the time `now`.
pub open spec fn is_expired(op: OpView, now: u64) -> bool {
    now > op.eta + op.grace_period_seconds
}

/// Whether one more approval is the last that the operation needs to be executed.
pub open spec fn is_last_approval(s: TimelockState, op_id: Seq<u8>) -> bool {
    s.required_approvals > 0 && s.approvals_of(op_id).len() + 1 >= s.required_approvals
}

/// Why `fast_track_approve` is refused at the time `now`. An approval may come at
/// any time, but after the grace period none may execute the operation.
pub open spec fn fast_track_refusal(
    s: TimelockState,
    now: u64,
    member: Address,
    op_id: Seq<u8>,
) -> Option<TimelockError> {
    if !s.fast_track_enabled {
        Some(TimelockError::FastTrackDisabled)
    } else if !s.council.contains(member) {
        Some(TimelockError::NotCouncilMember)
    } else if !s.ops.contains_key(op_id) {
        Some(TimelockError::NotFound)
    } else if pending_refusal(s.ops[op_id]) is Some {
        pending_refusal(s.ops[op_id])
    } else if s.approvals_of(op_id).contains(member) {
        Some(TimelockError::AlreadyApproved)
    } else if is_expired(s.ops[op_id], now) && is_last_approval(s, op_id) {
        Some(TimelockError::Expired)
    } else {
        None
    }
}

/// What `fast_track_approve` does at the time `now`. With the last approval that
/// is required, the operation is executed.
pub open spec fn fast_track_approve_step(
    s: TimelockState,
    now: u64,
    member: Address,
    op_id: Seq<u8>,
) -> Result<TimelockState, TimelockError> {
    match fast_track_refusal(s, now, member, op_id) {
        Some(e) => Err(e),
        None => {
            let given = s.approvals_of(op_id).push(member);
            let approved = TimelockState { approvals: s.approvals.insert(op_id, given), ..s };
            if is_last_approval(s, op_id) {
                Ok(
                    approved.mark_executed(op_id).publish(
                        TimelockEventView::CriticalFastTracked {
                            op_id,
                            target: s.ops[op_id].target,
                            approval_count: given.len() as u32,
                        },
                    ),
                )
            } else {
                Ok(approved)
            }
        },
    }
}

/// What `set_fast_track_enabled` does.
pub open spec fn set_fast_track_enabled_step(
    s: TimelockState,
    caller: Address,
    enabled: bool,
) -> Result<TimelockState, TimelockError> {
    match s.admin_refusal(caller) {
        Some(e) => Err(e),
        None => Ok(
            (TimelockState { fast_track_enabled: enabled, ..s }).publish(
                TimelockEventView::FastTrackToggled { enabled },
            ),
        ),
    }
}

/// What `set_min_delay` does.
pub open spec fn set_min_delay_step(s: TimelockState, caller: Address, new_delay: u64) -> Result<
    TimelockState,
    TimelockError,
> {
    match s.admin_refusal(caller) {
        Some(e) => Err(e),
        None => if new_delay == 0 {
            Err(TimelockError::InvalidDelay)
        } else {
            Ok(
                (TimelockState { min_delay: Some(new_delay), ..s }).publish(
                    TimelockEventView::MinDelayUpdated { new_delay },
                ),
            )
        },
    }
}

/// What `transfer_admin` does.
pub open spec fn transfer_admin_step(
    s: TimelockState,
    current: Address,
    new_admin: Address,
) -> Result<TimelockState, TimelockError> {
    match s.admin_refusal(current) {
        Some(e) => Err(e),
        None => Ok(
            (TimelockState { admin: Some(new_admin), ..s }).publish(
                TimelockEventView::AdminTransferred { current, new_admin },
            ),
        ),
    }
}

/// Where an operation stands at the time `now`.
pub open spec fn status_at(op: OpView, now: u64) -> OperationStatus {
    if op.cancelled {
        OperationStatus::Cancelled
    } else if op.executed {
        OperationStatus::Executed
    } else if is_expired(op, now) {
        OperationStatus::Expired
    } else if now >= op.eta {
        OperationStatus::Ready
    } else {
        OperationStatus::Queued
    }
}

/// Whether the end of the grace period is a time that the ledger can show.
pub open spec fn window_fits(op: OpView) -> bool {
    op.eta + op.grace_period_seconds <= u64::MAX
}

/// Whether a call went as `step` says: to the new state, or refused with
/// nothing changed.
pub open spec fn went<T>(
    before: TimelockState,
    after: TimelockState,
    result: Result<T, TimelockError>,
    step: Result<TimelockState, TimelockError>,
) -> bool {
    match result {
        Ok(_) => step == Ok::<TimelockState, TimelockError>(after),
        Err(e) => step == Err::<TimelockState, TimelockError>(e) && after == before,
    }
}

/// The timelock.
pub struct RouterTimelock {
    admin: Option<Address>,
    min_delay: Option<u64>,
    fast_track_enabled: bool,
    pending_count: u64,
    ops: Table<Vec<u8>, Op>,
    council: Vec<Address>,
    required_approvals: u32,
    approvals: Table<Vec<u8>, Vec<Address>>,
    events: Vec<TimelockEvent>,
}

impl View for RouterTimelock {
    type V = TimelockState;

    closed spec fn view(&self) -> TimelockState {
        TimelockState {
            admin: self.admin,
            min_delay: self.min_delay,
            fast_track_enabled: self.fast_track_enabled,
            pending_count: self.pending_count,
            ops: self.ops@.map_values(|op: Op| op@),
            council: self.council@,
            required_approvals: self.required_approvals,
            approvals: self.approvals@.map_values(|v: Vec<Address>| v@),
            events: event_views(self.events@),
        }
    }
}

/// Whether `address` is among `list`.
fn contains_address(list: &Vec<Address>, address: &Address) -> (found: bool)
    ensures
        found == list@.contains(*address),
{
    let mut i: usize = 0;
    while i < list.len()
        invariant
            i <= list@.len(),
            forall|k: int| 0 <= k < i ==> list@[k] != *address,
        decreases list@.len() - i,
    {
        if list[i].same(address) {
            return true;
        }
        i = i + 1;
    }
    false
}

/// The addresses of `list`.
fn copy_addresses(list: &Vec<Address>) -> (copy: Vec<Address>)
    ensures
        copy@ == list@,
{
    let mut copy: Vec<Address> = Vec::new();
    let mut i: usize = 0;
    while i < list.len()
        invariant
            i <= list@.len(),
            copy@ == list@.take(i as int),
        decreases list@.len() - i,
    {
        copy.push(list[i]);
        i = i + 1;
        assert(copy@ =~= list@.take(i as int));
    }
    assert(list@.take(i as int) =~= list@);
    copy
}

/// The addresses of `list` but for `address`.
fn without_address(list: &Vec<Address>, address: &Address) -> (rest: Vec<Address>)
    ensures
        rest@ == without(list@, *address),
{
    let ghost unwanted = *address;
    let mut rest: Vec<Address> = Vec::new();
    let mut i: usize = 0;
    proof {
        reveal(Seq::filter);
        assert(without(list@.take(0), unwanted) =~= Seq::empty());
    }
    while i < list.len()
        invariant
            i <= list@.len(),
            unwanted == *address,
            rest@ == without(list@.take(i as int), unwanted),
        decreases list@.len() - i,
    {
        let m = list[i];
        proof {
            reveal(Seq::filter);
            assert(list@.take(i + 1).drop_last() =~= list@.take(i as int));
            assert(list@.take(i + 1).last() == m);
        }
        if !m.same(address) {
            rest.push(m);
        }
        i = i + 1;
    }
    assert(list@.take(i as int) =~= list@);
    rest
}

impl RouterTimelock {
    /// Whether the tables inside are in order.
    pub closed spec fn wf(&self) -> bool {
        self.ops.wf() && self.approvals.wf()
    }

    /// A timelock with what another remembered, but for operations and events.
    pub fn restore(
        admin: Option<Address>,
        min_delay: Option<u64>,
        fast_track_enabled: bool,
        pending_count: u64,
        council: Vec<Address>,
        required_approvals: u32,
    ) -> (timelock: Self)
        ensures
            timelock.wf(),
            timelock@ == (TimelockState {
                admin,
                min_delay,
                fast_track_enabled,
                pending_count,
                council: council@,
                required_approvals,
                ..TimelockState::fresh()
            }),
    {
        let mut timelock = Self::new();
        timelock.admin = admin;
        timelock.min_delay = min_delay;
        timelock.fast_track_enabled = fast_track_enabled;
        timelock.pending_count = pending_count;
        timelock.council = council;
        timelock.required_approvals = required_approvals;
        assert(timelock@ =~= (TimelockState {
            admin,
            min_delay,
            fast_track_enabled,
            pending_count,
            council: council@,
            required_approvals,
            ..TimelockState::fresh()
        }));
        timelock
    }

    /// A timelock that nobody has initialized.
    pub fn new() -> (timelock: Self)
        ensures
            timelock.wf(),
            timelock@ == TimelockState::fresh(),
    {
        let timelock = RouterTimelock {
            admin: None,
            min_delay: None,
            fast_track_enabled: false,
            pending_count: 0,
            ops: Table::new(),
            council: Vec::new(),
            required_approvals: 0,
            approvals: Table::new(),
            events: Vec::new(),
        };
        assert(timelock@ =~= TimelockState::fresh());
        timelock
    }

    fn publish(&mut self, event: TimelockEvent)
        requires
            old(self).wf(),
        ensures
            final(self).wf(),
            final(self)@ == old(self)@.publish(event@),
    {
        self.events.push(event);
        assert(self@ =~= old(self)@.publish(event@));
    }

    fn require_admin(&self, caller: &Address) -> (allowed: Result<(), TimelockError>)
        ensures
            match allowed {
                Ok(()) => self@.admin_refusal(*caller) is None,
                Err(e) => self@.admin_refusal(*caller) == Some(e),
            },
    {
        match &self.admin {
            None => Err(TimelockError::NotInitialized),
            Some(admin) => if admin.same(caller) {
                Ok(())
            } else {
                Err(TimelockError::Unauthorized)
            },
        }
    }

    fn require_op_pending(op: &Op) -> (pending: Result<(), TimelockError>)
        ensures
            match pending {
                Ok(()) => pending_refusal(op@) is None,
                Err(e) => pending_refusal(op@) == Some(e),
            },
    {
        if op.cancelled {
            return Err(TimelockError::Cancelled);
        }
        if op.executed {
            return Err(TimelockError::AlreadyExecuted);
        }
        Ok(())
    }

    fn decrement_pending(&mut self)
        requires
            old(self).wf(),
        ensures
            final(self).wf(),
            final(self)@ == (TimelockState {
                pending_count: old(self)@.one_less_pending(),
                ..old(self)@
            }),
    {
        if self.pending_count > 0 {
            self.pending_count = self.pending_count - 1;
        }
        assert(self@ =~= (TimelockState {
            pending_count: old(self)@.one_less_pending(),
            ..old(self)@
        }));
    }

    /// Remembers an operation under `op_id`, in place of any other.
    pub fn put_op(&mut self, op_id: &Vec<u8>, op: Op)
        requires
            old(self).wf(),
        ensures
            final(self).wf(),
            final(self)@ == (TimelockState {
                ops: old(self)@.ops.insert(op_id@, op@),
                ..old(self)@
            }),
    {
        let key = vstd::slice::slice_to_vec(op_id.as_slice());
        self.ops.insert(key, op);
        assert(self@.ops =~= old(self)@.ops.insert(op_id@, op@));
        assert(self@ =~= (TimelockState { ops: old(self)@.ops.insert(op_id@, op@), ..old(self)@ }));
    }

    /// The operation under `op_id`.
    pub fn get_op(&self, op_id: &Vec<u8>) -> (op: Option<Op>)
        requires
            self.wf(),
        ensures
            match op {
                Some(op) => self@.ops.contains_key(op_id@) && op@ == self@.ops[op_id@],
                None => !self@.ops.contains_key(op_id@),
            },
    {
        match self.ops.get(op_id) {
            Some(op) => Some(op.copy()),
            None => None,
        }
    }

    /// The operation under `op_id` for an admin call that needs it pending.
    fn pending_op(&self, caller: &Address, op_id: &Vec<u8>) -> (op: Result<Op, TimelockError>)
        requires
            self.wf(),
        ensures
            match op {
                Ok(op) => pending_op_refusal(self@, *caller, op_id@) is None && op@
                    == self@.ops[op_id@],
                Err(e) => pending_op_refusal(self@, *caller, op_id@) == Some(e),
            },
    {
        match self.require_admin(caller) {
            Err(e) => {
                return Err(e);
            },
            Ok(()) => {},
        }
        match self.get_op(op_id) {
            None => Err(TimelockError::NotFound),
            Some(op) => match Self::require_op_pending(&op) {
                Err(e) => Err(e),
                Ok(()) => Ok(op),
            },
        }
    }

    /// Sets the admin and the minimum delay in seconds, once.
    pub fn initialize(&mut self, admin: Address, min_delay: u64) -> (result: Result<
        (),
        TimelockError,
    >)
        requires
            old(self).wf(),
        ensures
            final(self).wf(),
            went(
                old(self)@,
                final(self)@,
                result,
                initialize_step(old(self)@, admin, min_delay),
            ),
    {
        if self.admin.is_some() {
            return Err(TimelockError::AlreadyInitialized);
        }
        if min_delay == 0 {
            return Err(TimelockError::InvalidDelay);
        }
        self.admin = Some(admin);
        self.min_delay = Some(min_delay);
        assert(self@ =~= (TimelockState {
            admin: Some(admin),
            min_delay: Some(min_delay),
            ..old(self)@
        }));
        Ok(())
    }

    /// The identifier of an operation: the SHA-256 hash of its description, its
    /// target and its time.
    pub fn operation_id(description: &str, target: &Address, eta: u64) -> (op_id: Vec<u8>)
        requires
            description.spec_bytes().len() <= MAX_TEXT,
        ensures
            op_id@ == op_id_of(description@, *target, eta),
    {
        let mut preimage = string_xdr(description);
        let target_xdr = address_xdr(target);
        preimage.extend_from_slice(target_xdr.as_slice());
        let mut time = XdrWriter::new();
        time.u32((eta / 0x1_0000_0000) as u32);
        time.u32((eta % 0x1_0000_0000) as u32);
        let time_bytes = time.into_bytes();
        preimage.extend_from_slice(time_bytes.as_slice());
        assert(time_bytes@ =~= be64(eta as nat));
        assert(preimage@ =~= op_preimage(description@, *target, eta));
        let hash = sha256(preimage.as_slice());
        vstd::slice::slice_to_vec(hash.as_slice())
    }

    /// Queues an operation and returns its identifier. After its time it may be
    /// executed for `grace_period_seconds`. An operation that is pending already
    /// is replaced, and counted once.
    ///
    /// Publishes `op_queued`.
    pub fn queue(
        &mut self,
        env: &Env,
        proposer: Address,
        description: String,
        target: Address,
        delay: u64,
        grace_period_seconds: u64,
        _deps: Vec<Vec<u8>>,
    ) -> (result: Result<Vec<u8>, TimelockError>)
        requires
            old(self).wf(),
            env.authorizes(proposer),
            queue_refusal(old(self)@, proposer, delay) is None ==> {
                &&& env.timestamp + delay <= u64::MAX
                &&& old(self)@.pending_count < u64::MAX
                &&& encode_utf8(description@).len() <= MAX_TEXT
            },
        ensures
            final(self).wf(),
            went(
                old(self)@,
                final(self)@,
                result,
                queue_step(
                    old(self)@,
                    env.timestamp,
                    proposer,
                    description@,
                    target,
                    delay,
                    grace_period_seconds,
                ),
            ),
            result matches Ok(op_id) ==> op_id@ == op_id_of(
                description@,
                target,
                (env.timestamp + delay) as u64,
            ),
    {
        match self.require_admin(&proposer) {
            Err(e) => {
                return Err(e);
            },
            Ok(()) => {},
        }
        match self.min_delay {
            None => {
                return Err(TimelockError::NotInitialized);
            },
            Some(min_delay) => {
                if delay < min_delay {
                    return Err(TimelockError::DelayTooShort);
                }
            },
        }
        let eta: u64 = env.timestamp + delay;
        let op_id = Self::operation_id(description.as_str(), &target, eta);
        let op = Op {
            proposer,
            description,
            target,
            eta,
            grace_period_seconds,
            executed: false,
            cancelled: false,
        };
        let counted = match self.ops.get(&op_id) {
            Some(queued) => !queued.executed && !queued.cancelled,
            None => false,
        };
        self.put_op(&op_id, op);
        let ghost stored = self@;
        if !counted {
            self.pending_count = self.pending_count + 1;
            assert(self@ =~= (TimelockState {
                pending_count: (stored.pending_count + 1) as u64,
                ..stored
            }));
        }
        let told = vstd::slice::slice_to_vec(op_id.as_slice());
        self.publish(TimelockEvent::OpQueued { op_id: told, target, eta, grace_period_seconds });
        Ok(op_id)
    }

    /// Cancels a pending operation.
    ///
    /// Publishes `op_cancelled`.
    pub fn cancel(&mut self, env: &Env, caller: Address, op_id: Vec<u8>) -> (result: Result<
        (),
        TimelockError,
    >)
        requires
            old(self).wf(),
            env.authorizes(caller),
        ensures
            final(self).wf(),
            went(old(self)@, final(self)@, result, cancel_step(old(self)@, caller, op_id@)),
    {
        let mut op = match self.pending_op(&caller, &op_id) {
            Err(e) => {
                return Err(e);
            },
            Ok(op) => op,
        };
        op.cancelled = true;
        self.put_op(&op_id, op);
        self.decrement_pending();
        self.publish(TimelockEvent::OpCancelled { op_id });
        Ok(())
    }

    /// Executes a pending operation whose time has come and whose grace period is
    /// not over.
    ///
    /// Publishes `op_executed`.
    pub fn execute(&mut self, env: &Env, caller: Address, op_id: Vec<u8>) -> (result: Result<
        (),
        TimelockError,
    >)
        requires
            old(self).wf(),
            env.authorizes(caller),
            pending_op_refusal(old(self)@, caller, op_id@) is None && env.timestamp
                >= old(self)@.ops[op_id@].eta ==> window_fits(old(self)@.ops[op_id@]),
        ensures
            final(self).wf(),
            went(
                old(self)@,
                final(self)@,
                result,
                execute_step(old(self)@, env.timestamp, caller, op_id@),
            ),
    {
        let mut op = match self.pending_op(&caller, &op_id) {
            Err(e) => {
                return Err(e);
            },
            Ok(op) => op,
        };
        let now: u64 = env.timestamp;
        if now < op.eta {
            return Err(TimelockError::NotReady);
        }
        if now > op.eta + op.grace_period_seconds {
            return Err(TimelockError::Expired);
        }
        let target = op.target;
        op.executed = true;
        self.put_op(&op_id, op);
        self.decrement_pending();
        self.publish(TimelockEvent::OpExecuted { op_id, target });
        Ok(())
    }

    /// Changes the description of a pending operation. Its identifier stays.
    ///
    /// Publishes `op_description_updated`.
    pub fn update_description(
        &mut self,
        env: &Env,
        caller: Address,
        op_id: Vec<u8>,
        new_description: String,
    ) -> (result: Result<(), TimelockError>)
        requires
            old(self).wf(),
            env.authorizes(caller),
        ensures
            final(self).wf(),
            went(
                old(self)@,
                final(self)@,
                result,
                update_description_step(old(self)@, caller, op_id@, new_description@),
            ),
    {
        match self.require_admin(&caller) {
            Err(e) => {
                return Err(e);
            },
            Ok(()) => {},
        }
        let mut op = match self.get_op(&op_id) {
            None => {
                return Err(TimelockError::NotFound);
            },
            Some(op) => op,
        };
        if op.executed {
            return Err(TimelockError::AlreadyExecuted);
        }
        if op.cancelled {
            return Err(TimelockError::Cancelled);
        }
        op.description = new_description.clone();
        self.put_op(&op_id, op);
        self.publish(TimelockEvent::OpDescriptionUpdated { op_id, new_description });
        Ok(())
    }

    /// Replaces the council, and sets how many approvals execute an operation.
    ///
    /// Publishes `council_updated`.
    pub fn set_emergency_council(
        &mut self,
        env: &Env,
        caller: Address,
        council: Vec<Address>,
        required: u32,
    ) -> (result: Result<(), TimelockError>)
        requires
            old(self).wf(),
            env.authorizes(caller),
        ensures
            final(self).wf(),
            went(
                old(self)@,
                final(self)@,
                result,
                set_emergency_council_step(old(self)@, caller, council@, required),
            ),
    {
        match self.require_admin(&caller) {
            Err(e) => {
                return Err(e);
            },
            Ok(()) => {},
        }
        if required == 0 || required as usize > council.len() {
            return Err(TimelockError::InvalidConfig);
        }
        self.council = copy_addresses(&council);
        self.required_approvals = required;
        assert(self@ =~= (TimelockState {
            council: council@,
            required_approvals: required,
            ..old(self)@
        }));
        self.publish(TimelockEvent::CouncilUpdated { required, council });
        Ok(())
    }

    /// Adds a member to the council.
    ///
    /// Publishes `council_member_added`.
    pub fn add_council_member(&mut self, env: &Env, caller: Address, member: Address) -> (result:
        Result<(), TimelockError>)
        requires
            old(self).wf(),
            env.authorizes(caller),
        ensures
            final(self).wf(),
            went(
                old(self)@,
                final(self)@,
                result,
                add_council_member_step(old(self)@, caller, member),
            ),
    {
        match self.require_admin(&caller) {
            Err(e) => {
                return Err(e);
            },
            Ok(()) => {},
        }
        if contains_address(&self.council, &member) {
            return Err(TimelockError::AlreadyMember);
        }
        self.council.push(member);
        assert(self@ =~= (TimelockState { council: old(self)@.council.push(member), ..old(self)@ }));
        self.publish(TimelockEvent::CouncilMemberAdded { member });
        Ok(())
    }

    /// Removes a member from the council.
    ///
    /// Publishes `council_member_removed`.
    pub fn remove_council_member(&mut self, env: &Env, caller: Address, member: Address) -> (result:
        Result<(), TimelockError>)
        requires
            old(self).wf(),
            env.authorizes(caller),
        ensures
            final(self).wf(),
            went(
                old(self)@,
                final(self)@,
                result,
                remove_council_member_step(old(self)@, caller, member),
            ),
    {
        match self.require_admin(&caller) {
            Err(e) => {
                return Err(e);
            },
            Ok(()) => {},
        }
        if !contains_address(&self.council, &member) {
            return Err(TimelockError::NotCouncilMember);
        }
        self.council = without_address(&self.council, &member);
        assert(self@ =~= (TimelockState {
            council: without(old(self)@.council, member),
            ..old(self)@
        }));
        self.publish(TimelockEvent::CouncilMemberRemoved { member });
        Ok(())
    }

    /// Who has approved an operation so far.
    pub fn get_fast_track_approvals(&self, op_id: &Vec<u8>) -> (approvals: Vec<Address>)
        requires
            self.wf(),
        ensures
            approvals@ == self@.approvals_of(op_id@),
    {
        match self.approvals.get(op_id) {
            Some(given) => copy_addresses(given),
            None => Vec::new(),
        }
    }

    /// Remembers who has approved an operation, in place of any others.
    pub fn put_approvals(&mut self, op_id: &Vec<u8>, given: Vec<Address>)
        requires
            old(self).wf(),
        ensures
            final(self).wf(),
            final(self)@ == (TimelockState {
                approvals: old(self)@.approvals.insert(op_id@, given@),
                ..old(self)@
            }),
    {
        let key = vstd::slice::slice_to_vec(op_id.as_slice());
        self.approvals.insert(key, given);
        assert(self@.approvals =~= old(self)@.approvals.insert(op_id@, given@));
        assert(self@ =~= (TimelockState {
            approvals: old(self)@.approvals.insert(op_id@, given@),
            ..old(self)@
        }));
    }

    /// Approves a pending operation for immediate execution, as a member of the
    /// council. With the last approval that is required the operation is
    /// executed, also before its time. After the grace period that approval is
    /// refused, and others are recorded.
    ///
    /// Publishes `critical_fast_tracked` when it executes.
    pub fn fast_track_approve(&mut self, env: &Env, member: Address, op_id: Vec<u8>) -> (result:
        Result<(), TimelockError>)
        requires
            old(self).wf(),
            env.authorizes(member),
            fast_track_refusal(old(self)@, env.timestamp, member, op_id@) is None ==> old(
                self,
            )@.approvals_of(op_id@).len() < u32::MAX,
        ensures
            final(self).wf(),
            went(
                old(self)@,
                final(self)@,
                result,
                fast_track_approve_step(old(self)@, env.timestamp, member, op_id@),
            ),
    {
        if !self.fast_track_enabled {
            return Err(TimelockError::FastTrackDisabled);
        }
        if !contains_address(&self.council, &member) {
            return Err(TimelockError::NotCouncilMember);
        }
        let mut op = match self.get_op(&op_id) {
            None => {
                return Err(TimelockError::NotFound);
            },
            Some(op) => op,
        };
        match Self::require_op_pending(&op) {
            Err(e) => {
                return Err(e);
            },
            Ok(()) => {},
        }
        let mut given = self.get_fast_track_approvals(&op_id);
        if contains_address(&given, &member) {
            return Err(TimelockError::AlreadyApproved);
        }
        let required: u32 = self.required_approvals;
        let last = required > 0 && given.len() >= (required - 1) as usize;
        let now: u64 = env.timestamp;
        if last && now > op.eta && now - op.eta > op.grace_period_seconds {
            return Err(TimelockError::Expired);
        }
        given.push(member);
        let count: u32 = given.len() as u32;
        self.put_approvals(&op_id, given);
        if last {
            let target = op.target;
            op.executed = true;
            self.put_op(&op_id, op);
            self.decrement_pending();
            self.publish(
                TimelockEvent::CriticalFastTracked { op_id, target, approval_count: count },
            );
        }
        Ok(())
    }

    /// Enables or disables immediate execution by the council.
    ///
    /// Publishes `fast_track_toggled`.
    pub fn set_fast_track_enabled(&mut self, env: &Env, caller: Address, enabled: bool) -> (result:
        Result<(), TimelockError>)
        requires
            old(self).wf(),
            env.authorizes(caller),
        ensures
            final(self).wf(),
            went(
                old(self)@,
                final(self)@,
                result,
                set_fast_track_enabled_step(old(self)@, caller, enabled),
            ),
    {
        match self.require_admin(&caller) {
            Err(e) => {
                return Err(e);
            },
            Ok(()) => {},
        }
        self.fast_track_enabled = enabled;
        assert(self@ =~= (TimelockState { fast_track_enabled: enabled, ..old(self)@ }));
        self.publish(TimelockEvent::FastTrackToggled { enabled });
        Ok(())
    }

    /// Sets the minimum delay of operations queued from now on.
    ///
    /// Publishes `min_delay_updated`.
    pub fn set_min_delay(&mut self, env: &Env, caller: Address, new_delay: u64) -> (result: Result<
        (),
        TimelockError,
    >)
        requires
            old(self).wf(),
            env.authorizes(caller),
        ensures
            final(self).wf(),
            went(old(self)@, final(self)@, result, set_min_delay_step(old(self)@, caller, new_delay)),
    {
        match self.require_admin(&caller) {
            Err(e) => {
                return Err(e);
            },
            Ok(()) => {},
        }
        if new_delay == 0 {
            return Err(TimelockError::InvalidDelay);
        }
        self.min_delay = Some(new_delay);
        assert(self@ =~= (TimelockState { min_delay: Some(new_delay), ..old(self)@ }));
        self.publish(TimelockEvent::MinDelayUpdated { new_delay });
        Ok(())
    }

    /// Hands the admin role over.
    ///
    /// Publishes `admin_transferred`.
    pub fn transfer_admin(&mut self, env: &Env, current: Address, new_admin: Address) -> (result:
        Result<(), TimelockError>)
        requires
            old(self).wf(),
            env.authorizes(current),
        ensures
            final(self).wf(),
            went(
                old(self)@,
                final(self)@,
                result,
                transfer_admin_step(old(self)@, current, new_admin),
            ),
    {
        match self.require_admin(&current) {
            Err(e) => {
                return Err(e);
            },
            Ok(()) => {},
        }
        self.admin = Some(new_admin);
        assert(self@ =~= (TimelockState { admin: Some(new_admin), ..old(self)@ }));
        self.publish(TimelockEvent::AdminTransferred { current, new_admin });
        Ok(())
    }

    /// Where an operation stands, or `None` if there is none under `op_id`.
    pub fn get_operation_status(&self, env: &Env, op_id: &Vec<u8>) -> (status: Option<
        OperationStatus,
    >)
        requires
            self.wf(),
            self@.ops.contains_key(op_id@) && pending_refusal(self@.ops[op_id@]) is None
                ==> window_fits(self@.ops[op_id@]),
        ensures
            status == if self@.ops.contains_key(op_id@) {
                Some(status_at(self@.ops[op_id@], env.timestamp))
            } else {
                None
            },
    {
        let op = match self.get_op(op_id) {
            None => {
                return None;
            },
            Some(op) => op,
        };
        let now: u64 = env.timestamp;
        Some(
            if op.cancelled {
                OperationStatus::Cancelled
            } else if op.executed {
                OperationStatus::Executed
            } else if now > op.eta + op.grace_period_seconds {
                OperationStatus::Expired
            } else if now >= op.eta {
                OperationStatus::Ready
            } else {
                OperationStatus::Queued
            },
        )
    }

    /// The minimum delay, zero before `initialize`.
    pub fn min_delay(&self) -> (delay: u64)
        ensures
            delay == match self@.min_delay {
                Some(d) => d,
                None => 0,
            },
    {
        match self.min_delay {
            Some(d) => d,
            None => 0,
        }
    }

    /// The admin.
    pub fn admin(&self) -> (admin: Result<Address, TimelockError>)
        ensures
            admin == match self@.admin {
                Some(a) => Ok::<Address, TimelockError>(a),
                None => Err(TimelockError::NotInitialized),
            },
    {
        match self.admin {
            Some(a) => Ok(a),
            None => Err(TimelockError::NotInitialized),
        }
    }

    /// Whether the council may execute operations at once.
    pub fn get_fast_track_enabled(&self) -> (enabled: bool)
        ensures
            enabled == self@.fast_track_enabled,
    {
        self.fast_track_enabled
    }

    /// The council.
    pub fn get_council(&self) -> (council: Vec<Address>)
        ensures
            council@ == self@.council,
    {
        copy_addresses(&self.council)
    }

    /// How many approvals execute an operation at once.
    pub fn get_required_approvals(&self) -> (required: u32)
        ensures
            required == self@.required_approvals,
    {
        self.required_approvals
    }

    /// Whether an address is in the council.
    pub fn is_council_member(&self, addr: &Address) -> (member: bool)
        ensures
            member == self@.council.contains(*addr),
    {
        contains_address(&self.council, addr)
    }

    /// How many operations are queued and neither executed nor cancelled.
    pub fn get_pending_op_count(&self) -> (count: u64)
        ensures
            count == self@.pending_count,
    {
        self.pending_count
    }

    /// The events published so far, the latest last.
    pub fn events(&self) -> (events: &Vec<TimelockEvent>)
        ensures
            event_views(events@) == self@.events,
    {
        &self.events
    }
}

} // verus!
