//! The timelock on concrete calls.

use stellar_router::address::Address;
use stellar_router::soroban::{Env, MAX_TEXT};
use stellar_router::timelock::{
    OperationStatus, RouterTimelock, TimelockError, TimelockEvent,
};

const GRACE: u64 = 86_400;

const ADMIN: Address = Address::Account([1; 32]);
const TARGET: Address = Address::Contract([2; 32]);
const ATTACKER: Address = Address::Account([3; 32]);
const M1: Address = Address::Account([11; 32]);
const M2: Address = Address::Account([12; 32]);
const M3: Address = Address::Contract([13; 32]);

fn at(timestamp: u64) -> Env {
    Env { timestamp, authorized: vec![ADMIN, TARGET, ATTACKER, M1, M2, M3] }
}

fn setup() -> (Env, RouterTimelock) {
    let mut t = RouterTimelock::new();
    t.initialize(ADMIN, 3600).unwrap();
    (at(1_000), t)
}

fn setup_with_council() -> (Env, RouterTimelock) {
    let (env, mut t) = setup();
    t.set_emergency_council(&env, ADMIN, vec![M1, M2, M3], 2).unwrap();
    t.set_fast_track_enabled(&env, ADMIN, true).unwrap();
    (env, t)
}

fn queue(t: &mut RouterTimelock, env: &Env, description: &str, grace: u64) -> Vec<u8> {
    t.queue(env, ADMIN, description.to_string(), TARGET, 3600, grace, vec![]).unwrap()
}

fn last_topic(t: &RouterTimelock) -> &'static str {
    t.events().last().unwrap().topic()
}

#[test]
fn test_initialize_sets_admin_and_delay() {
    let (_env, t) = setup();
    assert_eq!(t.admin(), Ok(ADMIN));
    assert_eq!(t.min_delay(), 3600);
}

#[test]
fn lib_test_initialize_twice_fails() {
    let (_env, mut t) = setup();
    assert_eq!(t.initialize(ADMIN, 3600), Err(TimelockError::AlreadyInitialized));
}

#[test]
fn test_queue_returns_op_id() {
    let (env, mut t) = setup();
    let op_id = queue(&mut t, &env, "upgrade oracle", GRACE);
    assert!(!op_id.is_empty());
}

#[test]
fn test_queue_emits_op_queued() {
    let (env, mut t) = setup();
    let op_id = queue(&mut t, &env, "upgrade oracle", GRACE);
    assert_eq!(last_topic(&t), "op_queued");
    match t.events().last().unwrap() {
        TimelockEvent::OpQueued { op_id: id, target, eta: _, grace_period_seconds } => {
            assert_eq!(*id, op_id);
            assert_eq!(*target, TARGET);
            assert_eq!(*grace_period_seconds, GRACE);
        }
        _ => panic!("another event"),
    }
}

#[test]
fn test_queue_stores_op() {
    let (env, mut t) = setup();
    let op_id = queue(&mut t, &env, "upgrade oracle", GRACE);
    let op = t.get_op(&op_id).unwrap();
    assert_eq!(op.target, TARGET);
    assert_eq!(op.grace_period_seconds, GRACE);
    assert!(!op.executed);
    assert!(!op.cancelled);
}

#[test]
fn test_delay_too_short_fails() {
    let (env, mut t) = setup();
    assert_eq!(
        t.queue(&env, ADMIN, "upgrade oracle".to_string(), TARGET, 100, GRACE, vec![]),
        Err(TimelockError::DelayTooShort)
    );
}

#[test]
fn test_unauthorized_queue_fails() {
    let (env, mut t) = setup();
    assert_eq!(
        t.queue(&env, ATTACKER, "malicious".to_string(), TARGET, 3600, GRACE, vec![]),
        Err(TimelockError::Unauthorized)
    );
}

#[test]
fn test_execute_after_eta_succeeds() {
    let (env, mut t) = setup();
    let op_id = queue(&mut t, &env, "upgrade oracle", GRACE);
    t.execute(&at(1_000 + 3601), ADMIN, op_id.clone()).unwrap();
    assert!(t.get_op(&op_id).unwrap().executed);
}

#[test]
fn test_execute_before_eta_fails() {
    let (env, mut t) = setup();
    let op_id = queue(&mut t, &env, "upgrade oracle", GRACE);
    assert_eq!(t.execute(&env, ADMIN, op_id), Err(TimelockError::NotReady));
}

#[test]
fn test_execute_after_grace_period_fails() {
    let (env, mut t) = setup();
    let grace: u64 = 3600;
    let op_id = queue(&mut t, &env, "upgrade oracle", grace);
    assert_eq!(
        t.execute(&at(1_000 + 3600 + grace + 1), ADMIN, op_id),
        Err(TimelockError::Expired)
    );
}

#[test]
fn test_execute_at_grace_boundary_succeeds() {
    let (env, mut t) = setup();
    let grace: u64 = 3600;
    let op_id = queue(&mut t, &env, "boundary", grace);
    t.execute(&at(1_000 + 3600 + grace), ADMIN, op_id.clone()).unwrap();
    assert!(t.get_op(&op_id).unwrap().executed);
}

#[test]
fn test_execute_cancelled_op_fails() {
    let (env, mut t) = setup();
    let op_id = queue(&mut t, &env, "upgrade oracle", GRACE);
    t.cancel(&env, ADMIN, op_id.clone()).unwrap();
    assert_eq!(t.execute(&at(1_000 + 3601), ADMIN, op_id), Err(TimelockError::Cancelled));
}

#[test]
fn test_execute_twice_fails() {
    let (env, mut t) = setup();
    let op_id = queue(&mut t, &env, "upgrade oracle", GRACE);
    let later = at(1_000 + 3601);
    t.execute(&later, ADMIN, op_id.clone()).unwrap();
    assert_eq!(t.execute(&later, ADMIN, op_id), Err(TimelockError::AlreadyExecuted));
}

#[test]
fn test_execute_emits_op_executed() {
    let (env, mut t) = setup();
    let op_id = queue(&mut t, &env, "upgrade oracle", GRACE);
    t.execute(&at(1_000 + 3601), ADMIN, op_id).unwrap();
    assert_eq!(last_topic(&t), "op_executed");
}

#[test]
fn test_cancel_op() {
    let (env, mut t) = setup();
    let op_id = queue(&mut t, &env, "upgrade oracle", GRACE);
    t.cancel(&env, ADMIN, op_id.clone()).unwrap();
    assert!(t.get_op(&op_id).unwrap().cancelled);
}

#[test]
fn test_cancel_emits_op_cancelled() {
    let (env, mut t) = setup();
    let op_id = queue(&mut t, &env, "upgrade oracle", GRACE);
    t.cancel(&env, ADMIN, op_id).unwrap();
    assert_eq!(last_topic(&t), "op_cancelled");
}

#[test]
fn test_status_queued() {
    let (env, mut t) = setup();
    let op_id = queue(&mut t, &env, "upgrade oracle", GRACE);
    assert_eq!(t.get_operation_status(&env, &op_id), Some(OperationStatus::Queued));
}

#[test]
fn test_status_ready() {
    let (env, mut t) = setup();
    let op_id = queue(&mut t, &env, "upgrade oracle", GRACE);
    assert_eq!(
        t.get_operation_status(&at(1_000 + 3601), &op_id),
        Some(OperationStatus::Ready)
    );
}

#[test]
fn test_status_executed() {
    let (env, mut t) = setup();
    let op_id = queue(&mut t, &env, "upgrade oracle", GRACE);
    let later = at(1_000 + 3601);
    t.execute(&later, ADMIN, op_id.clone()).unwrap();
    assert_eq!(t.get_operation_status(&later, &op_id), Some(OperationStatus::Executed));
}

#[test]
fn test_status_cancelled() {
    let (env, mut t) = setup();
    let op_id = queue(&mut t, &env, "upgrade oracle", GRACE);
    t.cancel(&env, ADMIN, op_id.clone()).unwrap();
    assert_eq!(t.get_operation_status(&env, &op_id), Some(OperationStatus::Cancelled));
}

#[test]
fn test_status_expired() {
    let (env, mut t) = setup();
    let grace: u64 = 3600;
    let op_id = queue(&mut t, &env, "upgrade oracle", grace);
    assert_eq!(
        t.get_operation_status(&at(1_000 + 3600 + grace + 1), &op_id),
        Some(OperationStatus::Expired)
    );
}

#[test]
fn test_status_nonexistent_returns_none() {
    let (env, t) = setup();
    let fake_id = [0u8; 32].to_vec();
    assert_eq!(t.get_operation_status(&env, &fake_id), None);
}

#[test]
fn test_update_description_succeeds() {
    let (env, mut t) = setup();
    let op_id = queue(&mut t, &env, "initial", GRACE);
    t.update_description(&env, ADMIN, op_id.clone(), "corrected".to_string()).unwrap();
    assert_eq!(t.get_op(&op_id).unwrap().description, "corrected");
}

#[test]
fn test_update_description_on_executed_fails() {
    let (env, mut t) = setup();
    let op_id = queue(&mut t, &env, "initial", GRACE);
    let later = at(1_000 + 3601);
    t.execute(&later, ADMIN, op_id.clone()).unwrap();
    assert_eq!(
        t.update_description(&later, ADMIN, op_id, "too late".to_string()),
        Err(TimelockError::AlreadyExecuted)
    );
}

#[test]
fn test_update_description_on_cancelled_fails() {
    let (env, mut t) = setup();
    let op_id = queue(&mut t, &env, "initial", GRACE);
    t.cancel(&env, ADMIN, op_id.clone()).unwrap();
    assert_eq!(
        t.update_description(&env, ADMIN, op_id, "too late".to_string()),
        Err(TimelockError::Cancelled)
    );
}

#[test]
fn test_update_description_unauthorized_fails() {
    let (env, mut t) = setup();
    let op_id = queue(&mut t, &env, "initial", GRACE);
    assert_eq!(
        t.update_description(&env, ATTACKER, op_id, "hacked".to_string()),
        Err(TimelockError::Unauthorized)
    );
}

#[test]
fn test_set_min_delay() {
    let (env, mut t) = setup();
    t.set_min_delay(&env, ADMIN, 7200).unwrap();
    assert_eq!(t.min_delay(), 7200);
}

#[test]
fn test_set_min_delay_zero_fails() {
    let (env, mut t) = setup();
    assert_eq!(t.set_min_delay(&env, ADMIN, 0), Err(TimelockError::InvalidDelay));
}

#[test]
fn lib_test_transfer_admin() {
    let (env, mut t) = setup();
    t.transfer_admin(&env, ADMIN, M1).unwrap();
    assert_eq!(t.admin(), Ok(M1));
}

#[test]
fn test_transfer_admin_locks_out_old_admin() {
    let (env, mut t) = setup();
    t.transfer_admin(&env, ADMIN, M1).unwrap();
    assert_eq!(t.set_min_delay(&env, ADMIN, 7200), Err(TimelockError::Unauthorized));
}

#[test]
fn test_pending_op_count() {
    let (env, mut t) = setup();
    assert_eq!(t.get_pending_op_count(), 0);
    let op1 = queue(&mut t, &env, "op1", GRACE);
    assert_eq!(t.get_pending_op_count(), 1);
    let op2 = queue(&mut t, &env, "op2", GRACE);
    assert_eq!(t.get_pending_op_count(), 2);
    t.cancel(&env, ADMIN, op1).unwrap();
    assert_eq!(t.get_pending_op_count(), 1);
    t.execute(&at(1_000 + 3601), ADMIN, op2).unwrap();
    assert_eq!(t.get_pending_op_count(), 0);
}

#[test]
fn test_set_emergency_council_succeeds() {
    let (env, mut t) = setup();
    assert!(t.set_emergency_council(&env, ADMIN, vec![M1, M2], 1).is_ok());
    assert_eq!(t.get_required_approvals(), 1);
    assert!(t.is_council_member(&M1));
}

#[test]
fn test_set_emergency_council_required_zero_fails() {
    let (env, mut t) = setup();
    assert_eq!(
        t.set_emergency_council(&env, ADMIN, vec![M1], 0),
        Err(TimelockError::InvalidConfig)
    );
}

#[test]
fn test_set_emergency_council_required_exceeds_size_fails() {
    let (env, mut t) = setup();
    assert_eq!(
        t.set_emergency_council(&env, ADMIN, vec![M1], 2),
        Err(TimelockError::InvalidConfig)
    );
}

#[test]
fn test_set_emergency_council_unauthorized_fails() {
    let (env, mut t) = setup();
    assert_eq!(
        t.set_emergency_council(&env, ATTACKER, vec![M1], 1),
        Err(TimelockError::Unauthorized)
    );
}

#[test]
fn test_add_council_member_succeeds() {
    let (env, mut t) = setup();
    t.add_council_member(&env, ADMIN, M1).unwrap();
    assert!(t.is_council_member(&M1));
    assert_eq!(t.get_council().len(), 1);
}

#[test]
fn test_add_council_member_emits_event() {
    let (env, mut t) = setup();
    t.add_council_member(&env, ADMIN, M1).unwrap();
    assert_eq!(last_topic(&t), "council_member_added");
}

#[test]
fn test_add_council_member_duplicate_fails() {
    let (env, mut t) = setup();
    t.add_council_member(&env, ADMIN, M1).unwrap();
    assert_eq!(t.add_council_member(&env, ADMIN, M1), Err(TimelockError::AlreadyMember));
}

#[test]
fn test_add_council_member_unauthorized_fails() {
    let (env, mut t) = setup();
    assert_eq!(t.add_council_member(&env, ATTACKER, M1), Err(TimelockError::Unauthorized));
}

#[test]
fn test_remove_council_member_succeeds() {
    let (env, mut t) = setup();
    t.add_council_member(&env, ADMIN, M1).unwrap();
    t.add_council_member(&env, ADMIN, M2).unwrap();
    t.remove_council_member(&env, ADMIN, M1).unwrap();
    assert!(!t.is_council_member(&M1));
    assert!(t.is_council_member(&M2));
    assert_eq!(t.get_council().len(), 1);
}

#[test]
fn test_remove_council_member_emits_event() {
    let (env, mut t) = setup();
    t.add_council_member(&env, ADMIN, M1).unwrap();
    t.remove_council_member(&env, ADMIN, M1).unwrap();
    assert_eq!(last_topic(&t), "council_member_removed");
}

#[test]
fn test_remove_council_member_not_member_fails() {
    let (env, mut t) = setup();
    assert_eq!(
        t.remove_council_member(&env, ADMIN, M1),
        Err(TimelockError::NotCouncilMember)
    );
}

#[test]
fn test_remove_council_member_unauthorized_fails() {
    let (env, mut t) = setup();
    t.add_council_member(&env, ADMIN, M1).unwrap();
    assert_eq!(
        t.remove_council_member(&env, ATTACKER, M1),
        Err(TimelockError::Unauthorized)
    );
}

#[test]
fn test_fast_track_disabled_by_default() {
    let (_env, t) = setup();
    assert!(!t.get_fast_track_enabled());
}

#[test]
fn test_set_fast_track_enabled() {
    let (env, mut t) = setup();
    t.set_fast_track_enabled(&env, ADMIN, true).unwrap();
    assert!(t.get_fast_track_enabled());
    t.set_fast_track_enabled(&env, ADMIN, false).unwrap();
    assert!(!t.get_fast_track_enabled());
}

#[test]
fn test_set_fast_track_enabled_unauthorized_fails() {
    let (env, mut t) = setup();
    assert_eq!(
        t.set_fast_track_enabled(&env, ATTACKER, true),
        Err(TimelockError::Unauthorized)
    );
}

#[test]
fn test_set_fast_track_enabled_emits_event() {
    let (env, mut t) = setup();
    t.set_fast_track_enabled(&env, ADMIN, true).unwrap();
    assert_eq!(last_topic(&t), "fast_track_toggled");
    assert_eq!(
        t.events().last().unwrap(),
        &TimelockEvent::FastTrackToggled { enabled: true }
    );
}

#[test]
fn test_fast_track_approve_disabled_fails() {
    let (env, mut t) = setup();
    t.set_emergency_council(&env, ADMIN, vec![M1], 1).unwrap();
    let op_id = queue(&mut t, &env, "emergency patch", GRACE);
    assert_eq!(t.fast_track_approve(&env, M1, op_id), Err(TimelockError::FastTrackDisabled));
}

#[test]
fn test_fast_track_approve_non_member_fails() {
    let (env, mut t) = setup();
    t.set_fast_track_enabled(&env, ADMIN, true).unwrap();
    let op_id = queue(&mut t, &env, "emergency patch", GRACE);
    assert_eq!(
        t.fast_track_approve(&env, ATTACKER, op_id),
        Err(TimelockError::NotCouncilMember)
    );
}

#[test]
fn test_fast_track_approve_duplicate_fails() {
    let (env, mut t) = setup_with_council();
    let op_id = queue(&mut t, &env, "emergency patch", GRACE);
    t.fast_track_approve(&env, M1, op_id.clone()).unwrap();
    assert_eq!(t.fast_track_approve(&env, M1, op_id), Err(TimelockError::AlreadyApproved));
}

#[test]
fn test_fast_track_approve_below_threshold_does_not_execute() {
    let (env, mut t) = setup_with_council();
    let op_id = queue(&mut t, &env, "emergency patch", GRACE);
    t.fast_track_approve(&env, M1, op_id.clone()).unwrap();
    assert!(!t.get_op(&op_id).unwrap().executed);
}

#[test]
fn test_fast_track_approve_reaches_threshold_executes_and_emits_event() {
    let (env, mut t) = setup_with_council();
    let op_id = queue(&mut t, &env, "emergency patch", GRACE);
    t.fast_track_approve(&env, M1, op_id.clone()).unwrap();
    t.fast_track_approve(&env, M2, op_id.clone()).unwrap();
    assert!(t.get_op(&op_id).unwrap().executed);
    assert_eq!(last_topic(&t), "critical_fast_tracked");
}

#[test]
fn test_fast_track_approve_execution_decrements_pending_count() {
    let (env, mut t) = setup_with_council();
    let op_id = queue(&mut t, &env, "emergency patch", GRACE);
    assert_eq!(t.get_pending_op_count(), 1);
    t.fast_track_approve(&env, M1, op_id.clone()).unwrap();
    t.fast_track_approve(&env, M2, op_id).unwrap();
    assert_eq!(t.get_pending_op_count(), 0);
}

#[test]
fn test_fast_track_approve_executed_op_fails() {
    let (env, mut t) = setup_with_council();
    let op_id = queue(&mut t, &env, "emergency patch", GRACE);
    t.fast_track_approve(&env, M1, op_id.clone()).unwrap();
    t.fast_track_approve(&env, M2, op_id.clone()).unwrap();
    assert_eq!(t.fast_track_approve(&env, M3, op_id), Err(TimelockError::AlreadyExecuted));
}

#[test]
fn test_fast_track_bypasses_eta() {
    let (env, mut t) = setup_with_council();
    let op_id = queue(&mut t, &env, "emergency patch", GRACE);
    t.fast_track_approve(&env, M1, op_id.clone()).unwrap();
    t.fast_track_approve(&env, M2, op_id.clone()).unwrap();
    assert!(t.get_op(&op_id).unwrap().executed, "fast-track should execute before ETA");
}

#[test]
fn fast_track_does_not_execute_expired_operations() {
    let (env, mut t) = setup_with_council();
    let op_id = queue(&mut t, &env, "op", GRACE);
    t.fast_track_approve(&env, M1, op_id.clone()).unwrap();
    let late = at(1_000 + 3600 + GRACE + 1);
    let events = t.events().len();
    assert_eq!(t.fast_track_approve(&late, M2, op_id.clone()), Err(TimelockError::Expired));
    assert_eq!(
        t.fast_track_approve(&late, M1, op_id.clone()),
        Err(TimelockError::AlreadyApproved)
    );
    assert_eq!(t.execute(&late, ADMIN, op_id.clone()), Err(TimelockError::Expired));
    assert_eq!(t.events().len(), events);
    assert_eq!(t.get_fast_track_approvals(&op_id), vec![M1]);
    assert_eq!(t.get_operation_status(&late, &op_id), Some(OperationStatus::Expired));
    assert_eq!(t.get_pending_op_count(), 1);
}

#[test]
fn approvals_of_expired_operations_are_recorded() {
    let (env, mut t) = setup_with_council();
    let op_id = queue(&mut t, &env, "op", GRACE);
    let late = at(1_000 + 3600 + GRACE + 1);
    let events = t.events().len();
    // One of two approvals executes nothing.
    assert_eq!(t.fast_track_approve(&late, M1, op_id.clone()), Ok(()));
    assert_eq!(t.get_fast_track_approvals(&op_id), vec![M1]);
    assert_eq!(
        t.fast_track_approve(&late, M1, op_id.clone()),
        Err(TimelockError::AlreadyApproved)
    );
    assert_eq!(t.fast_track_approve(&late, M2, op_id.clone()), Err(TimelockError::Expired));
    assert_eq!(t.get_fast_track_approvals(&op_id), vec![M1]);
    assert!(!t.get_op(&op_id).unwrap().executed);
    assert_eq!(t.events().len(), events);
    assert_eq!(t.get_pending_op_count(), 1);
}

#[test]
fn fast_track_at_the_grace_boundary_succeeds() {
    let (env, mut t) = setup_with_council();
    let op_id = queue(&mut t, &env, "op", GRACE);
    let last = at(1_000 + 3600 + GRACE);
    t.fast_track_approve(&last, M1, op_id.clone()).unwrap();
    t.fast_track_approve(&last, M2, op_id.clone()).unwrap();
    assert_eq!(t.get_operation_status(&last, &op_id), Some(OperationStatus::Executed));
    assert_eq!(last_topic(&t), "critical_fast_tracked");
}

#[test]
fn op_ids_are_hashes_of_description_target_and_time() {
    let (env, mut t) = setup();
    let op_id = queue(&mut t, &env, "upgrade oracle", GRACE);
    assert_eq!(op_id.len(), 32);
    // SHA-256 of the description and the target as `ScVal`s, and the time 4600.
    let mut preimage: Vec<u8> = vec![0, 0, 0, 14, 0, 0, 0, 14];
    preimage.extend_from_slice(b"upgrade oracle\0\0");
    preimage.extend_from_slice(&[0, 0, 0, 18, 0, 0, 0, 1]);
    preimage.extend_from_slice(&[2; 32]);
    preimage.extend_from_slice(&4600u64.to_be_bytes());
    let host = soroban_sdk::Env::default();
    let bytes = soroban_sdk::Bytes::from_slice(&host, &preimage);
    assert_eq!(op_id, host.crypto().sha256(&bytes).to_array().to_vec());
    // The same operation at another time, or with other words, is another one.
    assert_ne!(op_id, queue(&mut t, &at(1_001), "upgrade oracle", GRACE));
    assert_ne!(op_id, queue(&mut t, &env, "upgrade oracles", GRACE));
    // The grace period is not hashed.
    assert_eq!(op_id, queue(&mut t, &env, "upgrade oracle", 1));
}

#[test]
fn account_targets_are_hashed_as_public_keys() {
    let (env, mut t) = setup();
    let op_id = t.queue(&env, ADMIN, "x".to_string(), M1, 3600, GRACE, vec![]).unwrap();
    let mut preimage: Vec<u8> = vec![0, 0, 0, 14, 0, 0, 0, 1, b'x', 0, 0, 0];
    preimage.extend_from_slice(&[0, 0, 0, 18, 0, 0, 0, 0, 0, 0, 0, 0]);
    preimage.extend_from_slice(&[11; 32]);
    preimage.extend_from_slice(&4600u64.to_be_bytes());
    let host = soroban_sdk::Env::default();
    let bytes = soroban_sdk::Bytes::from_slice(&host, &preimage);
    assert_eq!(op_id, host.crypto().sha256(&bytes).to_array().to_vec());
}

#[test]
fn the_longest_description_is_hashed() {
    let (env, mut t) = setup();
    let long = "d".repeat(MAX_TEXT);
    let op_id = t.queue(&env, ADMIN, long, TARGET, 3600, GRACE, vec![]).unwrap();
    assert_eq!(op_id.len(), 32);
}

#[test]
fn a_fresh_timelock_refuses_everyone() {
    let mut t = RouterTimelock::new();
    let env = at(5);
    assert_eq!(t.admin(), Err(TimelockError::NotInitialized));
    assert_eq!(t.min_delay(), 0);
    assert_eq!(t.set_min_delay(&env, ADMIN, 9), Err(TimelockError::NotInitialized));
    assert_eq!(t.initialize(ADMIN, 0), Err(TimelockError::InvalidDelay));
    assert_eq!(t.admin(), Err(TimelockError::NotInitialized));
    assert_eq!(t.cancel(&env, ADMIN, vec![1]), Err(TimelockError::NotInitialized));
    assert!(t.events().is_empty());
}

#[test]
fn unknown_operations_are_not_found() {
    let (env, mut t) = setup_with_council();
    assert_eq!(t.cancel(&env, ADMIN, vec![1]), Err(TimelockError::NotFound));
    assert_eq!(t.execute(&env, ADMIN, vec![1]), Err(TimelockError::NotFound));
    assert_eq!(t.fast_track_approve(&env, M1, vec![1]), Err(TimelockError::NotFound));
    assert_eq!(
        t.update_description(&env, ADMIN, vec![1], "x".to_string()),
        Err(TimelockError::NotFound)
    );
    assert!(t.get_op(&vec![1]).is_none());
}

#[test]
fn queuing_a_pending_operation_again_counts_it_once() {
    let (env, mut t) = setup();
    let op_id = queue(&mut t, &env, "twice", GRACE);
    assert_eq!(op_id, queue(&mut t, &env, "twice", 7));
    assert_eq!(t.get_op(&op_id).unwrap().grace_period_seconds, 7);
    assert_eq!(t.get_pending_op_count(), 1);
    t.cancel(&env, ADMIN, op_id.clone()).unwrap();
    assert_eq!(t.get_pending_op_count(), 0);
    assert_eq!(t.cancel(&env, ADMIN, op_id.clone()), Err(TimelockError::Cancelled));
    queue(&mut t, &env, "twice", GRACE);
    assert_eq!(t.get_pending_op_count(), 1);
}

#[test]
fn a_restored_timelock_goes_on() {
    let (env, mut t) = setup_with_council();
    let op_id = queue(&mut t, &env, "op", GRACE);
    t.fast_track_approve(&env, M1, op_id.clone()).unwrap();
    let mut u = RouterTimelock::restore(
        t.admin().ok(),
        Some(t.min_delay()),
        t.get_fast_track_enabled(),
        t.get_pending_op_count(),
        t.get_council(),
        t.get_required_approvals(),
    );
    u.put_op(&op_id, t.get_op(&op_id).unwrap());
    u.put_approvals(&op_id, t.get_fast_track_approvals(&op_id));
    assert!(u.events().is_empty());
    u.fast_track_approve(&env, M2, op_id.clone()).unwrap();
    assert!(u.get_op(&op_id).unwrap().executed);
    assert_eq!(u.get_pending_op_count(), 0);
}

#[test]
fn a_cancelled_operation_can_be_queued_again() {
    let (env, mut t) = setup_with_council();
    let op_id = queue(&mut t, &env, "again", GRACE);
    t.fast_track_approve(&env, M1, op_id.clone()).unwrap();
    t.cancel(&env, ADMIN, op_id.clone()).unwrap();
    queue(&mut t, &env, "again", GRACE);
    assert_eq!(t.get_operation_status(&env, &op_id), Some(OperationStatus::Queued));
    // Approvals that were given before still count.
    assert_eq!(t.get_fast_track_approvals(&op_id), vec![M1]);
    t.fast_track_approve(&env, M2, op_id.clone()).unwrap();
    assert_eq!(t.get_operation_status(&env, &op_id), Some(OperationStatus::Executed));
    assert_eq!(
        t.events().last().unwrap(),
        &TimelockEvent::CriticalFastTracked { op_id, target: TARGET, approval_count: 2 }
    );
}

#[test]
fn approvals_without_a_requirement_do_not_execute() {
    let (env, mut t) = setup();
    t.add_council_member(&env, ADMIN, M1).unwrap();
    t.set_fast_track_enabled(&env, ADMIN, true).unwrap();
    let op_id = queue(&mut t, &env, "patch", GRACE);
    t.fast_track_approve(&env, M1, op_id.clone()).unwrap();
    assert!(!t.get_op(&op_id).unwrap().executed);
    assert_eq!(t.get_fast_track_approvals(&op_id), vec![M1]);
}

#[test]
fn removing_takes_out_every_copy() {
    let (env, mut t) = setup();
    t.set_emergency_council(&env, ADMIN, vec![M1, M2, M1], 1).unwrap();
    t.remove_council_member(&env, ADMIN, M1).unwrap();
    assert_eq!(t.get_council(), vec![M2]);
}

#[test]
fn refused_calls_change_nothing() {
    let (env, mut t) = setup_with_council();
    let op_id = queue(&mut t, &env, "op", GRACE);
    let published = t.events().len();
    assert!(t.execute(&env, ADMIN, op_id.clone()).is_err());
    assert!(t.cancel(&env, ATTACKER, op_id.clone()).is_err());
    assert!(t.transfer_admin(&env, ATTACKER, ATTACKER).is_err());
    assert_eq!(t.events().len(), published);
    assert_eq!(t.get_pending_op_count(), 1);
    assert_eq!(t.admin(), Ok(ADMIN));
}

#[test]
fn error_numbers() {
    assert_eq!(TimelockError::AlreadyInitialized.code(), 1);
    assert_eq!(TimelockError::Expired.code(), 9);
    assert_eq!(TimelockError::AlreadyMember.code(), 15);
}

#[test]
fn authorization_is_looked_up() {
    let env = Env { timestamp: 0, authorized: vec![ADMIN, M3] };
    assert!(env.has_authorized(&M3));
    assert!(!env.has_authorized(&M1));
    assert!(!env.has_authorized(&Address::Account([13; 32])));
}
