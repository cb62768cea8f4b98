use fpp::processor::{DepositReceipt, WithdrawalReceipt};
use fpp::state::compute_fee;
use fpp::{process_instruction, FPPError, FPPInstruction, Invocation, Outcome, Processor};

const AUTHORITY: [u8; 32] = [1u8; 32];
const TREASURY: [u8; 32] = [2u8; 32];
const MINT: [u8; 32] = [3u8; 32];
const ALICE: [u8; 32] = [4u8; 32];
const BOB: [u8; 32] = [5u8; 32];

fn key(b: u8) -> [u8; 32] {
    let mut k = [0u8; 32];
    k[0] = 0xc0;
    k[31] = b;
    k
}

fn nullifier(b: u8) -> [u8; 32] {
    let mut k = [0u8; 32];
    k[0] = 0xaa;
    k[31] = b;
    k
}

fn initialized(dep: u16, wd: u16) -> Processor {
    let mut p = Processor::new();
    p.process_initialize(AUTHORITY, TREASURY, MINT, dep, wd).unwrap();
    p
}

fn active_points(p: &Processor) -> u64 {
    p.points.iter().filter(|x| x.is_active).count() as u64
}

fn held(p: &Processor) -> u64 {
    p.withdrawals
        .iter()
        .filter(|r| !(r.cancelled && !r.forfeited))
        .map(|r| r.points.len() as u64)
        .sum()
}

fn funded(c: &[u8]) -> Processor {
    let mut p = initialized(100, 100);
    let keys: Vec<[u8; 32]> = c.iter().map(|b| key(*b)).collect();
    p.process_deposit(ALICE, keys.len() as u64 * 10_000_000, &keys, 1000).unwrap();
    p
}

#[test]
fn scenario_deposit_then_withdraw() {
    let mut p = initialized(100, 100);
    let commitments = vec![key(1), key(2)];
    let r = p.process_deposit(ALICE, 20_000_000, &commitments, 1000).unwrap();
    assert_eq!(r, DepositReceipt { fee: 200_000, net_amount: 19_800_000, num_points: 2 });
    assert_eq!(p.points.len(), 2);
    for (pt, c) in p.points.iter().zip(commitments.iter()) {
        assert_eq!(pt.mass, 1);
        assert!(pt.is_active);
        assert_eq!(pt.commitment, *c);
        assert_eq!(pt.locked_until, 1012);
        assert_eq!(pt.creator, ALICE);
    }
    assert_eq!(p.state.total_points, 2);
    assert_eq!(p.state.total_deposited, 20_000_000);
    assert_eq!(p.state.total_fees, 200_000);

    let nulls = vec![nullifier(1), nullifier(2)];
    assert_eq!(p.process_request_withdrawal(ALICE, &commitments, &nulls, 1011), Err(FPPError::PointLocked));
    let id = p.process_request_withdrawal(ALICE, &commitments, &nulls, 1012).unwrap();
    assert_eq!(p.withdrawals[id].amount, 20_000_000);
    assert_eq!(p.withdrawals[id].unlock_time, 1012 + 86400);
    assert!(p.points.iter().all(|x| !x.is_active));

    assert_eq!(
        p.process_complete_withdrawal(ALICE, id, 1012 + 86400 - 1),
        Err(FPPError::WithdrawalNotReady)
    );
    let w = p.process_complete_withdrawal(ALICE, id, 1012 + 86400).unwrap();
    assert_eq!(w, WithdrawalReceipt { amount: 20_000_000, fee: 200_000, net_amount: 19_800_000 });
    assert!(p.withdrawals[id].completed);
    assert_eq!(p.state.total_withdrawn, 20_000_000);
}

#[test]
fn fee_exact_values() {
    assert_eq!(compute_fee(20_000_000, 100), (200_000, 19_800_000));
    assert_eq!(compute_fee(100_000_000_000, 500), (5_000_000_000, 95_000_000_000));
    assert_eq!(compute_fee(9_999, 1), (0, 9_999));
    assert_eq!(compute_fee(u64::MAX, 0), (0, u64::MAX));
}

#[test]
fn fee_never_above_five_percent() {
    for rate in [0u16, 1, 37, 250, 499, 500] {
        for amount in [0u64, 1, 19_999, 10_000_000, 123_456_789, u64::MAX] {
            let (fee, net) = compute_fee(amount, rate);
            assert!(fee as u128 <= amount as u128 * 500 / 10000);
            assert_eq!(fee as u128 + net as u128, amount as u128);
        }
    }
}

#[test]
fn initialize_rules() {
    let mut p = Processor::new();
    assert_eq!(p.process_initialize(AUTHORITY, TREASURY, MINT, 501, 0), Err(FPPError::InvalidAmount));
    assert!(!p.state.is_initialized);
    p.process_initialize(AUTHORITY, TREASURY, MINT, 500, 500).unwrap();
    assert_eq!(p.state.authority, AUTHORITY);
    assert_eq!(p.state.deposit_fee_rate, 500);
    assert_eq!(
        p.process_initialize(AUTHORITY, TREASURY, MINT, 1, 1),
        Err(FPPError::AccountAlreadyInitialized)
    );
    assert_eq!(p.state.deposit_fee_rate, 500);
}

#[test]
fn operations_need_initialized_ledger() {
    let mut p = Processor::new();
    assert_eq!(p.process_deposit(ALICE, 10_000_000, &vec![key(1)], 0), Err(FPPError::AccountNotInitialized));
    assert_eq!(p.process_set_paused(AUTHORITY, true), Err(FPPError::AccountNotInitialized));
}

#[test]
fn deposit_amount_bounds() {
    let mut p = initialized(0, 0);
    assert_eq!(p.process_deposit(ALICE, 9_999_999, &vec![], 0), Err(FPPError::InvalidAmount));
    assert_eq!(p.process_deposit(ALICE, 100_000_000_001, &vec![], 0), Err(FPPError::InvalidAmount));
    let r = p.process_deposit(ALICE, 10_000_000, &vec![key(1)], 0).unwrap();
    assert_eq!(r, DepositReceipt { fee: 0, net_amount: 10_000_000, num_points: 1 });
    assert_eq!(p.state.total_points, 1);
}

#[test]
fn deposit_commitment_count_is_capped() {
    let mut p = initialized(100, 100);
    assert_eq!(
        p.process_deposit(ALICE, 20_000_000, &vec![key(1), key(2), key(3)], 0),
        Err(FPPError::InvalidCommitment)
    );
    assert_eq!(p.process_deposit(ALICE, 29_999_999, &vec![key(1)], 0), Err(FPPError::InvalidCommitment));
    assert_eq!(p.points.len(), 0);
    assert_eq!(p.state.total_points, 0);
}

#[test]
fn deposit_rejects_known_or_repeated_commitments() {
    let mut p = funded(&[1]);
    assert_eq!(
        p.process_deposit(ALICE, 20_000_000, &vec![key(2), key(2)], 5),
        Err(FPPError::InvalidCommitment)
    );
    assert_eq!(p.process_deposit(BOB, 10_000_000, &vec![key(1)], 5), Err(FPPError::InvalidCommitment));
    assert_eq!(p.points.len(), 1);
}

#[test]
fn privacy_payment_moves_mass_inside_pool() {
    let mut p = funded(&[1, 2]);
    let before = p.state;
    let outs = vec![key(10), key(11)];
    p.process_privacy_payment(BOB, &vec![key(1), key(2)], &vec![nullifier(1), nullifier(2)], &outs, true, true, 2000)
        .unwrap();
    assert_eq!(p.points.len(), 4);
    assert!(!p.points[0].is_active && !p.points[1].is_active);
    assert!(p.points[2].is_active && p.points[3].is_active);
    assert_eq!(p.points[2].commitment, key(10));
    assert_eq!(p.points[3].locked_until, 2012);
    assert_eq!(p.points[3].creator, BOB);
    assert!(p.nullifiers.iter().all(|n| n.used));
    assert_eq!(p.nullifiers.len(), 2);
    assert_eq!(p.state.total_points, before.total_points);
    assert_eq!(p.state.total_deposited, before.total_deposited);
    assert_eq!(active_points(&p) + held(&p), p.state.total_points);
}

#[test]
fn second_spend_of_nullifier_fails() {
    let mut p = funded(&[1, 2]);
    p.process_privacy_payment(BOB, &vec![key(1)], &vec![nullifier(7)], &vec![key(10)], true, true, 2000)
        .unwrap();
    let snapshot_points = p.points.len();
    assert_eq!(
        p.process_privacy_payment(BOB, &vec![key(2)], &vec![nullifier(7)], &vec![key(11)], true, true, 2000),
        Err(FPPError::NullifierAlreadyUsed)
    );
    assert_eq!(
        p.process_request_withdrawal(ALICE, &vec![key(2)], &vec![nullifier(7)], 2000),
        Err(FPPError::NullifierAlreadyUsed)
    );
    assert_eq!(p.points.len(), snapshot_points);
    assert!(p.points[1].is_active);
}

#[test]
fn repeated_nullifier_in_one_payment_fails() {
    let mut p = funded(&[1, 2]);
    assert_eq!(
        p.process_privacy_payment(BOB, &vec![key(1), key(2)], &vec![nullifier(1), nullifier(1)], &vec![key(10), key(11)], true, true, 2000),
        Err(FPPError::NullifierAlreadyUsed)
    );
    assert!(p.nullifiers.is_empty());
}

#[test]
fn privacy_payment_error_kinds() {
    let mut p = funded(&[1, 2]);
    let ins = vec![key(1)];
    let ns = vec![nullifier(1)];
    let outs = vec![key(10)];
    assert_eq!(p.process_privacy_payment(BOB, &ins, &vec![], &outs, true, true, 2000), Err(FPPError::InvalidInstruction));
    assert_eq!(p.process_privacy_payment(BOB, &vec![key(9)], &ns, &outs, true, true, 2000), Err(FPPError::InvalidCommitment));
    assert_eq!(p.process_privacy_payment(BOB, &ins, &ns, &outs, true, true, 1011), Err(FPPError::PointLocked));
    assert_eq!(p.process_privacy_payment(BOB, &ins, &ns, &outs, false, true, 2000), Err(FPPError::InvalidProof));
    assert_eq!(p.process_privacy_payment(BOB, &ins, &ns, &outs, true, false, 2000), Err(FPPError::InvalidRingSignature));
    assert_eq!(
        p.process_privacy_payment(BOB, &ins, &ns, &vec![key(10), key(11)], true, true, 2000),
        Err(FPPError::InvalidAmount)
    );
    assert_eq!(p.process_privacy_payment(BOB, &ins, &ns, &vec![key(2)], true, true, 2000), Err(FPPError::InvalidCommitment));
    assert!(p.nullifiers.is_empty());
    assert_eq!(p.points.len(), 2);
    p.process_privacy_payment(BOB, &ins, &ns, &outs, true, true, 2000).unwrap();
    assert_eq!(
        p.process_privacy_payment(BOB, &ins, &vec![nullifier(2)], &vec![key(12)], true, true, 2000),
        Err(FPPError::PointNotActive)
    );
}

#[test]
fn cancel_returns_points() {
    let mut p = funded(&[1, 2]);
    let id = p.process_request_withdrawal(ALICE, &vec![key(1), key(2)], &vec![nullifier(1)], 2000).unwrap();
    assert_eq!(active_points(&p), 0);
    assert_eq!(p.process_cancel_withdrawal(BOB, id, false), Err(FPPError::Unauthorized));
    p.process_cancel_withdrawal(ALICE, id, false).unwrap();
    assert!(p.withdrawals[id].cancelled && !p.withdrawals[id].forfeited);
    assert_eq!(active_points(&p), 2);
    assert_eq!(p.points[0].locked_until, 1012);
    assert_eq!(active_points(&p) + held(&p), p.state.total_points);
    assert_eq!(p.state.total_withdrawn, 0);
}

#[test]
fn permanent_cancel_forfeits_points() {
    let mut p = funded(&[1, 2]);
    let id = p.process_request_withdrawal(ALICE, &vec![key(1)], &vec![nullifier(1)], 2000).unwrap();
    p.process_cancel_withdrawal(ALICE, id, true).unwrap();
    assert!(p.withdrawals[id].forfeited);
    assert!(!p.points[0].is_active);
    assert!(p.points[1].is_active);
    assert_eq!(active_points(&p) + held(&p), p.state.total_points);
    assert_eq!(p.state.total_withdrawn, 0);
}

#[test]
fn terminal_requests_stay_terminal() {
    let mut p = funded(&[1, 2]);
    let a = p.process_request_withdrawal(ALICE, &vec![key(1)], &vec![], 2000).unwrap();
    let b = p.process_request_withdrawal(ALICE, &vec![key(2)], &vec![], 2000).unwrap();
    p.process_complete_withdrawal(ALICE, a, 2000 + 86400).unwrap();
    p.process_cancel_withdrawal(ALICE, b, false).unwrap();
    let withdrawn = p.state.total_withdrawn;
    assert_eq!(p.process_complete_withdrawal(ALICE, a, 2000 + 86400), Err(FPPError::Unauthorized));
    assert_eq!(p.process_cancel_withdrawal(ALICE, a, false), Err(FPPError::Unauthorized));
    assert_eq!(p.process_complete_withdrawal(ALICE, b, 2000 + 86400), Err(FPPError::Unauthorized));
    assert_eq!(p.process_cancel_withdrawal(ALICE, b, true), Err(FPPError::Unauthorized));
    assert!(!p.withdrawals[b].forfeited);
    assert_eq!(p.state.total_withdrawn, withdrawn);
    assert_eq!(p.process_complete_withdrawal(ALICE, 9, 0), Err(FPPError::InvalidAccount));
}

#[test]
fn pause_gate() {
    let mut p = funded(&[1, 2]);
    assert_eq!(p.process_set_paused(ALICE, true), Err(FPPError::Unauthorized));
    p.process_set_paused(AUTHORITY, true).unwrap();
    assert!(p.state.is_paused);
    assert_eq!(p.process_deposit(ALICE, 10_000_000, &vec![key(5)], 2000), Err(FPPError::Unauthorized));
    assert_eq!(
        p.process_privacy_payment(BOB, &vec![key(1)], &vec![nullifier(1)], &vec![key(10)], true, true, 2000),
        Err(FPPError::Unauthorized)
    );
    assert_eq!(
        p.process_request_withdrawal(ALICE, &vec![key(1)], &vec![nullifier(1)], 2000),
        Err(FPPError::Unauthorized)
    );
    assert_eq!(p.points.len(), 2);
    assert!(p.nullifiers.is_empty());
    p.process_update_fees(AUTHORITY, 50, 60).unwrap();
    assert_eq!((p.state.deposit_fee_rate, p.state.withdrawal_fee_rate), (50, 60));
    assert_eq!(p.process_update_fees(AUTHORITY, 501, 60), Err(FPPError::InvalidAmount));
    assert_eq!(p.process_update_fees(BOB, 1, 1), Err(FPPError::Unauthorized));
    p.process_set_paused(AUTHORITY, false).unwrap();
    p.process_deposit(ALICE, 10_000_000, &vec![key(5)], 2000).unwrap();
}

#[test]
fn conservation_over_mixed_history() {
    let mut p = funded(&[1, 2, 3, 4]);
    assert_eq!(active_points(&p) + held(&p), p.state.total_points);
    p.process_privacy_payment(BOB, &vec![key(1), key(2)], &vec![nullifier(1), nullifier(2)], &vec![key(5), key(6)], true, true, 2000)
        .unwrap();
    assert_eq!(active_points(&p) + held(&p), p.state.total_points);
    let a = p.process_request_withdrawal(ALICE, &vec![key(3)], &vec![nullifier(3)], 2000).unwrap();
    assert_eq!(active_points(&p) + held(&p), p.state.total_points);
    p.process_complete_withdrawal(ALICE, a, 2000 + 86400).unwrap();
    let b = p.process_request_withdrawal(ALICE, &vec![key(5), key(6)], &vec![], 3000).unwrap();
    p.process_cancel_withdrawal(ALICE, b, false).unwrap();
    p.process_deposit(BOB, 30_000_000, &vec![key(7), key(8), key(9)], 3000).unwrap();
    assert_eq!(active_points(&p) + held(&p), p.state.total_points);
    assert_eq!(p.state.total_points, 7);
    assert!(p.state.total_fees <= p.state.total_deposited);
}

#[test]
fn error_codes_follow_declaration_order() {
    assert_eq!(FPPError::InvalidInstruction.code(), 0);
    assert_eq!(FPPError::NullifierAlreadyUsed.code(), 4);
    assert_eq!(FPPError::Unauthorized.code(), 9);
    assert_eq!(FPPError::AccountNotInitialized.code(), 16);
    assert_eq!(FPPError::PointLocked.message(), "Point Locked");
}

fn invocation(signer: [u8; 32], now: i64) -> Invocation {
    Invocation {
        signer,
        now,
        treasury: TREASURY,
        usdt_mint: MINT,
        proof_valid: true,
        ring_signature_valid: true,
    }
}

#[test]
fn instructions_dispatch_to_operations() {
    let mut p = Processor::new();
    let init = FPPInstruction::Initialize { deposit_fee_rate: 100, withdrawal_fee_rate: 100 };
    assert_eq!(process_instruction(&mut p, &invocation(AUTHORITY, 0), &init), Ok(Outcome::Done));
    assert_eq!(p.state.authority, AUTHORITY);
    assert_eq!(p.state.treasury, TREASURY);

    let dep = FPPInstruction::Deposit { amount: 20_000_000, commitments: vec![key(1), key(2)] };
    assert_eq!(
        process_instruction(&mut p, &invocation(ALICE, 100), &dep),
        Ok(Outcome::Deposited(DepositReceipt { fee: 200_000, net_amount: 19_800_000, num_points: 2 }))
    );

    let pay = FPPInstruction::PrivacyPayment {
        input_points: vec![key(1)],
        input_nullifiers: vec![nullifier(1)],
        output_commitments: vec![key(3)],
        proof: vec![1, 2, 3],
        ring_signature: vec![4, 5],
    };
    let mut rejected = invocation(BOB, 200);
    rejected.proof_valid = false;
    assert_eq!(process_instruction(&mut p, &rejected, &pay), Err(FPPError::InvalidProof));
    assert_eq!(process_instruction(&mut p, &invocation(BOB, 200), &pay), Ok(Outcome::Done));

    let req = FPPInstruction::RequestWithdrawal { point_ids: vec![key(2)], nullifiers: vec![nullifier(2)] };
    assert_eq!(process_instruction(&mut p, &invocation(ALICE, 300), &req), Ok(Outcome::Requested(0)));
    let done = FPPInstruction::CompleteWithdrawal { request_id: 0 };
    assert_eq!(process_instruction(&mut p, &invocation(ALICE, 300), &done), Err(FPPError::WithdrawalNotReady));
    assert_eq!(
        process_instruction(&mut p, &invocation(ALICE, 300 + 86400), &done),
        Ok(Outcome::Withdrawn(WithdrawalReceipt { amount: 10_000_000, fee: 100_000, net_amount: 9_900_000 }))
    );
    let cancel = FPPInstruction::CancelWithdrawal { request_id: 0, permanent: false };
    assert_eq!(process_instruction(&mut p, &invocation(ALICE, 300 + 86400), &cancel), Err(FPPError::Unauthorized));

    let pause = FPPInstruction::SetPaused { paused: true };
    assert_eq!(process_instruction(&mut p, &invocation(BOB, 0), &pause), Err(FPPError::Unauthorized));
    assert_eq!(process_instruction(&mut p, &invocation(AUTHORITY, 0), &pause), Ok(Outcome::Done));
    let fees = FPPInstruction::UpdateFees { deposit_fee_rate: 7, withdrawal_fee_rate: 8 };
    assert_eq!(process_instruction(&mut p, &invocation(AUTHORITY, 0), &fees), Ok(Outcome::Done));
    assert_eq!(p.state.withdrawal_fee_rate, 8);
}

#[test]
fn well_formedness_check() {
    let mut p = Processor::new();
    assert!(p.is_wf());
    p = funded(&[1, 2]);
    assert!(p.is_wf());
    p.process_request_withdrawal(ALICE, &vec![key(1)], &vec![nullifier(1)], 2000).unwrap();
    assert!(p.is_wf());
    let mut broken = funded(&[1, 2]);
    broken.state.total_points = 5;
    assert!(!broken.is_wf());
    let mut reactivated = funded(&[1, 2]);
    reactivated.process_request_withdrawal(ALICE, &vec![key(1)], &vec![], 2000).unwrap();
    reactivated.points[0].is_active = true;
    reactivated.state.total_points = 3;
    assert!(!reactivated.is_wf());
    let mut paused_uninitialized = Processor::new();
    paused_uninitialized.state.is_paused = true;
    assert!(!paused_uninitialized.is_wf());
}

#[test]
fn marked_nullifiers_carry_time_and_others_stay() {
    let mut p = funded(&[1, 2]);
    p.nullifiers.push(fpp::NullifierSet { is_initialized: true, nullifier: nullifier(9), used: false, timestamp: 5 });
    p.nullifiers.push(fpp::NullifierSet { is_initialized: true, nullifier: nullifier(1), used: false, timestamp: 5 });
    p.process_privacy_payment(BOB, &vec![key(1)], &vec![nullifier(1)], &vec![key(10)], true, true, 2000).unwrap();
    assert_eq!(p.nullifiers.len(), 2);
    assert!(!p.nullifiers[0].used && p.nullifiers[0].timestamp == 5);
    assert!(p.nullifiers[1].used && p.nullifiers[1].timestamp == 2000);
    p.process_request_withdrawal(ALICE, &vec![key(2)], &vec![nullifier(3)], 2100).unwrap();
    assert_eq!(p.nullifiers.len(), 3);
    assert!(p.nullifiers[2].used && p.nullifiers[2].timestamp == 2100 && p.nullifiers[2].nullifier == nullifier(3));
    assert!(p.nullifiers[1].timestamp == 2000);
}

#[test]
fn reused_nullifier_reported_before_list_checks() {
    let mut p = funded(&[1, 2]);
    p.process_privacy_payment(BOB, &vec![key(1)], &vec![nullifier(1)], &vec![key(10)], true, true, 2000).unwrap();
    assert_eq!(
        p.process_privacy_payment(BOB, &vec![], &vec![nullifier(1)], &vec![], true, true, 2000),
        Err(FPPError::NullifierAlreadyUsed)
    );
    assert_eq!(
        p.process_request_withdrawal(ALICE, &vec![key(1)], &vec![nullifier(1)], 2000),
        Err(FPPError::NullifierAlreadyUsed)
    );
}

#[test]
fn dispatched_cancel_returns_points() {
    let mut p = funded(&[1, 2]);
    let req = FPPInstruction::RequestWithdrawal { point_ids: vec![key(1), key(2)], nullifiers: vec![] };
    assert_eq!(process_instruction(&mut p, &invocation(ALICE, 2000), &req), Ok(Outcome::Requested(0)));
    let before = p.state;
    let cancel = FPPInstruction::CancelWithdrawal { request_id: 0, permanent: false };
    assert_eq!(process_instruction(&mut p, &invocation(ALICE, 2001), &cancel), Ok(Outcome::Done));
    assert!(p.points.iter().all(|x| x.is_active));
    assert_eq!(p.state.total_points, before.total_points);
    assert_eq!(p.state.total_withdrawn, before.total_withdrawn);
    assert_eq!(FPPError::InvalidProof.message(), "Invalid Proof");
}
