use vstd::prelude::*;
use crate::error::FPPError;
use crate::ledger::{active_count, all_present, any_active, held_total, is_spent, listed};
use crate::processor::Processor;
use crate::state::MAX_FEE_RATE;

verus! {

/// Conservation: in every well-formed ledger, and so after every sequence
/// of operations from `Processor::new`, the mass of the active points plus
/// the mass held by withdrawal requests (pending, completed or forfeited)
/// equals the total of points minted.
pub proof fn lemma_conservation(p: &Processor)
    requires
        p.wf(),
    ensures
        active_count(p.points@) + held_total(p.withdrawals@) == p.state.total_points,
{
}

/// No double spend: once a nullifier is recorded as used, a privacy payment
/// or a withdrawal request that lists it fails, and on an initialized,
/// running ledger it fails with `NullifierAlreadyUsed`.
pub proof fn lemma_no_double_spend(
    p: &Processor,
    input_points: Seq<[u8; 32]>,
    input_nullifiers: Seq<[u8; 32]>,
    output_commitments: Seq<[u8; 32]>,
    proof_valid: bool,
    ring_signature_valid: bool,
    now: i64,
    n: Seq<u8>,
)
    requires
        is_spent(p.nullifiers@, n),
        listed(input_nullifiers, n),
    ensures
        p.payment_error(input_points, input_nullifiers, output_commitments, proof_valid,
            ring_signature_valid, now) is Some,
        p.state.is_initialized && !p.state.is_paused ==> p.payment_error(input_points, input_nullifiers,
            output_commitments, proof_valid, ring_signature_valid, now) == Some(FPPError::NullifierAlreadyUsed),
        p.request_error(input_points, input_nullifiers, now) is Some,
        p.state.is_initialized && !p.state.is_paused ==> p.request_error(input_points, input_nullifiers, now)
            == Some(FPPError::NullifierAlreadyUsed),
{
    let j = choose|j: int| 0 <= j < input_nullifiers.len() && input_nullifiers[j]@ == n;
    assert(is_spent(p.nullifiers@, input_nullifiers[j]@));
}

/// Timelock: a live request, completed by its requester, succeeds exactly
/// when `now >= unlock_time` (bar counter overflow), and fails with
/// `WithdrawalNotReady` before.
pub proof fn lemma_timelock(p: &Processor, requester: [u8; 32], request_id: usize, now: i64)
    requires
        p.state.is_initialized,
        request_id < p.withdrawals@.len(),
        requester@ == p.withdrawals@[request_id as int].requester@,
        !p.withdrawals@[request_id as int].is_terminal(),
        p.state.total_withdrawn + p.withdrawals@[request_id as int].amount <= u64::MAX,
    ensures
        p.complete_error(requester, request_id, now) is None <==> now >= p.withdrawals@[request_id as int].unlock_time,
        now < p.withdrawals@[request_id as int].unlock_time ==> p.complete_error(requester, request_id, now)
            == Some(FPPError::WithdrawalNotReady),
{
}

/// Terminal states are final: once a request is completed or cancelled,
/// completing or cancelling it again fails with `Unauthorized`, whoever
/// asks and whenever (and a failing operation changes nothing).
pub proof fn lemma_terminal_is_final(
    p: &Processor,
    caller: [u8; 32],
    request_id: usize,
    now: i64,
    permanent: bool,
)
    requires
        p.state.is_initialized,
        request_id < p.withdrawals@.len(),
        p.withdrawals@[request_id as int].is_terminal(),
    ensures
        p.complete_error(caller, request_id, now) == Some(FPPError::Unauthorized),
        p.cancel_error(caller, request_id, permanent) == Some(FPPError::Unauthorized),
{
}

/// Pause gate: on a paused well-formed ledger deposits, privacy payments and
/// withdrawal requests fail with `Unauthorized`, while the authority can
/// still update fees (to valid rates) and lift the pause.
pub proof fn lemma_pause_gate(
    p: &Processor,
    amount: u64,
    commitments: Seq<[u8; 32]>,
    input_points: Seq<[u8; 32]>,
    input_nullifiers: Seq<[u8; 32]>,
    output_commitments: Seq<[u8; 32]>,
    proof_valid: bool,
    ring_signature_valid: bool,
    deposit_fee_rate: u16,
    withdrawal_fee_rate: u16,
    now: i64,
)
    requires
        p.wf(),
        p.state.is_paused,
        deposit_fee_rate <= MAX_FEE_RATE,
        withdrawal_fee_rate <= MAX_FEE_RATE,
    ensures
        p.deposit_error(amount, commitments, now) == Some(FPPError::Unauthorized),
        p.payment_error(input_points, input_nullifiers, output_commitments, proof_valid,
            ring_signature_valid, now) == Some(FPPError::Unauthorized),
        p.request_error(input_points, input_nullifiers, now) == Some(FPPError::Unauthorized),
        p.update_fees_error(p.state.authority, deposit_fee_rate, withdrawal_fee_rate) is None,
        p.admin_error(p.state.authority) is None,
{
}

/// Cancellation is owed: on a well-formed ledger the requester of a live
/// request can always cancel it, forfeiting or not, since its points are
/// in the store and inactive.
pub proof fn lemma_cancel_owed(p: &Processor, requester: [u8; 32], request_id: usize, permanent: bool)
    requires
        p.wf(),
        p.state.is_initialized,
        request_id < p.withdrawals@.len(),
        requester@ == p.withdrawals@[request_id as int].requester@,
        !p.withdrawals@[request_id as int].is_terminal(),
    ensures
        p.cancel_error(requester, request_id, permanent) is None,
{
    let r = request_id as int;
    let k = p.withdrawals@[r].points@;
    assert(all_present(p.points@, k)) by {
        assert forall|j: int| 0 <= j < k.len() implies crate::ledger::has_point(p.points@, #[trigger] k[j]@) by {
            assert(crate::ledger::has_point(p.points@, p.withdrawals@[r].points@[j]@));
        }
    }
    assert(!any_active(p.points@, k)) by {
        assert forall|i: int, j: int|
            0 <= i < p.points@.len() && 0 <= j < k.len() && #[trigger] p.points@[i].commitment@
                == #[trigger] k[j]@ implies !p.points@[i].is_active by {
            assert(p.points@[i].commitment@ == p.withdrawals@[r].points@[j]@);
        }
    }
}

} // verus!
