use vstd::prelude::*;

verus! {

/// The operations of the protocol, with the arguments that the caller
/// signs. The signer, the clock and the verifiers' verdicts come with the
/// invocation (see `Invocation`).
#[derive(Debug, Clone)]
pub enum FPPInstruction {
    /// Sets up the protocol record; the signer becomes the authority.
    Initialize { deposit_fee_rate: u16, withdrawal_fee_rate: u16 },
    /// Deposits base asset and mints one point per commitment.
    Deposit { amount: u64, commitments: Vec<[u8; 32]> },
    /// Spends the shielded points `input_points` under a zero-knowledge
    /// proof and a ring signature.
    PrivacyPayment {
        input_points: Vec<[u8; 32]>,
        input_nullifiers: Vec<[u8; 32]>,
        output_commitments: Vec<[u8; 32]>,
        proof: Vec<u8>,
        ring_signature: Vec<u8>,
    },
    /// Requests a withdrawal of the listed points.
    RequestWithdrawal { point_ids: Vec<[u8; 32]>, nullifiers: Vec<[u8; 32]> },
    /// Completes withdrawal request `request_id` after its cooldown.
    CompleteWithdrawal { request_id: usize },
    /// Cancels withdrawal request `request_id`, returning or forfeiting its points.
    CancelWithdrawal { request_id: usize, permanent: bool },
    /// Updates the fee rates (authority only).
    UpdateFees { deposit_fee_rate: u16, withdrawal_fee_rate: u16 },
    /// Pauses or resumes the protocol (authority only).
    SetPaused { paused: bool },
}

/// What the host supplies with an instruction: the signer, the clock, the
/// treasury and asset accounts, and the verdicts of the proof and
/// ring-signature verifiers on a privacy payment.
#[derive(Debug, Clone, Copy)]
pub struct Invocation {
    pub signer: [u8; 32],
    pub now: i64,
    /// Treasury and asset of the protocol, read by `Initialize`.
    pub treasury: [u8; 32],
    pub usdt_mint: [u8; 32],
    pub proof_valid: bool,
    pub ring_signature_valid: bool,
}

} // verus!
