use vstd::prelude::*;
use crate::error::FPPError;
use crate::instruction::{FPPInstruction, Invocation};
use crate::ledger::{
    active_count, all_distinct, any_point_present, any_present, check_spendable, copy_keys,
    held_total, keys_distinct, lemma_active_count_nonneg, lemma_held_total_nonneg,
    lemma_held_total_prefix, lemma_held_total_push, lemma_held_total_update,
    lemma_with_activity_keys, nullifiers_marked, pending_parked, lemma_parked_grow,
    lemma_parked_request, lemma_parked_retire, parked_ok, has_point, locate_inactive, mark_spent, mint_points, minted,
    nullifier_error, nullifiers_rejected, point_keys_unique, reactivation_error, set_activity,
    spend_error, with_activity,
};
use crate::state::{
    compute_fee, fee_of, keys_equal, lemma_fee_bound, FloatingPoint, NullifierSet,
    ProtocolState, WithdrawalRequest, MATURITY_DELAY, MAX_DEPOSIT, MAX_FEE_RATE, MIN_DEPOSIT,
    POINT_SIZE, WITHDRAWAL_COOLDOWN,
};

verus! {

/// The whole ledger: the protocol record, the commitment store, the
/// nullifier registry and the withdrawal requests (addressed by index).
pub struct Processor {
    pub state: ProtocolState,
    pub points: Vec<FloatingPoint>,
    pub nullifiers: Vec<NullifierSet>,
    pub withdrawals: Vec<WithdrawalRequest>,
}

/// What a deposit charged and minted; `net_amount` is what moves to the treasury.
#[derive(Debug, Clone, Copy, PartialEq, Eq, Structural)]
pub struct DepositReceipt {
    pub fee: u64,
    pub net_amount: u64,
    pub num_points: u64,
}

/// What a successful instruction produced.
#[derive(Debug, Clone, Copy, PartialEq, Eq, Structural)]
pub enum Outcome {
    Done,
    Deposited(DepositReceipt),
    Requested(usize),
    Withdrawn(WithdrawalReceipt),
}

/// What a completed withdrawal pays out: `net_amount` leaves the treasury.
#[derive(Debug, Clone, Copy, PartialEq, Eq, Structural)]
pub struct WithdrawalReceipt {
    pub amount: u64,
    pub fee: u64,
    pub net_amount: u64,
}

impl Processor {
    /// Active mass plus the mass that withdrawal requests hold equals the
    /// points ever minted.
    pub open spec fn conserved(&self) -> bool {
        active_count(self.points@) + held_total(self.withdrawals@) == self.state.total_points
    }

    /// The ledger's invariant, established by `new` and kept by every operation.
    pub open spec fn wf(&self) -> bool {
        &&& self.state.wf()
        &&& point_keys_unique(self.points@)
        &&& forall|i: int| 0 <= i < self.points@.len() ==> (#[trigger] self.points@[i]).mass == 1
        &&& forall|i: int|
            0 <= i < self.withdrawals@.len() ==> {
                &&& (#[trigger] self.withdrawals@[i]).wf()
                &&& keys_distinct(self.withdrawals@[i].points@)
            }
        &&& self.conserved()
        &&& pending_parked(self.points@, self.withdrawals@)
        &&& self.state.is_paused ==> self.state.is_initialized
        &&& !self.state.is_initialized ==> {
            &&& self.points@.len() == 0
            &&& self.withdrawals@.len() == 0
            &&& self.state.total_points == 0
            &&& self.state.total_deposited == 0
            &&& self.state.total_fees == 0
        }
    }

    /// `self` and `other` differ at most in the protocol record.
    pub open spec fn same_records(&self, other: &Processor) -> bool {
        &&& self.points@ == other.points@
        &&& self.nullifiers@ == other.nullifiers@
        &&& self.withdrawals@ == other.withdrawals@
    }

    /// A used nullifier's record is never changed.
    pub open spec fn used_records_kept(pre: Seq<NullifierSet>, post: Seq<NullifierSet>) -> bool {
        &&& post.len() >= pre.len()
        &&& forall|i: int| 0 <= i < pre.len() && pre[i].used ==> #[trigger] post[i] == pre[i]
    }

    /// What a successful `process_initialize` leaves.
    pub open spec fn initialize_done(
        pre: Processor,
        post: Processor,
        authority: [u8; 32],
        treasury: [u8; 32],
        usdt_mint: [u8; 32],
        deposit_fee_rate: u16,
        withdrawal_fee_rate: u16,
    ) -> bool {
        &&& post.same_records(&pre)
        &&& post.state == ProtocolState {
            is_initialized: true,
            authority,
            treasury,
            usdt_mint,
            total_deposited: 0,
            total_withdrawn: 0,
            total_fees: 0,
            total_points: 0,
            deposit_fee_rate,
            withdrawal_fee_rate,
            is_paused: false,
        }
    }

    /// What a successful `process_update_fees` leaves.
    pub open spec fn fees_updated(pre: Processor, post: Processor, deposit_fee_rate: u16, withdrawal_fee_rate: u16) -> bool {
        &&& post.same_records(&pre)
        &&& post.state == ProtocolState { deposit_fee_rate, withdrawal_fee_rate, ..pre.state }
    }

    /// What a successful `process_set_paused` leaves.
    pub open spec fn pause_set(pre: Processor, post: Processor, paused: bool) -> bool {
        &&& post.same_records(&pre)
        &&& post.state == ProtocolState { is_paused: paused, ..pre.state }
    }

    /// What a successful `process_deposit` leaves and returns.
    pub open spec fn deposit_done(
        pre: Processor,
        post: Processor,
        depositor: [u8; 32],
        amount: u64,
        commitments: Seq<[u8; 32]>,
        now: i64,
        d: DepositReceipt,
    ) -> bool {
        &&& d.fee == fee_of(amount as int, pre.state.deposit_fee_rate as int)
        &&& d.net_amount == amount - d.fee
        &&& d.num_points == amount / POINT_SIZE
        &&& post.state == ProtocolState {
            total_deposited: (pre.state.total_deposited + amount) as u64,
            total_points: (pre.state.total_points + d.num_points) as u64,
            total_fees: (pre.state.total_fees + d.fee) as u64,
            ..pre.state
        }
        &&& post.points@ == pre.points@ + commitments.map_values(|c: [u8; 32]| minted(c, depositor, now))
        &&& post.nullifiers@ == pre.nullifiers@
        &&& post.withdrawals@ == pre.withdrawals@
    }

    /// What a successful `process_privacy_payment` leaves.
    pub open spec fn payment_done(
        pre: Processor,
        post: Processor,
        sender: [u8; 32],
        input_points: Seq<[u8; 32]>,
        input_nullifiers: Seq<[u8; 32]>,
        output_commitments: Seq<[u8; 32]>,
        now: i64,
    ) -> bool {
        &&& post.state == pre.state
        &&& post.points@ == with_activity(pre.points@, input_points, false)
            + output_commitments.map_values(|c: [u8; 32]| minted(c, sender, now))
        &&& nullifiers_marked(pre.nullifiers@, post.nullifiers@, input_nullifiers, now)
        &&& Processor::used_records_kept(pre.nullifiers@, post.nullifiers@)
        &&& post.withdrawals@ == pre.withdrawals@
    }

    /// What a successful `process_request_withdrawal` leaves, `id` being the
    /// index of the new request.
    pub open spec fn request_done(
        pre: Processor,
        post: Processor,
        requester: [u8; 32],
        point_ids: Seq<[u8; 32]>,
        nullifiers: Seq<[u8; 32]>,
        now: i64,
        id: usize,
    ) -> bool {
        let req = post.withdrawals@[id as int];
        &&& id == pre.withdrawals@.len()
        &&& post.withdrawals@.len() == pre.withdrawals@.len() + 1
        &&& post.withdrawals@.take(id as int) == pre.withdrawals@
        &&& req.is_initialized
        &&& req.requester == requester
        &&& req.amount == point_ids.len() * POINT_SIZE
        &&& req.request_time == now
        &&& req.unlock_time == now + WITHDRAWAL_COOLDOWN
        &&& !req.completed && !req.cancelled && !req.forfeited
        &&& req.points@ == point_ids
        &&& post.state == pre.state
        &&& post.points@ == with_activity(pre.points@, point_ids, false)
        &&& nullifiers_marked(pre.nullifiers@, post.nullifiers@, nullifiers, now)
        &&& Processor::used_records_kept(pre.nullifiers@, post.nullifiers@)
    }

    /// What a successful `process_cancel_withdrawal` leaves.
    pub open spec fn cancel_done(pre: Processor, post: Processor, request_id: usize, permanent: bool) -> bool {
        let req = pre.withdrawals@[request_id as int];
        &&& post.state == pre.state
        &&& post.nullifiers@ == pre.nullifiers@
        &&& post.withdrawals@ == pre.withdrawals@.update(
            request_id as int,
            WithdrawalRequest { cancelled: true, forfeited: permanent, ..req },
        )
        &&& post.points@ == if permanent {
            pre.points@
        } else {
            with_activity(pre.points@, req.points@, true)
        }
    }

    /// What a successful `process_complete_withdrawal` leaves and returns.
    pub open spec fn complete_done(pre: Processor, post: Processor, request_id: usize, w: WithdrawalReceipt) -> bool {
        let req = pre.withdrawals@[request_id as int];
        &&& w.amount == req.amount
        &&& w.fee == fee_of(req.amount as int, pre.state.withdrawal_fee_rate as int)
        &&& w.net_amount == w.amount - w.fee
        &&& post.state == ProtocolState {
            total_withdrawn: (pre.state.total_withdrawn + req.amount) as u64,
            ..pre.state
        }
        &&& post.points@ == pre.points@
        &&& post.nullifiers@ == pre.nullifiers@
        &&& post.withdrawals@ == pre.withdrawals@.update(request_id as int, WithdrawalRequest { completed: true, ..req })
    }

    /// Whether no two points of the store share a commitment.
    fn keys_unique(points: &Vec<FloatingPoint>) -> (r: bool)
        ensures
            r == point_keys_unique(points@),
    {
        let mut i: usize = 0;
        while i < points.len()
            invariant
                0 <= i <= points@.len(),
                forall|a: int, b: int|
                    0 <= a < points@.len() && 0 <= b < points@.len() && a != b && (a < i || b < i)
                        ==> points@[a].commitment@ != points@[b].commitment@,
            decreases points@.len() - i,
        {
            let mut j: usize = i + 1;
            while j < points.len()
                invariant
                    i < points@.len(),
                    i + 1 <= j <= points@.len(),
                    forall|a: int, b: int|
                        0 <= a < points@.len() && 0 <= b < points@.len() && a != b && (a < i || b < i)
                            ==> points@[a].commitment@ != points@[b].commitment@,
                    forall|b: int| i < b < j ==> points@[i as int].commitment@ != points@[b].commitment@,
                decreases points@.len() - j,
            {
                if keys_equal(&points[i].commitment, &points[j].commitment) {
                    return false;
                }
                j = j + 1;
            }
            i = i + 1;
        }
        true
    }

    /// Whether the ledger is well formed; a host that loads a stored ledger
    /// tests this before handing it to an operation.
    pub fn is_wf(&self) -> (r: bool)
        ensures
            r == self.wf(),
    {
        let st = &self.state;
        if st.deposit_fee_rate > MAX_FEE_RATE || st.withdrawal_fee_rate > MAX_FEE_RATE
            || st.total_fees > st.total_deposited {
            return false;
        }
        if st.is_paused && !st.is_initialized {
            return false;
        }
        if !st.is_initialized && (self.points.len() != 0 || self.withdrawals.len() != 0
            || st.total_points != 0 || st.total_deposited != 0 || st.total_fees != 0) {
            return false;
        }
        if !Processor::keys_unique(&self.points) {
            return false;
        }
        if !parked_ok(&self.points, &self.withdrawals) {
            return false;
        }
        let mut active: u64 = 0;
        let mut i: usize = 0;
        while i < self.points.len()
            invariant
                0 <= i <= self.points@.len(),
                forall|a: int| 0 <= a < i ==> (#[trigger] self.points@[a]).mass == 1,
                active == active_count(self.points@.take(i as int)),
                active <= i,
            decreases self.points@.len() - i,
        {
            if self.points[i].mass != 1 {
                return false;
            }
            proof {
                assert(self.points@.take(i + 1).drop_last() =~= self.points@.take(i as int));
            }
            if self.points[i].is_active {
                active = active + 1;
            }
            i = i + 1;
        }
        assert(self.points@.take(self.points@.len() as int) =~= self.points@);
        let mut held: u64 = 0;
        let mut k: usize = 0;
        while k < self.withdrawals.len()
            invariant
                0 <= k <= self.withdrawals@.len(),
                forall|a: int|
                    0 <= a < k ==> {
                        &&& (#[trigger] self.withdrawals@[a]).wf()
                        &&& keys_distinct(self.withdrawals@[a].points@)
                    },
                held == held_total(self.withdrawals@.take(k as int)),
            decreases self.withdrawals@.len() - k,
        {
            let req = &self.withdrawals[k];
            if (req.completed && req.cancelled) || (req.forfeited && !req.cancelled) {
                return false;
            }
            if !all_distinct(&req.points) {
                return false;
            }
            proof {
                assert(self.withdrawals@.take(k + 1).drop_last() =~= self.withdrawals@.take(k as int));
                lemma_held_total_nonneg(self.withdrawals@.take(k as int));
            }
            let part: u64 = if req.cancelled && !req.forfeited { 0 } else { req.points.len() as u64 };
            held = match held.checked_add(part) {
                Some(h) => h,
                None => {
                    proof {
                        lemma_held_total_prefix(self.withdrawals@, k + 1);
                        lemma_active_count_nonneg(self.points@);
                    }
                    return false;
                },
            };
            k = k + 1;
        }
        assert(self.withdrawals@.take(self.withdrawals@.len() as int) =~= self.withdrawals@);
        active as u128 + held as u128 == st.total_points as u128
    }

    /// A ledger that no initialization has reached yet.
    pub fn new() -> (r: Processor)
        ensures
            r.wf(),
            !r.state.is_initialized,
            r.points@.len() == 0,
            r.nullifiers@.len() == 0,
            r.withdrawals@.len() == 0,
    {
        Processor {
            state: ProtocolState {
                is_initialized: false,
                authority: [0u8; 32],
                treasury: [0u8; 32],
                usdt_mint: [0u8; 32],
                total_deposited: 0,
                total_withdrawn: 0,
                total_fees: 0,
                total_points: 0,
                deposit_fee_rate: 0,
                withdrawal_fee_rate: 0,
                is_paused: false,
            },
            points: Vec::new(),
            nullifiers: Vec::new(),
            withdrawals: Vec::new(),
        }
    }

    pub open spec fn initialize_error(&self, deposit_fee_rate: u16, withdrawal_fee_rate: u16)
        -> Option<FPPError>
    {
        if self.state.is_initialized {
            Some(FPPError::AccountAlreadyInitialized)
        } else if deposit_fee_rate > MAX_FEE_RATE || withdrawal_fee_rate > MAX_FEE_RATE {
            Some(FPPError::InvalidAmount)
        } else {
            None
        }
    }

    /// Sets up the protocol record once, with `authority` as its administrator.
    pub fn process_initialize(
        &mut self,
        authority: [u8; 32],
        treasury: [u8; 32],
        usdt_mint: [u8; 32],
        deposit_fee_rate: u16,
        withdrawal_fee_rate: u16,
    ) -> (r: Result<(), FPPError>)
        requires
            old(self).wf(),
        ensures
            final(self).wf(),
            final(self).same_records(old(self)),
            r is Err <==> old(self).initialize_error(deposit_fee_rate, withdrawal_fee_rate) is Some,
            r matches Err(e) ==> {
                &&& Some(e) == old(self).initialize_error(deposit_fee_rate, withdrawal_fee_rate)
                &&& *final(self) == *old(self)
            },
            r is Ok ==> Processor::initialize_done(*old(self), *final(self), authority, treasury, usdt_mint,
                deposit_fee_rate, withdrawal_fee_rate),
    {
        if self.state.is_initialized {
            return Err(FPPError::AccountAlreadyInitialized);
        }
        if deposit_fee_rate > MAX_FEE_RATE || withdrawal_fee_rate > MAX_FEE_RATE {
            return Err(FPPError::InvalidAmount);
        }
        self.state = ProtocolState {
            is_initialized: true,
            authority,
            treasury,
            usdt_mint,
            total_deposited: 0,
            total_withdrawn: 0,
            total_fees: 0,
            total_points: 0,
            deposit_fee_rate,
            withdrawal_fee_rate,
            is_paused: false,
        };
        Ok(())
    }

    pub open spec fn admin_error(&self, signer: [u8; 32]) -> Option<FPPError> {
        if !self.state.is_initialized {
            Some(FPPError::AccountNotInitialized)
        } else if signer@ != self.state.authority@ {
            Some(FPPError::Unauthorized)
        } else {
            None
        }
    }

    pub open spec fn update_fees_error(&self, signer: [u8; 32], deposit_fee_rate: u16, withdrawal_fee_rate: u16)
        -> Option<FPPError>
    {
        if self.admin_error(signer) is Some {
            self.admin_error(signer)
        } else if deposit_fee_rate > MAX_FEE_RATE || withdrawal_fee_rate > MAX_FEE_RATE {
            Some(FPPError::InvalidAmount)
        } else {
            None
        }
    }

    /// Lets the authority change both fee rates; works while paused too.
    pub fn process_update_fees(&mut self, signer: [u8; 32], deposit_fee_rate: u16, withdrawal_fee_rate: u16)
        -> (r: Result<(), FPPError>)
        requires
            old(self).wf(),
        ensures
            final(self).wf(),
            final(self).same_records(old(self)),
            r is Err <==> old(self).update_fees_error(signer, deposit_fee_rate, withdrawal_fee_rate) is Some,
            r matches Err(e) ==> {
                &&& Some(e) == old(self).update_fees_error(signer, deposit_fee_rate, withdrawal_fee_rate)
                &&& *final(self) == *old(self)
            },
            r is Ok ==> Processor::fees_updated(*old(self), *final(self), deposit_fee_rate, withdrawal_fee_rate),
    {
        if !self.state.is_initialized {
            return Err(FPPError::AccountNotInitialized);
        }
        if !keys_equal(&signer, &self.state.authority) {
            return Err(FPPError::Unauthorized);
        }
        if deposit_fee_rate > MAX_FEE_RATE || withdrawal_fee_rate > MAX_FEE_RATE {
            return Err(FPPError::InvalidAmount);
        }
        self.state.deposit_fee_rate = deposit_fee_rate;
        self.state.withdrawal_fee_rate = withdrawal_fee_rate;
        Ok(())
    }

    /// Lets the authority pause or resume all value-moving operations.
    pub fn process_set_paused(&mut self, signer: [u8; 32], paused: bool) -> (r: Result<(), FPPError>)
        requires
            old(self).wf(),
        ensures
            final(self).wf(),
            final(self).same_records(old(self)),
            r is Err <==> old(self).admin_error(signer) is Some,
            r matches Err(e) ==> {
                &&& Some(e) == old(self).admin_error(signer)
                &&& *final(self) == *old(self)
            },
            r is Ok ==> Processor::pause_set(*old(self), *final(self), paused),
    {
        if !self.state.is_initialized {
            return Err(FPPError::AccountNotInitialized);
        }
        if !keys_equal(&signer, &self.state.authority) {
            return Err(FPPError::Unauthorized);
        }
        self.state.is_paused = paused;
        Ok(())
    }

    pub open spec fn deposit_error(&self, amount: u64, commitments: Seq<[u8; 32]>, now: i64)
        -> Option<FPPError>
    {
        let fee = fee_of(amount as int, self.state.deposit_fee_rate as int);
        if !self.state.is_initialized {
            Some(FPPError::AccountNotInitialized)
        } else if self.state.is_paused {
            Some(FPPError::Unauthorized)
        } else if amount < MIN_DEPOSIT || amount > MAX_DEPOSIT {
            Some(FPPError::InvalidAmount)
        } else if commitments.len() != amount / POINT_SIZE {
            Some(FPPError::InvalidCommitment)
        } else if !keys_distinct(commitments) || any_present(self.points@, commitments) {
            Some(FPPError::InvalidCommitment)
        } else if self.state.total_deposited + amount > u64::MAX
            || self.state.total_points + amount / POINT_SIZE > u64::MAX
            || self.state.total_fees + fee > u64::MAX {
            Some(FPPError::InvalidAmount)
        } else if now + MATURITY_DELAY > i64::MAX {
            Some(FPPError::InvalidAmount)
        } else {
            None
        }
    }

    /// Takes `amount` of base asset from `depositor` into the pool: charges
    /// the deposit fee and mints one point of mass 1 per supplied commitment.
    /// There must be exactly one commitment per `POINT_SIZE` deposited, so no
    /// mass is minted beyond what was paid for. The caller moves the
    /// receipt's `net_amount` to the treasury within the same transaction.
    pub fn process_deposit(&mut self, depositor: [u8; 32], amount: u64, commitments: &Vec<[u8; 32]>, now: i64)
        -> (r: Result<DepositReceipt, FPPError>)
        requires
            old(self).wf(),
        ensures
            final(self).wf(),
            r is Err <==> old(self).deposit_error(amount, commitments@, now) is Some,
            r matches Err(e) ==> {
                &&& Some(e) == old(self).deposit_error(amount, commitments@, now)
                &&& *final(self) == *old(self)
            },
            r matches Ok(d) ==> Processor::deposit_done(*old(self), *final(self), depositor, amount, commitments@, now, d),
    {
        if !self.state.is_initialized {
            return Err(FPPError::AccountNotInitialized);
        }
        if self.state.is_paused {
            return Err(FPPError::Unauthorized);
        }
        if amount < MIN_DEPOSIT || amount > MAX_DEPOSIT {
            return Err(FPPError::InvalidAmount);
        }
        let num_points: u64 = amount / POINT_SIZE;
        if commitments.len() as u64 != num_points {
            return Err(FPPError::InvalidCommitment);
        }
        if !all_distinct(commitments) || any_point_present(&self.points, commitments) {
            return Err(FPPError::InvalidCommitment);
        }
        let (fee, net_amount) = compute_fee(amount, self.state.deposit_fee_rate);
        let total_deposited = match self.state.total_deposited.checked_add(amount) {
            Some(t) => t,
            None => return Err(FPPError::InvalidAmount),
        };
        let total_points = match self.state.total_points.checked_add(num_points) {
            Some(t) => t,
            None => return Err(FPPError::InvalidAmount),
        };
        let total_fees = match self.state.total_fees.checked_add(fee) {
            Some(t) => t,
            None => return Err(FPPError::InvalidAmount),
        };
        if now > i64::MAX - MATURITY_DELAY {
            return Err(FPPError::InvalidAmount);
        }
        proof {
            lemma_fee_bound(amount as int, self.state.deposit_fee_rate as int);
        }
        mint_points(&mut self.points, commitments, depositor, now);
        proof {
            assert forall|i: int| old(self).points@.len() <= i < self.points@.len() implies !has_point(
                old(self).points@,
                (#[trigger] self.points@[i]).commitment@,
            ) by {
                let m = i - old(self).points@.len();
                assert(self.points@[i].commitment == commitments@[m]);
            }
            lemma_parked_grow(old(self).points@, self.points@, self.withdrawals@);
        }
        self.state.total_deposited = total_deposited;
        self.state.total_points = total_points;
        self.state.total_fees = total_fees;
        Ok(DepositReceipt { fee, net_amount, num_points })
    }

    pub open spec fn payment_error(
        &self,
        input_points: Seq<[u8; 32]>,
        input_nullifiers: Seq<[u8; 32]>,
        output_commitments: Seq<[u8; 32]>,
        proof_valid: bool,
        ring_signature_valid: bool,
        now: i64,
    ) -> Option<FPPError> {
        if !self.state.is_initialized {
            Some(FPPError::AccountNotInitialized)
        } else if self.state.is_paused {
            Some(FPPError::Unauthorized)
        } else if nullifier_error(self.nullifiers@, input_nullifiers) {
            Some(FPPError::NullifierAlreadyUsed)
        } else if input_points.len() != input_nullifiers.len() {
            Some(FPPError::InvalidInstruction)
        } else if spend_error(self.points@, input_points, now) is Some {
            spend_error(self.points@, input_points, now)
        } else if !proof_valid {
            Some(FPPError::InvalidProof)
        } else if !ring_signature_valid {
            Some(FPPError::InvalidRingSignature)
        } else if input_points.len() != output_commitments.len() {
            Some(FPPError::InvalidAmount)
        } else if !keys_distinct(output_commitments) || any_present(self.points@, output_commitments) {
            Some(FPPError::InvalidCommitment)
        } else if now + MATURITY_DELAY > i64::MAX {
            Some(FPPError::InvalidAmount)
        } else {
            None
        }
    }

    /// Moves value inside the shielded pool: consumes the points named by
    /// `input_points` (one nullifier each), and mints one point per output
    /// commitment. `proof_valid` and `ring_signature_valid` are the verdicts
    /// of the proof and ring-signature verifiers on this transfer. Every
    /// point carries one unit of mass, so mass is conserved exactly when
    /// inputs and outputs are equally many. The protocol totals do not change.
    pub fn process_privacy_payment(
        &mut self,
        sender: [u8; 32],
        input_points: &Vec<[u8; 32]>,
        input_nullifiers: &Vec<[u8; 32]>,
        output_commitments: &Vec<[u8; 32]>,
        proof_valid: bool,
        ring_signature_valid: bool,
        now: i64,
    ) -> (r: Result<(), FPPError>)
        requires
            old(self).wf(),
        ensures
            final(self).wf(),
            r is Err <==> old(self).payment_error(input_points@, input_nullifiers@, output_commitments@,
                proof_valid, ring_signature_valid, now) is Some,
            r matches Err(e) ==> {
                &&& Some(e) == old(self).payment_error(input_points@, input_nullifiers@,
                    output_commitments@, proof_valid, ring_signature_valid, now)
                &&& *final(self) == *old(self)
            },
            r is Ok ==> Processor::payment_done(*old(self), *final(self), sender, input_points@, input_nullifiers@,
                output_commitments@, now),
    {
        if !self.state.is_initialized {
            return Err(FPPError::AccountNotInitialized);
        }
        if self.state.is_paused {
            return Err(FPPError::Unauthorized);
        }
        if nullifiers_rejected(&self.nullifiers, input_nullifiers) {
            return Err(FPPError::NullifierAlreadyUsed);
        }
        if input_points.len() != input_nullifiers.len() {
            return Err(FPPError::InvalidInstruction);
        }
        let idxs = match check_spendable(&self.points, input_points, now) {
            Ok(idxs) => idxs,
            Err(e) => return Err(e),
        };
        if !proof_valid {
            return Err(FPPError::InvalidProof);
        }
        if !ring_signature_valid {
            return Err(FPPError::InvalidRingSignature);
        }
        if input_points.len() != output_commitments.len() {
            return Err(FPPError::InvalidAmount);
        }
        if !all_distinct(output_commitments) || any_point_present(&self.points, output_commitments) {
            return Err(FPPError::InvalidCommitment);
        }
        if now > i64::MAX - MATURITY_DELAY {
            return Err(FPPError::InvalidAmount);
        }
        proof {
            lemma_with_activity_keys(self.points@, input_points@, false, output_commitments@);
        }
        set_activity(&mut self.points, input_points, &idxs, false);
        let ghost mid = self.points@;
        mint_points(&mut self.points, output_commitments, sender, now);
        proof {
            assert forall|i: int| old(self).points@.len() <= i < self.points@.len() implies !has_point(
                old(self).points@,
                (#[trigger] self.points@[i]).commitment@,
            ) by {
                let m = i - old(self).points@.len();
                assert(self.points@[i].commitment == output_commitments@[m]);
                if has_point(old(self).points@, output_commitments@[m]@) {
                    assert(crate::ledger::any_present(old(self).points@, output_commitments@));
                }
            }
            assert forall|i: int| 0 <= i < old(self).points@.len() implies (#[trigger] self.points@[i]).commitment
                == old(self).points@[i].commitment && (old(self).points@[i].is_active || !self.points@[i].is_active) by {
                assert(self.points@[i] == mid[i]);
            }
            lemma_parked_grow(old(self).points@, self.points@, self.withdrawals@);
        }
        mark_spent(&mut self.nullifiers, input_nullifiers, now);
        Ok(())
    }

    pub open spec fn request_error(&self, point_ids: Seq<[u8; 32]>, nullifiers: Seq<[u8; 32]>, now: i64)
        -> Option<FPPError>
    {
        if !self.state.is_initialized {
            Some(FPPError::AccountNotInitialized)
        } else if self.state.is_paused {
            Some(FPPError::Unauthorized)
        } else if nullifier_error(self.nullifiers@, nullifiers) {
            Some(FPPError::NullifierAlreadyUsed)
        } else if spend_error(self.points@, point_ids, now) is Some {
            spend_error(self.points@, point_ids, now)
        } else if point_ids.len() * POINT_SIZE > u64::MAX {
            Some(FPPError::InvalidAmount)
        } else if now + WITHDRAWAL_COOLDOWN > i64::MAX {
            Some(FPPError::InvalidAmount)
        } else {
            None
        }
    }

    /// Takes the listed points out of the active pool into a new withdrawal
    /// request of `POINT_SIZE` per point, which `requester` may complete
    /// once `WITHDRAWAL_COOLDOWN` has passed. The nullifiers are marked used.
    /// Returns the index of the new request.
    pub fn process_request_withdrawal(
        &mut self,
        requester: [u8; 32],
        point_ids: &Vec<[u8; 32]>,
        nullifiers: &Vec<[u8; 32]>,
        now: i64,
    ) -> (r: Result<usize, FPPError>)
        requires
            old(self).wf(),
        ensures
            final(self).wf(),
            r is Err <==> old(self).request_error(point_ids@, nullifiers@, now) is Some,
            r matches Err(e) ==> {
                &&& Some(e) == old(self).request_error(point_ids@, nullifiers@, now)
                &&& *final(self) == *old(self)
            },
            r matches Ok(id) ==> Processor::request_done(*old(self), *final(self), requester, point_ids@, nullifiers@, now, id),
    {
        if !self.state.is_initialized {
            return Err(FPPError::AccountNotInitialized);
        }
        if self.state.is_paused {
            return Err(FPPError::Unauthorized);
        }
        if nullifiers_rejected(&self.nullifiers, nullifiers) {
            return Err(FPPError::NullifierAlreadyUsed);
        }
        let idxs = match check_spendable(&self.points, point_ids, now) {
            Ok(idxs) => idxs,
            Err(e) => return Err(e),
        };
        let count: u64 = point_ids.len() as u64;
        let amount = match count.checked_mul(POINT_SIZE) {
            Some(a) => a,
            None => return Err(FPPError::InvalidAmount),
        };
        if now > i64::MAX - WITHDRAWAL_COOLDOWN {
            return Err(FPPError::InvalidAmount);
        }
        proof {
            lemma_with_activity_keys(self.points@, point_ids@, false, point_ids@);
        }
        set_activity(&mut self.points, point_ids, &idxs, false);
        mark_spent(&mut self.nullifiers, nullifiers, now);
        let req = WithdrawalRequest {
            is_initialized: true,
            requester,
            amount,
            request_time: now,
            unlock_time: now + WITHDRAWAL_COOLDOWN,
            completed: false,
            cancelled: false,
            forfeited: false,
            points: copy_keys(point_ids),
        };
        let id = self.withdrawals.len();
        proof {
            lemma_held_total_push(self.withdrawals@, req);
            lemma_parked_request(old(self).points@, self.withdrawals@, req);
        }
        self.withdrawals.push(req);
        proof {
            assert(self.withdrawals@.take(id as int) =~= old(self).withdrawals@);
            assert forall|i: int| 0 <= i < self.withdrawals@.len() implies {
                &&& (#[trigger] self.withdrawals@[i]).wf()
                &&& keys_distinct(self.withdrawals@[i].points@)
            } by {
                if i < id as int {
                    assert(self.withdrawals@[i] == old(self).withdrawals@[i]);
                }
            }
        }
        Ok(id)
    }

    pub open spec fn cancel_error(&self, requester: [u8; 32], request_id: usize, permanent: bool)
        -> Option<FPPError>
    {
        if !self.state.is_initialized {
            Some(FPPError::AccountNotInitialized)
        } else if request_id >= self.withdrawals@.len() {
            Some(FPPError::InvalidAccount)
        } else if requester@ != self.withdrawals@[request_id as int].requester@ {
            Some(FPPError::Unauthorized)
        } else if self.withdrawals@[request_id as int].is_terminal() {
            Some(FPPError::Unauthorized)
        } else if !permanent && reactivation_error(self.points@, self.withdrawals@[request_id as int].points@) {
            Some(FPPError::InvalidCommitment)
        } else {
            None
        }
    }

    /// Ends a pending withdrawal request without paying out. With
    /// `permanent == false` its points become active again, keeping their
    /// original maturity lock; with `permanent == true` they stay inactive
    /// for good and their value is forfeited. No base asset moves either way.
    pub fn process_cancel_withdrawal(&mut self, requester: [u8; 32], request_id: usize, permanent: bool)
        -> (r: Result<(), FPPError>)
        requires
            old(self).wf(),
        ensures
            final(self).wf(),
            r is Err <==> old(self).cancel_error(requester, request_id, permanent) is Some,
            r matches Err(e) ==> {
                &&& Some(e) == old(self).cancel_error(requester, request_id, permanent)
                &&& *final(self) == *old(self)
            },
            r is Ok ==> Processor::cancel_done(*old(self), *final(self), request_id, permanent),
    {
        if !self.state.is_initialized {
            return Err(FPPError::AccountNotInitialized);
        }
        if request_id >= self.withdrawals.len() {
            return Err(FPPError::InvalidAccount);
        }
        if !keys_equal(&requester, &self.withdrawals[request_id].requester) {
            return Err(FPPError::Unauthorized);
        }
        if self.withdrawals[request_id].completed || self.withdrawals[request_id].cancelled {
            return Err(FPPError::Unauthorized);
        }
        let ghost req = self.withdrawals@[request_id as int];
        proof {
            lemma_parked_retire(self.points@, self.withdrawals@, request_id as int,
                WithdrawalRequest { cancelled: true, forfeited: permanent, ..req }, !permanent);
        }
        if !permanent {
            let idxs = match locate_inactive(&self.points, &self.withdrawals[request_id].points) {
                Some(idxs) => idxs,
                None => return Err(FPPError::InvalidCommitment),
            };
            proof {
                lemma_with_activity_keys(self.points@, req.points@, true, req.points@);
            }
            set_activity(&mut self.points, &self.withdrawals[request_id].points, &idxs, true);
        }
        proof {
            lemma_held_total_update(self.withdrawals@, request_id as int,
                WithdrawalRequest { cancelled: true, forfeited: permanent, ..req });
        }
        self.withdrawals[request_id].cancelled = true;
        self.withdrawals[request_id].forfeited = permanent;
        proof {
            assert forall|i: int| 0 <= i < self.withdrawals@.len() implies {
                &&& (#[trigger] self.withdrawals@[i]).wf()
                &&& keys_distinct(self.withdrawals@[i].points@)
            } by {
                if i != request_id as int {
                    assert(self.withdrawals@[i] == old(self).withdrawals@[i]);
                }
            }
            let v = WithdrawalRequest { cancelled: true, forfeited: permanent, ..req };
            assert(self.withdrawals@ =~= old(self).withdrawals@.update(request_id as int, v));
        }
        Ok(())
    }

    pub open spec fn complete_error(&self, requester: [u8; 32], request_id: usize, now: i64)
        -> Option<FPPError>
    {
        if !self.state.is_initialized {
            Some(FPPError::AccountNotInitialized)
        } else if request_id >= self.withdrawals@.len() {
            Some(FPPError::InvalidAccount)
        } else if requester@ != self.withdrawals@[request_id as int].requester@ {
            Some(FPPError::Unauthorized)
        } else if self.withdrawals@[request_id as int].is_terminal() {
            Some(FPPError::Unauthorized)
        } else if now < self.withdrawals@[request_id as int].unlock_time {
            Some(FPPError::WithdrawalNotReady)
        } else if self.state.total_withdrawn + self.withdrawals@[request_id as int].amount > u64::MAX {
            Some(FPPError::InvalidAmount)
        } else {
            None
        }
    }

    /// Settles a withdrawal request once its cooldown has passed: marks it
    /// completed, counts its amount as withdrawn and reports the payout.
    pub fn process_complete_withdrawal(&mut self, requester: [u8; 32], request_id: usize, now: i64)
        -> (r: Result<WithdrawalReceipt, FPPError>)
        requires
            old(self).wf(),
        ensures
            final(self).wf(),
            r is Err <==> old(self).complete_error(requester, request_id, now) is Some,
            r matches Err(e) ==> {
                &&& Some(e) == old(self).complete_error(requester, request_id, now)
                &&& *final(self) == *old(self)
            },
            r matches Ok(w) ==> Processor::complete_done(*old(self), *final(self), request_id, w),
    {
        if !self.state.is_initialized {
            return Err(FPPError::AccountNotInitialized);
        }
        if request_id >= self.withdrawals.len() {
            return Err(FPPError::InvalidAccount);
        }
        if !keys_equal(&requester, &self.withdrawals[request_id].requester) {
            return Err(FPPError::Unauthorized);
        }
        if self.withdrawals[request_id].completed || self.withdrawals[request_id].cancelled {
            return Err(FPPError::Unauthorized);
        }
        if now < self.withdrawals[request_id].unlock_time {
            return Err(FPPError::WithdrawalNotReady);
        }
        let amount = self.withdrawals[request_id].amount;
        let total_withdrawn = match self.state.total_withdrawn.checked_add(amount) {
            Some(t) => t,
            None => return Err(FPPError::InvalidAmount),
        };
        let (fee, net_amount) = compute_fee(amount, self.state.withdrawal_fee_rate);
        proof {
            let req = self.withdrawals@[request_id as int];
            lemma_held_total_update(self.withdrawals@, request_id as int,
                WithdrawalRequest { completed: true, ..req });
            lemma_parked_retire(self.points@, self.withdrawals@, request_id as int,
                WithdrawalRequest { completed: true, ..req }, false);
        }
        self.withdrawals[request_id].completed = true;
        self.state.total_withdrawn = total_withdrawn;
        proof {
            assert forall|i: int| 0 <= i < self.withdrawals@.len() implies {
                &&& (#[trigger] self.withdrawals@[i]).wf()
                &&& keys_distinct(self.withdrawals@[i].points@)
            } by {
                if i != request_id as int {
                    assert(self.withdrawals@[i] == old(self).withdrawals@[i]);
                }
            }
        }
        Ok(WithdrawalReceipt { amount, fee, net_amount })
    }

    /// The first failing check of `ix` under `inv`, if any.
    pub open spec fn instruction_error(&self, inv: &Invocation, ix: &FPPInstruction) -> Option<FPPError> {
        match ix {
            FPPInstruction::Initialize { deposit_fee_rate, withdrawal_fee_rate } =>
                self.initialize_error(*deposit_fee_rate, *withdrawal_fee_rate),
            FPPInstruction::Deposit { amount, commitments } =>
                self.deposit_error(*amount, commitments@, inv.now),
            FPPInstruction::PrivacyPayment { input_points, input_nullifiers, output_commitments, .. } =>
                self.payment_error(input_points@, input_nullifiers@, output_commitments@,
                    inv.proof_valid, inv.ring_signature_valid, inv.now),
            FPPInstruction::RequestWithdrawal { point_ids, nullifiers } =>
                self.request_error(point_ids@, nullifiers@, inv.now),
            FPPInstruction::CompleteWithdrawal { request_id } =>
                self.complete_error(inv.signer, *request_id, inv.now),
            FPPInstruction::CancelWithdrawal { request_id, permanent } =>
                self.cancel_error(inv.signer, *request_id, *permanent),
            FPPInstruction::UpdateFees { deposit_fee_rate, withdrawal_fee_rate } =>
                self.update_fees_error(inv.signer, *deposit_fee_rate, *withdrawal_fee_rate),
            FPPInstruction::SetPaused { .. } => self.admin_error(inv.signer),
        }
    }
}

/// Runs one instruction on `ledger`: each variant goes to the operation of
/// the same name, with the signer as authority, depositor, sender or requester.
pub fn process_instruction(ledger: &mut Processor, inv: &Invocation, ix: &FPPInstruction) -> (r: Result<Outcome, FPPError>)
    requires
        old(ledger).wf(),
    ensures
        final(ledger).wf(),
        r is Err <==> old(ledger).instruction_error(inv, ix) is Some,
        r matches Err(e) ==> {
            &&& Some(e) == old(ledger).instruction_error(inv, ix)
            &&& *final(ledger) == *old(ledger)
        },
        r matches Ok(o) ==> match ix {
            FPPInstruction::Initialize { deposit_fee_rate, withdrawal_fee_rate } => o == Outcome::Done
                && Processor::initialize_done(*old(ledger), *final(ledger), inv.signer, inv.treasury,
                inv.usdt_mint, *deposit_fee_rate, *withdrawal_fee_rate),
            FPPInstruction::Deposit { amount, commitments } => o matches Outcome::Deposited(d)
                && Processor::deposit_done(*old(ledger), *final(ledger), inv.signer, *amount, commitments@,
                inv.now, d),
            FPPInstruction::PrivacyPayment { input_points, input_nullifiers, output_commitments, .. } =>
                o == Outcome::Done && Processor::payment_done(*old(ledger), *final(ledger), inv.signer,
                input_points@, input_nullifiers@, output_commitments@, inv.now),
            FPPInstruction::RequestWithdrawal { point_ids, nullifiers } => o matches Outcome::Requested(id)
                && Processor::request_done(*old(ledger), *final(ledger), inv.signer, point_ids@,
                nullifiers@, inv.now, id),
            FPPInstruction::CompleteWithdrawal { request_id } => o matches Outcome::Withdrawn(w)
                && Processor::complete_done(*old(ledger), *final(ledger), *request_id, w),
            FPPInstruction::CancelWithdrawal { request_id, permanent } => o == Outcome::Done
                && Processor::cancel_done(*old(ledger), *final(ledger), *request_id, *permanent),
            FPPInstruction::UpdateFees { deposit_fee_rate, withdrawal_fee_rate } => o == Outcome::Done
                && Processor::fees_updated(*old(ledger), *final(ledger), *deposit_fee_rate,
                *withdrawal_fee_rate),
            FPPInstruction::SetPaused { paused } => o == Outcome::Done && Processor::pause_set(
                *old(ledger),
                *final(ledger),
                *paused,
            ),
        },
        r is Ok ==> Processor::used_records_kept(old(ledger).nullifiers@, final(ledger).nullifiers@),
{
    match ix {
        FPPInstruction::Initialize { deposit_fee_rate, withdrawal_fee_rate } => {
            match ledger.process_initialize(inv.signer, inv.treasury, inv.usdt_mint, *deposit_fee_rate, *withdrawal_fee_rate) {
                Ok(()) => Ok(Outcome::Done),
                Err(e) => Err(e),
            }
        },
        FPPInstruction::Deposit { amount, commitments } => {
            match ledger.process_deposit(inv.signer, *amount, commitments, inv.now) {
                Ok(d) => Ok(Outcome::Deposited(d)),
                Err(e) => Err(e),
            }
        },
        FPPInstruction::PrivacyPayment { input_points, input_nullifiers, output_commitments, .. } => {
            match ledger.process_privacy_payment(
                inv.signer,
                input_points,
                input_nullifiers,
                output_commitments,
                inv.proof_valid,
                inv.ring_signature_valid,
                inv.now,
            ) {
                Ok(()) => Ok(Outcome::Done),
                Err(e) => Err(e),
            }
        },
        FPPInstruction::RequestWithdrawal { point_ids, nullifiers } => {
            match ledger.process_request_withdrawal(inv.signer, point_ids, nullifiers, inv.now) {
                Ok(id) => Ok(Outcome::Requested(id)),
                Err(e) => Err(e),
            }
        },
        FPPInstruction::CompleteWithdrawal { request_id } => {
            match ledger.process_complete_withdrawal(inv.signer, *request_id, inv.now) {
                Ok(w) => Ok(Outcome::Withdrawn(w)),
                Err(e) => Err(e),
            }
        },
        FPPInstruction::CancelWithdrawal { request_id, permanent } => {
            match ledger.process_cancel_withdrawal(inv.signer, *request_id, *permanent) {
                Ok(()) => Ok(Outcome::Done),
                Err(e) => Err(e),
            }
        },
        FPPInstruction::UpdateFees { deposit_fee_rate, withdrawal_fee_rate } => {
            match ledger.process_update_fees(inv.signer, *deposit_fee_rate, *withdrawal_fee_rate) {
                Ok(()) => Ok(Outcome::Done),
                Err(e) => Err(e),
            }
        },
        FPPInstruction::SetPaused { paused } => {
            match ledger.process_set_paused(inv.signer, *paused) {
                Ok(()) => Ok(Outcome::Done),
                Err(e) => Err(e),
            }
        },
    }
}

} // verus!
