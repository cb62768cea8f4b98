//! Accounting core of a shielded value-transfer protocol: deposits mint
//! commitments, privacy payments consume nullifiers and move mass inside the
//! shielded pool, and withdrawals leave it through a timelocked request.

pub mod error;
pub mod state;
pub mod instruction;
pub mod ledger;
pub mod processor;
pub mod guarantees;

pub use error::FPPError;
pub use instruction::{FPPInstruction, Invocation};
pub use processor::{process_instruction, DepositReceipt, Outcome, Processor, WithdrawalReceipt};
pub use state::{FloatingPoint, NullifierSet, ProtocolState, WithdrawalRequest};
