mod bytes;
mod errors;
mod escrow;
mod events;
mod executor;
mod hashing;
mod hex_str;
mod ids;
mod kvmap;

pub use errors::EscrowError;
pub use escrow::{
    escrow_account_of, lemma_escrows_are_independent, lemma_settlement_is_final, namespace_tag,
    Deposit, EscrowLedger,
};
pub use events::{Event, EventModel, EventSink};
pub use executor::{
    apply_transfer, balance_in, can_transfer, lemma_transfer_touches_only_endpoints,
    TransferExecutor,
};
pub use hashing::{
    blake2_256_of, commit, commitment_of, lemma_commit_binds_concatenation,
    lemma_commit_deterministic, Puzzle,
};
pub use hex_str::{hex_of, is_lower_hex_char};
pub use ids::{AccountId, Commitment};
