//! Recovers the post-transfer token balances of a transfer's endpoints from
//! the raw storage writes and hash-preimage revelations of the call that
//! emitted it.
//!
//! `preimage::map_hashes_to_addresses` resolves storage slots to account
//! addresses from the call's keccak preimages; `balance::extract_balances_from_call`
//! then matches the call's storage writes against the transfer. Both are pure
//! functions of one call's data and keep no state between calls, so they may
//! run concurrently on independent calls without synchronisation.
pub mod balance;
pub mod decimal;
pub mod hex_text;
pub mod numeric;
pub mod preimage;
pub mod records;
pub mod trace;

pub use balance::{extract_balances_from_call, BalanceResult, StorageWrite, TransferEvent};
pub use preimage::{map_hashes_to_addresses, AddressIndex, PreimageRevelation};
pub use records::{Events, GrtTransfer, Transfer, Transfers};
pub use trace::CallTrace;
