//! What the execution trace records of one call.
use crate::balance::StorageWrite;
use crate::preimage::PreimageRevelation;
use vstd::prelude::*;

verus! {

/// The storage writes and keccak preimage revelations of one call, each in
/// trace order.
pub struct CallTrace {
    pub storage_changes: Vec<StorageWrite>,
    pub keccak_preimages: Vec<PreimageRevelation>,
}

} // verus!
