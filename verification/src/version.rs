use vstd::prelude::*;

verus! {

/// The storage layout version this code reads and writes.
pub const CONTRACT_VERSION: u32 = 1;

/// The contract's storage layout version. It reads no ledger state, so it
/// answers before the contract is initialised.
pub fn contract_version() -> (v: u32)
    ensures
        v == CONTRACT_VERSION,
{
    CONTRACT_VERSION
}

} // verus!
