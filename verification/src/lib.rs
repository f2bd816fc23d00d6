//! A single-node ledger built as a deterministic state-transition engine.
//!
//! The state is split into independent modules ("pallets"): the ledger
//! pallet owns the account balances, the system pallet owns the chain
//! height and the per-account transaction counters (nonces). The
//! [`Runtime`] composes exactly one instance of each pallet; a driver
//! holds the runtime mutably and sequences the operations itself, since
//! no pallet ever triggers another pallet's mutation.
//!
//! The configuration contract — which account, balance, block-number and
//! nonce types every pallet shares — is fixed once, as the type aliases
//! below; every pallet of one runtime speaks of the same types.

use vstd::prelude::*;
use vstd::string::StringExecFns;

pub mod balances;
pub mod render;
pub mod storage;
pub mod system;

verus! {

/// The identity of a ledger participant.
pub type AccountId = String;

/// The amount of value an account holds.
pub type Balance = u128;

/// The height of the emulated chain.
pub type BlockNumber = u32;

/// The count of transactions an account has made.
pub type Nonce = u32;

/// The composed state container: one system pallet and one ledger pallet,
/// owned exclusively, created once at process start and mutated in place
/// by the driver for the lifetime of the process.
pub struct Runtime {
    /// Chain height and per-account transaction counters.
    pub system: system::Pallet,
    /// Account balances.
    pub balances: balances::Pallet,
}

impl Runtime {
    /// A fresh runtime: height zero, every nonce zero, every balance zero.
    pub fn new() -> (r: Runtime)
        ensures
            r.system.spec_block_number() == 0,
            forall|a: Seq<char>| #[trigger] r.system.spec_nonce(a) == 0,
            forall|a: Seq<char>| #[trigger] r.balances.spec_balance(a) == 0,
    {
        Runtime { system: system::Pallet::new(), balances: balances::Pallet::new() }
    }

    /// A human-readable dump of the full runtime state, for inspection
    /// only: the block number, then every stored nonce, then every stored
    /// balance.
    pub fn dump(&self) -> (r: String)
        ensures
            r@ == self.system.spec_dump() + self.balances.spec_dump(),
    {
        let mut out = self.system.dump();
        let b = self.balances.dump();
        out.append(b.as_str());
        out
    }
}

} // verus!
