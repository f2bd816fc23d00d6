//! The system pallet: chain progression (block height) and per-account
//! transaction sequencing (nonces), independent of and with no knowledge
//! of balances.

use crate::render::{decimal_of, spec_decimal};
use crate::storage::AccountMap;
use crate::{AccountId, BlockNumber, Nonce};
use vstd::prelude::*;
use vstd::string::StringExecFns;

verus! {

/// The system pallet: the current block number and a table from account
/// identifier to nonce. An account without an entry holds nonce zero.
pub struct Pallet {
    block_number: BlockNumber,
    nonce: AccountMap<Nonce>,
}

/// One call of `inc_block_number`, as its contract states it: the height
/// grows by exactly one and no nonce moves.
pub open spec fn inc_block_number_step(pre: Pallet, post: Pallet) -> bool {
    &&& post.spec_block_number() == pre.spec_block_number() + 1
    &&& forall|b: Seq<char>| #[trigger] post.spec_nonce(b) == pre.spec_nonce(b)
}

/// One call of `inc_nonce(a)`, as its contract states it: the nonce of
/// `a` grows by exactly one, every other nonce and the height stay.
pub open spec fn inc_nonce_step(pre: Pallet, post: Pallet, a: Seq<char>) -> bool {
    &&& post.spec_nonce(a) == pre.spec_nonce(a) + 1
    &&& forall|b: Seq<char>| b != a ==> #[trigger] post.spec_nonce(b) == pre.spec_nonce(b)
    &&& post.spec_block_number() == pre.spec_block_number()
}

impl Pallet {
    /// The current height of the emulated chain.
    pub closed spec fn spec_block_number(&self) -> BlockNumber {
        self.block_number
    }

    /// The nonce of the account identified by `a`: zero when absent.
    pub closed spec fn spec_nonce(&self, a: Seq<char>) -> Nonce {
        match self.nonce.spec_get(a) {
            Some(v) => v,
            None => 0,
        }
    }

    /// A fresh system pallet: height zero and every nonce zero.
    pub fn new() -> (p: Pallet)
        ensures
            p.spec_block_number() == 0,
            forall|a: Seq<char>| #[trigger] p.spec_nonce(a) == 0,
    {
        Pallet { block_number: 0, nonce: AccountMap::new() }
    }

    /// The current block number. A pure read, it never fails.
    pub fn block_number(&self) -> (r: BlockNumber)
        ensures
            r == self.spec_block_number(),
    {
        self.block_number
    }

    /// Advances the stored height by exactly one. The height never wraps:
    /// the caller keeps it below the greatest representable block number.
    pub fn inc_block_number(&mut self)
        requires
            old(self).spec_block_number() < u32::MAX,
        ensures
            inc_block_number_step(*old(self), *final(self)),
    {
        self.block_number = self.block_number + 1;
    }

    /// The nonce of `who`, or zero if the account has no entry. A pure
    /// read, it never fails.
    pub fn nonce(&self, who: &AccountId) -> (r: Nonce)
        ensures
            r == self.spec_nonce(who@),
    {
        match self.nonce.get(who) {
            Some(v) => v,
            None => 0,
        }
    }

    /// Reads the current nonce of `who` (zero if absent) and stores that
    /// value plus one, overwriting any prior entry. The nonce never
    /// wraps: the caller keeps it below the greatest representable value.
    pub fn inc_nonce(&mut self, who: &AccountId)
        requires
            old(self).spec_nonce(who@) < u32::MAX,
        ensures
            inc_nonce_step(*old(self), *final(self), who@),
    {
        let current: Nonce = match self.nonce.get(who) {
            Some(v) => v,
            None => 0,
        };
        self.nonce.set(who, current + 1);
    }
}

/// The dump lines for the nonce entries of `s` from position `i` on: one
/// line per stored account, in storage order.
pub open spec fn spec_nonce_lines(s: Seq<(AccountId, Nonce)>, i: int) -> Seq<char>
    decreases s.len() - i,
{
    if i < 0 || i >= s.len() {
        Seq::empty()
    } else {
        "  nonce "@ + s[i].0@ + ": "@ + spec_decimal(s[i].1 as nat) + "\n"@ + spec_nonce_lines(
            s,
            i + 1,
        )
    }
}

impl Pallet {
    /// The stored nonce pairs, in the order the accounts first appeared.
    pub closed spec fn spec_entries(&self) -> Seq<(AccountId, Nonce)> {
        self.nonce.spec_entries()
    }

    /// The full rendering of this pallet's dump: the block number, then
    /// the nonce table.
    pub open spec fn spec_dump(&self) -> Seq<char> {
        "block_number: "@ + spec_decimal(self.spec_block_number() as nat) + "\n"@
            + spec_nonce_lines(self.spec_entries(), 0)
    }

    /// A human-readable dump of the block number and the nonce table: for
    /// inspection, not a stable machine-readable format.
    pub fn dump(&self) -> (r: String)
        ensures
            r@ == self.spec_dump(),
    {
        let mut out = String::new();
        out.append("block_number: ");
        let bn = decimal_of(self.block_number as u128);
        out.append(bn.as_str());
        out.append("\n");
        let n: usize = self.nonce.count();
        let mut i: usize = 0;
        while i < n
            invariant
                n == self.spec_entries().len(),
                i <= n,
                out@ + spec_nonce_lines(self.spec_entries(), i as int) == self.spec_dump(),
            decreases n - i,
        {
            let ghost prev: Seq<char> = out@;
            let e = self.nonce.entry_at(i);
            out.append("  nonce ");
            out.append(e.0.as_str());
            out.append(": ");
            let v = decimal_of(e.1 as u128);
            out.append(v.as_str());
            out.append("\n");
            proof {
                let s = self.spec_entries();
                assert(out@ =~= prev + ("  nonce "@ + s[i as int].0@ + ": "@ + spec_decimal(
                    s[i as int].1 as nat,
                ) + "\n"@));
                assert(out@ + spec_nonce_lines(s, i as int + 1) =~= prev + spec_nonce_lines(
                    s,
                    i as int,
                ));
            }
            i = i + 1;
        }
        proof {
            assert(out@ + spec_nonce_lines(self.spec_entries(), n as int) =~= out@);
        }
        out
    }
}

/// Law: in a history that starts fresh and advances only by `inc_nonce`
/// calls for the account `a`, after `k` calls the nonce of `a` is exactly
/// `k`, while the nonce of any other account `b` is still zero.
pub proof fn lemma_nonce_counts_calls(states: Seq<Pallet>, a: Seq<char>, b: Seq<char>)
    requires
        states.len() >= 1,
        forall|x: Seq<char>| #[trigger] states[0].spec_nonce(x) == 0,
        forall|i: int|
            0 <= i < states.len() - 1 ==> inc_nonce_step(states[i], #[trigger] states[i + 1], a),
        b != a,
    ensures
        states.last().spec_nonce(a) == states.len() - 1,
        states.last().spec_nonce(b) == 0,
    decreases states.len(),
{
    if states.len() > 1 {
        let prefix = states.drop_last();
        assert forall|i: int|
            0 <= i < prefix.len() - 1 implies inc_nonce_step(
            prefix[i],
            #[trigger] prefix[i + 1],
            a,
        ) by {
            assert(prefix[i] == states[i]);
            assert(prefix[i + 1] == states[i + 1]);
        }
        lemma_nonce_counts_calls(prefix, a, b);
        let n = states.len() - 1;
        assert(inc_nonce_step(states[n - 1], states[n], a));
        assert(prefix.last() == states[n - 1]);
    }
}

/// Law: in a history that starts fresh and advances only by
/// `inc_block_number` calls, after `k` calls the height is exactly `k`.
pub proof fn lemma_block_number_counts_calls(states: Seq<Pallet>)
    requires
        states.len() >= 1,
        states[0].spec_block_number() == 0,
        forall|i: int|
            0 <= i < states.len() - 1 ==> inc_block_number_step(states[i], #[trigger] states[i + 1]),
    ensures
        states.last().spec_block_number() == states.len() - 1,
    decreases states.len(),
{
    if states.len() > 1 {
        let prefix = states.drop_last();
        assert forall|i: int|
            0 <= i < prefix.len() - 1 implies inc_block_number_step(
            prefix[i],
            #[trigger] prefix[i + 1],
        ) by {
            assert(prefix[i] == states[i]);
            assert(prefix[i + 1] == states[i + 1]);
        }
        lemma_block_number_counts_calls(prefix);
        let n = states.len() - 1;
        assert(inc_block_number_step(states[n - 1], states[n]));
        assert(prefix.last() == states[n - 1]);
    }
}

} // verus!
