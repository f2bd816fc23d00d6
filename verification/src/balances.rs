//! The ledger pallet: the authoritative record of account balances and
//! the only authority able to move value between accounts.

use crate::render::{decimal_of, spec_decimal};
use crate::storage::AccountMap;
use crate::{AccountId, Balance};
use vstd::prelude::*;
use vstd::string::StringExecFns;

verus! {

/// Why a `transfer` was refused. Either way the ledger is left unchanged.
#[derive(Clone, Copy, Debug, PartialEq, Eq, Structural)]
pub enum TransferError {
    /// The sender's balance is less than the requested amount.
    InsufficientBalance,
    /// Crediting the receiver would pass the greatest representable
    /// balance.
    Overflow,
}

impl TransferError {
    /// A short human-readable description of the error.
    pub fn message(&self) -> (r: String)
        ensures
            *self is InsufficientBalance ==> r@ == "insufficient balance"@,
            *self is Overflow ==> r@ == "balance overflow"@,
    {
        match self {
            TransferError::InsufficientBalance => "insufficient balance".to_string(),
            TransferError::Overflow => "balance overflow".to_string(),
        }
    }
}

/// The ledger pallet: a table from account identifier to balance. An
/// account without an entry holds the implicit balance zero.
pub struct Pallet {
    balances: AccountMap<Balance>,
}

/// One call of `set_balance(who, amount)`, as its contract states it:
/// `who` now holds exactly `amount` and every other account is untouched.
pub open spec fn set_balance_step(
    pre: Pallet,
    post: Pallet,
    who: Seq<char>,
    amount: Balance,
) -> bool {
    &&& post.spec_balance(who) == amount
    &&& forall|b: Seq<char>| b != who ==> #[trigger] post.spec_balance(b) == pre.spec_balance(b)
}

/// What any call of `transfer(from, to, amount)` does to the accounts it
/// does not name: nothing, whether the call succeeded or failed.
pub open spec fn transfer_frame(pre: Pallet, post: Pallet, from: Seq<char>, to: Seq<char>) -> bool {
    forall|b: Seq<char>|
        b != from && b != to ==> #[trigger] post.spec_balance(b) == pre.spec_balance(b)
}

impl Pallet {
    /// The balance of the account identified by `a`: zero when absent.
    pub closed spec fn spec_balance(&self, a: Seq<char>) -> Balance {
        match self.balances.spec_get(a) {
            Some(v) => v,
            None => 0,
        }
    }

    /// A fresh ledger: every account holds zero.
    pub fn new() -> (p: Pallet)
        ensures
            forall|a: Seq<char>| #[trigger] p.spec_balance(a) == 0,
    {
        Pallet { balances: AccountMap::new() }
    }

    /// The stored balance of `who`, or zero if the account has no entry.
    /// A pure read: it never fails and never changes the ledger.
    pub fn balance(&self, who: &AccountId) -> (r: Balance)
        ensures
            r == self.spec_balance(who@),
    {
        match self.balances.get(who) {
            Some(v) => v,
            None => 0,
        }
    }

    /// Unconditionally overwrites the stored balance of `who` with
    /// `amount`. No validation and no error: meant for initialization
    /// (genesis), it bypasses the checks that `transfer` makes.
    pub fn set_balance(&mut self, who: &AccountId, amount: Balance)
        ensures
            set_balance_step(*old(self), *final(self), who@, amount),
    {
        self.balances.set(who, amount);
    }

    /// Moves `amount` from `caller` to `to`, all or nothing.
    ///
    /// The call fails with `InsufficientBalance` exactly when `caller`
    /// holds less than `amount`, and with `Overflow` exactly when
    /// crediting a distinct receiver would pass the greatest representable
    /// balance; on either error the ledger is byte-for-byte unchanged. On
    /// success the debit and the credit are both applied, total value is
    /// conserved, and a transfer from an account to itself leaves its
    /// balance as it was.
    pub fn transfer(&mut self, caller: AccountId, to: AccountId, amount: Balance) -> (r: Result<
        (),
        TransferError,
    >)
        ensures
            r is Ok <==> amount <= old(self).spec_balance(caller@) && (caller@ == to@ || old(
                self,
            ).spec_balance(to@) + amount <= u128::MAX),
            r == Err::<(), TransferError>(TransferError::InsufficientBalance) <==> old(
                self,
            ).spec_balance(caller@) < amount,
            r == Err::<(), TransferError>(TransferError::Overflow) <==> amount <= old(
                self,
            ).spec_balance(caller@) && caller@ != to@ && old(self).spec_balance(to@) + amount
                > u128::MAX,
            r is Ok && caller@ != to@ ==> final(self).spec_balance(caller@) == old(
                self,
            ).spec_balance(caller@) - amount,
            r is Ok && caller@ != to@ ==> final(self).spec_balance(to@) == old(self).spec_balance(
                to@,
            ) + amount,
            r is Ok && caller@ == to@ ==> final(self).spec_balance(caller@) == old(
                self,
            ).spec_balance(caller@),
            r is Ok ==> final(self).spec_balance(caller@) + final(self).spec_balance(to@) == old(
                self,
            ).spec_balance(caller@) + old(self).spec_balance(to@),
            transfer_frame(*old(self), *final(self), caller@, to@),
            r is Err ==> *final(self) == *old(self),
    {
        let caller_balance: Balance = self.balance(&caller);
        if caller_balance < amount {
            return Err(TransferError::InsufficientBalance);
        }
        let new_caller_balance: Balance = caller_balance - amount;
        let to_balance: Balance = if caller == to {
            new_caller_balance
        } else {
            self.balance(&to)
        };
        if to_balance > u128::MAX - amount {
            return Err(TransferError::Overflow);
        }
        let new_to_balance: Balance = to_balance + amount;
        self.set_balance(&caller, new_caller_balance);
        self.set_balance(&to, new_to_balance);
        Ok(())
    }
}

/// The dump lines for the balance entries of `s` from position `i` on:
/// one line per stored account, in storage order.
pub open spec fn spec_balance_lines(s: Seq<(AccountId, Balance)>, i: int) -> Seq<char>
    decreases s.len() - i,
{
    if i < 0 || i >= s.len() {
        Seq::empty()
    } else {
        "  balance "@ + s[i].0@ + ": "@ + spec_decimal(s[i].1 as nat) + "\n"@
            + spec_balance_lines(s, i + 1)
    }
}

impl Pallet {
    /// The stored balance pairs, in the order the accounts first appeared.
    pub closed spec fn spec_entries(&self) -> Seq<(AccountId, Balance)> {
        self.balances.spec_entries()
    }

    /// The full rendering of this pallet's dump.
    pub open spec fn spec_dump(&self) -> Seq<char> {
        spec_balance_lines(self.spec_entries(), 0)
    }

    /// A human-readable dump of the balance table, one line per stored
    /// account: for inspection, not a stable machine-readable format.
    pub fn dump(&self) -> (r: String)
        ensures
            r@ == self.spec_dump(),
    {
        let mut out = String::new();
        let n: usize = self.balances.count();
        let mut i: usize = 0;
        while i < n
            invariant
                n == self.spec_entries().len(),
                i <= n,
                out@ + spec_balance_lines(self.spec_entries(), i as int) == self.spec_dump(),
            decreases n - i,
        {
            let ghost prev: Seq<char> = out@;
            let e = self.balances.entry_at(i);
            out.append("  balance ");
            out.append(e.0.as_str());
            out.append(": ");
            let v = decimal_of(e.1);
            out.append(v.as_str());
            out.append("\n");
            proof {
                let s = self.spec_entries();
                assert(out@ =~= prev + ("  balance "@ + s[i as int].0@ + ": "@ + spec_decimal(
                    s[i as int].1 as nat,
                ) + "\n"@));
                assert(out@ + spec_balance_lines(s, i as int + 1) =~= prev + spec_balance_lines(
                    s,
                    i as int,
                ));
            }
            i = i + 1;
        }
        proof {
            assert(out@ + spec_balance_lines(self.spec_entries(), n as int) =~= out@);
        }
        out
    }
}

/// A ledger step that leaves the account `a` unnamed: a `set_balance` on
/// some other account, or a `transfer` between accounts other than `a`.
pub open spec fn step_avoiding(pre: Pallet, post: Pallet, a: Seq<char>) -> bool {
    ||| exists|who: Seq<char>, amount: Balance|
        who != a && #[trigger] set_balance_step(pre, post, who, amount)
    ||| exists|from: Seq<char>, to: Seq<char>|
        from != a && to != a && #[trigger] transfer_frame(pre, post, from, to)
}

/// Law: an account that no operation of a ledger history names holds zero,
/// as it did in the fresh ledger. The history starts fresh and advances by
/// `set_balance` and `transfer` calls that never name `a`.
pub proof fn lemma_untouched_account_is_zero(states: Seq<Pallet>, a: Seq<char>)
    requires
        states.len() >= 1,
        forall|x: Seq<char>| #[trigger] states[0].spec_balance(x) == 0,
        forall|i: int|
            0 <= i < states.len() - 1 ==> step_avoiding(states[i], #[trigger] states[i + 1], a),
    ensures
        states.last().spec_balance(a) == 0,
    decreases states.len(),
{
    if states.len() > 1 {
        let prefix = states.drop_last();
        assert forall|i: int|
            0 <= i < prefix.len() - 1 implies step_avoiding(
            prefix[i],
            #[trigger] prefix[i + 1],
            a,
        ) by {
            assert(prefix[i] == states[i]);
            assert(prefix[i + 1] == states[i + 1]);
        }
        lemma_untouched_account_is_zero(prefix, a);
        let i = states.len() - 2;
        let pre = states[i];
        let post = states[i + 1];
        assert(step_avoiding(pre, post, a));
        assert(post.spec_balance(a) == pre.spec_balance(a)) by {
            if exists|who: Seq<char>, amount: Balance|
                who != a && #[trigger] set_balance_step(pre, post, who, amount) {
                let (who, amount) = choose|who: Seq<char>, amount: Balance|
                    who != a && #[trigger] set_balance_step(pre, post, who, amount);
            } else {
                let (from, to) = choose|from: Seq<char>, to: Seq<char>|
                    from != a && to != a && #[trigger] transfer_frame(pre, post, from, to);
            }
        }
        assert(prefix.last() == pre);
        assert(states.last() == post);
    }
}

} // verus!
