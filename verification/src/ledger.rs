use vstd::prelude::*;

use crate::account::AccountId;
use crate::allowances::AllowanceTable;
use crate::balances::BalanceTable;
use crate::errors::TokenError;

verus! {

/// Names the two persisted tables of the ledger. A host that lays the ledger
/// out in key-value storage gives each table an independent namespace keyed
/// by one of these tags.
#[derive(Clone, Copy, Debug, PartialEq, Eq, Structural)]
pub enum StorageKey {
    Balance,
    Allowed,
}

/// The fungible-token ledger: metadata fixed at creation, the recorded total
/// supply, and the two tables. Well-formedness ([`ERC20::wf`]) carries the
/// conservation invariant: the balances sum exactly to the total supply.
pub struct ERC20 {
    name: String,
    symbol: String,
    decimals: u8,
    total_supply: u128,
    balance: BalanceTable,
    allowed: AllowanceTable,
}

/// The display metadata of `post` is that of `pre`, unchanged.
pub open spec fn same_metadata(pre: ERC20, post: ERC20) -> bool {
    &&& post.spec_name() == pre.spec_name()
    &&& post.spec_symbol() == pre.spec_symbol()
    &&& post.spec_decimals() == pre.spec_decimals()
}

/// Every balance of `post` is that of `pre`, unchanged.
pub open spec fn balances_unchanged(pre: ERC20, post: ERC20) -> bool {
    forall|a: Seq<char>| (#[trigger] post.spec_balance_of(a)) == pre.spec_balance_of(a)
}

/// Every allowance of `post` is that of `pre`, unchanged.
pub open spec fn allowances_unchanged(pre: ERC20, post: ERC20) -> bool {
    forall|o: Seq<char>, p: Seq<char>|
        (#[trigger] post.spec_allowance(o, p)) == pre.spec_allowance(o, p)
}

/// `value` moved from `from` to `to` and no other balance changed. When
/// `from` and `to` coincide every balance is unchanged.
pub open spec fn balances_shifted(
    pre: ERC20,
    post: ERC20,
    from: Seq<char>,
    to: Seq<char>,
    value: u128,
) -> bool {
    forall|a: Seq<char>|
        (#[trigger] post.spec_balance_of(a)) as int == pre.spec_balance_of(a) as int - (
        if a == from {
            value as int
        } else {
            0
        }) + (if a == to {
            value as int
        } else {
            0
        })
}

/// A completed `transfer` call: `value` moved from `caller` to `to`, supply
/// and allowances untouched.
pub open spec fn transfer_applied(
    pre: ERC20,
    post: ERC20,
    caller: Seq<char>,
    to: Seq<char>,
    value: u128,
) -> bool {
    &&& pre.wf()
    &&& post.wf()
    &&& pre.spec_balance_of(caller) >= value
    &&& same_metadata(pre, post)
    &&& post.spec_total_supply() == pre.spec_total_supply()
    &&& balances_shifted(pre, post, caller, to, value)
    &&& allowances_unchanged(pre, post)
}

/// A completed `transfer_from` call: `value` moved from `from` to `to` and
/// the allowance of `caller` from `from` debited by `value`; supply and all
/// other allowances untouched.
pub open spec fn transfer_from_applied(
    pre: ERC20,
    post: ERC20,
    caller: Seq<char>,
    from: Seq<char>,
    to: Seq<char>,
    value: u128,
) -> bool {
    &&& pre.wf()
    &&& post.wf()
    &&& pre.spec_balance_of(from) >= value
    &&& pre.spec_allowance(from, caller) >= value
    &&& same_metadata(pre, post)
    &&& post.spec_total_supply() == pre.spec_total_supply()
    &&& balances_shifted(pre, post, from, to, value)
    &&& forall|o: Seq<char>, p: Seq<char>|
        (#[trigger] post.spec_allowance(o, p)) as int == pre.spec_allowance(o, p) as int - (
        if o == from && p == caller {
            value as int
        } else {
            0
        })
}

/// A completed `approve` call: the allowance of `spender` from `caller` is
/// now exactly `value` (overwritten, not added to); everything else
/// untouched.
pub open spec fn approve_applied(
    pre: ERC20,
    post: ERC20,
    caller: Seq<char>,
    spender: Seq<char>,
    value: u128,
) -> bool {
    &&& pre.wf()
    &&& post.wf()
    &&& same_metadata(pre, post)
    &&& post.spec_total_supply() == pre.spec_total_supply()
    &&& balances_unchanged(pre, post)
    &&& forall|o: Seq<char>, p: Seq<char>|
        (#[trigger] post.spec_allowance(o, p)) == if o == caller && p == spender {
            value
        } else {
            pre.spec_allowance(o, p)
        }
}

/// A completed `mint` call: `value` added to the balance of `to` and to the
/// total supply, atomically together.
pub open spec fn mint_applied(pre: ERC20, post: ERC20, to: Seq<char>, value: u128) -> bool {
    &&& pre.wf()
    &&& post.wf()
    &&& pre.spec_total_supply() + value <= u128::MAX
    &&& same_metadata(pre, post)
    &&& post.spec_total_supply() == pre.spec_total_supply() + value
    &&& forall|a: Seq<char>|
        (#[trigger] post.spec_balance_of(a)) as int == pre.spec_balance_of(a) as int + (
        if a == to {
            value as int
        } else {
            0
        })
    &&& allowances_unchanged(pre, post)
}

/// A completed `burn` call: `value` removed from the balance of `account`
/// and from the total supply, atomically together.
pub open spec fn burn_applied(pre: ERC20, post: ERC20, account: Seq<char>, value: u128) -> bool {
    &&& pre.wf()
    &&& post.wf()
    &&& value > 0
    &&& pre.spec_balance_of(account) >= value
    &&& same_metadata(pre, post)
    &&& post.spec_total_supply() == pre.spec_total_supply() - value
    &&& forall|a: Seq<char>|
        (#[trigger] post.spec_balance_of(a)) as int == pre.spec_balance_of(a) as int - (
        if a == account {
            value as int
        } else {
            0
        })
    &&& allowances_unchanged(pre, post)
}

impl ERC20 {
    /// Well-formedness: both tables are well formed and the balances sum
    /// exactly to the recorded total supply (conservation).
    pub closed spec fn wf(self) -> bool {
        &&& self.balance.wf()
        &&& self.allowed.wf()
        &&& self.balance.total() == self.total_supply as int
    }

    pub closed spec fn spec_name(self) -> Seq<char> {
        self.name@
    }

    pub closed spec fn spec_symbol(self) -> Seq<char> {
        self.symbol@
    }

    pub closed spec fn spec_decimals(self) -> u8 {
        self.decimals
    }

    pub closed spec fn spec_total_supply(self) -> u128 {
        self.total_supply
    }

    /// The balance held by account `a`, zero when `a` holds nothing.
    pub closed spec fn spec_balance_of(self, a: Seq<char>) -> u128 {
        self.balance.spec_get(a)
    }

    /// The remaining allowance of spender `p` from owner `o`, zero when none
    /// was approved.
    pub closed spec fn spec_allowance(self, o: Seq<char>, p: Seq<char>) -> u128 {
        self.allowed.spec_get(o, p)
    }

    /// The sum of all balances.
    pub closed spec fn spec_sum_balances(self) -> int {
        self.balance.total()
    }

    /// Conservation, stated on its own: in a well-formed ledger the balances
    /// sum exactly to the recorded total supply.
    pub proof fn lemma_supply_invariant(self)
        requires
            self.wf(),
        ensures
            self.spec_sum_balances() == self.spec_total_supply() as int,
    {
    }

    /// Creates the ledger, fixing its metadata, and records `total_supply`
    /// by minting it whole to `owner`, so that conservation holds from
    /// birth. No allowance is granted.
    pub fn init(name: String, symbol: String, decimals: u8, total_supply: u128, owner: AccountId) -> (r: ERC20)
        ensures
            r.wf(),
            r.spec_name() == name@,
            r.spec_symbol() == symbol@,
            r.spec_decimals() == decimals,
            r.spec_total_supply() == total_supply,
            forall|a: Seq<char>| (#[trigger] r.spec_balance_of(a)) == if a == owner@ {
                total_supply
            } else {
                0u128
            },
            forall|o: Seq<char>, p: Seq<char>| (#[trigger] r.spec_allowance(o, p)) == 0,
    {
        let mut balance = BalanceTable::new();
        balance.set(&owner, total_supply);
        ERC20 { name, symbol, decimals, total_supply, balance, allowed: AllowanceTable::new() }
    }

    /// The display name fixed at creation.
    pub fn name(&self) -> (r: &str)
        ensures
            r@ == self.spec_name(),
    {
        self.name.as_str()
    }

    /// The display symbol fixed at creation.
    pub fn symbol(&self) -> (r: &str)
        ensures
            r@ == self.spec_symbol(),
    {
        self.symbol.as_str()
    }

    /// The display-precision hint fixed at creation; purely cosmetic.
    pub fn decimals(&self) -> (r: u8)
        ensures
            r == self.spec_decimals(),
    {
        self.decimals
    }

    /// The current total supply.
    pub fn total_supply(&self) -> (r: u128)
        ensures
            r == self.spec_total_supply(),
    {
        self.total_supply
    }

    /// The balance of `account`, zero when it holds nothing. Never fails.
    pub fn balance_of(&self, account: AccountId) -> (r: u128)
        requires
            self.wf(),
        ensures
            r == self.spec_balance_of(account@),
    {
        self.balance.get(&account)
    }

    /// The amount `spender` may still move out of `owner`'s balance, zero
    /// when nothing was approved. Never fails.
    pub fn allowance(&self, owner: AccountId, spender: AccountId) -> (r: u128)
        requires
            self.wf(),
        ensures
            r == self.spec_allowance(owner@, spender@),
    {
        self.allowed.get(&owner, &spender)
    }

    /// Moves `value` from `caller` to `to`. Aborts with
    /// [`TokenError::InsufficientBalance`], writing nothing, when `caller`
    /// holds less than `value`; a transfer to oneself leaves every balance
    /// unchanged.
    pub fn transfer(&mut self, caller: AccountId, to: AccountId, value: u128) -> (r: Result<
        (),
        TokenError,
    >)
        requires
            old(self).wf(),
        ensures
            final(self).wf(),
            r == Ok::<(), TokenError>(()) <==> old(self).spec_balance_of(caller@) >= value,
            old(self).spec_balance_of(caller@) >= value ==> transfer_applied(
                *old(self),
                *final(self),
                caller@,
                to@,
                value,
            ),
            old(self).spec_balance_of(caller@) < value ==> r == Err::<(), TokenError>(
                TokenError::InsufficientBalance,
            ) && *final(self) == *old(self),
    {
        let caller_balance: u128 = self.balance.get(&caller);
        if caller_balance < value {
            return Err(TokenError::InsufficientBalance);
        }
        self.balance.set(&caller, caller_balance - value);
        let to_balance: u128 = self.balance.get(&to);
        proof {
            self.balance.lemma_value_le_total(to@);
        }
        self.balance.set(&to, to_balance + value);
        Ok(())
    }

    /// Moves `value` from `from` to `to`, debiting the allowance `caller`
    /// holds from `from`. Aborts, writing nothing, with
    /// [`TokenError::InsufficientBalance`] when `from` holds less than
    /// `value`, and otherwise with [`TokenError::InsufficientAllowance`] when
    /// the allowance is less than `value`.
    pub fn transfer_from(
        &mut self,
        caller: AccountId,
        from: AccountId,
        to: AccountId,
        value: u128,
    ) -> (r: Result<(), TokenError>)
        requires
            old(self).wf(),
        ensures
            final(self).wf(),
            r == Ok::<(), TokenError>(()) <==> (old(self).spec_balance_of(from@) >= value
                && old(self).spec_allowance(from@, caller@) >= value),
            old(self).spec_balance_of(from@) >= value && old(self).spec_allowance(from@, caller@)
                >= value ==> transfer_from_applied(
                *old(self),
                *final(self),
                caller@,
                from@,
                to@,
                value,
            ),
            old(self).spec_balance_of(from@) < value ==> r == Err::<(), TokenError>(
                TokenError::InsufficientBalance,
            ) && *final(self) == *old(self),
            old(self).spec_balance_of(from@) >= value && old(self).spec_allowance(from@, caller@)
                < value ==> r == Err::<(), TokenError>(TokenError::InsufficientAllowance)
                && *final(self) == *old(self),
    {
        let from_balance: u128 = self.balance.get(&from);
        if from_balance < value {
            return Err(TokenError::InsufficientBalance);
        }
        let granted: u128 = self.allowed.get(&from, &caller);
        if granted < value {
            return Err(TokenError::InsufficientAllowance);
        }
        self.allowed.set(&from, &caller, granted - value);
        self.balance.set(&from, from_balance - value);
        let to_balance: u128 = self.balance.get(&to);
        proof {
            self.balance.lemma_value_le_total(to@);
        }
        self.balance.set(&to, to_balance + value);
        Ok(())
    }

    /// Sets (overwrites, never adds to) the allowance of `spender` from
    /// `caller` to exactly `value`. Never fails.
    pub fn approve(&mut self, caller: AccountId, spender: AccountId, value: u128)
        requires
            old(self).wf(),
        ensures
            final(self).wf(),
            approve_applied(*old(self), *final(self), caller@, spender@, value),
    {
        self.allowed.set(&caller, &spender, value);
    }

    /// Adds `value` to the balance of `to` and to the total supply,
    /// atomically together. Aborts with [`TokenError::Overflow`], writing
    /// nothing, when the supply would leave the amount type's range. Who may
    /// mint is the host's policy, not checked here.
    pub fn mint(&mut self, to: AccountId, value: u128) -> (r: Result<(), TokenError>)
        requires
            old(self).wf(),
        ensures
            final(self).wf(),
            r == Ok::<(), TokenError>(()) <==> old(self).spec_total_supply() + value <= u128::MAX,
            old(self).spec_total_supply() + value <= u128::MAX ==> mint_applied(
                *old(self),
                *final(self),
                to@,
                value,
            ),
            old(self).spec_total_supply() + value > u128::MAX ==> r == Err::<(), TokenError>(
                TokenError::Overflow,
            ) && *final(self) == *old(self),
    {
        if value > u128::MAX - self.total_supply {
            return Err(TokenError::Overflow);
        }
        let to_balance: u128 = self.balance.get(&to);
        proof {
            self.balance.lemma_value_le_total(to@);
        }
        self.balance.set(&to, to_balance + value);
        self.total_supply = self.total_supply + value;
        Ok(())
    }

    /// Removes `value` from the balance of `account` and from the total
    /// supply, atomically together. Aborts, writing nothing, with
    /// [`TokenError::ZeroAmount`] when `value` is zero, and otherwise with
    /// [`TokenError::InsufficientBalance`] when `account` holds less than
    /// `value`.
    pub fn burn(&mut self, account: AccountId, value: u128) -> (r: Result<(), TokenError>)
        requires
            old(self).wf(),
        ensures
            final(self).wf(),
            r == Ok::<(), TokenError>(()) <==> (value > 0 && old(self).spec_balance_of(account@)
                >= value),
            value > 0 && old(self).spec_balance_of(account@) >= value ==> burn_applied(
                *old(self),
                *final(self),
                account@,
                value,
            ),
            value == 0 ==> r == Err::<(), TokenError>(TokenError::ZeroAmount) && *final(self)
                == *old(self),
            value > 0 && old(self).spec_balance_of(account@) < value ==> r == Err::<(), TokenError>(
                TokenError::InsufficientBalance,
            ) && *final(self) == *old(self),
    {
        if value == 0 {
            return Err(TokenError::ZeroAmount);
        }
        let held: u128 = self.balance.get(&account);
        if held < value {
            return Err(TokenError::InsufficientBalance);
        }
        proof {
            self.balance.lemma_value_le_total(account@);
        }
        self.balance.set(&account, held - value);
        self.total_supply = self.total_supply - value;
        Ok(())
    }
}

} // verus!
