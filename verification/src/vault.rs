//! The vault engine: share accounting under proportional-ownership pricing.
//!
//! `DefyVault` is the persisted configuration and ledger of one vault
//! instance, modeled as an explicit state value.  Everything the engine
//! learns from the outside — the pool's current asset balance, the fact that
//! a caller authenticated — arrives as a plain argument, and everything the
//! engine asks the outside to do — move assets, publish an event — leaves as
//! a plain return value.  The host around the engine performs
//! authentication before calling and carries out the returned transfer and
//! event; the accounting itself is verified here.

use vstd::prelude::*;
use vstd::arithmetic::div_mod::lemma_div_pos_is_pos;
use vstd::arithmetic::mul::lemma_mul_nonnegative;
use crate::account::Address;
use crate::ledger::{
    keys_unique, lookup, sum_values, lemma_lookup_absent, lemma_lookup_at_index,
    lemma_lookup_update, lemma_lookup_push_fresh, lemma_sum_update, lemma_sum_push,
    lemma_lookup_le_sum,
};

verus! {

/// Fixed-point scale for the price-per-share view: one unit of price is
/// `1 / SCALE` assets per share.
pub const SCALE: i128 = 1_000_000;

/// Basis-point denominator for the deposit fee.
pub const BPS_DENOM: i128 = 10_000;

/// Everything a vault operation can reject.
#[derive(Clone, Copy, PartialEq, Eq, Structural, Debug)]
pub enum Error {
    /// A non-positive amount or share count was passed to `deposit` or `withdraw`.
    ZeroAmount,
    /// A redemption asked for more shares than the holder or the pool has.
    InsufficientShares,
    /// `init` was called on an already-initialized vault.
    AlreadyInitialized,
    /// A privileged operation was attempted by someone other than the admin.
    NotAdmin,
    /// A deposit or withdrawal was attempted while the vault is paused.
    Paused,
    /// A sweep was attempted by someone who is neither rebalancer nor admin.
    NotRebal,
}

/// The deposit fee, floored: `amount * fee_bps / 10_000`.
pub open spec fn spec_fee(amount: int, fee_bps: int) -> int {
    amount * fee_bps / (BPS_DENOM as int)
}

/// What actually enters the pool from a deposit of `amount`: the amount less
/// the fee, which stays with the depositor.
pub open spec fn spec_net(amount: int, fee_bps: int) -> int {
    amount - spec_fee(amount, fee_bps)
}

/// Shares minted for a net deposit of `net` against a pool of `total_shares`
/// outstanding shares and `total_assets_before` assets (before the deposit
/// arrives): 1:1 bootstrap pricing on an empty pool, else proportional,
/// floored.
pub open spec fn spec_mint(net: int, total_shares: int, total_assets_before: int) -> int {
    if total_shares == 0 {
        net
    } else {
        net * total_shares / total_assets_before
    }
}

/// Assets paid out for burning `shares` against a pool of `total_assets`
/// assets and `total_shares` outstanding shares: proportional, floored.
pub open spec fn spec_amount_out(shares: int, total_assets: int, total_shares: int) -> int {
    shares * total_assets / total_shares
}

/// The scaled price per share: `SCALE` on an empty pool (1 unit = 1 share),
/// else `total_assets * SCALE / total_shares`, floored.
pub open spec fn spec_price_per_share(total_assets: int, total_shares: int) -> int {
    if total_shares == 0 {
        SCALE as int
    } else {
        total_assets * (SCALE as int) / total_shares
    }
}

/// Shares minted for a deposit of `amount` net units: 1:1 when the pool has
/// no outstanding shares, else proportional to the pool, floored.
pub fn calc_shares_for_deposit(amount: i128, total_shares: i128, total_assets_before: i128) -> (r:
    i128)
    requires
        amount >= 0,
        total_shares >= 0,
        total_shares != 0 ==> total_assets_before > 0,
        amount * total_shares <= i128::MAX,
    ensures
        r == spec_mint(amount as int, total_shares as int, total_assets_before as int),
{
    if total_shares == 0 {
        return amount;
    }
    (amount * total_shares) / total_assets_before
}

/// Announced after a deposit: `to` was credited `shares` shares for `net`
/// units that entered the pool.
#[derive(Clone, Copy, PartialEq, Eq, Structural, Debug)]
pub struct DepositEvent {
    pub to: Address,
    pub net: i128,
    pub shares: i128,
}

/// Announced after a withdrawal: `shares` shares were burned and `amount`
/// units left the pool toward `to`.
#[derive(Clone, Copy, PartialEq, Eq, Structural, Debug)]
pub struct WithdrawEvent {
    pub to: Address,
    pub shares: i128,
    pub amount: i128,
}

/// Announced after a sweep: `amount` units left the pool toward `to` with no
/// share accounting change.
#[derive(Clone, Copy, PartialEq, Eq, Structural, Debug)]
pub struct SweepEvent {
    pub to: Address,
    pub amount: i128,
}

/// One vault instance: its configuration and its share ledger.
///
/// The pool's asset holdings live with the external asset ledger, never
/// here; operations that need them take the externally read balance as an
/// argument.
pub struct DefyVault {
    /// Whether `init` has run; before that, every field is a placeholder.
    pub initialized: bool,
    /// Identifier of the base fungible asset.  Immutable after `init`.
    pub asset: Address,
    /// Identity with unrestricted privileged rights.  Immutable after `init`.
    pub admin: Address,
    /// Optional identity with sweep rights.  Set only at `init`.
    pub rebalancer: Option<Address>,
    /// Basis points deducted from each deposit.  Mutable by the admin.
    pub fee_bps: u32,
    /// When true, deposits and withdrawals are rejected.
    pub paused: bool,
    /// Sum of all account balances.
    pub total_shares: i128,
    /// Share count per account; absent accounts hold zero.
    pub balances: Vec<(Address, i128)>,
}

/// The two states agree on everything but the share ledger.
pub open spec fn same_config(pre: DefyVault, post: DefyVault) -> bool {
    &&& post.initialized == pre.initialized
    &&& post.asset == pre.asset
    &&& post.admin == pre.admin
    &&& post.rebalancer == pre.rebalancer
    &&& post.fee_bps == pre.fee_bps
    &&& post.paused == pre.paused
}

impl DefyVault {
    /// The ledger invariant: unique account entries, no negative balance,
    /// and the outstanding total is exactly the sum of the balances.  An
    /// uninitialized vault is empty and unpaused with a zero fee.
    pub open spec fn wf(self) -> bool {
        &&& keys_unique(self.balances@)
        &&& (forall|i: int|
            0 <= i < self.balances@.len() ==> (#[trigger] self.balances@[i]).1 >= 0)
        &&& self.total_shares as int == sum_values(self.balances@)
        &&& self.total_shares >= 0
        &&& (!self.initialized ==> self.balances@.len() == 0 && self.fee_bps == 0
            && !self.paused && self.rebalancer is None)
    }

    /// The share balance of `a`: the ledger entry, or zero if absent.
    pub open spec fn spec_balance_of(self, a: Address) -> int {
        match lookup(self.balances@, a) {
            Some(b) => b as int,
            None => 0,
        }
    }

    /// Who may sweep: the admin always, the rebalancer if one was set.
    pub open spec fn spec_is_rebal(self, who: Address) -> bool {
        who == self.admin || self.rebalancer == Some(who)
    }

    /// A fresh, uninitialized vault.
    pub fn new() -> (r: DefyVault)
        ensures
            r.wf(),
            !r.initialized,
            r.total_shares == 0,
    {
        DefyVault {
            initialized: false,
            asset: Address(0),
            admin: Address(0),
            rebalancer: None,
            fee_bps: 0,
            paused: false,
            total_shares: 0,
            balances: Vec::new(),
        }
    }

    /// The index of `a`'s ledger entry, if it has one.
    fn find_index(&self, a: Address) -> (r: Option<usize>)
        ensures
            match r {
                Some(i) => i < self.balances@.len() && self.balances@[i as int].0 == a,
                None => forall|i: int|
                    0 <= i < self.balances@.len() ==> (#[trigger] self.balances@[i]).0 != a,
            },
    {
        let mut i: usize = 0;
        while i < self.balances.len()
            invariant
                i <= self.balances.len(),
                forall|j: int| 0 <= j < i ==> (#[trigger] self.balances@[j]).0 != a,
            decreases self.balances.len() - i,
        {
            if self.balances[i].0 == a {
                return Some(i);
            }
            i = i + 1;
        }
        None
    }

    /// Add `amount` shares to `to`'s balance and to the outstanding total.
    fn credit(&mut self, to: Address, amount: i128)
        requires
            old(self).wf(),
            old(self).initialized,
            amount >= 0,
            old(self).total_shares + amount <= i128::MAX,
        ensures
            final(self).wf(),
            same_config(*old(self), *final(self)),
            final(self).total_shares == old(self).total_shares + amount,
            final(self).spec_balance_of(to) == old(self).spec_balance_of(to) + amount,
            forall|a: Address|
                a != to ==> final(self).spec_balance_of(a) == old(self).spec_balance_of(a),
    {
        let ghost s0 = self.balances@;
        match self.find_index(to) {
            Some(i) => {
                let b = self.balances[i].1;
                proof {
                    lemma_lookup_at_index(s0, i as int);
                    lemma_lookup_le_sum(s0, to, b);
                }
                self.balances.set(i, (to, b + amount));
                proof {
                    lemma_sum_update(s0, i as int, (b + amount) as i128);
                    assert forall|a: Address|
                        lookup(self.balances@, a) == (if a == to {
                            Some((b + amount) as i128)
                        } else {
                            lookup(s0, a)
                        }) && keys_unique(self.balances@) by {
                        lemma_lookup_update(s0, i as int, (b + amount) as i128, a);
                    }
                }
            },
            None => {
                proof {
                    lemma_lookup_absent(s0, to);
                }
                self.balances.push((to, amount));
                proof {
                    lemma_sum_push(s0, to, amount);
                    assert forall|a: Address|
                        lookup(self.balances@, a) == (if a == to {
                            Some(amount)
                        } else {
                            lookup(s0, a)
                        }) && keys_unique(self.balances@) by {
                        lemma_lookup_push_fresh(s0, to, amount, a);
                    }
                }
            },
        }
        self.total_shares = self.total_shares + amount;
    }

    /// Remove `amount` shares from `owner`'s balance and from the
    /// outstanding total.
    fn debit(&mut self, owner: Address, amount: i128)
        requires
            old(self).wf(),
            old(self).initialized,
            0 < amount,
            amount <= old(self).spec_balance_of(owner),
        ensures
            final(self).wf(),
            same_config(*old(self), *final(self)),
            final(self).total_shares == old(self).total_shares - amount,
            final(self).spec_balance_of(owner) == old(self).spec_balance_of(owner) - amount,
            forall|a: Address|
                a != owner ==> final(self).spec_balance_of(a) == old(self).spec_balance_of(a),
    {
        let ghost s0 = self.balances@;
        match self.find_index(owner) {
            Some(i) => {
                let b = self.balances[i].1;
                proof {
                    lemma_lookup_at_index(s0, i as int);
                    lemma_lookup_le_sum(s0, owner, b);
                }
                self.balances.set(i, (owner, b - amount));
                self.total_shares = self.total_shares - amount;
                proof {
                    lemma_sum_update(s0, i as int, (b - amount) as i128);
                    assert forall|a: Address|
                        lookup(self.balances@, a) == (if a == owner {
                            Some((b - amount) as i128)
                        } else {
                            lookup(s0, a)
                        }) && keys_unique(self.balances@) by {
                        lemma_lookup_update(s0, i as int, (b - amount) as i128, a);
                    }
                }
            },
            None => {
                proof {
                    lemma_lookup_absent(s0, owner);
                }
                vstd::pervasive::unreached()
            },
        }
    }

    /// Set up the vault: base asset, admin, optional rebalancer, fee rate.
    /// No authorization is checked here: whoever reaches an uninitialized
    /// vault first establishes its admin, a trust boundary left to
    /// deployment controls.
    pub fn init(
        &mut self,
        asset: Address,
        admin: Address,
        rebalancer: Option<Address>,
        fee_bps: u32,
    ) -> (r: Result<(), Error>)
        requires
            old(self).wf(),
        ensures
            final(self).wf(),
            old(self).initialized ==> (r matches Err(e) && e == Error::AlreadyInitialized
                && *final(self) == *old(self)),
            !old(self).initialized ==> r is Ok && final(self).initialized
                && final(self).asset == asset && final(self).admin == admin
                && final(self).rebalancer == rebalancer && final(self).fee_bps == fee_bps
                && !final(self).paused && final(self).total_shares == 0
                && final(self).balances@.len() == 0,
    {
        if self.initialized {
            return Err(Error::AlreadyInitialized);
        }
        self.initialized = true;
        self.asset = asset;
        self.admin = admin;
        self.rebalancer = rebalancer;
        self.fee_bps = fee_bps;
        self.total_shares = 0;
        self.paused = false;
        Ok(())
    }

    /// The base asset identifier.
    pub fn base_asset(&self) -> (r: Address)
        requires
            self.initialized,
        ensures
            r == self.asset,
    {
        self.asset
    }

    /// The current fee rate in basis points.
    pub fn fee_bps(&self) -> (r: u32)
        ensures
            r == self.fee_bps,
    {
        self.fee_bps
    }

    /// The outstanding share total.
    pub fn total_shares(&self) -> (r: i128)
        ensures
            r == self.total_shares,
    {
        self.total_shares
    }

    /// The share balance of `owner`, zero for unknown accounts.
    pub fn balance_of(&self, owner: Address) -> (r: i128)
        requires
            self.wf(),
        ensures
            r as int == self.spec_balance_of(owner),
    {
        match self.find_index(owner) {
            Some(i) => {
                proof {
                    lemma_lookup_at_index(self.balances@, i as int);
                }
                self.balances[i].1
            },
            None => {
                proof {
                    lemma_lookup_absent(self.balances@, owner);
                }
                0
            },
        }
    }

    /// The scaled price per share, given the pool's externally read asset
    /// balance.
    pub fn price_per_share_scaled(&self, total_assets: i128) -> (r: i128)
        requires
            self.wf(),
            total_assets >= 0,
            self.total_shares > 0 ==> total_assets * SCALE <= i128::MAX,
        ensures
            r as int == spec_price_per_share(total_assets as int, self.total_shares as int),
    {
        let ts = self.total_shares;
        if ts == 0 {
            return SCALE;
        }
        proof {
            lemma_mul_nonnegative(total_assets as int, SCALE as int);
            lemma_div_pos_is_pos(total_assets * (SCALE as int), ts as int);
        }
        (total_assets * SCALE) / ts
    }

    /// Change the fee rate.  Admin only.
    pub fn set_fee_bps(&mut self, caller: Address, new_fee_bps: u32) -> (r: Result<(), Error>)
        requires
            old(self).wf(),
            old(self).initialized,
        ensures
            final(self).wf(),
            caller != old(self).admin ==> (r matches Err(e) && e == Error::NotAdmin
                && *final(self) == *old(self)),
            caller == old(self).admin ==> r is Ok
                && *final(self) == (DefyVault { fee_bps: new_fee_bps, ..*old(self) }),
    {
        if caller != self.admin {
            return Err(Error::NotAdmin);
        }
        self.fee_bps = new_fee_bps;
        Ok(())
    }

    /// Stop deposits and withdrawals.  Admin only.
    pub fn pause(&mut self, caller: Address) -> (r: Result<(), Error>)
        requires
            old(self).wf(),
            old(self).initialized,
        ensures
            final(self).wf(),
            caller != old(self).admin ==> (r matches Err(e) && e == Error::NotAdmin
                && *final(self) == *old(self)),
            caller == old(self).admin ==> r is Ok
                && *final(self) == (DefyVault { paused: true, ..*old(self) }),
    {
        if caller != self.admin {
            return Err(Error::NotAdmin);
        }
        self.paused = true;
        Ok(())
    }

    /// Resume deposits and withdrawals.  Admin only.
    pub fn unpause(&mut self, caller: Address) -> (r: Result<(), Error>)
        requires
            old(self).wf(),
            old(self).initialized,
        ensures
            final(self).wf(),
            caller != old(self).admin ==> (r matches Err(e) && e == Error::NotAdmin
                && *final(self) == *old(self)),
            caller == old(self).admin ==> r is Ok
                && *final(self) == (DefyVault { paused: false, ..*old(self) }),
    {
        if caller != self.admin {
            return Err(Error::NotAdmin);
        }
        self.paused = false;
        Ok(())
    }

    /// Credit `to` with shares for a deposit of `amount` from `from`.
    ///
    /// The host authenticates `from` before calling, reads the pool's asset
    /// balance as it stands before the incoming transfer, and afterwards
    /// moves the event's `net` units from `from` into the pool and publishes
    /// the event — all within one atomic unit of work.
    pub fn deposit(
        &mut self,
        from: Address,
        to: Address,
        amount: i128,
        total_assets_before: i128,
    ) -> (r: Result<(i128, DepositEvent), Error>)
        requires
            old(self).wf(),
            old(self).initialized,
            total_assets_before >= 0,
            !old(self).paused && amount > 0 ==> amount * old(self).fee_bps <= i128::MAX,
            !old(self).paused && amount > 0 ==> spec_fee(amount as int, old(self).fee_bps as int)
                <= amount,
            !old(self).paused && amount > 0 ==> (old(self).total_shares > 0
                ==> total_assets_before > 0),
            !old(self).paused && amount > 0 ==> spec_net(amount as int, old(self).fee_bps as int)
                * old(self).total_shares <= i128::MAX,
            !old(self).paused && amount > 0 ==> old(self).total_shares + spec_mint(
                spec_net(amount as int, old(self).fee_bps as int),
                old(self).total_shares as int,
                total_assets_before as int,
            ) <= i128::MAX,
        ensures
            final(self).wf(),
            old(self).paused ==> (r matches Err(e) && e == Error::Paused
                && *final(self) == *old(self)),
            !old(self).paused && amount <= 0 ==> (r matches Err(e) && e == Error::ZeroAmount
                && *final(self) == *old(self)),
            !old(self).paused && amount > 0 ==> ({
                let net = spec_net(amount as int, old(self).fee_bps as int);
                let mint = spec_mint(net, old(self).total_shares as int,
                    total_assets_before as int);
                &&& r matches Ok(p) && p.0 as int == mint && p.1.to == to
                    && p.1.net as int == net && p.1.shares as int == mint
                &&& final(self).total_shares as int == old(self).total_shares + mint
                &&& final(self).spec_balance_of(to) == old(self).spec_balance_of(to) + mint
                &&& (forall|a: Address|
                    a != to ==> final(self).spec_balance_of(a) == old(self).spec_balance_of(a))
                &&& same_config(*old(self), *final(self))
            }),
    {
        if self.paused {
            return Err(Error::Paused);
        }
        if amount <= 0 {
            return Err(Error::ZeroAmount);
        }
        let fee_rate = self.fee_bps as i128;
        proof {
            lemma_mul_nonnegative(amount as int, fee_rate as int);
            lemma_div_pos_is_pos(amount * fee_rate, BPS_DENOM as int);
        }
        let fee = (amount * fee_rate) / BPS_DENOM;
        let net = amount - fee;
        let ts_before = self.total_shares;
        proof {
            if ts_before > 0 {
                lemma_mul_nonnegative(net as int, ts_before as int);
                lemma_div_pos_is_pos(net * ts_before, total_assets_before as int);
            }
        }
        let mint = calc_shares_for_deposit(net, ts_before, total_assets_before);
        self.credit(to, mint);
        Ok((mint, DepositEvent { to, net, shares: mint }))
    }

    /// Burn `shares` of `owner`'s balance for a proportional slice of the
    /// pool.
    ///
    /// The host authenticates `owner` before calling, reads the pool's
    /// current asset balance, and afterwards moves the returned amount out
    /// to `to` and publishes the event: the ledger debit here comes first,
    /// so a reentrant call triggered by the outbound transfer observes
    /// already-decremented balances.
    pub fn withdraw(
        &mut self,
        owner: Address,
        to: Address,
        shares: i128,
        total_assets: i128,
    ) -> (r: Result<(i128, WithdrawEvent), Error>)
        requires
            old(self).wf(),
            old(self).initialized,
            total_assets >= 0,
            !old(self).paused && shares > 0 ==> shares * total_assets <= i128::MAX,
        ensures
            final(self).wf(),
            old(self).paused ==> (r matches Err(e) && e == Error::Paused
                && *final(self) == *old(self)),
            !old(self).paused && shares <= 0 ==> (r matches Err(e) && e == Error::ZeroAmount
                && *final(self) == *old(self)),
            !old(self).paused && shares > 0 && (shares > old(self).spec_balance_of(owner)
                || shares > old(self).total_shares) ==> (r matches Err(e)
                && e == Error::InsufficientShares && *final(self) == *old(self)),
            !old(self).paused && 0 < shares && shares <= old(self).spec_balance_of(owner)
                && shares <= old(self).total_shares ==> ({
                let out = spec_amount_out(shares as int, total_assets as int,
                    old(self).total_shares as int);
                &&& r matches Ok(p) && p.0 as int == out && p.1.to == to
                    && p.1.shares == shares && p.1.amount as int == out
                &&& final(self).total_shares == old(self).total_shares - shares
                &&& final(self).spec_balance_of(owner) == old(self).spec_balance_of(owner)
                    - shares
                &&& (forall|a: Address|
                    a != owner ==> final(self).spec_balance_of(a)
                        == old(self).spec_balance_of(a))
                &&& same_config(*old(self), *final(self))
            }),
    {
        if self.paused {
            return Err(Error::Paused);
        }
        if shares <= 0 {
            return Err(Error::ZeroAmount);
        }
        let ts = self.total_shares;
        let bal = self.balance_of(owner);
        if shares > bal || shares > ts {
            return Err(Error::InsufficientShares);
        }
        proof {
            lemma_mul_nonnegative(shares as int, total_assets as int);
            lemma_div_pos_is_pos(shares * total_assets, ts as int);
            vstd::arithmetic::div_mod::lemma_div_is_ordered_by_denominator(
                shares * total_assets,
                1,
                ts as int,
            );
        }
        let amount_out = (shares * total_assets) / ts;
        self.debit(owner, shares);
        Ok((amount_out, WithdrawEvent { to, shares, amount: amount_out }))
    }

    /// Whether `who` holds sweep rights.
    fn is_rebal(&self, who: Address) -> (r: bool)
        ensures
            r == self.spec_is_rebal(who),
    {
        match self.rebalancer {
            Some(rb) => who == rb || who == self.admin,
            None => who == self.admin,
        }
    }

    /// Move `amount` of the base asset out of the pool with no share
    /// accounting change.  Rebalancer or admin only.
    ///
    /// The host authenticates `caller` before calling and performs the
    /// transfer and event of a successful sweep afterwards.
    pub fn sweep_to(&self, caller: Address, to: Address, amount: i128) -> (r: Result<
        SweepEvent,
        Error,
    >)
        requires
            self.initialized,
            amount >= 0,
        ensures
            !self.spec_is_rebal(caller) ==> (r matches Err(e) && e == Error::NotRebal),
            self.spec_is_rebal(caller) ==> (r matches Ok(ev) && ev.to == to
                && ev.amount == amount),
    {
        if !self.is_rebal(caller) {
            return Err(Error::NotRebal);
        }
        Ok(SweepEvent { to, amount })
    }
}

} // verus!
