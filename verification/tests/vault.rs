use defy_vault::account::Address;
use defy_vault::vault::{calc_shares_for_deposit, DefyVault, Error, SCALE};

fn fresh_vault(rebalancer: Option<Address>, fee_bps: u32) -> DefyVault {
    let mut v = DefyVault::new();
    let r = v.init(Address(100), Address(1), rebalancer, fee_bps);
    assert!(r.is_ok());
    v
}

#[test]
fn init_rejects_second_call() {
    let mut v = fresh_vault(None, 100);
    let r = v.init(Address(200), Address(2), None, 50);
    assert_eq!(r, Err(Error::AlreadyInitialized));
    assert_eq!(v.base_asset(), Address(100));
    assert_eq!(v.fee_bps(), 100);
}

#[test]
fn first_deposit_bootstraps_one_to_one() {
    // Empty pool, fee 100 bps: a 1000 deposit nets 990 and mints 990 shares.
    let mut v = fresh_vault(None, 100);
    let (mint, ev) = v.deposit(Address(10), Address(10), 1000, 0).unwrap();
    assert_eq!(mint, 990);
    assert_eq!(ev.to, Address(10));
    assert_eq!(ev.net, 990);
    assert_eq!(ev.shares, 990);
    assert_eq!(v.total_shares(), 990);
    assert_eq!(v.balance_of(Address(10)), 990);
}

#[test]
fn second_deposit_mints_proportionally() {
    // Pool at 990 assets / 990 shares: a 990 deposit nets 981 and mints
    // 981 * 990 / 990 = 981 shares.
    let mut v = fresh_vault(None, 100);
    v.deposit(Address(10), Address(10), 1000, 0).unwrap();
    let (mint, ev) = v.deposit(Address(11), Address(11), 990, 990).unwrap();
    assert_eq!(ev.net, 981);
    assert_eq!(mint, 981);
    assert_eq!(v.total_shares(), 1971);
    assert_eq!(v.balance_of(Address(11)), 981);
}

#[test]
fn withdraw_pays_proportional_slice() {
    // Pool at 1971 assets / 1971 shares: burning 990 shares pays
    // 990 * 1971 / 1971 = 990 and leaves 981 shares outstanding.
    let mut v = fresh_vault(None, 100);
    v.deposit(Address(10), Address(10), 1000, 0).unwrap();
    v.deposit(Address(11), Address(11), 990, 990).unwrap();
    let (out, ev) = v.withdraw(Address(10), Address(10), 990, 1971).unwrap();
    assert_eq!(out, 990);
    assert_eq!(ev.to, Address(10));
    assert_eq!(ev.shares, 990);
    assert_eq!(ev.amount, 990);
    assert_eq!(v.balance_of(Address(10)), 0);
    assert_eq!(v.total_shares(), 981);
}

#[test]
fn withdraw_decreases_balance_by_exactly_the_shares() {
    let mut v = fresh_vault(None, 0);
    v.deposit(Address(10), Address(10), 1000, 0).unwrap();
    let before_balance = v.balance_of(Address(10));
    let before_total = v.total_shares();
    v.withdraw(Address(10), Address(10), 250, 1000).unwrap();
    assert_eq!(v.balance_of(Address(10)), before_balance - 250);
    assert_eq!(v.total_shares(), before_total - 250);
}

#[test]
fn withdraw_more_than_balance_fails_and_changes_nothing() {
    let mut v = fresh_vault(None, 100);
    v.deposit(Address(10), Address(10), 1000, 0).unwrap();
    v.deposit(Address(11), Address(11), 990, 990).unwrap();
    let r = v.withdraw(Address(10), Address(10), 991, 1971);
    assert_eq!(r, Err(Error::InsufficientShares));
    assert_eq!(v.balance_of(Address(10)), 990);
    assert_eq!(v.balance_of(Address(11)), 981);
    assert_eq!(v.total_shares(), 1971);
}

#[test]
fn zero_amount_deposit_fails_and_changes_nothing() {
    let mut v = fresh_vault(None, 100);
    v.deposit(Address(10), Address(10), 1000, 0).unwrap();
    let r = v.deposit(Address(10), Address(10), 0, 990);
    assert_eq!(r, Err(Error::ZeroAmount));
    let r = v.deposit(Address(10), Address(10), -5, 990);
    assert_eq!(r, Err(Error::ZeroAmount));
    assert_eq!(v.total_shares(), 990);
    assert_eq!(v.balance_of(Address(10)), 990);
}

#[test]
fn zero_shares_withdraw_fails() {
    let mut v = fresh_vault(None, 100);
    v.deposit(Address(10), Address(10), 1000, 0).unwrap();
    assert_eq!(v.withdraw(Address(10), Address(10), 0, 990), Err(Error::ZeroAmount));
    assert_eq!(v.withdraw(Address(10), Address(10), -1, 990), Err(Error::ZeroAmount));
    assert_eq!(v.total_shares(), 990);
}

#[test]
fn pause_blocks_deposit_and_withdraw_but_not_sweep_or_views() {
    let mut v = fresh_vault(Some(Address(2)), 100);
    v.deposit(Address(10), Address(10), 1000, 0).unwrap();
    assert_eq!(v.pause(Address(1)), Ok(()));
    assert_eq!(v.deposit(Address(10), Address(10), 100, 990), Err(Error::Paused));
    assert_eq!(v.withdraw(Address(10), Address(10), 100, 990), Err(Error::Paused));
    // Sweep and every view remain available while paused.
    let ev = v.sweep_to(Address(2), Address(20), 500).unwrap();
    assert_eq!(ev.to, Address(20));
    assert_eq!(ev.amount, 500);
    assert_eq!(v.total_shares(), 990);
    assert_eq!(v.balance_of(Address(10)), 990);
    assert_eq!(v.base_asset(), Address(100));
    assert_eq!(v.fee_bps(), 100);
    assert_eq!(v.price_per_share_scaled(990), SCALE);
    // Unpause restores deposits.
    assert_eq!(v.unpause(Address(1)), Ok(()));
    assert!(v.deposit(Address(10), Address(10), 100, 990).is_ok());
}

#[test]
fn admin_operations_reject_non_admin() {
    let mut v = fresh_vault(None, 100);
    assert_eq!(v.set_fee_bps(Address(9), 50), Err(Error::NotAdmin));
    assert_eq!(v.pause(Address(9)), Err(Error::NotAdmin));
    assert_eq!(v.unpause(Address(9)), Err(Error::NotAdmin));
    assert_eq!(v.fee_bps(), 100);
    assert_eq!(v.set_fee_bps(Address(1), 50), Ok(()));
    assert_eq!(v.fee_bps(), 50);
}

#[test]
fn sweep_allows_rebalancer_and_admin_only() {
    let v = fresh_vault(Some(Address(2)), 100);
    assert!(v.sweep_to(Address(2), Address(20), 10).is_ok());
    assert!(v.sweep_to(Address(1), Address(20), 10).is_ok());
    assert_eq!(v.sweep_to(Address(3), Address(20), 10), Err(Error::NotRebal));
    // Without a rebalancer, only the admin may sweep.
    let v = fresh_vault(None, 100);
    assert!(v.sweep_to(Address(1), Address(20), 10).is_ok());
    assert_eq!(v.sweep_to(Address(2), Address(20), 10), Err(Error::NotRebal));
}

#[test]
fn price_per_share_starts_at_scale_and_tracks_pool() {
    let mut v = fresh_vault(None, 0);
    assert_eq!(v.price_per_share_scaled(0), 1_000_000);
    v.deposit(Address(10), Address(10), 1000, 0).unwrap();
    assert_eq!(v.price_per_share_scaled(1000), 1_000_000);
    // The pool doubled (e.g. through yield): each share is worth two units.
    assert_eq!(v.price_per_share_scaled(2000), 2_000_000);
    // Floor division: 1001 assets over 1000 shares.
    assert_eq!(v.price_per_share_scaled(1001), 1_001_000);
}

#[test]
fn deposit_never_decreases_price_per_share() {
    let mut v = fresh_vault(None, 100);
    v.deposit(Address(10), Address(10), 1000, 0).unwrap();
    let mut assets: i128 = 990;
    for amount in [1, 7, 999, 12_345] {
        let before = v.price_per_share_scaled(assets);
        let (_, ev) = v.deposit(Address(11), Address(11), amount, assets).unwrap();
        assets += ev.net;
        let after = v.price_per_share_scaled(assets);
        assert!(after >= before);
    }
}

#[test]
fn round_trip_returns_at_most_the_net_deposit() {
    let mut v = fresh_vault(None, 100);
    v.deposit(Address(10), Address(10), 1000, 0).unwrap();
    // A second depositor puts in 777 (fee 7, net 770) and immediately
    // redeems every minted share.
    let (mint, ev) = v.deposit(Address(11), Address(11), 777, 990).unwrap();
    assert_eq!(ev.net, 770);
    let (out, _) = v.withdraw(Address(11), Address(11), mint, 990 + ev.net).unwrap();
    assert!(out <= 777 - 7);
}

#[test]
fn views_are_idempotent() {
    let mut v = fresh_vault(None, 100);
    v.deposit(Address(10), Address(10), 1000, 0).unwrap();
    assert_eq!(v.balance_of(Address(10)), v.balance_of(Address(10)));
    assert_eq!(v.total_shares(), v.total_shares());
    assert_eq!(v.price_per_share_scaled(990), v.price_per_share_scaled(990));
    assert_eq!(v.fee_bps(), v.fee_bps());
    assert_eq!(v.base_asset(), v.base_asset());
}

#[test]
fn balance_of_unknown_account_is_zero() {
    let v = fresh_vault(None, 100);
    assert_eq!(v.balance_of(Address(42)), 0);
}

#[test]
fn deposit_credits_a_different_receiver() {
    let mut v = fresh_vault(None, 0);
    let (mint, ev) = v.deposit(Address(10), Address(11), 500, 0).unwrap();
    assert_eq!(mint, 500);
    assert_eq!(ev.to, Address(11));
    assert_eq!(v.balance_of(Address(11)), 500);
    assert_eq!(v.balance_of(Address(10)), 0);
}

#[test]
fn calc_shares_matches_the_pricing_rule() {
    assert_eq!(calc_shares_for_deposit(990, 0, 0), 990);
    assert_eq!(calc_shares_for_deposit(981, 990, 990), 981);
    assert_eq!(calc_shares_for_deposit(100, 990, 1980), 50);
    // Floor: 10 * 990 / 991 = 9.98...
    assert_eq!(calc_shares_for_deposit(10, 990, 991), 9);
}

#[test]
fn total_shares_equals_sum_of_balances_after_mixed_operations() {
    let mut v = fresh_vault(None, 100);
    let mut assets: i128 = 0;
    let accounts = [Address(10), Address(11), Address(12)];
    for (i, a) in accounts.iter().enumerate() {
        let (_, ev) = v.deposit(*a, *a, 1000 * (i as i128 + 1), assets).unwrap();
        assets += ev.net;
    }
    let (out, _) = v.withdraw(Address(11), Address(11), 700, assets).unwrap();
    assets -= out;
    v.deposit(Address(12), Address(10), 333, assets).unwrap();
    let sum: i128 = accounts.iter().map(|a| v.balance_of(*a)).sum();
    assert_eq!(v.total_shares(), sum);
}
