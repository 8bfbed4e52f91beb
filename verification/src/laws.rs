//! The vault's global guarantees, stated and proved over the same spec
//! functions that the operations' contracts use.

use vstd::prelude::*;
use vstd::arithmetic::div_mod::{
    lemma_div_is_ordered, lemma_div_multiples_vanish, lemma_div_pos_is_pos,
    lemma_fundamental_div_mod, lemma_mod_bound,
};
use vstd::arithmetic::mul::{lemma_mul_inequality, lemma_mul_inequality_converse,
    lemma_mul_nonnegative};
use crate::account::Address;
use crate::ledger::sum_values;
use crate::vault::{
    spec_amount_out, spec_fee, spec_mint, spec_net, spec_price_per_share, DefyVault, SCALE,
};

verus! {

/// Floored division is monotone across fractions: when `a/b >= c/d` holds of
/// the exact quotients (that is, `a*d >= c*b`), it holds of the floored ones.
pub proof fn lemma_div_frac_mono(a: int, b: int, c: int, d: int)
    requires
        a >= 0,
        c >= 0,
        b > 0,
        d > 0,
        a * d >= c * b,
    ensures
        a / b >= c / d,
{
    let q = c / d;
    lemma_fundamental_div_mod(c, d);
    lemma_mod_bound(c, d);
    lemma_div_pos_is_pos(c, d);
    let r = c % d;
    assert((d * q + r) * b == (q * b) * d + r * b) by (nonlinear_arith);
    lemma_mul_nonnegative(r, b);
    assert(a * d >= (q * b) * d);
    lemma_mul_inequality_converse(q * b, a, d);
    lemma_div_is_ordered(q * b, a, b);
    lemma_div_multiples_vanish(q, b);
    assert(b * q == q * b) by (nonlinear_arith);
}

/// The floored quotient never overshoots: `d * (x / d) <= x`.
pub proof fn lemma_div_mul_le(x: int, d: int)
    requires
        d > 0,
    ensures
        d * (x / d) <= x,
{
    lemma_fundamental_div_mod(x, d);
    lemma_mod_bound(x, d);
}

/// A deposit never decreases the scaled price per share: the minted share
/// count is floored, so existing holders are never diluted.
///
/// `total_shares` and `total_assets_before` describe the pool as the deposit
/// begins, and `net` is what the deposit adds to it; the minted shares are
/// the ones `deposit`'s contract promises.
pub proof fn lemma_deposit_price_non_decreasing(
    total_shares: int,
    total_assets_before: int,
    net: int,
)
    requires
        total_shares >= 0,
        total_assets_before >= 0,
        net >= 0,
        total_shares > 0 ==> total_assets_before > 0,
    ensures
        spec_price_per_share(
            total_assets_before + net,
            total_shares + spec_mint(net, total_shares, total_assets_before),
        ) >= spec_price_per_share(total_assets_before, total_shares),
{
    let s = SCALE as int;
    let ts = total_shares;
    let ta = total_assets_before;
    let mint = spec_mint(net, ts, ta);
    if ts == 0 {
        if net > 0 {
            lemma_mul_inequality(net, ta + net, s);
            lemma_div_is_ordered(net * s, (ta + net) * s, net);
            lemma_div_multiples_vanish(s, net);
            assert(net * s == s * net) by (nonlinear_arith);
            assert((net * s) / net == s);
        }
    } else {
        lemma_mul_nonnegative(net, ts);
        lemma_div_pos_is_pos(net * ts, ta);
        lemma_div_mul_le(net * ts, ta);
        assert(ta * mint <= net * ts);
        lemma_mul_nonnegative(ta + net, s);
        lemma_mul_nonnegative(ta, s);
        assert(((ta + net) * s) * ts - (ta * s) * (ts + mint) == s * (net * ts - ta * mint))
            by (nonlinear_arith);
        lemma_mul_nonnegative(s, net * ts - ta * mint);
        lemma_div_frac_mono((ta + net) * s, ts + mint, ta * s, ts);
    }
}

/// Depositing and then immediately redeeming every minted share returns at
/// most the net amount deposited: rounding always favors the pool.
///
/// The pool must carry no assets while no shares are outstanding; with
/// donated assets in an empty pool, the first depositor's redemption also
/// claims the donation.
pub proof fn lemma_round_trip_returns_no_more(
    total_shares: int,
    total_assets: int,
    amount: int,
    fee_bps: int,
)
    requires
        amount > 0,
        fee_bps >= 0,
        spec_fee(amount, fee_bps) >= 0,
        spec_fee(amount, fee_bps) <= amount,
        total_shares >= 0,
        total_shares == 0 ==> total_assets == 0,
        total_shares > 0 ==> total_assets > 0,
        spec_mint(spec_net(amount, fee_bps), total_shares, total_assets) > 0,
    ensures
        ({
            let net = spec_net(amount, fee_bps);
            let mint = spec_mint(net, total_shares, total_assets);
            spec_amount_out(mint, total_assets + net, total_shares + mint) <= amount - spec_fee(
                amount,
                fee_bps,
            )
        }),
{
    let ts = total_shares;
    let ta = total_assets;
    let net = spec_net(amount, fee_bps);
    let mint = spec_mint(net, ts, ta);
    if ts == 0 {
        lemma_div_multiples_vanish(net, net);
        assert(net * (ta + net) == net * net) by (nonlinear_arith)
            requires ta == 0;
    } else {
        lemma_div_mul_le(net * ts, ta);
        assert(ta * mint <= net * ts);
        assert(mint * (ta + net) - net * (ts + mint) == ta * mint - net * ts)
            by (nonlinear_arith);
        lemma_div_is_ordered(mint * (ta + net), net * (ts + mint), ts + mint);
        lemma_div_multiples_vanish(net, ts + mint);
        assert((ts + mint) * net == net * (ts + mint)) by (nonlinear_arith);
    }
}

/// After any run of operations, the outstanding share total is exactly the
/// sum of all account balances: every operation requires and re-establishes
/// `wf`, which carries this equation from the freshly built vault onward.
pub proof fn lemma_total_shares_is_sum_of_balances(v: DefyVault)
    requires
        v.wf(),
    ensures
        v.total_shares as int == sum_values(v.balances@),
{
}

/// The read-only views are functions of the state alone: any two results
/// that their contracts admit against the same state are equal, so repeated
/// calls with no mutation in between return identical values.
pub proof fn lemma_views_idempotent(
    v: DefyVault,
    owner: Address,
    total_assets: int,
    bal_a: int,
    bal_b: int,
    total_a: int,
    total_b: int,
    price_a: int,
    price_b: int,
)
    requires
        bal_a == v.spec_balance_of(owner),
        bal_b == v.spec_balance_of(owner),
        total_a == v.total_shares as int,
        total_b == v.total_shares as int,
        price_a == spec_price_per_share(total_assets, v.total_shares as int),
        price_b == spec_price_per_share(total_assets, v.total_shares as int),
    ensures
        bal_a == bal_b,
        total_a == total_b,
        price_a == price_b,
{
}

} // verus!
