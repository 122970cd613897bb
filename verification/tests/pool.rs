use amm_pair::ledger::TokenLedger;
use amm_pair::math::sqrt;
use amm_pair::pair::{Error, Pair, PairEvent};
use amm_pair::registry::UniswapCore;

const POOL: u128 = 50;
const TOKEN_0: u128 = 1;
const TOKEN_1: u128 = 2;
const FACTORY: u128 = 100;
const SHARE_TOKEN: u128 = 101;
const ALICE: u128 = 7;
const BOB: u128 = 8;
const CAROL: u128 = 9;

fn fresh_pool() -> (UniswapCore, Pair, TokenLedger, TokenLedger, TokenLedger) {
    let registry = UniswapCore::new(ALICE);
    let pair = Pair::new(FACTORY, SHARE_TOKEN, TOKEN_0, TOKEN_1, POOL);
    (registry, pair, TokenLedger::new(), TokenLedger::new(), TokenLedger::new())
}

#[test]
fn sqrt_exact_values() {
    assert_eq!(sqrt(0), 0);
    assert_eq!(sqrt(1), 1);
    assert_eq!(sqrt(3), 1);
    assert_eq!(sqrt(4), 2);
    assert_eq!(sqrt(4_000_000), 2000);
    assert_eq!(sqrt(8_000_000), 2828);
    assert_eq!(sqrt(2_u128.pow(126)), 2_u128.pow(63));
    assert_eq!(sqrt(u128::MAX), u64::MAX as u128);
}

#[test]
fn first_deposit_scenario() {
    let (registry, mut pair, mut shares, mut l0, mut l1) = fresh_pool();
    l0.mint(POOL, 1000).unwrap();
    l1.mint(POOL, 4000).unwrap();
    let liq = pair.mint(&registry, &mut shares, &l0, &l1, ALICE, 0).unwrap();
    assert_eq!(liq, 1000);
    let (r0, r1, _) = pair.get_reserves();
    assert_eq!(r0, 1000);
    assert_eq!(r1, 4000);
    assert_eq!(pair.get_total_supply(), 2000);
    assert_eq!(shares.balance_of(ALICE), 1000);
    // the locked minimum sits at the (unset) fee recipient address
    assert_eq!(shares.balance_of(0), 1000);
    assert_eq!(shares.total_supply(), 2000);
}

#[test]
fn first_deposit_too_small_is_rejected() {
    let (registry, mut pair, mut shares, mut l0, mut l1) = fresh_pool();
    // sqrt(1000 * 1000) == 1000 leaves zero liquidity after the locked floor
    l0.mint(POOL, 1000).unwrap();
    l1.mint(POOL, 1000).unwrap();
    let r = pair.mint(&registry, &mut shares, &l0, &l1, ALICE, 0);
    assert_eq!(r, Err(Error::InsufficientLiquidityMinted));
    assert_eq!(pair.get_total_supply(), 0);
    assert_eq!(shares.total_supply(), 0);
}

#[test]
fn proportional_deposit_uses_smaller_estimate() {
    let (registry, mut pair, mut shares, mut l0, mut l1) = fresh_pool();
    l0.mint(POOL, 1000).unwrap();
    l1.mint(POOL, 4000).unwrap();
    pair.mint(&registry, &mut shares, &l0, &l1, ALICE, 0).unwrap();
    // lopsided deposit: 500 of token 0 but only 1000 of token 1
    l0.mint(POOL, 500).unwrap();
    l1.mint(POOL, 1000).unwrap();
    let liq = pair.mint(&registry, &mut shares, &l0, &l1, BOB, 0).unwrap();
    // min(500 * 2000 / 1000, 1000 * 2000 / 4000) == min(1000, 500)
    assert_eq!(liq, 500);
}

#[test]
fn mint_burn_round_trip_returns_no_more_than_deposited() {
    let (registry, mut pair, mut shares, mut l0, mut l1) = fresh_pool();
    l0.mint(POOL, 1000).unwrap();
    l1.mint(POOL, 4000).unwrap();
    pair.mint(&registry, &mut shares, &l0, &l1, ALICE, 0).unwrap();
    l0.mint(POOL, 500).unwrap();
    l1.mint(POOL, 2000).unwrap();
    let liq = pair.mint(&registry, &mut shares, &l0, &l1, BOB, 0).unwrap();
    assert_eq!(liq, 1000);
    // hand the minted shares back to the pool and burn them
    shares.transfer_from(BOB, POOL, liq as u128).unwrap();
    let (a0, a1) = pair.burn(&registry, &mut shares, &mut l0, &mut l1, BOB, BOB, 0).unwrap();
    assert!(a0 <= 500 && a1 <= 2000);
    // no other activity happened, so the round trip is exact
    assert_eq!((a0, a1), (500, 2000));
    assert_eq!(l0.balance_of(BOB), 500);
    assert_eq!(l1.balance_of(BOB), 2000);
    assert_eq!(pair.get_total_supply(), 2000);
}

#[test]
fn burn_with_no_shares_in_custody_is_rejected() {
    let (registry, mut pair, mut shares, mut l0, mut l1) = fresh_pool();
    l0.mint(POOL, 1000).unwrap();
    l1.mint(POOL, 4000).unwrap();
    pair.mint(&registry, &mut shares, &l0, &l1, ALICE, 0).unwrap();
    let r = pair.burn(&registry, &mut shares, &mut l0, &mut l1, BOB, BOB, 0);
    assert_eq!(r, Err(Error::InsufficientLiquidityBurned));
}

#[test]
fn burn_on_empty_pool_overflows() {
    let (registry, mut pair, mut shares, mut l0, mut l1) = fresh_pool();
    // zero share supply makes the pro-rata division impossible
    let r = pair.burn(&registry, &mut shares, &mut l0, &mut l1, BOB, BOB, 0);
    assert_eq!(r, Err(Error::Overflow));
}

#[test]
fn swap_scenario_passes_invariant_check() {
    let (_registry, mut pair, _shares, mut l0, mut l1) = fresh_pool();
    l0.mint(POOL, 1000).unwrap();
    l1.mint(POOL, 1000).unwrap();
    pair.sync(&l0, &l1, 0).unwrap();
    // the trader has already moved 100 of token 0 into the pool
    l0.mint(POOL, 100).unwrap();
    // adjusted balances (1100*1000 - 100*3) and (910*1000 - 0):
    // 1099700 * 910000 >= 1000 * 1000 * 1000000 holds
    pair.swap(&mut l0, &mut l1, 0, 90, CAROL, Vec::new(), ALICE, 0).unwrap();
    let (r0, r1, _) = pair.get_reserves();
    assert_eq!(r0, 1100);
    assert_eq!(r1, 910);
    assert_eq!(l1.balance_of(CAROL), 90);
    match pair.events().last().unwrap() {
        PairEvent::Swap(s) => {
            assert_eq!(s.amount_0_in, 100);
            assert_eq!(s.amount_1_in, 0);
            assert_eq!(s.amount_0_out, 0);
            assert_eq!(s.amount_1_out, 90);
            assert_eq!(s.to, CAROL);
            assert_eq!(s.sender, Some(ALICE));
        }
        _ => panic!("expected a swap notification"),
    }
}

#[test]
fn swap_without_enough_input_violates_invariant() {
    let (_registry, mut pair, _shares, mut l0, mut l1) = fresh_pool();
    l0.mint(POOL, 1000).unwrap();
    l1.mint(POOL, 1000).unwrap();
    pair.sync(&l0, &l1, 0).unwrap();
    // only 50 in against 90 out: (1050*1000 - 150) * (910*1000) < 10^12
    l0.mint(POOL, 50).unwrap();
    let r = pair.swap(&mut l0, &mut l1, 0, 90, CAROL, Vec::new(), ALICE, 0);
    assert_eq!(r, Err(Error::KInvariantViolated));
    let (r0, r1, _) = pair.get_reserves();
    assert_eq!((r0, r1), (1000, 1000));
}

#[test]
fn swap_rejects_empty_request() {
    let (_registry, mut pair, _shares, mut l0, mut l1) = fresh_pool();
    l0.mint(POOL, 1000).unwrap();
    l1.mint(POOL, 1000).unwrap();
    pair.sync(&l0, &l1, 0).unwrap();
    let r = pair.swap(&mut l0, &mut l1, 0, 0, CAROL, Vec::new(), ALICE, 0);
    assert_eq!(r, Err(Error::InsufficientOutputAmount));
}

#[test]
fn swap_rejects_draining_a_reserve() {
    let (_registry, mut pair, _shares, mut l0, mut l1) = fresh_pool();
    l0.mint(POOL, 1000).unwrap();
    l1.mint(POOL, 1000).unwrap();
    pair.sync(&l0, &l1, 0).unwrap();
    let r = pair.swap(&mut l0, &mut l1, 0, 1000, CAROL, Vec::new(), ALICE, 0);
    assert_eq!(r, Err(Error::InsufficientLiquidity));
}

#[test]
fn swap_rejects_token_identity_as_recipient() {
    let (_registry, mut pair, _shares, mut l0, mut l1) = fresh_pool();
    l0.mint(POOL, 1000).unwrap();
    l1.mint(POOL, 1000).unwrap();
    pair.sync(&l0, &l1, 0).unwrap();
    let r = pair.swap(&mut l0, &mut l1, 0, 90, TOKEN_0, Vec::new(), ALICE, 0);
    assert_eq!(r, Err(Error::InvalidRecipient));
    let r = pair.swap(&mut l0, &mut l1, 0, 90, TOKEN_1, Vec::new(), ALICE, 0);
    assert_eq!(r, Err(Error::InvalidRecipient));
}

#[test]
fn swap_rejects_missing_input() {
    let (_registry, mut pair, _shares, mut l0, mut l1) = fresh_pool();
    l0.mint(POOL, 1000).unwrap();
    l1.mint(POOL, 1000).unwrap();
    pair.sync(&l0, &l1, 0).unwrap();
    let r = pair.swap(&mut l0, &mut l1, 0, 90, CAROL, Vec::new(), ALICE, 0);
    assert_eq!(r, Err(Error::InsufficientInputAmount));
}

#[test]
fn accumulators_advance_with_time() {
    let (_registry, mut pair, _shares, _l0, _l1) = fresh_pool();
    // first update: prior reserves are zero, so no advance
    pair.update(500, 1000, 0, 0, 5).unwrap();
    assert_eq!(pair.price_0_cumulative_last, 0);
    assert_eq!(pair.price_1_cumulative_last, 0);
    assert_eq!(pair.block_timestamp_last, 5);
    // ten units later: price_0 += (500/1000)*10 == 0, price_1 += (1000/500)*10 == 20
    pair.update(500, 1000, 500, 1000, 15).unwrap();
    assert_eq!(pair.price_0_cumulative_last, 0);
    assert_eq!(pair.price_1_cumulative_last, 20);
    // no time elapsed: unchanged
    pair.update(500, 1000, 500, 1000, 15).unwrap();
    assert_eq!(pair.price_1_cumulative_last, 20);
    // a zero reserve freezes the accumulators
    pair.update(500, 1000, 0, 1000, 40).unwrap();
    assert_eq!(pair.price_1_cumulative_last, 20);
}

#[test]
fn accumulator_clock_wraps_modulo_two_pow_32() {
    let (_registry, mut pair, _shares, _l0, _l1) = fresh_pool();
    pair.block_timestamp_last = 0xFFFF_FFFB;
    pair.update(400, 100, 400, 100, 0xFFFF_FFFB + 7).unwrap();
    // elapsed wraps to 7; price_0 += (400/100)*7
    assert_eq!(pair.price_0_cumulative_last, 28);
    assert_eq!(pair.block_timestamp_last, 2);
}

#[test]
fn sync_mirrors_actual_balances() {
    let (_registry, mut pair, _shares, mut l0, mut l1) = fresh_pool();
    l0.mint(POOL, 123).unwrap();
    l1.mint(POOL, 456).unwrap();
    pair.sync(&l0, &l1, 9).unwrap();
    let (r0, r1, ts) = pair.get_reserves();
    assert_eq!((r0, r1, ts), (123, 456, 9));
}

#[test]
fn skim_sweeps_only_the_excess() {
    let (_registry, mut pair, _shares, mut l0, mut l1) = fresh_pool();
    l0.mint(POOL, 1000).unwrap();
    l1.mint(POOL, 1000).unwrap();
    pair.sync(&l0, &l1, 0).unwrap();
    // stray direct transfers beyond the recorded reserves
    l0.mint(POOL, 25).unwrap();
    l1.mint(POOL, 75).unwrap();
    pair.skim(&mut l0, &mut l1, CAROL).unwrap();
    assert_eq!(l0.balance_of(POOL), 1000);
    assert_eq!(l1.balance_of(POOL), 1000);
    assert_eq!(l0.balance_of(CAROL), 25);
    assert_eq!(l1.balance_of(CAROL), 75);
    let (r0, r1, _) = pair.get_reserves();
    assert_eq!((r0, r1), (1000, 1000));
}

#[test]
fn skim_without_excess_moves_nothing() {
    let (_registry, mut pair, _shares, mut l0, mut l1) = fresh_pool();
    l0.mint(POOL, 100).unwrap();
    l1.mint(POOL, 100).unwrap();
    pair.sync(&l0, &l1, 0).unwrap();
    pair.skim(&mut l0, &mut l1, CAROL).unwrap();
    assert_eq!(l0.balance_of(POOL), 100);
    assert_eq!(l1.balance_of(POOL), 100);
    assert_eq!(l0.balance_of(CAROL), 0);
    assert_eq!(l1.balance_of(CAROL), 0);
}

#[test]
fn protocol_fee_minted_on_invariant_growth() {
    let (mut registry, mut pair, mut shares, mut l0, mut l1) = fresh_pool();
    registry.set_fee_to(ALICE, CAROL).unwrap();
    l0.mint(POOL, 1000).unwrap();
    l1.mint(POOL, 4000).unwrap();
    pair.mint(&registry, &mut shares, &l0, &l1, BOB, 0).unwrap();
    // fee collection active: the invariant snapshot is recorded
    assert_eq!(pair.k_last, 4_000_000);
    assert_eq!(shares.balance_of(CAROL), 1000);  // the locked minimum
    // K grows to 2000 * 4000; rootK 2828, rootKLast 2000, supply 2000:
    // 2000 * 828 / (5 * 2828 + 2000) == 1656000 / 16140 == 102
    pair.mint_fee(&registry, &mut shares, 2000, 4000).unwrap();
    assert_eq!(shares.balance_of(CAROL), 1102);
    assert_eq!(pair.get_total_supply(), 2102);
}

#[test]
fn protocol_fee_disabled_resets_snapshot() {
    let (registry, mut pair, mut shares, _l0, _l1) = fresh_pool();
    pair.k_last = 4_000_000;
    pair.mint_fee(&registry, &mut shares, 2000, 4000).unwrap();
    assert_eq!(pair.k_last, 0);
    assert_eq!(shares.total_supply(), 0);
}

#[test]
fn protocol_fee_mint_can_be_refused() {
    let (mut registry, mut pair, mut shares, _l0, _l1) = fresh_pool();
    registry.set_fee_to(ALICE, CAROL).unwrap();
    shares.mint(CAROL, u128::MAX - 10).unwrap();
    pair.total_supply = u128::MAX - 10;
    pair.k_last = 4_000_000;
    // rootK 2001 against rootKLast 2000: the amount due dwarfs the room
    // left in the share supply, so the ledger refuses the mint
    let r = pair.mint_fee(&registry, &mut shares, 2001, 2001);
    assert_eq!(r, Err(Error::TokenMintingFailed));
    assert_eq!(shares.balance_of(CAROL), u128::MAX - 10);
    assert_eq!(pair.k_last, 4_000_000);
}

#[test]
fn mint_refused_when_share_supply_cannot_grow() {
    let (registry, mut pair, mut shares, mut l0, mut l1) = fresh_pool();
    let big = 1_u128 << 64;
    shares.mint(BOB, u128::MAX - 10).unwrap();
    pair.total_supply = u128::MAX - 10;
    pair.reserve_0 = big;
    pair.reserve_1 = big;
    l0.mint(POOL, big + 1).unwrap();
    l1.mint(POOL, big + 1).unwrap();
    // the proportional estimate still fits u64, but the supply cannot grow
    let r = pair.mint(&registry, &mut shares, &l0, &l1, ALICE, 0);
    assert_eq!(r, Err(Error::MintFailed));
    assert_eq!(shares.total_supply(), u128::MAX - 10);
}

#[test]
fn mint_with_balance_below_reserve_overflows() {
    let (registry, mut pair, mut shares, mut l0, mut l1) = fresh_pool();
    pair.reserve_0 = 500;
    l0.mint(POOL, 100).unwrap();
    l1.mint(POOL, 100).unwrap();
    let r = pair.mint(&registry, &mut shares, &l0, &l1, ALICE, 0);
    assert_eq!(r, Err(Error::Overflow));
}

#[test]
fn ledger_transfer_moves_balances() {
    let mut l = TokenLedger::new();
    l.mint(ALICE, 300).unwrap();
    l.transfer_from(ALICE, BOB, 120).unwrap();
    assert_eq!(l.balance_of(ALICE), 180);
    assert_eq!(l.balance_of(BOB), 120);
    assert_eq!(l.total_supply(), 300);
    let ev = l.events().last().unwrap();
    assert_eq!(ev.from, Some(ALICE));
    assert_eq!(ev.to, Some(BOB));
    assert_eq!(ev.value, 120);
}

#[test]
fn ledger_transfer_fails_without_funds() {
    let mut l = TokenLedger::new();
    l.mint(ALICE, 10).unwrap();
    assert_eq!(l.transfer_from(ALICE, BOB, 11), Err(Error::TransferFailed));
    assert_eq!(l.balance_of(ALICE), 10);
}

#[test]
fn ledger_mint_fails_beyond_capacity() {
    let mut l = TokenLedger::new();
    l.mint(ALICE, u128::MAX).unwrap();
    assert_eq!(l.mint(BOB, 1), Err(Error::MintFailed));
    assert_eq!(l.total_supply(), u128::MAX);
}

#[test]
fn ledger_burn_fails_beyond_balance() {
    let mut l = TokenLedger::new();
    l.mint(ALICE, 5).unwrap();
    assert_eq!(l.burn(ALICE, 6), Err(Error::BurnFailed));
    l.burn(ALICE, 5).unwrap();
    assert_eq!(l.total_supply(), 0);
    assert_eq!(l.balance_of(ALICE), 0);
}

#[test]
fn create_pair_registers_both_orders() {
    let mut registry = UniswapCore::new(ALICE);
    let pair_id = registry.create_pair(TOKEN_0, TOKEN_1, POOL).unwrap();
    assert_eq!(pair_id, POOL);
    assert_eq!(registry.get_pair(TOKEN_0, TOKEN_1), Some(POOL));
    assert_eq!(registry.get_pair(TOKEN_1, TOKEN_0), Some(POOL));
    assert_eq!(registry.all_pairs_length(), 1);
    let ev = registry.events().last().unwrap();
    assert_eq!(ev.token0, Some(TOKEN_0));
    assert_eq!(ev.token1, Some(TOKEN_1));
    assert_eq!(ev.pair, Some(POOL));
    assert_eq!(ev.pair_index, 0);
}

#[test]
fn create_pair_rejects_identical_tokens() {
    let mut registry = UniswapCore::new(ALICE);
    let r = registry.create_pair(TOKEN_0, TOKEN_0, POOL);
    assert_eq!(r, Err(Error::IdenticalAddresses));
}

#[test]
fn create_pair_rejects_null_identity() {
    let mut registry = UniswapCore::new(ALICE);
    assert_eq!(registry.create_pair(0, TOKEN_1, POOL), Err(Error::ZeroAddress));
    assert_eq!(registry.create_pair(TOKEN_0, 0, POOL), Err(Error::ZeroAddress));
}

#[test]
fn create_pair_rejects_existing_pair() {
    let mut registry = UniswapCore::new(ALICE);
    registry.create_pair(TOKEN_0, TOKEN_1, POOL).unwrap();
    assert_eq!(registry.create_pair(TOKEN_0, TOKEN_1, 51), Err(Error::PairExists));
    // the reverse order is the same pair
    assert_eq!(registry.create_pair(TOKEN_1, TOKEN_0, 51), Err(Error::PairExists));
}

#[test]
fn fee_governance_is_guarded() {
    let mut registry = UniswapCore::new(ALICE);
    assert_eq!(registry.set_fee_to(BOB, BOB), Err(Error::ForbiddenCaller));
    registry.set_fee_to(ALICE, CAROL).unwrap();
    assert_eq!(registry.get_fee_to(), CAROL);
    assert_eq!(registry.set_fee_to_setter(BOB, BOB), Err(Error::ForbiddenCaller));
    registry.set_fee_to_setter(ALICE, BOB).unwrap();
    registry.set_fee_to(BOB, BOB).unwrap();
    assert_eq!(registry.get_fee_to(), BOB);
    assert_eq!(UniswapCore::zero_address(), 0);
}

#[test]
fn default_registry_has_no_governor() {
    let registry = UniswapCore::default();
    assert_eq!(registry.get_fee_to(), 0);
    assert_eq!(registry.all_pairs_length(), 0);
}

#[test]
fn pool_square_root_rounds_down() {
    let (_registry, pair, _shares, _l0, _l1) = fresh_pool();
    assert_eq!(pair.get_squareroot(4_000_000), 2000);
    assert_eq!(pair.get_squareroot(3_999_999), 1999);
}

#[test]
fn initialize_records_the_creating_caller() {
    let pair = Pair::initialize(ALICE, SHARE_TOKEN, TOKEN_0, TOKEN_1, POOL);
    assert_eq!(pair.factory, ALICE);
    assert_eq!(pair.token_0, TOKEN_0);
    assert_eq!(pair.token_1, TOKEN_1);
    let (r0, r1, ts) = pair.get_reserves();
    assert_eq!((r0, r1, ts), (0, 0, 0));
    assert_eq!(pair.get_total_supply(), 0);
}

#[test]
fn held_lock_rejects_every_settlement() {
    let (registry, mut pair, mut shares, mut l0, mut l1) = fresh_pool();
    l0.mint(POOL, 1000).unwrap();
    l1.mint(POOL, 4000).unwrap();
    pair.locked = true;
    assert_eq!(pair.mint(&registry, &mut shares, &l0, &l1, ALICE, 0), Err(Error::Locked));
    assert_eq!(
        pair.burn(&registry, &mut shares, &mut l0, &mut l1, BOB, BOB, 0),
        Err(Error::Locked)
    );
    assert_eq!(
        pair.swap(&mut l0, &mut l1, 0, 1, CAROL, Vec::new(), ALICE, 0),
        Err(Error::Locked)
    );
    assert_eq!(pair.update(1, 1, 0, 0, 0), Err(Error::Locked));
    assert_eq!(pair.sync(&l0, &l1, 0), Err(Error::Locked));
    assert_eq!(pair.skim(&mut l0, &mut l1, CAROL), Err(Error::Locked));
    assert_eq!(pair.mint_fee(&registry, &mut shares, 1, 1), Err(Error::Locked));
    pair.locked = false;
    assert!(pair.sync(&l0, &l1, 0).is_ok());
}

#[test]
fn swap_settles_both_sides_at_once() {
    let (_registry, mut pair, _shares, mut l0, mut l1) = fresh_pool();
    l0.mint(POOL, 1000).unwrap();
    l1.mint(POOL, 1000).unwrap();
    pair.sync(&l0, &l1, 0).unwrap();
    l0.mint(POOL, 100).unwrap();
    l1.mint(POOL, 100).unwrap();
    pair.swap(&mut l0, &mut l1, 50, 50, CAROL, Vec::new(), ALICE, 0).unwrap();
    let (r0, r1, _) = pair.get_reserves();
    assert_eq!((r0, r1), (1050, 1050));
    assert_eq!(l0.balance_of(CAROL), 50);
    assert_eq!(l1.balance_of(CAROL), 50);
}

#[test]
fn deposit_against_zero_reserve_overflows() {
    let (registry, mut pair, mut shares, mut l0, mut l1) = fresh_pool();
    // a nonzero share supply with an empty reserve makes the proportional
    // estimate a division by zero
    shares.mint(BOB, 5).unwrap();
    pair.total_supply = 5;
    l0.mint(POOL, 10).unwrap();
    l1.mint(POOL, 10).unwrap();
    let r = pair.mint(&registry, &mut shares, &l0, &l1, ALICE, 0);
    assert_eq!(r, Err(Error::Overflow));
}

#[test]
fn ledger_transfer_to_self_changes_nothing() {
    let mut l = TokenLedger::new();
    l.mint(ALICE, 10).unwrap();
    l.transfer_from(ALICE, ALICE, 7).unwrap();
    assert_eq!(l.balance_of(ALICE), 10);
    assert_eq!(l.total_supply(), 10);
    assert_eq!(l.transfer_from(ALICE, ALICE, 11), Err(Error::TransferFailed));
}

#[test]
fn burn_paying_the_pool_itself_keeps_balances() {
    let (registry, mut pair, mut shares, mut l0, mut l1) = fresh_pool();
    l0.mint(POOL, 1000).unwrap();
    l1.mint(POOL, 4000).unwrap();
    pair.mint(&registry, &mut shares, &l0, &l1, ALICE, 0).unwrap();
    shares.transfer_from(ALICE, POOL, 500).unwrap();
    let (a0, a1) = pair.burn(&registry, &mut shares, &mut l0, &mut l1, POOL, ALICE, 0).unwrap();
    assert_eq!((a0, a1), (250, 1000));
    // the proceeds never left the pool, so the reserves track the full balances
    assert_eq!(l0.balance_of(POOL), 1000);
    let (r0, r1, _) = pair.get_reserves();
    assert_eq!((r0, r1), (1000, 4000));
    assert_eq!(pair.get_total_supply(), 1500);
}
