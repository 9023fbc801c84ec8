use zenlink::account::pool_account;
use zenlink::assets::AssetInfo;
use zenlink::currency::{Balances, Currency, ExistenceRequirement, Payment};
use zenlink::dex::{liquidity_info, Call, Event, Exchange, Module};
use zenlink::types::Error;

fn test_token() -> AssetInfo {
    AssetInfo { name: *b"zenlinktesttoken", symbol: *b"TEST____", decimals: 0 }
}

fn test_liquidity() -> AssetInfo {
    AssetInfo { name: *b"zenlinktesttoken", symbol: *b"ZLK_____", decimals: 0 }
}

const ALICE: u128 = 1;
const BOB: u128 = 2;

/// The account of the first pool: the bytes `"modl"`, `"zlk_dex1"` and the
/// pool id 0, read with the lowest byte first.
const EXCHANGE_ACCOUNT: u128 = u128::from_le_bytes(*b"modlzlk_dex1\0\0\0\0");

/// The account of the second pool.
const OTHER_ACCOUNT: u128 = u128::from_le_bytes(*b"modlzlk_dex1\x01\0\0\0");

/// The block at which every test runs.
const NOW: u32 = 0;

struct World {
    assets: zenlink::assets::Module,
    currency: Balances,
    dex: Module,
}

/// A ledger and exchanges without anything in them, and ALICE with 10000
/// of currency.
fn new_test_ext() -> World {
    with_minimum(1)
}

fn with_minimum(existential_deposit: u128) -> World {
    let mut currency = Balances::new(existential_deposit);
    currency.make_free_balance_be(&ALICE, 10000);
    World { assets: zenlink::assets::Module::new(), currency, dex: Module::new() }
}

/// What the tests below look at, to see that a refused operation changed
/// nothing.
fn observed(world: &World) -> Vec<u128> {
    let mut seen = Vec::new();
    for who in [ALICE, BOB, EXCHANGE_ACCOUNT, OTHER_ACCOUNT] {
        seen.push(world.currency.free_balance(&who));
        for id in 0..4 {
            seen.push(world.assets.balance(id, who) as u128);
            seen.push(world.assets.allowances(id, ALICE, who) as u128);
        }
    }
    for id in 0..4 {
        seen.push(world.assets.total_supply(id) as u128);
    }
    seen.push(world.assets.next_asset_id() as u128);
    seen.push(world.dex.next_exchange_id() as u128);
    seen
}

/// A pool of token 0 that holds 100 of currency and 1000 tokens, provided
/// by ALICE, who holds the 100 shares and 4000 tokens.
fn funded() -> World {
    funded_with_minimum(1)
}

fn funded_with_minimum(existential_deposit: u128) -> World {
    let mut world = with_minimum(existential_deposit);
    assert_eq!(world.assets.mint_asset(ALICE, 5000, test_token()), Ok(0));
    assert!(world.dex.create_exchange(&mut world.assets, ALICE, 0).is_ok());
    world.assets.allow(ALICE, 0, EXCHANGE_ACCOUNT, 1000);
    assert_eq!(
        world.dex.add_liquidity(&mut world.assets, &mut world.currency, ALICE, 0, 100, 0, 1000, 100, NOW),
        Ok(Event::LiquidityAdded(0, ALICE, 100, 1000))
    );
    world
}

/// `funded`, and a second pool, of token 2, that holds 200 of currency and
/// 500 tokens.
fn two_pools() -> World {
    two_pools_with_minimum(1)
}

fn two_pools_with_minimum(existential_deposit: u128) -> World {
    let mut world = funded_with_minimum(existential_deposit);
    assert_eq!(world.assets.mint_asset(ALICE, 5000, test_token()), Ok(2));
    assert_eq!(
        world.dex.create_exchange(&mut world.assets, ALICE, 2),
        Ok(Event::ExchangeCreated(1, OTHER_ACCOUNT))
    );
    world.assets.allow(ALICE, 2, OTHER_ACCOUNT, 500);
    assert_eq!(
        world.dex.add_liquidity(&mut world.assets, &mut world.currency, ALICE, 1, 200, 0, 500, 100, NOW),
        Ok(Event::LiquidityAdded(1, ALICE, 200, 500))
    );
    world
}

#[test]
fn tests_issuing_asset_units_to_issuer_should_work() {
    let mut world = new_test_ext();
    assert_eq!(world.currency.free_balance(&ALICE), 10000);
    assert_eq!(world.assets.mint_asset(ALICE, 100, test_token()), Ok(0));
    assert_eq!(world.assets.balance(0, ALICE), 100);
    assert_eq!(world.assets.asset_info(0), Some(test_token().clone()));
    assert_eq!(world.currency.free_balance(&ALICE), 10000);
}

#[test]
fn create_exchange_should_work() {
    let mut world = new_test_ext();
    assert_eq!(world.assets.mint_asset(ALICE, 10000, test_token()), Ok(0));

    assert!(world.dex.create_exchange(&mut world.assets, ALICE, 0).is_ok());

    assert!(world.dex.get_exchange(0).is_some());
    assert_eq!(world.dex.token_to_exchange(0).unwrap(), 0);
    assert_eq!(world.dex.token_to_exchange(1).is_none(), true);

    assert_eq!(world.dex.get_exchange(0).unwrap().token_id, 0);
    assert_eq!(world.dex.get_exchange(0).unwrap().liquidity_id, 1);
    assert_eq!(world.dex.get_exchange(0).unwrap().account, EXCHANGE_ACCOUNT);
    assert_eq!(world.assets.balance(0, EXCHANGE_ACCOUNT), 0);
    assert_eq!(world.assets.balance(1, EXCHANGE_ACCOUNT), 0);
    assert_eq!(world.assets.total_supply(1), 0);
}

#[test]
fn create_exchange_should_not_work() {
    let mut world = new_test_ext();
    let before = observed(&world);
    assert_eq!(world.dex.create_exchange(&mut world.assets, ALICE, 0), Err(Error::TokenNotExists));
    assert_eq!(observed(&world), before);

    assert_eq!(world.assets.mint_asset(ALICE, 10000, test_liquidity()), Ok(0));

    assert_eq!(world.assets.mint_asset(ALICE, 10000, test_token()), Ok(1));
    assert!(world.dex.create_exchange(&mut world.assets, ALICE, 1).is_ok());
    let before = observed(&world);
    assert_eq!(
        world.dex.create_exchange(&mut world.assets, ALICE, 1),
        Err(Error::ExchangeAlreadyExists)
    );
    assert_eq!(observed(&world), before);
}

#[test]
fn add_liquidity_should_work() {
    let mut world = new_test_ext();
    // Initial currency 10000
    assert_eq!(world.currency.free_balance(&ALICE), 10000);

    // The asset_id = 0
    assert_eq!(world.assets.mint_asset(ALICE, 5000, test_token()), Ok(0));
    assert_eq!(world.assets.balance(0, ALICE), 5000);

    // The exchange_id = 0, one liquidity token asset_id = 1
    assert!(world.dex.create_exchange(&mut world.assets, ALICE, 0).is_ok());
    assert_eq!(world.dex.get_exchange(0).unwrap().account, EXCHANGE_ACCOUNT);

    // Alice approve 1000 token for EXCHANGE_ACCOUNT
    world.assets.allow(ALICE, 0, EXCHANGE_ACCOUNT, 1000);

    // Exchange 0 liquidity is 0
    assert_eq!(world.assets.total_supply(1), 0);

    // Some calls that must change nothing
    // ExchangeNotExists
    let before = observed(&world);
    assert_eq!(
        world.dex.add_liquidity(&mut world.assets, &mut world.currency, ALICE, 1, 100, 0, 1000, 100, NOW),
        Err(Error::ExchangeNotExists)
    );
    assert_eq!(observed(&world), before);

    // ZeroCurrency
    assert_eq!(
        world.dex.add_liquidity(&mut world.assets, &mut world.currency, ALICE, 0, 0, 0, 1000, 100, NOW),
        Err(Error::ZeroCurrency)
    );
    assert_eq!(observed(&world), before);

    // ZeroToken
    assert_eq!(
        world.dex.add_liquidity(&mut world.assets, &mut world.currency, ALICE, 0, 100, 0, 0, 100, NOW),
        Err(Error::ZeroTokens)
    );
    assert_eq!(observed(&world), before);

    // Deadline
    assert_eq!(
        world.dex.add_liquidity(&mut world.assets, &mut world.currency, ALICE, 0, 100, 0, 1000, 0, NOW),
        Err(Error::Deadline)
    );
    assert_eq!(observed(&world), before);

    // Add 1000 currency and 100 token
    assert!(world
        .dex
        .add_liquidity(&mut world.assets, &mut world.currency, ALICE, 0, 100, 0, 1000, 100, NOW)
        .is_ok());

    // Total supply liquidity is 100
    assert_eq!(world.assets.total_supply(1), 100);
    assert_eq!(world.assets.balance(1, ALICE), 100);
    assert_eq!(world.assets.balance(1, EXCHANGE_ACCOUNT), 0);

    // The balances of currency
    assert_eq!(world.currency.free_balance(&ALICE), 10000 - 100);
    assert_eq!(world.currency.free_balance(&EXCHANGE_ACCOUNT), 100);

    // The token balances
    assert_eq!(world.assets.balance(0, ALICE), 5000 - 1000);
    assert_eq!(world.assets.balance(0, EXCHANGE_ACCOUNT), 1000);

    // RequestedZeroLiquidity
    let before = observed(&world);
    assert_eq!(
        world.dex.add_liquidity(&mut world.assets, &mut world.currency, ALICE, 0, 100, 0, 1000, 100, NOW),
        Err(Error::RequestedZeroLiquidity)
    );
    assert_eq!(observed(&world), before);

    // AllowanceLow
    assert_eq!(
        world.dex.add_liquidity(&mut world.assets, &mut world.currency, ALICE, 0, 100, 1, 1000, 100, NOW),
        Err(Error::AllowanceLow)
    );
    assert_eq!(observed(&world), before);

    // Alice approve 1000 token for EXCHANGE_ACCOUNT
    world.assets.allow(ALICE, 0, EXCHANGE_ACCOUNT, 1000);

    // TooLowLiquidity
    let before = observed(&world);
    assert_eq!(
        world.dex.add_liquidity(&mut world.assets, &mut world.currency, ALICE, 0, 100, 101, 1000, 100, NOW),
        Err(Error::TooLowLiquidity)
    );
    assert_eq!(observed(&world), before);

    // TooManyToken
    assert_eq!(
        world.dex.add_liquidity(&mut world.assets, &mut world.currency, ALICE, 0, 100, 1, 1, 100, NOW),
        Err(Error::TooManyTokens)
    );
    assert_eq!(observed(&world), before);

    // again Add 1000 currency and 100 token
    assert!(world
        .dex
        .add_liquidity(&mut world.assets, &mut world.currency, ALICE, 0, 100, 100, 1000, 100, NOW)
        .is_ok());

    // Total supply liquidity is 100
    assert_eq!(world.assets.total_supply(1), 200);
    assert_eq!(world.assets.balance(1, ALICE), 200);
    assert_eq!(world.assets.balance(1, EXCHANGE_ACCOUNT), 0);

    // The balances of currency
    assert_eq!(world.currency.free_balance(&ALICE), 10000 - 200);
    assert_eq!(world.currency.free_balance(&EXCHANGE_ACCOUNT), 200);

    // The token balances
    assert_eq!(world.assets.balance(0, ALICE), 5000 - 2000);
    assert_eq!(world.assets.balance(0, EXCHANGE_ACCOUNT), 2000);
}

#[test]
fn remove_liquidity_should_work() {
    let mut world = new_test_ext();
    assert_eq!(world.assets.mint_asset(ALICE, 5000, test_token()), Ok(0));
    assert!(world.dex.create_exchange(&mut world.assets, ALICE, 0).is_ok());
    world.assets.allow(ALICE, 0, EXCHANGE_ACCOUNT, 1000);

    // Add 100 currency and 500 token
    assert!(world
        .dex
        .add_liquidity(&mut world.assets, &mut world.currency, ALICE, 0, 100, 0, 500, 100, NOW)
        .is_ok());

    // Total supply liquidity is 100
    assert_eq!(world.assets.total_supply(1), 100);
    assert_eq!(world.assets.balance(1, ALICE), 100);

    // Some calls that must change nothing
    // ExchangeNotExists
    let before = observed(&world);
    assert_eq!(
        world.dex.remove_liquidity(&mut world.assets, &mut world.currency, ALICE, 1, 100, 100, 500, 100, NOW),
        Err(Error::ExchangeNotExists)
    );
    assert_eq!(observed(&world), before);

    // BurnZeroZLKShares
    assert_eq!(
        world.dex.remove_liquidity(&mut world.assets, &mut world.currency, ALICE, 0, 0, 100, 500, 100, NOW),
        Err(Error::BurnZeroShares)
    );
    assert_eq!(observed(&world), before);

    // NotEnoughCurrency
    assert_eq!(
        world.dex.remove_liquidity(&mut world.assets, &mut world.currency, ALICE, 0, 100, 1000, 500, 100, NOW),
        Err(Error::NotEnoughCurrency)
    );
    assert_eq!(observed(&world), before);

    // NotEnoughToken
    assert_eq!(
        world.dex.remove_liquidity(&mut world.assets, &mut world.currency, ALICE, 0, 100, 100, 5000, 100, NOW),
        Err(Error::NotEnoughTokens)
    );
    assert_eq!(observed(&world), before);

    // Deadline
    assert_eq!(
        world.dex.remove_liquidity(&mut world.assets, &mut world.currency, ALICE, 0, 100, 100, 500, 0, NOW),
        Err(Error::Deadline)
    );
    assert_eq!(observed(&world), before);

    assert!(world
        .dex
        .remove_liquidity(&mut world.assets, &mut world.currency, ALICE, 0, 100, 100, 500, 100, NOW)
        .is_ok());

    assert_eq!(world.assets.total_supply(1), 0);
}

#[test]
fn currency_to_token_input_should_work() {
    let mut world = funded();
    assert_eq!(
        world.dex.currency_to_tokens_input(&mut world.assets, &mut world.currency, ALICE, 0, 10, 1, 100, BOB, NOW),
        Ok(Event::TokenPurchase(0, ALICE, 10, 90, BOB))
    );
    assert_eq!(world.currency.free_balance(&ALICE), 9890);
    assert_eq!(world.currency.free_balance(&EXCHANGE_ACCOUNT), 110);
    assert_eq!(world.assets.balance(0, EXCHANGE_ACCOUNT), 910);
    assert_eq!(world.assets.balance(0, BOB), 90);
    assert_eq!(world.assets.total_supply(0), 5000);
    assert!(110 * 910 >= 100 * 1000);
}

#[test]
fn currency_to_token_output_should_work() {
    let mut world = funded();
    assert_eq!(
        world.dex.currency_to_tokens_output(&mut world.assets, &mut world.currency, ALICE, 0, 100, 12, 100, BOB, NOW),
        Ok(Event::TokenPurchase(0, ALICE, 12, 100, BOB))
    );
    assert_eq!(world.currency.free_balance(&ALICE), 9888);
    assert_eq!(world.currency.free_balance(&EXCHANGE_ACCOUNT), 112);
    assert_eq!(world.assets.balance(0, EXCHANGE_ACCOUNT), 900);
    assert_eq!(world.assets.balance(0, BOB), 100);
    assert!(112 * 900 >= 100 * 1000);
}

#[test]
fn token_to_currency_input_should_work() {
    let mut world = funded();
    world.assets.allow(ALICE, 0, EXCHANGE_ACCOUNT, 100);
    assert_eq!(
        world.dex.tokens_to_currency_input(&mut world.assets, &mut world.currency, ALICE, 0, 100, 1, 100, BOB, NOW),
        Ok(Event::CurrencyPurchase(0, ALICE, 9, 100, BOB))
    );
    assert_eq!(world.currency.free_balance(&BOB), 9);
    assert_eq!(world.currency.free_balance(&EXCHANGE_ACCOUNT), 91);
    assert_eq!(world.assets.balance(0, EXCHANGE_ACCOUNT), 1100);
    assert_eq!(world.assets.balance(0, ALICE), 3900);
    assert_eq!(world.assets.allowances(0, ALICE, EXCHANGE_ACCOUNT), 0);
    assert!(91 * 1100 >= 100 * 1000);
}

#[test]
fn token_to_currency_output_should_work() {
    let mut world = funded();
    world.assets.allow(ALICE, 0, EXCHANGE_ACCOUNT, 200);
    assert_eq!(
        world.dex.tokens_to_currency_output(&mut world.assets, &mut world.currency, ALICE, 0, 10, 112, 100, BOB, NOW),
        Ok(Event::CurrencyPurchase(0, ALICE, 10, 112, BOB))
    );
    assert_eq!(world.currency.free_balance(&BOB), 0);
    assert_eq!(world.currency.free_balance(&ALICE), 9910);
    assert_eq!(world.currency.free_balance(&EXCHANGE_ACCOUNT), 90);
    assert_eq!(world.assets.balance(0, EXCHANGE_ACCOUNT), 1112);
    assert_eq!(world.assets.balance(0, ALICE), 3888);
    assert_eq!(world.assets.allowances(0, ALICE, EXCHANGE_ACCOUNT), 88);
    assert!(90 * 1112 >= 100 * 1000);
}

#[test]
fn token_to_token_input_should_work() {
    let mut world = two_pools();
    world.assets.allow(ALICE, 0, EXCHANGE_ACCOUNT, 100);
    assert_eq!(
        world.dex.token_to_token_input(&mut world.assets, &mut world.currency, ALICE, 0, 1, 100, 1, 100, BOB, NOW),
        Ok(Event::OtherTokenPurchase(0, 1, ALICE, 100, 21, BOB))
    );
    assert_eq!(world.assets.balance(0, EXCHANGE_ACCOUNT), 1100);
    assert_eq!(world.currency.free_balance(&EXCHANGE_ACCOUNT), 91);
    assert_eq!(world.currency.free_balance(&OTHER_ACCOUNT), 209);
    assert_eq!(world.assets.balance(2, OTHER_ACCOUNT), 479);
    assert_eq!(world.assets.balance(2, BOB), 21);
    assert_eq!(world.currency.free_balance(&ALICE), 10000 - 300);
}

#[test]
fn token_to_token_output_should_work() {
    let mut world = two_pools();
    world.assets.allow(ALICE, 0, EXCHANGE_ACCOUNT, 300);
    assert_eq!(
        world.dex.token_to_token_output(&mut world.assets, &mut world.currency, ALICE, 0, 1, 50, 300, 100, BOB, NOW),
        Ok(Event::OtherTokenPurchase(0, 1, ALICE, 300, 50, BOB))
    );
    assert_eq!(world.assets.balance(0, EXCHANGE_ACCOUNT), 1300);
    assert_eq!(world.currency.free_balance(&EXCHANGE_ACCOUNT), 77);
    assert_eq!(world.currency.free_balance(&OTHER_ACCOUNT), 223);
    assert_eq!(world.assets.balance(2, OTHER_ACCOUNT), 450);
    assert_eq!(world.assets.balance(2, BOB), 50);
}

#[test]
fn pool_accounts_are_derived_from_the_module_id_and_the_pool_id() {
    assert_eq!(EXCHANGE_ACCOUNT, 0x3178_6564_5f6b_6c7a_6c64_6f6d);
    assert_eq!(EXCHANGE_ACCOUNT as u64, 6875708529171525485);
    assert_eq!(pool_account(0), EXCHANGE_ACCOUNT);
    assert_eq!(pool_account(1), OTHER_ACCOUNT);
    assert_eq!(pool_account(1), EXCHANGE_ACCOUNT + (1u128 << 96));
    assert_eq!(pool_account(u32::MAX), EXCHANGE_ACCOUNT + ((u32::MAX as u128) << 96));
    assert_ne!(pool_account(7), pool_account(8));
}

#[test]
fn a_new_pool_has_a_share_asset_of_which_nothing_is_issued() {
    let mut world = new_test_ext();
    world.assets.mint_asset(ALICE, 10000, test_token()).unwrap();
    assert_eq!(
        world.dex.create_exchange(&mut world.assets, ALICE, 0),
        Ok(Event::ExchangeCreated(0, EXCHANGE_ACCOUNT))
    );
    assert_eq!(
        world.dex.get_exchange(0),
        Some(Exchange { token_id: 0, liquidity_id: 1, account: EXCHANGE_ACCOUNT })
    );
    assert_eq!(world.dex.get_exchange(1), None);
    assert_eq!(world.dex.next_exchange_id(), 1);
    assert_eq!(world.assets.next_asset_id(), 2);
    assert_eq!(world.assets.asset_info(1), Some(liquidity_info()));
    assert_eq!(liquidity_info().name, *b"liquidity_zlk_v1");
    assert_eq!(liquidity_info().symbol, *b"ZLK\0\0\0\0\0");
    assert_eq!(liquidity_info().decimals, 0);
    assert_eq!(world.assets.total_supply(1), 0);
    assert_eq!(world.currency.free_balance(&EXCHANGE_ACCOUNT), 0);
}

#[test]
fn first_liquidity_mints_what_the_pool_then_holds() {
    let mut world = new_test_ext();
    world.assets.mint_asset(ALICE, 5000, test_token()).unwrap();
    world.dex.create_exchange(&mut world.assets, ALICE, 0).unwrap();
    world.currency.make_free_balance_be(&EXCHANGE_ACCOUNT, 7);
    world.assets.allow(ALICE, 0, EXCHANGE_ACCOUNT, 1000);
    assert_eq!(
        world.dex.add_liquidity(&mut world.assets, &mut world.currency, ALICE, 0, 100, 0, 1000, 100, NOW),
        Ok(Event::LiquidityAdded(0, ALICE, 100, 1000))
    );
    assert_eq!(world.assets.total_supply(1), 107);
    assert_eq!(world.assets.balance(1, ALICE), 107);
    assert_eq!(world.currency.free_balance(&EXCHANGE_ACCOUNT), 107);
}

#[test]
fn later_liquidity_is_in_proportion_and_rounded_down() {
    let mut world = funded();
    world.assets.allow(ALICE, 0, EXCHANGE_ACCOUNT, 1000);
    // 100 of currency to 1000 tokens: 33 of currency go with 330 tokens
    // and 33 shares.
    assert_eq!(
        world.dex.add_liquidity(&mut world.assets, &mut world.currency, ALICE, 0, 33, 33, 330, 100, NOW),
        Ok(Event::LiquidityAdded(0, ALICE, 33, 330))
    );
    assert_eq!(world.assets.total_supply(1), 133);
    // 133 of currency, 1330 tokens, 133 shares: 7 of currency go with
    // floor(7 * 1330 / 133) = 70 tokens.
    assert_eq!(
        world.dex.add_liquidity(&mut world.assets, &mut world.currency, ALICE, 0, 7, 1, 70, 100, NOW),
        Ok(Event::LiquidityAdded(0, ALICE, 7, 70))
    );
    // Removing 3 of 140 shares pays floor(3 * 140 / 140) = 3 of currency
    // and floor(3 * 1400 / 140) = 30 tokens.
    assert_eq!(
        world.dex.remove_liquidity(&mut world.assets, &mut world.currency, ALICE, 0, 3, 3, 30, 100, NOW),
        Ok(Event::LiquidityRemoved(0, ALICE, 3, 30))
    );
}

#[test]
fn removing_all_liquidity_returns_what_went_in() {
    let mut world = funded();
    assert_eq!(
        world.dex.remove_liquidity(&mut world.assets, &mut world.currency, ALICE, 0, 100, 100, 1000, 100, NOW),
        Ok(Event::LiquidityRemoved(0, ALICE, 100, 1000))
    );
    assert_eq!(world.assets.total_supply(1), 0);
    assert_eq!(world.assets.balance(1, ALICE), 0);
    assert_eq!(world.currency.free_balance(&ALICE), 10000);
    assert_eq!(world.currency.free_balance(&EXCHANGE_ACCOUNT), 0);
    assert_eq!(world.assets.balance(0, ALICE), 5000);
    assert_eq!(world.assets.balance(0, EXCHANGE_ACCOUNT), 0);
}

#[test]
fn a_swap_is_accepted_at_its_deadline_and_liquidity_is_not() {
    let mut world = funded();
    world.assets.allow(ALICE, 0, EXCHANGE_ACCOUNT, 1000);
    let now = 5;
    assert_eq!(
        world.dex.add_liquidity(&mut world.assets, &mut world.currency, ALICE, 0, 10, 1, 1000, 5, now),
        Err(Error::Deadline)
    );
    assert_eq!(
        world.dex.remove_liquidity(&mut world.assets, &mut world.currency, ALICE, 0, 10, 1, 1, 5, now),
        Err(Error::Deadline)
    );
    assert_eq!(
        world.dex.currency_to_tokens_input(&mut world.assets, &mut world.currency, ALICE, 0, 10, 1, 4, BOB, now),
        Err(Error::Deadline)
    );
    assert_eq!(
        world.dex.currency_to_tokens_output(&mut world.assets, &mut world.currency, ALICE, 0, 10, 10, 4, BOB, now),
        Err(Error::Deadline)
    );
    assert_eq!(
        world.dex.tokens_to_currency_input(&mut world.assets, &mut world.currency, ALICE, 0, 10, 1, 4, BOB, now),
        Err(Error::Deadline)
    );
    assert_eq!(
        world.dex.tokens_to_currency_output(&mut world.assets, &mut world.currency, ALICE, 0, 1, 100, 4, BOB, now),
        Err(Error::Deadline)
    );
    assert_eq!(
        world.dex.token_to_token_input(&mut world.assets, &mut world.currency, ALICE, 0, 0, 10, 1, 4, BOB, now),
        Err(Error::Deadline)
    );
    assert_eq!(
        world.dex.token_to_token_output(&mut world.assets, &mut world.currency, ALICE, 0, 0, 10, 1, 4, BOB, now),
        Err(Error::Deadline)
    );
    assert!(world
        .dex
        .currency_to_tokens_input(&mut world.assets, &mut world.currency, ALICE, 0, 10, 1, 5, BOB, now)
        .is_ok());
    assert!(world
        .dex
        .add_liquidity(&mut world.assets, &mut world.currency, ALICE, 0, 10, 1, 1000, 6, now)
        .is_ok());
}

#[test]
fn swaps_refuse_zero_amounts_and_missing_pools() {
    let mut world = funded();
    let before = observed(&world);
    assert_eq!(
        world.dex.currency_to_tokens_input(&mut world.assets, &mut world.currency, ALICE, 0, 0, 1, 100, BOB, NOW),
        Err(Error::ZeroCurrency)
    );
    assert_eq!(
        world.dex.currency_to_tokens_input(&mut world.assets, &mut world.currency, ALICE, 0, 10, 0, 100, BOB, NOW),
        Err(Error::ZeroTokens)
    );
    assert_eq!(
        world.dex.currency_to_tokens_input(&mut world.assets, &mut world.currency, ALICE, 3, 10, 1, 100, BOB, NOW),
        Err(Error::ExchangeNotExists)
    );
    assert_eq!(
        world.dex.currency_to_tokens_output(&mut world.assets, &mut world.currency, ALICE, 0, 0, 10, 100, BOB, NOW),
        Err(Error::ZeroTokens)
    );
    assert_eq!(
        world.dex.currency_to_tokens_output(&mut world.assets, &mut world.currency, ALICE, 0, 10, 0, 100, BOB, NOW),
        Err(Error::ZeroCurrency)
    );
    assert_eq!(
        world.dex.tokens_to_currency_input(&mut world.assets, &mut world.currency, ALICE, 0, 0, 1, 100, BOB, NOW),
        Err(Error::ZeroTokens)
    );
    assert_eq!(
        world.dex.tokens_to_currency_input(&mut world.assets, &mut world.currency, ALICE, 0, 10, 0, 100, BOB, NOW),
        Err(Error::ZeroCurrency)
    );
    assert_eq!(
        world.dex.tokens_to_currency_output(&mut world.assets, &mut world.currency, ALICE, 0, 10, 0, 100, BOB, NOW),
        Err(Error::ZeroTokens)
    );
    assert_eq!(
        world.dex.tokens_to_currency_output(&mut world.assets, &mut world.currency, ALICE, 0, 0, 10, 100, BOB, NOW),
        Err(Error::ZeroCurrency)
    );
    assert_eq!(
        world.dex.token_to_token_input(&mut world.assets, &mut world.currency, ALICE, 0, 0, 0, 1, 100, BOB, NOW),
        Err(Error::ZeroTokens)
    );
    assert_eq!(
        world.dex.token_to_token_input(&mut world.assets, &mut world.currency, ALICE, 0, 1, 10, 1, 100, BOB, NOW),
        Err(Error::ExchangeNotExists)
    );
    assert_eq!(
        world.dex.token_to_token_output(&mut world.assets, &mut world.currency, ALICE, 1, 0, 10, 10, 100, BOB, NOW),
        Err(Error::ExchangeNotExists)
    );
    assert_eq!(
        world.dex.token_to_token_output(&mut world.assets, &mut world.currency, ALICE, 0, 0, 10, 0, 100, BOB, NOW),
        Err(Error::ZeroTokens)
    );
    assert_eq!(observed(&world), before);
}

#[test]
fn swaps_hold_the_caller_to_the_limits() {
    let mut world = funded();
    world.assets.allow(ALICE, 0, EXCHANGE_ACCOUNT, 1000);
    let before = observed(&world);
    assert_eq!(
        world.dex.currency_to_tokens_input(&mut world.assets, &mut world.currency, ALICE, 0, 10, 91, 100, BOB, NOW),
        Err(Error::NotEnoughTokens)
    );
    assert_eq!(
        world.dex.currency_to_tokens_output(&mut world.assets, &mut world.currency, ALICE, 0, 100, 11, 100, BOB, NOW),
        Err(Error::TooExpensiveCurrency)
    );
    assert_eq!(
        world.dex.tokens_to_currency_input(&mut world.assets, &mut world.currency, ALICE, 0, 100, 10, 100, BOB, NOW),
        Err(Error::NotEnoughCurrency)
    );
    assert_eq!(
        world.dex.tokens_to_currency_output(&mut world.assets, &mut world.currency, ALICE, 0, 10, 111, 100, BOB, NOW),
        Err(Error::TooExpensiveTokens)
    );
    assert_eq!(
        world.dex.currency_to_tokens_output(&mut world.assets, &mut world.currency, ALICE, 0, 1000, 10, 100, BOB, NOW),
        Err(Error::Overflow)
    );
    assert_eq!(observed(&world), before);
}

#[test]
fn two_hop_swaps_hold_the_caller_to_the_limits() {
    let mut world = two_pools();
    world.assets.allow(ALICE, 0, EXCHANGE_ACCOUNT, 1000);
    let before = observed(&world);
    assert_eq!(
        world.dex.token_to_token_input(&mut world.assets, &mut world.currency, ALICE, 0, 1, 100, 22, 100, BOB, NOW),
        Err(Error::NotEnoughTokens)
    );
    assert_eq!(
        world.dex.token_to_token_output(&mut world.assets, &mut world.currency, ALICE, 0, 1, 50, 299, 100, BOB, NOW),
        Err(Error::TooExpensiveTokens)
    );
    assert_eq!(observed(&world), before);
}

#[test]
fn a_refused_payment_undoes_the_whole_operation() {
    let mut world = funded();
    world.assets.allow(ALICE, 0, EXCHANGE_ACCOUNT, 1000);
    world.currency.make_free_balance_be(&BOB, 5);
    let before = observed(&world);
    // BOB cannot pay 10.
    assert_eq!(
        world.dex.currency_to_tokens_input(&mut world.assets, &mut world.currency, BOB, 0, 10, 1, 100, BOB, NOW),
        Err(Error::InsufficientBalance)
    );
    // BOB may not be left with nothing.
    assert_eq!(
        world.dex.currency_to_tokens_input(&mut world.assets, &mut world.currency, BOB, 0, 5, 1, 100, BOB, NOW),
        Err(Error::KeepAlive)
    );
    assert_eq!(observed(&world), before);
}

#[test]
fn a_refused_token_transfer_undoes_the_whole_operation() {
    let mut world = two_pools();
    let before = observed(&world);
    // No allowance: the shares are minted and taken back.
    assert_eq!(
        world.dex.add_liquidity(&mut world.assets, &mut world.currency, ALICE, 0, 100, 1, 1000, 100, NOW),
        Err(Error::AllowanceLow)
    );
    assert_eq!(observed(&world), before);
    // BOB holds no shares.
    assert_eq!(
        world.dex.remove_liquidity(&mut world.assets, &mut world.currency, BOB, 0, 10, 1, 1, 100, NOW),
        Err(Error::BalanceLow)
    );
    assert_eq!(observed(&world), before);
}

#[test]
fn a_two_hop_swap_whose_payment_is_refused_changes_nothing() {
    // With a minimum balance of 95 the first pool, which holds 100, cannot
    // pay 9 and stay alive: the tokens that it took are handed back.
    let mut world = two_pools_with_minimum(95);
    world.assets.allow(ALICE, 0, EXCHANGE_ACCOUNT, 1000);
    let before = observed(&world);
    assert_eq!(
        world.dex.token_to_token_input(&mut world.assets, &mut world.currency, ALICE, 0, 1, 100, 1, 100, BOB, NOW),
        Err(Error::KeepAlive)
    );
    assert_eq!(observed(&world), before);
    assert_eq!(world.assets.allowances(0, ALICE, EXCHANGE_ACCOUNT), 1000);
    // Without an allowance the first leg fails before the payment is tried.
    world.assets.allow(ALICE, 0, EXCHANGE_ACCOUNT, 99);
    assert_eq!(
        world.dex.token_to_token_input(&mut world.assets, &mut world.currency, ALICE, 0, 1, 100, 1, 100, BOB, NOW),
        Err(Error::AllowanceLow)
    );
    // A pool may be drained below the minimum when liquidity leaves it.
    assert_eq!(
        world.dex.remove_liquidity(&mut world.assets, &mut world.currency, ALICE, 0, 50, 1, 1, 100, NOW),
        Ok(Event::LiquidityRemoved(0, ALICE, 50, 500))
    );
    assert_eq!(world.currency.free_balance(&EXCHANGE_ACCOUNT), 50);
}

#[test]
fn a_two_hop_swap_whose_second_leg_fails_changes_nothing() {
    let mut world = two_pools();
    world.assets.allow(ALICE, 0, EXCHANGE_ACCOUNT, 1000);
    let planned = world
        .dex
        .plan_token_to_token_input(&world.assets, &world.currency, ALICE, 0, 1, 100, 1, 100, BOB, NOW)
        .unwrap();
    assert_eq!(planned.ops.len(), 2);
    assert_eq!(planned.pay_at, 1);
    assert_eq!(planned.event, Event::OtherTokenPurchase(0, 1, ALICE, 100, 21, BOB));
    // Take the second pool's tokens away, so that it cannot pay out the 21.
    world.assets.apply(&zenlink::assets::Op::Transfer { id: 2, from: OTHER_ACCOUNT, to: BOB, amount: 490 }).unwrap();
    let before = observed(&world);
    assert_eq!(
        zenlink::settlement::settle(
            &mut world.assets,
            &mut world.currency,
            &planned.ops,
            &planned.payment,
            planned.pay_at
        ),
        Err(Error::BalanceLow)
    );
    assert_eq!(observed(&world), before);
    assert_eq!(world.assets.allowances(0, ALICE, EXCHANGE_ACCOUNT), 1000);
}

#[test]
fn prices_are_quoted_without_a_trade() {
    let world = funded();
    let exchange = world.dex.get_exchange(0).unwrap();
    assert_eq!(Module::get_token_reserve(&world.assets, &exchange), 1000);
    assert_eq!(Module::get_currency_reserve(&world.currency, &exchange), 100);
    assert_eq!(
        Module::get_currency_to_token_input_price(&world.assets, &world.currency, &exchange, 10),
        Ok(90)
    );
    assert_eq!(
        Module::get_currency_to_token_output_price(&world.assets, &world.currency, &exchange, 100),
        Ok(12)
    );
    assert_eq!(
        Module::get_token_to_currency_input_price(&world.assets, &world.currency, &exchange, 100),
        Ok(9)
    );
    assert_eq!(
        Module::get_token_to_currency_output_price(&world.assets, &world.currency, &exchange, 10),
        Ok(112)
    );
    assert_eq!(
        Module::get_currency_to_token_input_price(&world.assets, &world.currency, &exchange, 0),
        Ok(0)
    );
    assert_eq!(
        Module::get_currency_to_token_output_price(&world.assets, &world.currency, &exchange, 0),
        Ok(0)
    );
    assert_eq!(
        Module::get_token_to_currency_input_price(&world.assets, &world.currency, &exchange, 0),
        Ok(0)
    );
    assert_eq!(
        Module::get_token_to_currency_output_price(&world.assets, &world.currency, &exchange, 0),
        Ok(0)
    );
    assert_eq!(
        Module::get_token_to_currency_output_price(&world.assets, &world.currency, &exchange, 100),
        Err(Error::Overflow)
    );
}

#[test]
fn currency_amounts_become_token_amounts_by_saturation() {
    assert_eq!(Module::convert(0), 0);
    assert_eq!(Module::convert(12345), 12345);
    assert_eq!(Module::convert(u64::MAX as u128), u64::MAX);
    assert_eq!(Module::convert(u64::MAX as u128 + 1), u64::MAX);
    assert_eq!(Module::convert(u128::MAX), u64::MAX);
    assert_eq!(Module::unconvert(u64::MAX), u64::MAX as u128);
    assert_eq!(Module::unconvert(7), 7);
}

#[test]
fn the_in_memory_currency_moves_exactly_the_value() {
    let mut currency = Balances::new(10);
    currency.make_free_balance_be(&ALICE, 100);
    let keep = |value| Payment { source: ALICE, dest: BOB, value, requirement: ExistenceRequirement::KeepAlive };
    assert_eq!(currency.can_transfer(&keep(91)), Err(Error::KeepAlive));
    assert_eq!(currency.can_transfer(&keep(101)), Err(Error::InsufficientBalance));
    assert_eq!(currency.can_transfer(&keep(90)), Ok(()));
    assert_eq!(currency.transfer(&ALICE, &BOB, 91, ExistenceRequirement::KeepAlive), Err(Error::KeepAlive));
    assert_eq!(currency.free_balance(&ALICE), 100);
    assert_eq!(currency.transfer(&ALICE, &BOB, 91, ExistenceRequirement::AllowDeath), Ok(()));
    assert_eq!(currency.free_balance(&ALICE), 9);
    assert_eq!(currency.free_balance(&BOB), 91);
    assert_eq!(currency.transfer(&BOB, &BOB, 1000, ExistenceRequirement::KeepAlive), Ok(()));
    assert_eq!(currency.free_balance(&BOB), 91);
    currency.make_free_balance_be(&ALICE, u128::MAX);
    assert_eq!(currency.transfer(&BOB, &ALICE, 1, ExistenceRequirement::AllowDeath), Err(Error::Overflow));
    assert_eq!(currency.transfer(&BOB, &ALICE, 0, ExistenceRequirement::AllowDeath), Ok(()));
}

#[test]
fn a_pool_without_shares_pays_nothing_out() {
    let mut world = new_test_ext();
    world.assets.mint_asset(ALICE, 5000, test_token()).unwrap();
    world.dex.create_exchange(&mut world.assets, ALICE, 0).unwrap();
    let before = observed(&world);
    assert_eq!(
        world.dex.remove_liquidity(&mut world.assets, &mut world.currency, ALICE, 0, 10, 1, 1, 100, NOW),
        Err(Error::NoLiquidity)
    );
    assert_eq!(observed(&world), before);
}

#[test]
fn calls_as_values_do_what_the_operations_do() {
    let mut world = funded();
    world.assets.allow(ALICE, 0, EXCHANGE_ACCOUNT, 1000);
    let sale = Call::CurrencyToTokensInput {
        exchange_id: 0,
        currency_sold: 10,
        min_tokens: 1,
        deadline: 100,
        recipient: BOB,
    };
    assert_eq!(
        world.dex.dispatch(&mut world.assets, &mut world.currency, ALICE, sale, NOW),
        Ok(Event::TokenPurchase(0, ALICE, 10, 90, BOB))
    );
    let provision = Call::AddLiquidity {
        exchange_id: 0,
        currency_amount: 11,
        min_liquidity: 1,
        max_tokens: 100,
        deadline: 100,
    };
    // 110 of currency, 910 tokens, 100 shares: 11 of currency go with
    // floor(11 * 910 / 110) = 91 tokens and floor(11 * 100 / 110) = 10 shares.
    assert_eq!(
        world.dex.dispatch(&mut world.assets, &mut world.currency, ALICE, provision, NOW),
        Ok(Event::LiquidityAdded(0, ALICE, 11, 91))
    );
    assert_eq!(world.assets.total_supply(1), 110);
    let late = Call::RemoveLiquidity {
        exchange_id: 0,
        zlk_to_burn: 10,
        min_currency: 1,
        min_tokens: 1,
        deadline: 0,
    };
    assert_eq!(
        world.dex.dispatch(&mut world.assets, &mut world.currency, ALICE, late, NOW),
        Err(Error::Deadline)
    );
}

#[test]
fn pools_with_shares_hold_both_sides_or_neither() {
    let mut world = two_pools();
    world.assets.allow(ALICE, 0, EXCHANGE_ACCOUNT, 4000);
    world.assets.allow(ALICE, 2, OTHER_ACCOUNT, 4000);
    let calls = [
        Call::CurrencyToTokensInput { exchange_id: 0, currency_sold: 50, min_tokens: 1, deadline: 9, recipient: BOB },
        Call::TokensToCurrencyInput { exchange_id: 0, tokens_sold: 700, min_currency: 1, deadline: 9, recipient: BOB },
        Call::TokenToTokenInput {
            exchange_id: 0,
            other_exchange_id: 1,
            tokens_sold: 300,
            min_other_tokens: 1,
            deadline: 9,
            recipient: BOB,
        },
        Call::AddLiquidity { exchange_id: 1, currency_amount: 40, min_liquidity: 1, max_tokens: 4000, deadline: 9 },
        Call::TokenToTokenOutput {
            exchange_id: 1,
            other_exchange_id: 0,
            other_tokens_bought: 5,
            max_tokens: 4000,
            deadline: 9,
            recipient: BOB,
        },
        Call::CurrencyToTokensOutput { exchange_id: 1, tokens_bought: 100, max_currency: 1000, deadline: 9, recipient: ALICE },
        Call::TokensToCurrencyOutput { exchange_id: 1, currency_bought: 20, max_tokens: 4000, deadline: 9, recipient: ALICE },
        Call::RemoveLiquidity { exchange_id: 0, zlk_to_burn: 60, min_currency: 1, min_tokens: 1, deadline: 9 },
        Call::RemoveLiquidity { exchange_id: 0, zlk_to_burn: 40, min_currency: 1, min_tokens: 1, deadline: 9 },
    ];
    for call in calls {
        let products: Vec<u128> = [(0u32, EXCHANGE_ACCOUNT), (2, OTHER_ACCOUNT)]
            .iter()
            .map(|(token, account)| world.assets.balance(*token, *account) as u128 * world.currency.free_balance(account))
            .collect();
        assert!(world.dex.dispatch(&mut world.assets, &mut world.currency, ALICE, call, NOW).is_ok());
        for (pool, (token, shares, account)) in
            [(0u32, 1u32, EXCHANGE_ACCOUNT), (2, 3, OTHER_ACCOUNT)].into_iter().enumerate()
        {
            let tokens = world.assets.balance(token, account);
            let held = world.currency.free_balance(&account);
            if world.assets.total_supply(shares) > 0 {
                assert_eq!(tokens > 0, held > 0);
            }
            if !matches!(call, Call::AddLiquidity { .. } | Call::RemoveLiquidity { .. }) {
                assert!(tokens as u128 * held >= products[pool]);
            }
        }
        for id in 0..4 {
            let sum: u64 =
                [ALICE, BOB, EXCHANGE_ACCOUNT, OTHER_ACCOUNT].iter().map(|who| world.assets.balance(id, *who)).sum();
            assert_eq!(sum, world.assets.total_supply(id));
        }
    }
    assert_eq!(world.assets.total_supply(1), 0);
    assert_eq!(world.assets.balance(0, EXCHANGE_ACCOUNT), 0);
    assert_eq!(world.currency.free_balance(&EXCHANGE_ACCOUNT), 0);
}

#[test]
fn liquidity_added_and_removed_comes_back_short_by_rounding() {
    // 100 of currency, 1000 tokens, 100 shares: 33 of currency buy 33
    // shares with 330 tokens, and the 33 shares return 33 and 330.
    let mut world = funded();
    world.assets.allow(ALICE, 0, EXCHANGE_ACCOUNT, 1000);
    assert_eq!(
        world.dex.add_liquidity(&mut world.assets, &mut world.currency, ALICE, 0, 33, 1, 1000, 100, NOW),
        Ok(Event::LiquidityAdded(0, ALICE, 33, 330))
    );
    assert_eq!(
        world.dex.remove_liquidity(&mut world.assets, &mut world.currency, ALICE, 0, 33, 0, 0, 100, NOW),
        Ok(Event::LiquidityRemoved(0, ALICE, 33, 330))
    );
    // After a sale the reserves are 133 and 753: 10 of currency buy
    // floor(10 * 100 / 133) = 7 shares with floor(10 * 753 / 133) = 56
    // tokens; the 7 shares return floor(7 * 143 / 107) = 9 and
    // floor(7 * 809 / 107) = 52.
    assert_eq!(
        world.dex.currency_to_tokens_input(&mut world.assets, &mut world.currency, ALICE, 0, 33, 1, 100, BOB, NOW),
        Ok(Event::TokenPurchase(0, ALICE, 33, 247, BOB))
    );
    assert_eq!(
        world.dex.add_liquidity(&mut world.assets, &mut world.currency, ALICE, 0, 10, 1, 1000, 100, NOW),
        Ok(Event::LiquidityAdded(0, ALICE, 10, 56))
    );
    assert_eq!(
        world.dex.remove_liquidity(&mut world.assets, &mut world.currency, ALICE, 0, 7, 0, 0, 100, NOW),
        Ok(Event::LiquidityRemoved(0, ALICE, 9, 52))
    );
}

#[test]
fn liquidity_priced_high_comes_back_short_by_more_than_rounding() {
    // One share is worth 1000 of currency: 1999 buy a single share, which
    // returns floor(1 * 2999 / 2) = 1499.
    let mut world = new_test_ext();
    world.assets.mint_asset(ALICE, 5000, test_token()).unwrap();
    world.dex.create_exchange(&mut world.assets, ALICE, 0).unwrap();
    world.assets.allow(ALICE, 0, EXCHANGE_ACCOUNT, 5000);
    world.dex.add_liquidity(&mut world.assets, &mut world.currency, ALICE, 0, 1, 0, 1000, 100, NOW).unwrap();
    world.currency.make_free_balance_be(&EXCHANGE_ACCOUNT, 1000);
    assert_eq!(world.assets.total_supply(1), 1);
    assert_eq!(
        world.dex.add_liquidity(&mut world.assets, &mut world.currency, ALICE, 0, 1999, 1, 5000, 100, NOW),
        Ok(Event::LiquidityAdded(0, ALICE, 1999, 1999))
    );
    assert_eq!(world.assets.balance(1, ALICE), 2);
    assert_eq!(
        world.dex.remove_liquidity(&mut world.assets, &mut world.currency, ALICE, 0, 1, 0, 0, 100, NOW),
        Ok(Event::LiquidityRemoved(0, ALICE, 1499, 1499))
    );
}
