//! What holds of the ledger and the exchanges taken together.

use crate::account::{account_of, lemma_accounts_are_distinct};
use crate::assets::{lemma_holder_within_sum, State};
use crate::currency::{paid, Currency};
use crate::dex::{
    convert, currency_reserve, token_reserve, zlk, Call, Event, Exchange, Plan, Registry,
};
use crate::pricing::{
    checked_input_price, checked_output_price, input_price,
    lemma_input_price_keeps_product, lemma_input_price_within_reserve,
    lemma_liquidity_added_and_removed,
    lemma_output_price_keeps_product, lemma_portion_within_part, lemma_purchase_of_the_price,
    lemma_sale_and_sale_back, output_price, portion,
};
use crate::settlement::{
    applied, applied_from, check, check_from, lawful, lemma_applied_from_keeps_law,
};
use crate::types::{AccountId, AssetId, Balance, BlockNumber, Error, ExchangeId, TokenBalance};
use vstd::prelude::*;

verus! {

/// `who` is the account of no pool.
pub open spec fn stranger(pools: Registry, who: AccountId) -> bool {
    forall|id: ExchangeId| #[trigger]
        pools.exchanges[id] is Some ==> pools.exchanges[id]->Some_0.account != who
}

/// The pool with shares outstanding holds tokens exactly if it holds
/// currency.
pub open spec fn paired<C: Currency>(exchange: Exchange, assets: State, currency: C) -> bool {
    assets.supply[exchange.liquidity_id] > 0 ==> (token_reserve(assets, exchange) > 0
        <==> currency_reserve(currency, exchange) > 0)
}

/// Every pool with shares outstanding holds tokens exactly if it holds
/// currency.
pub open spec fn balanced<C: Currency>(pools: Registry, assets: State, currency: C) -> bool {
    forall|id: ExchangeId| #[trigger]
        pools.exchanges[id] is Some ==> paired(pools.exchanges[id]->Some_0, assets, currency)
}

/// The product of the pool's two reserves.
pub open spec fn product<C: Currency>(exchange: Exchange, assets: State, currency: C) -> int {
    token_reserve(assets, exchange) * currency_reserve(currency, exchange)
}

/// The plan was carried out: every step was accepted, the ledger has gone
/// through the operations and the payment is made.
pub open spec fn settled<C: Currency>(
    plan: Plan,
    assets: State,
    currency: C,
    assets_after: State,
    currency_after: C,
) -> bool {
    &&& check(assets, currency, plan.ops, plan.payment, plan.pay_at as int) is Ok
    &&& assets_after == applied(assets, plan.ops)
    &&& paid(currency, currency_after, plan.payment)
}

/// The planning gave a plan, and the plan was carried out.
pub open spec fn done<C: Currency>(
    planned: Result<Plan, Error>,
    assets: State,
    currency: C,
    assets_after: State,
    currency_after: C,
) -> bool {
    planned is Ok && settled(planned->Ok_0, assets, currency, assets_after, currency_after)
}

/// The pools still fit the ledger when assets were issued to it.
pub proof fn lemma_coherent_with_more_assets(pools: Registry, assets: State, later: State)
    requires
        pools.coherent(assets),
        forall|id: AssetId| assets.exists_asset(id) ==> later.exists_asset(id),
    ensures
        pools.coherent(later),
{
    assert forall|id: ExchangeId| #[trigger] pools.exchanges[id] is Some implies {
        let exchange = pools.exchanges[id]->Some_0;
        &&& exchange.account == account_of(id)
        &&& later.exists_asset(exchange.token_id)
        &&& later.exists_asset(exchange.liquidity_id)
        &&& exchange.token_id != exchange.liquidity_id
        &&& pools.token_to_exchange[exchange.token_id] == Some(id)
    } by {
        let exchange = pools.exchanges[id]->Some_0;
        assert(assets.exists_asset(exchange.token_id));
        assert(assets.exists_asset(exchange.liquidity_id));
    }
}

/// Creating a pool on a ledger that keeps the supply law leaves pools that
/// fit the ledger, and the new pool's share asset has no supply.
pub proof fn lemma_create_exchange_keeps_coherence(
    pools: Registry,
    assets: State,
    token_id: AssetId,
)
    requires
        pools.coherent(assets),
        assets.conserved(),
        pools.create_exchange(assets, token_id) is Ok,
    ensures
        pools.created(assets, token_id).coherent(
            assets.issued(account_of(pools.next_exchange_id), 0, zlk()),
        ),
        assets.issued(account_of(pools.next_exchange_id), 0, zlk()).supply[assets.next_asset_id]
            == 0,
{
    let later = assets.issued(account_of(pools.next_exchange_id), 0, zlk());
    let after = pools.created(assets, token_id);
    let new_id = pools.next_exchange_id;
    let new_asset = assets.next_asset_id;
    assert(!assets.exists_asset(new_asset));
    assert(assets.exists_asset(token_id));
    assert(pools.exchanges[new_id] is None);
    assert forall|id: ExchangeId| #[trigger] after.exchanges[id] is Some <==> id
        < after.next_exchange_id by {
        assert(pools.exchanges[id] is Some <==> id < pools.next_exchange_id);
    }
    assert forall|id: ExchangeId| #[trigger] after.exchanges[id] is Some implies {
        let exchange = after.exchanges[id]->Some_0;
        &&& exchange.account == account_of(id)
        &&& later.exists_asset(exchange.token_id)
        &&& later.exists_asset(exchange.liquidity_id)
        &&& exchange.token_id != exchange.liquidity_id
        &&& after.token_to_exchange[exchange.token_id] == Some(id)
    } by {
        if id != new_id {
            assert(pools.exchanges[id] is Some);
            let exchange = pools.exchanges[id]->Some_0;
            assert(assets.exists_asset(exchange.token_id));
            assert(assets.exists_asset(exchange.liquidity_id));
            assert(pools.token_to_exchange[exchange.token_id] == Some(id));
        }
    }
    assert forall|token: AssetId| #[trigger] after.token_to_exchange[token] is Some implies {
        let id = after.token_to_exchange[token]->Some_0;
        after.exchanges[id] is Some && after.exchanges[id]->Some_0.token_id == token
    } by {
        if token != token_id {
            assert(pools.token_to_exchange[token] is Some);
            let id = pools.token_to_exchange[token]->Some_0;
            assert(pools.exchanges[id] is Some);
        }
    }
    assert forall|first: ExchangeId, second: ExchangeId|
        first != second && #[trigger] after.exchanges[first] is Some
            && #[trigger] after.exchanges[second] is Some implies after.exchanges[first]->Some_0.liquidity_id
        != after.exchanges[second]->Some_0.liquidity_id by {
        if first != new_id {
            assert(pools.exchanges[first] is Some);
            assert(assets.exists_asset(pools.exchanges[first]->Some_0.liquidity_id));
        }
        if second != new_id {
            assert(pools.exchanges[second] is Some);
            assert(assets.exists_asset(pools.exchanges[second]->Some_0.liquidity_id));
        }
    }
}

/// Creating a pool keeps the pools paired: the new pool has no shares, and
/// no other pool is touched.
pub proof fn law_create_exchange_keeps_pools_paired<C: Currency>(
    pools: Registry,
    assets: State,
    currency: C,
    token_id: AssetId,
)
    requires
        pools.coherent(assets),
        assets.conserved(),
        balanced(pools, assets, currency),
        pools.create_exchange(assets, token_id) is Ok,
    ensures
        balanced(
            pools.created(assets, token_id),
            assets.issued(account_of(pools.next_exchange_id), 0, zlk()),
            currency,
        ),
{
    let later = assets.issued(account_of(pools.next_exchange_id), 0, zlk());
    let after = pools.created(assets, token_id);
    assert(!assets.exists_asset(assets.next_asset_id));
    assert(pools.exchanges[pools.next_exchange_id] is None);
    assert forall|id: ExchangeId| #[trigger] after.exchanges[id] is Some implies paired(
        after.exchanges[id]->Some_0,
        later,
        currency,
    ) by {
        if id != pools.next_exchange_id {
            let pool = pools.exchanges[id]->Some_0;
            assert(pools.exchanges[id] is Some);
            assert(paired(pool, assets, currency));
            assert(assets.exists_asset(pool.token_id));
            assert(assets.exists_asset(pool.liquidity_id));
        }
    }
}

/// No two pools share a token or an account.
pub proof fn lemma_pools_are_apart(
    pools: Registry,
    assets: State,
    first: ExchangeId,
    second: ExchangeId,
)
    requires
        pools.coherent(assets),
        first != second,
        pools.exchanges[first] is Some,
        pools.exchanges[second] is Some,
    ensures
        pools.exchanges[first]->Some_0.token_id != pools.exchanges[second]->Some_0.token_id,
        pools.exchanges[first]->Some_0.liquidity_id != pools.exchanges[second]->Some_0.liquidity_id,
        pools.exchanges[first]->Some_0.account != pools.exchanges[second]->Some_0.account,
{
    lemma_accounts_are_distinct(first, second);
}

/// Pools stay paired through a sale of currency for tokens.
proof fn lemma_currency_to_tokens_input_keeps_pools_paired<C: Currency>(
    pools: Registry,
    assets: State,
    currency: C,
    assets_after: State,
    currency_after: C,
    origin: AccountId,
    exchange_id: ExchangeId,
    currency_sold: Balance,
    min_tokens: TokenBalance,
    deadline: BlockNumber,
    recipient: AccountId,
    now: BlockNumber,
)
    requires
        pools.coherent(assets),
        assets.conserved(),
        balanced(pools, assets, currency),
        stranger(pools, origin),
        stranger(pools, recipient),
        done(
            pools.currency_to_tokens_input(
                assets,
                currency,
                origin,
                exchange_id,
                currency_sold,
                min_tokens,
                deadline,
                recipient,
                now,
            ),
            assets,
            currency,
            assets_after,
            currency_after,
        ),
    ensures
        balanced(pools, assets_after, currency_after),
{
    reveal_with_fuel(applied_from, 3);
    reveal_with_fuel(check_from, 3);
    let exchange = pools.exchanges[exchange_id]->Some_0;
    assert(pools.exchanges[exchange_id] is Some);
    let reserve = convert(currency_reserve(currency, exchange));
    let tokens = token_reserve(assets, exchange);
    lemma_input_price_within_reserve(convert(currency_sold) as nat, reserve as nat, tokens as nat);
    assert forall|id: ExchangeId| #[trigger] pools.exchanges[id] is Some implies paired(
        pools.exchanges[id]->Some_0,
        assets_after,
        currency_after,
    ) by {
        assert(paired(pools.exchanges[id]->Some_0, assets, currency));
        if id != exchange_id {
            lemma_pools_are_apart(pools, assets, id, exchange_id);
        }
    }
}

/// Pools stay paired through a purchase of tokens for currency.
proof fn lemma_currency_to_tokens_output_keeps_pools_paired<C: Currency>(
    pools: Registry,
    assets: State,
    currency: C,
    assets_after: State,
    currency_after: C,
    origin: AccountId,
    exchange_id: ExchangeId,
    tokens_bought: TokenBalance,
    max_currency: Balance,
    deadline: BlockNumber,
    recipient: AccountId,
    now: BlockNumber,
)
    requires
        pools.coherent(assets),
        assets.conserved(),
        balanced(pools, assets, currency),
        stranger(pools, origin),
        stranger(pools, recipient),
        done(
            pools.currency_to_tokens_output(
                assets,
                currency,
                origin,
                exchange_id,
                tokens_bought,
                max_currency,
                deadline,
                recipient,
                now,
            ),
            assets,
            currency,
            assets_after,
            currency_after,
        ),
    ensures
        balanced(pools, assets_after, currency_after),
{
    reveal_with_fuel(applied_from, 3);
    reveal_with_fuel(check_from, 3);
    let exchange = pools.exchanges[exchange_id]->Some_0;
    assert(pools.exchanges[exchange_id] is Some);
    let reserve = convert(currency_reserve(currency, exchange));
    let tokens = token_reserve(assets, exchange);
    assert forall|id: ExchangeId| #[trigger] pools.exchanges[id] is Some implies paired(
        pools.exchanges[id]->Some_0,
        assets_after,
        currency_after,
    ) by {
        assert(paired(pools.exchanges[id]->Some_0, assets, currency));
        if id != exchange_id {
            lemma_pools_are_apart(pools, assets, id, exchange_id);
        }
    }
}

/// Pools stay paired through a sale of tokens for currency.
proof fn lemma_tokens_to_currency_input_keeps_pools_paired<C: Currency>(
    pools: Registry,
    assets: State,
    currency: C,
    assets_after: State,
    currency_after: C,
    origin: AccountId,
    exchange_id: ExchangeId,
    tokens_sold: TokenBalance,
    min_currency: Balance,
    deadline: BlockNumber,
    recipient: AccountId,
    now: BlockNumber,
)
    requires
        pools.coherent(assets),
        assets.conserved(),
        balanced(pools, assets, currency),
        stranger(pools, origin),
        stranger(pools, recipient),
        done(
            pools.tokens_to_currency_input(
                assets,
                currency,
                origin,
                exchange_id,
                tokens_sold,
                min_currency,
                deadline,
                recipient,
                now,
            ),
            assets,
            currency,
            assets_after,
            currency_after,
        ),
    ensures
        balanced(pools, assets_after, currency_after),
{
    reveal_with_fuel(applied_from, 3);
    reveal_with_fuel(check_from, 3);
    let exchange = pools.exchanges[exchange_id]->Some_0;
    assert(pools.exchanges[exchange_id] is Some);
    let reserve = convert(currency_reserve(currency, exchange));
    let tokens = token_reserve(assets, exchange);
    lemma_input_price_within_reserve(tokens_sold as nat, tokens as nat, reserve as nat);
    assert forall|id: ExchangeId| #[trigger] pools.exchanges[id] is Some implies paired(
        pools.exchanges[id]->Some_0,
        assets_after,
        currency_after,
    ) by {
        assert(paired(pools.exchanges[id]->Some_0, assets, currency));
        if id != exchange_id {
            lemma_pools_are_apart(pools, assets, id, exchange_id);
        }
    }
}

/// Pools stay paired through a purchase of currency for tokens.
proof fn lemma_tokens_to_currency_output_keeps_pools_paired<C: Currency>(
    pools: Registry,
    assets: State,
    currency: C,
    assets_after: State,
    currency_after: C,
    origin: AccountId,
    exchange_id: ExchangeId,
    currency_bought: Balance,
    max_tokens: TokenBalance,
    deadline: BlockNumber,
    recipient: AccountId,
    now: BlockNumber,
)
    requires
        pools.coherent(assets),
        assets.conserved(),
        balanced(pools, assets, currency),
        stranger(pools, origin),
        stranger(pools, recipient),
        done(
            pools.tokens_to_currency_output(
                assets,
                currency,
                origin,
                exchange_id,
                currency_bought,
                max_tokens,
                deadline,
                recipient,
                now,
            ),
            assets,
            currency,
            assets_after,
            currency_after,
        ),
    ensures
        balanced(pools, assets_after, currency_after),
{
    reveal_with_fuel(applied_from, 3);
    reveal_with_fuel(check_from, 3);
    let exchange = pools.exchanges[exchange_id]->Some_0;
    assert(pools.exchanges[exchange_id] is Some);
    let reserve = convert(currency_reserve(currency, exchange));
    let tokens = token_reserve(assets, exchange);
    assert forall|id: ExchangeId| #[trigger] pools.exchanges[id] is Some implies paired(
        pools.exchanges[id]->Some_0,
        assets_after,
        currency_after,
    ) by {
        assert(paired(pools.exchanges[id]->Some_0, assets, currency));
        if id != exchange_id {
            lemma_pools_are_apart(pools, assets, id, exchange_id);
        }
    }
}

/// Pools stay paired through a provision of liquidity.
proof fn lemma_add_liquidity_keeps_pools_paired<C: Currency>(
    pools: Registry,
    assets: State,
    currency: C,
    assets_after: State,
    currency_after: C,
    origin: AccountId,
    recipient: AccountId,
    exchange_id: ExchangeId,
    currency_amount: Balance,
    min_liquidity: TokenBalance,
    max_tokens: TokenBalance,
    deadline: BlockNumber,
    now: BlockNumber,
)
    requires
        pools.coherent(assets),
        assets.conserved(),
        balanced(pools, assets, currency),
        stranger(pools, origin),
        stranger(pools, recipient),
        done(
            pools.add_liquidity(
                assets,
                currency,
                origin,
                exchange_id,
                currency_amount,
                min_liquidity,
                max_tokens,
                deadline,
                now,
            ),
            assets,
            currency,
            assets_after,
            currency_after,
        ),
    ensures
        balanced(pools, assets_after, currency_after),
{
    reveal_with_fuel(applied_from, 3);
    reveal_with_fuel(check_from, 3);
    let exchange = pools.exchanges[exchange_id]->Some_0;
    assert(pools.exchanges[exchange_id] is Some);
    let reserve = convert(currency_reserve(currency, exchange));
    let tokens = token_reserve(assets, exchange);
    assert(paired(exchange, assets, currency));
    assert forall|id: ExchangeId| #[trigger] pools.exchanges[id] is Some implies paired(
        pools.exchanges[id]->Some_0,
        assets_after,
        currency_after,
    ) by {
        assert(paired(pools.exchanges[id]->Some_0, assets, currency));
        if id != exchange_id {
            lemma_pools_are_apart(pools, assets, id, exchange_id);
        }
    }
}

/// Pools stay paired through a removal of liquidity.
proof fn lemma_remove_liquidity_keeps_pools_paired<C: Currency>(
    pools: Registry,
    assets: State,
    currency: C,
    assets_after: State,
    currency_after: C,
    origin: AccountId,
    recipient: AccountId,
    exchange_id: ExchangeId,
    zlk_to_burn: TokenBalance,
    min_currency: Balance,
    min_tokens: TokenBalance,
    deadline: BlockNumber,
    now: BlockNumber,
)
    requires
        pools.coherent(assets),
        assets.conserved(),
        balanced(pools, assets, currency),
        stranger(pools, origin),
        stranger(pools, recipient),
        done(
            pools.remove_liquidity(
                assets,
                currency,
                origin,
                exchange_id,
                zlk_to_burn,
                min_currency,
                min_tokens,
                deadline,
                now,
            ),
            assets,
            currency,
            assets_after,
            currency_after,
        ),
    ensures
        balanced(pools, assets_after, currency_after),
{
    reveal_with_fuel(applied_from, 3);
    reveal_with_fuel(check_from, 3);
    let exchange = pools.exchanges[exchange_id]->Some_0;
    assert(pools.exchanges[exchange_id] is Some);
    let reserve = convert(currency_reserve(currency, exchange));
    let tokens = token_reserve(assets, exchange);
    let shares = assets.supply[exchange.liquidity_id];
    assert(paired(exchange, assets, currency));
    assert(assets.exists_asset(exchange.liquidity_id));
    assert(shares == assets.circulating(exchange.liquidity_id));
    lemma_holder_within_sum(assets.balances, exchange.liquidity_id, origin);
    assert(zlk_to_burn <= shares);
    lemma_portion_within_part(zlk_to_burn as nat, reserve as nat, shares as nat);
    lemma_portion_within_part(zlk_to_burn as nat, tokens as nat, shares as nat);
    assert forall|id: ExchangeId| #[trigger] pools.exchanges[id] is Some implies paired(
        pools.exchanges[id]->Some_0,
        assets_after,
        currency_after,
    ) by {
        assert(paired(pools.exchanges[id]->Some_0, assets, currency));
        if id != exchange_id {
            lemma_pools_are_apart(pools, assets, id, exchange_id);
        }
    }
}

/// Pools stay paired through a sale of tokens for the tokens of another pool.
proof fn lemma_token_to_token_input_keeps_pools_paired<C: Currency>(
    pools: Registry,
    assets: State,
    currency: C,
    assets_after: State,
    currency_after: C,
    origin: AccountId,
    exchange_id: ExchangeId,
    other_exchange_id: ExchangeId,
    tokens_sold: TokenBalance,
    min_other_tokens: TokenBalance,
    deadline: BlockNumber,
    recipient: AccountId,
    now: BlockNumber,
)
    requires
        pools.coherent(assets),
        assets.conserved(),
        balanced(pools, assets, currency),
        stranger(pools, origin),
        stranger(pools, recipient),
        done(
            pools.token_to_token_input(
                assets,
                currency,
                origin,
                exchange_id,
                other_exchange_id,
                tokens_sold,
                min_other_tokens,
                deadline,
                recipient,
                now,
            ),
            assets,
            currency,
            assets_after,
            currency_after,
        ),
    ensures
        balanced(pools, assets_after, currency_after),
{
    reveal_with_fuel(applied_from, 3);
    reveal_with_fuel(check_from, 3);
    let exchange = pools.exchanges[exchange_id]->Some_0;
    assert(pools.exchanges[exchange_id] is Some);
    let reserve = convert(currency_reserve(currency, exchange));
    let tokens = token_reserve(assets, exchange);
    let other_exchange = pools.exchanges[other_exchange_id]->Some_0;
    assert(pools.exchanges[other_exchange_id] is Some);
    let other_reserve = convert(currency_reserve(currency, other_exchange));
    let other_tokens = token_reserve(assets, other_exchange);
    assert(paired(exchange, assets, currency));
    assert(paired(other_exchange, assets, currency));
    if exchange_id != other_exchange_id {
        lemma_pools_are_apart(pools, assets, exchange_id, other_exchange_id);
    }
    lemma_input_price_within_reserve(tokens_sold as nat, tokens as nat, reserve as nat);
    let currency_bought = checked_input_price(tokens_sold, tokens, reserve)->Ok_0;
    lemma_input_price_within_reserve(
        currency_bought as nat,
        other_reserve as nat,
        other_tokens as nat,
    );
    let bought = checked_input_price(currency_bought, other_reserve, other_tokens)->Ok_0;
    assert(bought >= 1);
    assert(currency_bought >= 1) by {
        if currency_bought == 0 {
            assert(0nat * 997 * (other_tokens as nat) == 0) by (nonlinear_arith);
        }
    }
    assert(assets_after.supply == assets.supply);
    if exchange_id != other_exchange_id {
        assert(token_reserve(assets_after, exchange) == tokens + tokens_sold);
        assert(currency_reserve(currency_after, exchange) == currency_reserve(currency, exchange)
            - currency_bought);
        assert(token_reserve(assets_after, other_exchange) == other_tokens - bought);
        assert(currency_reserve(currency_after, other_exchange) == currency_reserve(
            currency,
            other_exchange,
        ) + currency_bought);
    } else {
        assert(token_reserve(assets_after, exchange) == tokens + tokens_sold - bought);
        assert(currency_reserve(currency_after, exchange) == currency_reserve(currency, exchange));
    }
    assert(paired(exchange, assets_after, currency_after));
    assert(paired(other_exchange, assets_after, currency_after));
    assert forall|id: ExchangeId| #[trigger] pools.exchanges[id] is Some implies paired(
        pools.exchanges[id]->Some_0,
        assets_after,
        currency_after,
    ) by {
        let pool = pools.exchanges[id]->Some_0;
        assert(paired(pool, assets, currency));
        if id != exchange_id && id != other_exchange_id {
            lemma_pools_are_apart(pools, assets, id, exchange_id);
            lemma_pools_are_apart(pools, assets, id, other_exchange_id);
            assert(token_reserve(assets_after, pool) == token_reserve(assets, pool));
            assert(currency_reserve(currency_after, pool) == currency_reserve(currency, pool));
            assert(assets_after.supply[pool.liquidity_id] == assets.supply[pool.liquidity_id]);
        }
    }
}

/// Pools stay paired through a purchase of the tokens of another pool for tokens.
proof fn lemma_token_to_token_output_keeps_pools_paired<C: Currency>(
    pools: Registry,
    assets: State,
    currency: C,
    assets_after: State,
    currency_after: C,
    origin: AccountId,
    exchange_id: ExchangeId,
    other_exchange_id: ExchangeId,
    other_tokens_bought: TokenBalance,
    max_tokens: TokenBalance,
    deadline: BlockNumber,
    recipient: AccountId,
    now: BlockNumber,
)
    requires
        pools.coherent(assets),
        assets.conserved(),
        balanced(pools, assets, currency),
        stranger(pools, origin),
        stranger(pools, recipient),
        done(
            pools.token_to_token_output(
                assets,
                currency,
                origin,
                exchange_id,
                other_exchange_id,
                other_tokens_bought,
                max_tokens,
                deadline,
                recipient,
                now,
            ),
            assets,
            currency,
            assets_after,
            currency_after,
        ),
    ensures
        balanced(pools, assets_after, currency_after),
{
    reveal_with_fuel(applied_from, 3);
    reveal_with_fuel(check_from, 3);
    let exchange = pools.exchanges[exchange_id]->Some_0;
    assert(pools.exchanges[exchange_id] is Some);
    let reserve = convert(currency_reserve(currency, exchange));
    let tokens = token_reserve(assets, exchange);
    let other_exchange = pools.exchanges[other_exchange_id]->Some_0;
    assert(pools.exchanges[other_exchange_id] is Some);
    let other_reserve = convert(currency_reserve(currency, other_exchange));
    let other_tokens = token_reserve(assets, other_exchange);
    assert(paired(exchange, assets, currency));
    assert(paired(other_exchange, assets, currency));
    if exchange_id != other_exchange_id {
        lemma_pools_are_apart(pools, assets, exchange_id, other_exchange_id);
    }
    let moved = checked_output_price(other_tokens_bought, other_reserve, other_tokens)->Ok_0;
    let sold = checked_output_price(moved, tokens, reserve)->Ok_0;
    assert(moved >= 1 && sold >= 1);
    assert(moved < reserve);
    assert(other_tokens_bought < other_tokens);
    assert(assets_after.supply == assets.supply);
    if exchange_id != other_exchange_id {
        assert(token_reserve(assets_after, exchange) == tokens + sold);
        assert(currency_reserve(currency_after, exchange) == currency_reserve(currency, exchange)
            - moved);
        assert(token_reserve(assets_after, other_exchange) == other_tokens - other_tokens_bought);
        assert(currency_reserve(currency_after, other_exchange) == currency_reserve(
            currency,
            other_exchange,
        ) + moved);
    } else {
        assert(token_reserve(assets_after, exchange) == tokens + sold - other_tokens_bought);
        assert(currency_reserve(currency_after, exchange) == currency_reserve(currency, exchange));
    }
    assert(paired(exchange, assets_after, currency_after));
    assert(paired(other_exchange, assets_after, currency_after));
    assert forall|id: ExchangeId| #[trigger] pools.exchanges[id] is Some implies paired(
        pools.exchanges[id]->Some_0,
        assets_after,
        currency_after,
    ) by {
        let pool = pools.exchanges[id]->Some_0;
        assert(paired(pool, assets, currency));
        if id != exchange_id && id != other_exchange_id {
            lemma_pools_are_apart(pools, assets, id, exchange_id);
            lemma_pools_are_apart(pools, assets, id, other_exchange_id);
            assert(token_reserve(assets_after, pool) == token_reserve(assets, pool));
            assert(currency_reserve(currency_after, pool) == currency_reserve(currency, pool));
            assert(assets_after.supply[pool.liquidity_id] == assets.supply[pool.liquidity_id]);
        }
    }
}

/// The product of the reserves does not fall through a sale of currency for tokens.
proof fn lemma_currency_to_tokens_input_keeps_product<C: Currency>(
    pools: Registry,
    assets: State,
    currency: C,
    assets_after: State,
    currency_after: C,
    origin: AccountId,
    exchange_id: ExchangeId,
    currency_sold: Balance,
    min_tokens: TokenBalance,
    deadline: BlockNumber,
    recipient: AccountId,
    now: BlockNumber,
)
    requires
        pools.coherent(assets),
        stranger(pools, origin),
        stranger(pools, recipient),
        currency_reserve(currency, pools.exchanges[exchange_id]->Some_0) <= u64::MAX,
        done(
            pools.currency_to_tokens_input(
                assets,
                currency,
                origin,
                exchange_id,
                currency_sold,
                min_tokens,
                deadline,
                recipient,
                now,
            ),
            assets,
            currency,
            assets_after,
            currency_after,
        ),
    ensures
        product(pools.exchanges[exchange_id]->Some_0, assets_after, currency_after) >= product(
            pools.exchanges[exchange_id]->Some_0,
            assets,
            currency,
        ),
        product(pools.exchanges[exchange_id]->Some_0, assets, currency) > 0 ==> product(
            pools.exchanges[exchange_id]->Some_0,
            assets_after,
            currency_after,
        ) > product(pools.exchanges[exchange_id]->Some_0, assets, currency),
{
    reveal_with_fuel(applied_from, 3);
    reveal_with_fuel(check_from, 3);
    let exchange = pools.exchanges[exchange_id]->Some_0;
    assert(pools.exchanges[exchange_id] is Some);
    let reserve = currency_reserve(currency, exchange) as int;
    let tokens = token_reserve(assets, exchange) as int;
    let reserve_after = currency_reserve(currency_after, exchange) as int;
    let tokens_after = token_reserve(assets_after, exchange) as int;
    assert(convert(currency_reserve(currency, exchange)) == reserve);
    let sold = convert(currency_sold) as int;
    let bought = input_price(sold as nat, reserve as nat, tokens as nat) as int;
    lemma_input_price_keeps_product(sold as nat, reserve as nat, tokens as nat);
    assert(tokens_after == tokens - bought);
    assert(reserve_after == reserve + currency_sold);
    assert((reserve + currency_sold) * (tokens - bought) >= (reserve + sold) * (tokens - bought))
        by (nonlinear_arith)
        requires
            currency_sold >= sold,
            tokens - bought >= 0,
    ;
    assert(tokens_after * reserve_after == (reserve + currency_sold) * (tokens - bought))
        by (nonlinear_arith)
        requires
            tokens_after == tokens - bought,
            reserve_after == reserve + currency_sold,
    ;
    assert(tokens * reserve == reserve * tokens) by (nonlinear_arith);
    if tokens * reserve > 0 {
        assert(tokens > 0 && reserve > 0) by (nonlinear_arith)
            requires
                tokens * reserve > 0,
                tokens >= 0,
                reserve >= 0,
        ;
    }
}

/// The product of the reserves does not fall through a purchase of tokens for currency.
proof fn lemma_currency_to_tokens_output_keeps_product<C: Currency>(
    pools: Registry,
    assets: State,
    currency: C,
    assets_after: State,
    currency_after: C,
    origin: AccountId,
    exchange_id: ExchangeId,
    tokens_bought: TokenBalance,
    max_currency: Balance,
    deadline: BlockNumber,
    recipient: AccountId,
    now: BlockNumber,
)
    requires
        pools.coherent(assets),
        stranger(pools, origin),
        stranger(pools, recipient),
        currency_reserve(currency, pools.exchanges[exchange_id]->Some_0) <= u64::MAX,
        done(
            pools.currency_to_tokens_output(
                assets,
                currency,
                origin,
                exchange_id,
                tokens_bought,
                max_currency,
                deadline,
                recipient,
                now,
            ),
            assets,
            currency,
            assets_after,
            currency_after,
        ),
    ensures
        product(pools.exchanges[exchange_id]->Some_0, assets_after, currency_after) >= product(
            pools.exchanges[exchange_id]->Some_0,
            assets,
            currency,
        ),
        product(pools.exchanges[exchange_id]->Some_0, assets, currency) > 0 ==> product(
            pools.exchanges[exchange_id]->Some_0,
            assets_after,
            currency_after,
        ) > product(pools.exchanges[exchange_id]->Some_0, assets, currency),
{
    reveal_with_fuel(applied_from, 3);
    reveal_with_fuel(check_from, 3);
    let exchange = pools.exchanges[exchange_id]->Some_0;
    assert(pools.exchanges[exchange_id] is Some);
    let reserve = currency_reserve(currency, exchange) as int;
    let tokens = token_reserve(assets, exchange) as int;
    let reserve_after = currency_reserve(currency_after, exchange) as int;
    let tokens_after = token_reserve(assets_after, exchange) as int;
    assert(convert(currency_reserve(currency, exchange)) == reserve);
    let sold = output_price(tokens_bought as nat, reserve as nat, tokens as nat) as int;
    lemma_output_price_keeps_product(tokens_bought as nat, reserve as nat, tokens as nat);
    assert(tokens_after == tokens - tokens_bought);
    assert(reserve_after == reserve + sold);
    assert(tokens_after * reserve_after == (reserve + sold) * (tokens - tokens_bought))
        by (nonlinear_arith)
        requires
            tokens_after == tokens - tokens_bought,
            reserve_after == reserve + sold,
    ;
    assert(tokens * reserve == reserve * tokens) by (nonlinear_arith);
}

/// The product of the reserves does not fall through a sale of tokens for currency.
proof fn lemma_tokens_to_currency_input_keeps_product<C: Currency>(
    pools: Registry,
    assets: State,
    currency: C,
    assets_after: State,
    currency_after: C,
    origin: AccountId,
    exchange_id: ExchangeId,
    tokens_sold: TokenBalance,
    min_currency: Balance,
    deadline: BlockNumber,
    recipient: AccountId,
    now: BlockNumber,
)
    requires
        pools.coherent(assets),
        stranger(pools, origin),
        stranger(pools, recipient),
        currency_reserve(currency, pools.exchanges[exchange_id]->Some_0) <= u64::MAX,
        done(
            pools.tokens_to_currency_input(
                assets,
                currency,
                origin,
                exchange_id,
                tokens_sold,
                min_currency,
                deadline,
                recipient,
                now,
            ),
            assets,
            currency,
            assets_after,
            currency_after,
        ),
    ensures
        product(pools.exchanges[exchange_id]->Some_0, assets_after, currency_after) >= product(
            pools.exchanges[exchange_id]->Some_0,
            assets,
            currency,
        ),
        product(pools.exchanges[exchange_id]->Some_0, assets, currency) > 0 ==> product(
            pools.exchanges[exchange_id]->Some_0,
            assets_after,
            currency_after,
        ) > product(pools.exchanges[exchange_id]->Some_0, assets, currency),
{
    reveal_with_fuel(applied_from, 3);
    reveal_with_fuel(check_from, 3);
    let exchange = pools.exchanges[exchange_id]->Some_0;
    assert(pools.exchanges[exchange_id] is Some);
    let reserve = currency_reserve(currency, exchange) as int;
    let tokens = token_reserve(assets, exchange) as int;
    let reserve_after = currency_reserve(currency_after, exchange) as int;
    let tokens_after = token_reserve(assets_after, exchange) as int;
    assert(convert(currency_reserve(currency, exchange)) == reserve);
    let bought = input_price(tokens_sold as nat, tokens as nat, reserve as nat) as int;
    lemma_input_price_keeps_product(tokens_sold as nat, tokens as nat, reserve as nat);
    assert(tokens_after == tokens + tokens_sold);
    assert(reserve_after == reserve - bought);
    assert(tokens_after * reserve_after == (tokens + tokens_sold) * (reserve - bought))
        by (nonlinear_arith)
        requires
            tokens_after == tokens + tokens_sold,
            reserve_after == reserve - bought,
    ;
    if tokens * reserve > 0 {
        assert(tokens > 0 && reserve > 0) by (nonlinear_arith)
            requires
                tokens * reserve > 0,
                tokens >= 0,
                reserve >= 0,
        ;
    }
}

/// The product of the reserves does not fall through a purchase of currency for tokens.
proof fn lemma_tokens_to_currency_output_keeps_product<C: Currency>(
    pools: Registry,
    assets: State,
    currency: C,
    assets_after: State,
    currency_after: C,
    origin: AccountId,
    exchange_id: ExchangeId,
    currency_bought: Balance,
    max_tokens: TokenBalance,
    deadline: BlockNumber,
    recipient: AccountId,
    now: BlockNumber,
)
    requires
        pools.coherent(assets),
        stranger(pools, origin),
        stranger(pools, recipient),
        currency_reserve(currency, pools.exchanges[exchange_id]->Some_0) <= u64::MAX,
        done(
            pools.tokens_to_currency_output(
                assets,
                currency,
                origin,
                exchange_id,
                currency_bought,
                max_tokens,
                deadline,
                recipient,
                now,
            ),
            assets,
            currency,
            assets_after,
            currency_after,
        ),
    ensures
        product(pools.exchanges[exchange_id]->Some_0, assets_after, currency_after) >= product(
            pools.exchanges[exchange_id]->Some_0,
            assets,
            currency,
        ),
        product(pools.exchanges[exchange_id]->Some_0, assets, currency) > 0 ==> product(
            pools.exchanges[exchange_id]->Some_0,
            assets_after,
            currency_after,
        ) > product(pools.exchanges[exchange_id]->Some_0, assets, currency),
{
    reveal_with_fuel(applied_from, 3);
    reveal_with_fuel(check_from, 3);
    let exchange = pools.exchanges[exchange_id]->Some_0;
    assert(pools.exchanges[exchange_id] is Some);
    let reserve = currency_reserve(currency, exchange) as int;
    let tokens = token_reserve(assets, exchange) as int;
    let reserve_after = currency_reserve(currency_after, exchange) as int;
    let tokens_after = token_reserve(assets_after, exchange) as int;
    assert(convert(currency_reserve(currency, exchange)) == reserve);
    let bought = convert(currency_bought) as int;
    assert(bought == currency_bought);
    let sold = output_price(bought as nat, tokens as nat, reserve as nat) as int;
    lemma_output_price_keeps_product(bought as nat, tokens as nat, reserve as nat);
    assert(tokens_after == tokens + sold);
    assert(reserve_after == reserve - bought);
    assert(tokens_after * reserve_after == (tokens + sold) * (reserve - bought))
        by (nonlinear_arith)
        requires
            tokens_after == tokens + sold,
            reserve_after == reserve - bought,
    ;
}

/// The product of the reserves does not fall through a sale of tokens for the tokens of another pool.
proof fn lemma_token_to_token_input_keeps_product<C: Currency>(
    pools: Registry,
    assets: State,
    currency: C,
    assets_after: State,
    currency_after: C,
    origin: AccountId,
    exchange_id: ExchangeId,
    other_exchange_id: ExchangeId,
    tokens_sold: TokenBalance,
    min_other_tokens: TokenBalance,
    deadline: BlockNumber,
    recipient: AccountId,
    now: BlockNumber,
)
    requires
        pools.coherent(assets),
        stranger(pools, origin),
        stranger(pools, recipient),
        currency_reserve(currency, pools.exchanges[exchange_id]->Some_0) <= u64::MAX,
        currency_reserve(currency, pools.exchanges[other_exchange_id]->Some_0) <= u64::MAX,
        done(
            pools.token_to_token_input(
                assets,
                currency,
                origin,
                exchange_id,
                other_exchange_id,
                tokens_sold,
                min_other_tokens,
                deadline,
                recipient,
                now,
            ),
            assets,
            currency,
            assets_after,
            currency_after,
        ),
    ensures
        product(pools.exchanges[exchange_id]->Some_0, assets_after, currency_after) >= product(
            pools.exchanges[exchange_id]->Some_0,
            assets,
            currency,
        ),
        product(pools.exchanges[other_exchange_id]->Some_0, assets_after, currency_after)
            >= product(pools.exchanges[other_exchange_id]->Some_0, assets, currency),
{
    reveal_with_fuel(applied_from, 3);
    reveal_with_fuel(check_from, 3);
    let exchange = pools.exchanges[exchange_id]->Some_0;
    assert(pools.exchanges[exchange_id] is Some);
    let reserve = currency_reserve(currency, exchange) as int;
    let tokens = token_reserve(assets, exchange) as int;
    let reserve_after = currency_reserve(currency_after, exchange) as int;
    let tokens_after = token_reserve(assets_after, exchange) as int;
    assert(convert(currency_reserve(currency, exchange)) == reserve);
    let other_exchange = pools.exchanges[other_exchange_id]->Some_0;
    assert(pools.exchanges[other_exchange_id] is Some);
    let other_reserve = currency_reserve(currency, other_exchange) as int;
    let other_tokens = token_reserve(assets, other_exchange) as int;
    let other_reserve_after = currency_reserve(currency_after, other_exchange) as int;
    let other_tokens_after = token_reserve(assets_after, other_exchange) as int;
    assert(convert(currency_reserve(currency, other_exchange)) == other_reserve);
    if exchange_id != other_exchange_id {
        lemma_pools_are_apart(pools, assets, exchange_id, other_exchange_id);
    }
    let moved = input_price(tokens_sold as nat, tokens as nat, reserve as nat) as int;
    let bought = input_price(moved as nat, other_reserve as nat, other_tokens as nat) as int;
    lemma_input_price_keeps_product(tokens_sold as nat, tokens as nat, reserve as nat);
    lemma_input_price_keeps_product(moved as nat, other_reserve as nat, other_tokens as nat);
    if exchange_id != other_exchange_id {
        assert(tokens_after == tokens + tokens_sold);
        assert(reserve_after == reserve - moved);
        assert(other_tokens_after == other_tokens - bought);
        assert(other_reserve_after == other_reserve + moved);
        assert(tokens_after * reserve_after == (tokens + tokens_sold) * (reserve - moved))
            by (nonlinear_arith)
            requires
                tokens_after == tokens + tokens_sold,
                reserve_after == reserve - moved,
        ;
        assert(other_tokens_after * other_reserve_after == (other_reserve + moved) * (other_tokens
            - bought)) by (nonlinear_arith)
            requires
                other_tokens_after == other_tokens - bought,
                other_reserve_after == other_reserve + moved,
        ;
        assert(other_tokens * other_reserve == other_reserve * other_tokens) by (nonlinear_arith);
    } else {
        assert(tokens_after == tokens + tokens_sold - bought);
        assert(reserve_after == reserve);
        if tokens > 0 && reserve > 0 {
            lemma_sale_and_sale_back(tokens_sold as nat, tokens as nat, reserve as nat);
        } else {
            lemma_input_price_within_reserve(tokens_sold as nat, tokens as nat, reserve as nat);
            lemma_input_price_within_reserve(moved as nat, reserve as nat, tokens as nat);
        }
        assert(tokens_after * reserve_after >= tokens * reserve) by (nonlinear_arith)
            requires
                tokens_after >= tokens || reserve == 0,
                reserve_after == reserve,
                reserve >= 0,
                tokens >= 0,
                tokens_after >= 0,
        ;
    }
}

/// The product of the reserves does not fall through a purchase of the tokens of another pool for tokens.
proof fn lemma_token_to_token_output_keeps_product<C: Currency>(
    pools: Registry,
    assets: State,
    currency: C,
    assets_after: State,
    currency_after: C,
    origin: AccountId,
    exchange_id: ExchangeId,
    other_exchange_id: ExchangeId,
    other_tokens_bought: TokenBalance,
    max_tokens: TokenBalance,
    deadline: BlockNumber,
    recipient: AccountId,
    now: BlockNumber,
)
    requires
        pools.coherent(assets),
        stranger(pools, origin),
        stranger(pools, recipient),
        currency_reserve(currency, pools.exchanges[exchange_id]->Some_0) <= u64::MAX,
        currency_reserve(currency, pools.exchanges[other_exchange_id]->Some_0) <= u64::MAX,
        done(
            pools.token_to_token_output(
                assets,
                currency,
                origin,
                exchange_id,
                other_exchange_id,
                other_tokens_bought,
                max_tokens,
                deadline,
                recipient,
                now,
            ),
            assets,
            currency,
            assets_after,
            currency_after,
        ),
    ensures
        product(pools.exchanges[exchange_id]->Some_0, assets_after, currency_after) >= product(
            pools.exchanges[exchange_id]->Some_0,
            assets,
            currency,
        ),
        product(pools.exchanges[other_exchange_id]->Some_0, assets_after, currency_after)
            >= product(pools.exchanges[other_exchange_id]->Some_0, assets, currency),
{
    reveal_with_fuel(applied_from, 3);
    reveal_with_fuel(check_from, 3);
    let exchange = pools.exchanges[exchange_id]->Some_0;
    assert(pools.exchanges[exchange_id] is Some);
    let reserve = currency_reserve(currency, exchange) as int;
    let tokens = token_reserve(assets, exchange) as int;
    let reserve_after = currency_reserve(currency_after, exchange) as int;
    let tokens_after = token_reserve(assets_after, exchange) as int;
    assert(convert(currency_reserve(currency, exchange)) == reserve);
    let other_exchange = pools.exchanges[other_exchange_id]->Some_0;
    assert(pools.exchanges[other_exchange_id] is Some);
    let other_reserve = currency_reserve(currency, other_exchange) as int;
    let other_tokens = token_reserve(assets, other_exchange) as int;
    let other_reserve_after = currency_reserve(currency_after, other_exchange) as int;
    let other_tokens_after = token_reserve(assets_after, other_exchange) as int;
    assert(convert(currency_reserve(currency, other_exchange)) == other_reserve);
    if exchange_id != other_exchange_id {
        lemma_pools_are_apart(pools, assets, exchange_id, other_exchange_id);
    }
    let moved = output_price(other_tokens_bought as nat, other_reserve as nat, other_tokens as nat) as int;
    let sold = output_price(moved as nat, tokens as nat, reserve as nat) as int;
    lemma_output_price_keeps_product(
        other_tokens_bought as nat,
        other_reserve as nat,
        other_tokens as nat,
    );
    lemma_output_price_keeps_product(moved as nat, tokens as nat, reserve as nat);
    if exchange_id != other_exchange_id {
        assert(tokens_after == tokens + sold);
        assert(reserve_after == reserve - moved);
        assert(other_tokens_after == other_tokens - other_tokens_bought);
        assert(other_reserve_after == other_reserve + moved);
        assert(tokens_after * reserve_after == (tokens + sold) * (reserve - moved))
            by (nonlinear_arith)
            requires
                tokens_after == tokens + sold,
                reserve_after == reserve - moved,
        ;
        assert(other_tokens_after * other_reserve_after == (other_reserve + moved) * (other_tokens
            - other_tokens_bought)) by (nonlinear_arith)
            requires
                other_tokens_after == other_tokens - other_tokens_bought,
                other_reserve_after == other_reserve + moved,
        ;
        assert(other_tokens * other_reserve == other_reserve * other_tokens) by (nonlinear_arith);
    } else {
        assert(tokens_after == tokens + sold - other_tokens_bought);
        assert(reserve_after == reserve);
        lemma_purchase_of_the_price(other_tokens_bought as nat, reserve as nat, tokens as nat);
        assert(tokens_after * reserve_after >= tokens * reserve) by (nonlinear_arith)
            requires
                tokens_after >= tokens,
                reserve_after == reserve,
                reserve >= 0,
                tokens >= 0,
        ;
    }
}

/// The operations of a plan that was made for pools that fit the ledger keep
/// the supply law: where shares are minted, the share asset exists.
pub proof fn lemma_plans_are_lawful<C: Currency>(
    pools: Registry,
    assets: State,
    currency: C,
    origin: AccountId,
    call: Call,
    now: BlockNumber,
)
    requires
        pools.coherent(assets),
        pools.plan(assets, currency, origin, call, now) is Ok,
    ensures
        lawful(assets, pools.plan(assets, currency, origin, call, now)->Ok_0.ops),
{
    let plan = pools.plan(assets, currency, origin, call, now)->Ok_0;
    assert(pools.exchanges[call.pool()] is Some);
    assert forall|j: int| 0 <= j < plan.ops.len() implies assets.lawful(#[trigger] plan.ops[j]) by {}
}

/// The supply law outlasts every call: where the pools fit the ledger and
/// the total supply of every asset is the sum of its balances, a call that
/// goes through leaves a ledger of which both still hold.
pub proof fn law_calls_keep_the_supply_law<C: Currency>(
    pools: Registry,
    assets: State,
    currency: C,
    origin: AccountId,
    call: Call,
    now: BlockNumber,
    assets_after: State,
    currency_after: C,
)
    requires
        pools.coherent(assets),
        assets.conserved(),
        done(
            pools.plan(assets, currency, origin, call, now),
            assets,
            currency,
            assets_after,
            currency_after,
        ),
    ensures
        assets_after.conserved(),
        pools.coherent(assets_after),
{
    let plan = pools.plan(assets, currency, origin, call, now)->Ok_0;
    lemma_plans_are_lawful(pools, assets, currency, origin, call, now);
    lemma_applied_from_keeps_law(assets, currency, plan.ops, plan.payment, plan.pay_at as int, 0);
    lemma_coherent_with_more_assets(pools, assets, assets_after);
}

/// Pools stay paired: where every pool with shares outstanding holds tokens
/// exactly if it holds currency, the same holds after any call that goes
/// through, made by and for accounts that are not themselves accounts of
/// pools.
pub proof fn law_calls_keep_pools_paired<C: Currency>(
    pools: Registry,
    assets: State,
    currency: C,
    origin: AccountId,
    call: Call,
    now: BlockNumber,
    assets_after: State,
    currency_after: C,
)
    requires
        pools.coherent(assets),
        assets.conserved(),
        balanced(pools, assets, currency),
        stranger(pools, origin),
        stranger(pools, call.recipient(origin)),
        done(
            pools.plan(assets, currency, origin, call, now),
            assets,
            currency,
            assets_after,
            currency_after,
        ),
    ensures
        balanced(pools, assets_after, currency_after),
{
    match call {
        Call::AddLiquidity {
            exchange_id,
            currency_amount,
            min_liquidity,
            max_tokens,
            deadline,
        } => {
            lemma_add_liquidity_keeps_pools_paired(
                pools,
                assets,
                currency,
                assets_after,
                currency_after,
                origin,
                origin,
                exchange_id,
                currency_amount,
                min_liquidity,
                max_tokens,
                deadline,
                now,
            );
        },
        Call::RemoveLiquidity { exchange_id, zlk_to_burn, min_currency, min_tokens, deadline } => {
            lemma_remove_liquidity_keeps_pools_paired(
                pools,
                assets,
                currency,
                assets_after,
                currency_after,
                origin,
                origin,
                exchange_id,
                zlk_to_burn,
                min_currency,
                min_tokens,
                deadline,
                now,
            );
        },
        Call::CurrencyToTokensInput {
            exchange_id,
            currency_sold,
            min_tokens,
            deadline,
            recipient,
        } => {
            lemma_currency_to_tokens_input_keeps_pools_paired(
                pools,
                assets,
                currency,
                assets_after,
                currency_after,
                origin,
                exchange_id,
                currency_sold,
                min_tokens,
                deadline,
                recipient,
                now,
            );
        },
        Call::CurrencyToTokensOutput {
            exchange_id,
            tokens_bought,
            max_currency,
            deadline,
            recipient,
        } => {
            lemma_currency_to_tokens_output_keeps_pools_paired(
                pools,
                assets,
                currency,
                assets_after,
                currency_after,
                origin,
                exchange_id,
                tokens_bought,
                max_currency,
                deadline,
                recipient,
                now,
            );
        },
        Call::TokensToCurrencyInput {
            exchange_id,
            tokens_sold,
            min_currency,
            deadline,
            recipient,
        } => {
            lemma_tokens_to_currency_input_keeps_pools_paired(
                pools,
                assets,
                currency,
                assets_after,
                currency_after,
                origin,
                exchange_id,
                tokens_sold,
                min_currency,
                deadline,
                recipient,
                now,
            );
        },
        Call::TokensToCurrencyOutput {
            exchange_id,
            currency_bought,
            max_tokens,
            deadline,
            recipient,
        } => {
            lemma_tokens_to_currency_output_keeps_pools_paired(
                pools,
                assets,
                currency,
                assets_after,
                currency_after,
                origin,
                exchange_id,
                currency_bought,
                max_tokens,
                deadline,
                recipient,
                now,
            );
        },
        Call::TokenToTokenInput {
            exchange_id,
            other_exchange_id,
            tokens_sold,
            min_other_tokens,
            deadline,
            recipient,
        } => {
            lemma_token_to_token_input_keeps_pools_paired(
                pools,
                assets,
                currency,
                assets_after,
                currency_after,
                origin,
                exchange_id,
                other_exchange_id,
                tokens_sold,
                min_other_tokens,
                deadline,
                recipient,
                now,
            );
        },
        Call::TokenToTokenOutput {
            exchange_id,
            other_exchange_id,
            other_tokens_bought,
            max_tokens,
            deadline,
            recipient,
        } => {
            lemma_token_to_token_output_keeps_pools_paired(
                pools,
                assets,
                currency,
                assets_after,
                currency_after,
                origin,
                exchange_id,
                other_exchange_id,
                other_tokens_bought,
                max_tokens,
                deadline,
                recipient,
                now,
            );
        },
    }
}

/// A swap does not lower the product of a pool's reserves: after any swap
/// that goes through, made by and for accounts that are not accounts of
/// pools, on pools whose currency reserve fits a token amount, the product
/// of the token reserve and the currency reserve of each pool that took part
/// is at least what it was.
pub proof fn law_swaps_keep_the_product<C: Currency>(
    pools: Registry,
    assets: State,
    currency: C,
    origin: AccountId,
    call: Call,
    now: BlockNumber,
    assets_after: State,
    currency_after: C,
)
    requires
        pools.coherent(assets),
        call.is_swap(),
        stranger(pools, origin),
        stranger(pools, call.recipient(origin)),
        currency_reserve(currency, pools.exchanges[call.pool()]->Some_0) <= u64::MAX,
        currency_reserve(currency, pools.exchanges[call.other_pool()]->Some_0) <= u64::MAX,
        done(
            pools.plan(assets, currency, origin, call, now),
            assets,
            currency,
            assets_after,
            currency_after,
        ),
    ensures
        product(pools.exchanges[call.pool()]->Some_0, assets_after, currency_after) >= product(
            pools.exchanges[call.pool()]->Some_0,
            assets,
            currency,
        ),
        product(pools.exchanges[call.other_pool()]->Some_0, assets_after, currency_after)
            >= product(pools.exchanges[call.other_pool()]->Some_0, assets, currency),
{
    match call {
        Call::AddLiquidity {
            exchange_id,
            currency_amount,
            min_liquidity,
            max_tokens,
            deadline,
        } => {},
        Call::RemoveLiquidity {
            exchange_id,
            zlk_to_burn,
            min_currency,
            min_tokens,
            deadline,
        } => {},
        Call::CurrencyToTokensInput {
            exchange_id,
            currency_sold,
            min_tokens,
            deadline,
            recipient,
        } => {
            lemma_currency_to_tokens_input_keeps_product(
                pools,
                assets,
                currency,
                assets_after,
                currency_after,
                origin,
                exchange_id,
                currency_sold,
                min_tokens,
                deadline,
                recipient,
                now,
            );
        },
        Call::CurrencyToTokensOutput {
            exchange_id,
            tokens_bought,
            max_currency,
            deadline,
            recipient,
        } => {
            lemma_currency_to_tokens_output_keeps_product(
                pools,
                assets,
                currency,
                assets_after,
                currency_after,
                origin,
                exchange_id,
                tokens_bought,
                max_currency,
                deadline,
                recipient,
                now,
            );
        },
        Call::TokensToCurrencyInput {
            exchange_id,
            tokens_sold,
            min_currency,
            deadline,
            recipient,
        } => {
            lemma_tokens_to_currency_input_keeps_product(
                pools,
                assets,
                currency,
                assets_after,
                currency_after,
                origin,
                exchange_id,
                tokens_sold,
                min_currency,
                deadline,
                recipient,
                now,
            );
        },
        Call::TokensToCurrencyOutput {
            exchange_id,
            currency_bought,
            max_tokens,
            deadline,
            recipient,
        } => {
            lemma_tokens_to_currency_output_keeps_product(
                pools,
                assets,
                currency,
                assets_after,
                currency_after,
                origin,
                exchange_id,
                currency_bought,
                max_tokens,
                deadline,
                recipient,
                now,
            );
        },
        Call::TokenToTokenInput {
            exchange_id,
            other_exchange_id,
            tokens_sold,
            min_other_tokens,
            deadline,
            recipient,
        } => {
            lemma_token_to_token_input_keeps_product(
                pools,
                assets,
                currency,
                assets_after,
                currency_after,
                origin,
                exchange_id,
                other_exchange_id,
                tokens_sold,
                min_other_tokens,
                deadline,
                recipient,
                now,
            );
        },
        Call::TokenToTokenOutput {
            exchange_id,
            other_exchange_id,
            other_tokens_bought,
            max_tokens,
            deadline,
            recipient,
        } => {
            lemma_token_to_token_output_keeps_product(
                pools,
                assets,
                currency,
                assets_after,
                currency_after,
                origin,
                exchange_id,
                other_exchange_id,
                other_tokens_bought,
                max_tokens,
                deadline,
                recipient,
                now,
            );
        },
    }
}

/// A swap through one pool raises the product of its reserves where the
/// pool holds both tokens and currency.
pub proof fn law_single_swaps_raise_the_product<C: Currency>(
    pools: Registry,
    assets: State,
    currency: C,
    origin: AccountId,
    call: Call,
    now: BlockNumber,
    assets_after: State,
    currency_after: C,
)
    requires
        pools.coherent(assets),
        call.is_swap(),
        !(call is TokenToTokenInput),
        !(call is TokenToTokenOutput),
        stranger(pools, origin),
        stranger(pools, call.recipient(origin)),
        currency_reserve(currency, pools.exchanges[call.pool()]->Some_0) <= u64::MAX,
        product(pools.exchanges[call.pool()]->Some_0, assets, currency) > 0,
        done(
            pools.plan(assets, currency, origin, call, now),
            assets,
            currency,
            assets_after,
            currency_after,
        ),
    ensures
        product(pools.exchanges[call.pool()]->Some_0, assets_after, currency_after) > product(
            pools.exchanges[call.pool()]->Some_0,
            assets,
            currency,
        ),
{
    match call {
        Call::AddLiquidity {
            exchange_id,
            currency_amount,
            min_liquidity,
            max_tokens,
            deadline,
        } => {},
        Call::RemoveLiquidity {
            exchange_id,
            zlk_to_burn,
            min_currency,
            min_tokens,
            deadline,
        } => {},
        Call::CurrencyToTokensInput {
            exchange_id,
            currency_sold,
            min_tokens,
            deadline,
            recipient,
        } => {
            lemma_currency_to_tokens_input_keeps_product(
                pools,
                assets,
                currency,
                assets_after,
                currency_after,
                origin,
                exchange_id,
                currency_sold,
                min_tokens,
                deadline,
                recipient,
                now,
            );
        },
        Call::CurrencyToTokensOutput {
            exchange_id,
            tokens_bought,
            max_currency,
            deadline,
            recipient,
        } => {
            lemma_currency_to_tokens_output_keeps_product(
                pools,
                assets,
                currency,
                assets_after,
                currency_after,
                origin,
                exchange_id,
                tokens_bought,
                max_currency,
                deadline,
                recipient,
                now,
            );
        },
        Call::TokensToCurrencyInput {
            exchange_id,
            tokens_sold,
            min_currency,
            deadline,
            recipient,
        } => {
            lemma_tokens_to_currency_input_keeps_product(
                pools,
                assets,
                currency,
                assets_after,
                currency_after,
                origin,
                exchange_id,
                tokens_sold,
                min_currency,
                deadline,
                recipient,
                now,
            );
        },
        Call::TokensToCurrencyOutput {
            exchange_id,
            currency_bought,
            max_tokens,
            deadline,
            recipient,
        } => {
            lemma_tokens_to_currency_output_keeps_product(
                pools,
                assets,
                currency,
                assets_after,
                currency_after,
                origin,
                exchange_id,
                currency_bought,
                max_tokens,
                deadline,
                recipient,
                now,
            );
        },
        Call::TokenToTokenInput {
            exchange_id,
            other_exchange_id,
            tokens_sold,
            min_other_tokens,
            deadline,
            recipient,
        } => {},
        Call::TokenToTokenOutput {
            exchange_id,
            other_exchange_id,
            other_tokens_bought,
            max_tokens,
            deadline,
            recipient,
        } => {},
    }
}

/// The first liquidity of an empty pool comes back whole: when a stranger
/// to the pools provides the first liquidity of a pool that holds neither
/// tokens nor currency, the shares minted are as many as the currency paid,
/// and removing them next returns exactly the currency and the tokens that
/// went in.
pub proof fn law_first_liquidity_comes_back_whole<C: Currency>(
    pools: Registry,
    assets: State,
    currency: C,
    origin: AccountId,
    exchange_id: ExchangeId,
    currency_amount: Balance,
    min_liquidity: TokenBalance,
    max_tokens: TokenBalance,
    deadline: BlockNumber,
    now: BlockNumber,
    assets_after: State,
    currency_after: C,
    removal_deadline: BlockNumber,
    removal_now: BlockNumber,
)
    requires
        pools.coherent(assets),
        stranger(pools, origin),
        pools.exchanges[exchange_id] is Some,
        assets.supply[pools.exchanges[exchange_id]->Some_0.liquidity_id] == 0,
        token_reserve(assets, pools.exchanges[exchange_id]->Some_0) == 0,
        currency_reserve(currency, pools.exchanges[exchange_id]->Some_0) == 0,
        currency_amount <= u64::MAX,
        done(
            pools.add_liquidity(
                assets,
                currency,
                origin,
                exchange_id,
                currency_amount,
                min_liquidity,
                max_tokens,
                deadline,
                now,
            ),
            assets,
            currency,
            assets_after,
            currency_after,
        ),
        removal_deadline > removal_now,
    ensures
        assets_after.supply[pools.exchanges[exchange_id]->Some_0.liquidity_id] == currency_amount,
        pools.remove_liquidity(
            assets_after,
            currency_after,
            origin,
            exchange_id,
            currency_amount as TokenBalance,
            0,
            0,
            removal_deadline,
            removal_now,
        ) is Ok,
        pools.remove_liquidity(
            assets_after,
            currency_after,
            origin,
            exchange_id,
            currency_amount as TokenBalance,
            0,
            0,
            removal_deadline,
            removal_now,
        )->Ok_0.event == Event::LiquidityRemoved(exchange_id, origin, currency_amount, max_tokens),
{
    reveal_with_fuel(applied_from, 3);
    reveal_with_fuel(check_from, 3);
    let exchange = pools.exchanges[exchange_id]->Some_0;
    let shares = currency_amount as TokenBalance;
    assert(assets_after.supply[exchange.liquidity_id] == shares);
    assert(token_reserve(assets_after, exchange) == max_tokens);
    assert(currency_reserve(currency_after, exchange) == currency_amount);
    assert((shares as nat) * (shares as nat) / (shares as nat) == shares) by (nonlinear_arith)
        requires
            shares > 0,
    ;
    assert((shares as nat) * (max_tokens as nat) / (shares as nat) == max_tokens)
        by (nonlinear_arith)
        requires
            shares > 0,
    ;
}

/// Later liquidity comes back short by rounding alone: when a stranger to
/// the pools adds liquidity to a pool with shares outstanding and removes
/// the shares just minted next, no more comes back of either side than went
/// in. All but at most one unit of the currency comes back exactly when the
/// remainder of `currency_amount * shares / currency_reserve` is no more
/// than the shares then outstanding, and all but at most one token exactly
/// when `minted * token_reserve + shares + minted >= tokens * shares`.
pub proof fn law_later_liquidity_comes_back_short<C: Currency>(
    pools: Registry,
    assets: State,
    currency: C,
    origin: AccountId,
    exchange_id: ExchangeId,
    currency_amount: Balance,
    min_liquidity: TokenBalance,
    max_tokens: TokenBalance,
    deadline: BlockNumber,
    now: BlockNumber,
    assets_after: State,
    currency_after: C,
    removal_deadline: BlockNumber,
    removal_now: BlockNumber,
)
    requires
        pools.coherent(assets),
        stranger(pools, origin),
        pools.exchanges[exchange_id] is Some,
        assets.supply[pools.exchanges[exchange_id]->Some_0.liquidity_id] > 0,
        currency_reserve(currency, pools.exchanges[exchange_id]->Some_0) + currency_amount
            <= u64::MAX,
        done(
            pools.add_liquidity(
                assets,
                currency,
                origin,
                exchange_id,
                currency_amount,
                min_liquidity,
                max_tokens,
                deadline,
                now,
            ),
            assets,
            currency,
            assets_after,
            currency_after,
        ),
        removal_deadline > removal_now,
    ensures
        ({
            let exchange = pools.exchanges[exchange_id]->Some_0;
            let shares = assets.supply[exchange.liquidity_id] as nat;
            let reserve = currency_reserve(currency, exchange) as nat;
            let held = token_reserve(assets, exchange) as nat;
            let minted = portion(currency_amount as nat, shares, reserve);
            let tokens = portion(currency_amount as nat, held, reserve);
            let currency_out = portion(minted, (reserve + currency_amount) as nat, shares + minted);
            let tokens_out = portion(minted, held + tokens, shares + minted);
            let removal = pools.remove_liquidity(
                assets_after,
                currency_after,
                origin,
                exchange_id,
                minted as TokenBalance,
                0,
                0,
                removal_deadline,
                removal_now,
            );
            &&& assets_after.supply[exchange.liquidity_id] == shares + minted
            &&& removal is Ok
            &&& removal->Ok_0.event == Event::LiquidityRemoved(
                exchange_id,
                origin,
                currency_out as Balance,
                tokens_out as TokenBalance,
            )
            &&& currency_out <= currency_amount
            &&& tokens_out <= tokens
            &&& currency_amount - currency_out <= 1 <==> ((currency_amount as nat) * shares) % reserve
                <= shares + minted
            &&& tokens - tokens_out <= 1 <==> minted * held + shares + minted >= tokens * shares
        }),
{
    reveal_with_fuel(applied_from, 3);
    reveal_with_fuel(check_from, 3);
    let exchange = pools.exchanges[exchange_id]->Some_0;
    let shares = assets.supply[exchange.liquidity_id] as nat;
    let reserve = currency_reserve(currency, exchange) as nat;
    let held = token_reserve(assets, exchange) as nat;
    let minted = portion(currency_amount as nat, shares, reserve);
    let tokens = portion(currency_amount as nat, held, reserve);
    assert(convert(currency_amount) == currency_amount);
    assert(convert(currency_reserve(currency, exchange)) == reserve);
    assert(reserve > 0);
    assert(minted >= 1);
    lemma_liquidity_added_and_removed(currency_amount as nat, shares, reserve, held);
    assert(assets_after.supply[exchange.liquidity_id] == shares + minted);
    assert(token_reserve(assets_after, exchange) == held + tokens);
    assert(currency_reserve(currency_after, exchange) == reserve + currency_amount);
    assert(convert(currency_reserve(currency_after, exchange)) == reserve + currency_amount);
    lemma_portion_within_part(minted, (reserve + currency_amount) as nat, shares + minted);
    lemma_portion_within_part(minted, held + tokens, shares + minted);
}

} // verus!
