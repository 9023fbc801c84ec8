//! The exchanges: one pool per token, each pairing the token with the
//! native currency at a constant product of the two reserves.

use crate::account::{account_of, pool_account};
use crate::assets::{AssetInfo, Op, State};
use crate::currency::{after_payment, paid, Currency, ExistenceRequirement, Payment};
use crate::pricing::{
    checked_input_price, checked_output_price, checked_portion, lemma_input_price_within_reserve,
};
use crate::settlement::{applied, check, lawful, settle};
use crate::table::Table;
use crate::types::{AccountId, AssetId, Balance, BlockNumber, Error, ExchangeId, TokenBalance};
use crate::laws::lemma_create_exchange_keeps_coherence;
use sp_runtime::traits::SaturatedConversion;
use vstd::prelude::*;

verus! {

/// A pool: the token it trades, the asset that its shares are, and the
/// account that holds its reserves.
#[derive(Clone, Copy, Debug, PartialEq, Eq, Structural)]
pub struct Exchange {
    pub token_id: AssetId,
    pub liquidity_id: AssetId,
    pub account: AccountId,
}

/// What a successful exchange operation reports.
#[derive(Clone, Copy, Debug, PartialEq, Eq, Structural)]
pub enum Event {
    /// A pool was created: its id and its account.
    ExchangeCreated(ExchangeId, AccountId),
    /// Liquidity was added: the pool, the provider, the currency and the
    /// tokens that went in.
    LiquidityAdded(ExchangeId, AccountId, Balance, TokenBalance),
    /// Liquidity was removed: the pool, the provider, the currency and the
    /// tokens that came out.
    LiquidityRemoved(ExchangeId, AccountId, Balance, TokenBalance),
    /// Tokens were sold for currency: the pool, the buyer, the currency
    /// bought, the tokens sold, the recipient.
    CurrencyPurchase(ExchangeId, AccountId, Balance, TokenBalance, AccountId),
    /// Currency was sold for tokens: the pool, the buyer, the currency sold,
    /// the tokens bought, the recipient.
    TokenPurchase(ExchangeId, AccountId, Balance, TokenBalance, AccountId),
    /// Tokens were sold for the tokens of another pool: the pool, the other
    /// pool, the buyer, the tokens sold, the other tokens bought, the
    /// recipient.
    OtherTokenPurchase(ExchangeId, ExchangeId, AccountId, TokenBalance, TokenBalance, AccountId),
}

/// The metadata of every share asset: the name `"liquidity_zlk_v1"`, the
/// symbol `"ZLK"` filled up with zero bytes, no decimals.
pub open spec fn zlk() -> AssetInfo {
    AssetInfo {
        name: [
            108u8, 105u8, 113u8, 117u8, 105u8, 100u8, 105u8, 116u8,
            121u8, 95u8, 122u8, 108u8, 107u8, 95u8, 118u8, 49u8,
        ],
        symbol: [90u8, 76u8, 75u8, 0u8, 0u8, 0u8, 0u8, 0u8],
        decimals: 0u8,
    }
}

/// The metadata of every share asset.
pub fn liquidity_info() -> (info: AssetInfo)
    ensures
        info == zlk(),
{
    AssetInfo {
        name: [108, 105, 113, 117, 105, 100, 105, 116, 121, 95, 122, 108, 107, 95, 118, 49],
        symbol: [90, 76, 75, 0, 0, 0, 0, 0],
        decimals: 0,
    }
}

/// The nearest balance to `value`.
pub open spec fn saturate(value: int) -> TokenBalance {
    if value > u64::MAX {
        u64::MAX
    } else if value < 0 {
        0
    } else {
        value as TokenBalance
    }
}

/// `SaturatedConversion::saturated_into` of sp_runtime, from 128 bits to
/// 64: a value that fits is kept, a larger one becomes the largest value of
/// 64 bits. Believed, not proved.
#[verifier::external_body]
fn saturated_into_u64(value: u128) -> (r: u64)
    ensures
        r == saturate(value as int),
{
    value.saturated_into::<u64>()
}

/// The pools as a value: the id that the next pool gets, the pool of every
/// id and the pool id of every token, where there is one.
pub struct Registry {
    pub next_exchange_id: ExchangeId,
    pub exchanges: Map<ExchangeId, Option<Exchange>>,
    pub token_to_exchange: Map<AssetId, Option<ExchangeId>>,
}

/// What is to be done to settle an operation: the ledger operations in
/// their order, the payment, the number of ledger operations that are tried
/// before the payment is, and the event to report.
pub struct Plan {
    pub ops: Seq<Op>,
    pub payment: Payment,
    pub pay_at: nat,
    pub event: Event,
}

/// A plan in executable form.
pub struct Settlement {
    pub ops: Vec<Op>,
    pub payment: Payment,
    pub pay_at: usize,
    pub event: Event,
}

impl Settlement {
    /// The plan that this is.
    pub open spec fn view(&self) -> Plan {
        Plan {
            ops: self.ops@,
            payment: self.payment,
            pay_at: self.pay_at as nat,
            event: self.event,
        }
    }
}

/// The plan, or the refusal, that `planned` stands for.
pub open spec fn plan_of(planned: Result<Settlement, Error>) -> Result<Plan, Error> {
    match planned {
        Ok(settlement) => Ok(settlement@),
        Err(e) => Err(e),
    }
}

/// What an operation answers whose planning gave `planned`: the refusal of
/// the planning, else the first refusal met in settling, else the event.
pub open spec fn outcome<C: Currency>(
    planned: Result<Plan,
    Error>,
    assets: State,
    currency: C,
) -> Result<
    Event,
    Error,
> {
    match planned {
        Err(e) => Err(e),
        Ok(plan) => match check(assets, currency, plan.ops, plan.payment, plan.pay_at as int) {
            Err(e) => Err(e),
            Ok(_) => Ok(plan.event),
        },
    }
}

/// What an operation does whose planning gave `planned`: it answers `r`, the
/// outcome; where that is an event, the ledger has gone through the plan's
/// operations and the payment is made; where it is an error, ledger and
/// currency are as they were.
pub open spec fn carried_out<C: Currency>(
    planned: Result<Plan, Error>,
    assets_before: State,
    currency_before: C,
    r: Result<Event, Error>,
    assets_after: State,
    currency_after: C,
) -> bool {
    &&& r == outcome(planned, assets_before, currency_before)
    &&& r is Ok ==> assets_after == applied(assets_before, planned->Ok_0.ops)
    &&& r is Ok ==> paid(currency_before, currency_after, planned->Ok_0.payment)
    &&& r is Err ==> assets_after == assets_before
    &&& r is Err ==> currency_after == currency_before
}

/// Whether every operation of the plan keeps the supply law on this ledger.
pub open spec fn lawful_plan(planned: Result<Plan, Error>, assets: State) -> bool {
    planned matches Ok(plan) ==> lawful(assets, plan.ops)
}

/// A currency amount as a token amount: the nearest there is.
pub open spec fn convert(balance_of: Balance) -> TokenBalance {
    saturate(balance_of as int)
}

/// A token amount as a currency amount.
pub open spec fn unconvert(token_balance: TokenBalance) -> Balance {
    token_balance as Balance
}

/// The tokens that the pool holds.
pub open spec fn token_reserve(assets: State, exchange: Exchange) -> TokenBalance {
    assets.balances[(exchange.token_id, exchange.account)]
}

/// The currency that the pool holds.
pub open spec fn currency_reserve<C: Currency>(currency: C, exchange: Exchange) -> Balance {
    currency.free(exchange.account)
}

/// The product of two balances fits 128 bits.
proof fn lemma_product_fits(a: TokenBalance, b: TokenBalance)
    ensures
        0 <= a * b <= u128::MAX,
{
    assert(0 <= a * b <= 0xffff_ffff_ffff_ffff * 0xffff_ffff_ffff_ffff) by (nonlinear_arith)
        requires
            0 <= a <= 0xffff_ffff_ffff_ffff,
            0 <= b <= 0xffff_ffff_ffff_ffff,
    ;
}

/// The exchanges.
pub struct Module {
    next_exchange_id: ExchangeId,
    exchanges: Table<ExchangeId, Option<Exchange>>,
    token_to_exchange: Table<AssetId, Option<ExchangeId>>,
}

impl Module {
    /// The pools as a value.
    pub closed spec fn view(&self) -> Registry {
        Registry {
            next_exchange_id: self.next_exchange_id,
            exchanges: self.exchanges@,
            token_to_exchange: self.token_to_exchange@,
        }
    }

    /// Exchanges without a pool.
    pub fn new() -> (dex: Self)
        ensures
            dex@.next_exchange_id == 0,
            dex@.exchanges == Map::<ExchangeId, Option<Exchange>>::total(|id: ExchangeId| None),
            dex@.token_to_exchange == Map::<AssetId, Option<ExchangeId>>::total(|id: AssetId| None),
            forall|assets: State| #[trigger] dex@.coherent(assets),
    {
        Module {
            next_exchange_id: 0,
            exchanges: Table::new(None),
            token_to_exchange: Table::new(None),
        }
    }

    /// The pool with this id, if there is one.
    pub fn get_exchange(&self, exchange_id: ExchangeId) -> (exchange: Option<Exchange>)
        ensures
            exchange == self@.exchanges[exchange_id],
    {
        self.exchanges.get(&exchange_id)
    }

    /// The id of the pool of this token, if it has one.
    pub fn token_to_exchange(&self, token_id: AssetId) -> (exchange_id: Option<ExchangeId>)
        ensures
            exchange_id == self@.token_to_exchange[token_id],
    {
        self.token_to_exchange.get(&token_id)
    }

    /// The id that the next pool gets.
    pub fn next_exchange_id(&self) -> (exchange_id: ExchangeId)
        ensures
            exchange_id == self@.next_exchange_id,
    {
        self.next_exchange_id
    }

    /// A currency amount as a token amount; one too large for 64 bits
    /// becomes the largest token amount.
    pub fn convert(balance_of: Balance) -> (token_balance: TokenBalance)
        ensures
            token_balance == convert(balance_of),
    {
        saturated_into_u64(balance_of)
    }

    /// A token amount as a currency amount.
    pub fn unconvert(token_balance: TokenBalance) -> (balance_of: Balance)
        ensures
            balance_of == unconvert(token_balance),
    {
        token_balance as Balance
    }

    /// The tokens that the pool holds.
    pub fn get_token_reserve(assets: &crate::assets::Module, exchange: &Exchange) -> (reserve:
        TokenBalance)
        ensures
            reserve == token_reserve(assets@, *exchange),
    {
        assets.balance(exchange.token_id, exchange.account)
    }

    /// The currency that the pool holds.
    pub fn get_currency_reserve<C: Currency>(
        currency: &C,
        exchange: &Exchange,
    ) -> (reserve: Balance)
        ensures
            reserve == currency_reserve(*currency, *exchange),
    {
        currency.free_balance(&exchange.account)
    }

    /// What the pool pays out for exactly `input_amount`, after the fee:
    /// `input_amount * 997 * output_reserve` divided by `input_reserve * 1000
    /// + input_amount * 997`, rounded down. `Overflow` where the divisor is
    /// zero or the dividend does not fit 128 bits.
    pub fn get_input_price(
        input_amount: TokenBalance,
        input_reserve: TokenBalance,
        output_reserve: TokenBalance,
    ) -> (r: Result<TokenBalance, Error>)
        ensures
            r == checked_input_price(input_amount, input_reserve, output_reserve),
    {
        let input_amount_with_fee: u128 = input_amount as u128 * 997;
        let denominator: u128 = input_reserve as u128 * 1000 + input_amount_with_fee;
        if denominator == 0 {
            return Err(Error::Overflow);
        }
        match input_amount_with_fee.checked_mul(output_reserve as u128) {
            None => Err(Error::Overflow),
            Some(numerator) => {
                proof {
                    lemma_input_price_within_reserve(
                        input_amount as nat,
                        input_reserve as nat,
                        output_reserve as nat,
                    );
                }
                Ok((numerator / denominator) as TokenBalance)
            },
        }
    }

    /// What the pool asks for exactly `output_amount`, with the fee:
    /// `input_reserve * output_amount * 1000` divided by `(output_reserve -
    /// output_amount) * 997`, rounded down, and one more. `Overflow` where
    /// the pool does not hold more than `output_amount`, where the dividend
    /// does not fit 128 bits, or where the price does not fit a balance.
    pub fn get_output_price(
        output_amount: TokenBalance,
        input_reserve: TokenBalance,
        output_reserve: TokenBalance,
    ) -> (r: Result<TokenBalance, Error>)
        ensures
            r == checked_output_price(output_amount, input_reserve, output_reserve),
    {
        if output_amount >= output_reserve {
            return Err(Error::Overflow);
        }
        proof {
            lemma_product_fits(input_reserve, output_amount);
        }
        let product: u128 = input_reserve as u128 * output_amount as u128;
        let denominator: u128 = (output_reserve - output_amount) as u128 * 997;
        match product.checked_mul(1000) {
            None => Err(Error::Overflow),
            Some(numerator) => {
                let quotient: u128 = numerator / denominator;
                if quotient >= u64::MAX as u128 {
                    return Err(Error::Overflow);
                }
                Ok((quotient + 1) as TokenBalance)
            },
        }
    }

    /// The part of `part` that `amount` out of `whole` stands for, rounded
    /// down. `Overflow` where `whole` is zero or the result does not fit a
    /// balance.
    pub fn get_portion(amount: TokenBalance, part: TokenBalance, whole: TokenBalance) -> (r: Result<
        TokenBalance,
        Error,
    >)
        ensures
            r == checked_portion(amount, part, whole),
    {
        if whole == 0 {
            return Err(Error::Overflow);
        }
        proof {
            lemma_product_fits(amount, part);
        }
        let product: u128 = amount as u128 * part as u128;
        let quotient: u128 = product / whole as u128;
        if quotient > u64::MAX as u128 {
            return Err(Error::Overflow);
        }
        Ok(quotient as TokenBalance)
    }
}

impl Registry {
    /// The plan of `add_liquidity`.
    ///
    /// The deadline must lie after `now`, tokens and currency must be named,
    /// and the pool must exist. Into a pool without shares go the currency
    /// and `max_tokens` tokens, for as many shares as the pool's account
    /// holds currency once it is paid. Into a pool with shares go the
    /// currency and the same part of the token reserve as the currency is
    /// of the currency reserve, for the same part of the shares, both
    /// rounded down. The payment comes first, then the shares are minted,
    /// then the tokens are drawn from the provider's allowance to the pool.
    pub open spec fn add_liquidity<C: Currency>(
        self,
        assets: State,
        currency: C,
        who: AccountId,
        exchange_id: ExchangeId,
        currency_amount: Balance,
        min_liquidity: TokenBalance,
        max_tokens: TokenBalance,
        deadline: BlockNumber,
        now: BlockNumber,
    ) -> Result<Plan, Error> {
        if deadline <= now {
            Err(Error::Deadline)
        } else if max_tokens == 0 {
            Err(Error::ZeroTokens)
        } else if currency_amount == 0 {
            Err(Error::ZeroCurrency)
        } else if self.exchanges[exchange_id] is None {
            Err(Error::ExchangeNotExists)
        } else {
            let exchange = self.exchanges[exchange_id]->Some_0;
            let total_liquidity = assets.supply[exchange.liquidity_id];
            let payment = Payment {
                source: who,
                dest: exchange.account,
                value: currency_amount,
                requirement: ExistenceRequirement::KeepAlive,
            };
            if total_liquidity > 0 {
                let reserve = convert(currency_reserve(currency, exchange));
                let tokens = checked_portion(
                    convert(currency_amount),
                    token_reserve(assets, exchange),
                    reserve,
                );
                let shares = checked_portion(convert(currency_amount), total_liquidity, reserve);
                if min_liquidity == 0 {
                    Err(Error::RequestedZeroLiquidity)
                } else if tokens is Err || shares is Err {
                    Err(Error::Overflow)
                } else if max_tokens < tokens->Ok_0 {
                    Err(Error::TooManyTokens)
                } else if shares->Ok_0 < min_liquidity {
                    Err(Error::TooLowLiquidity)
                } else {
                    Ok(
                        Plan {
                            ops: seq![
                                Op::Mint {
                                    id: exchange.liquidity_id,
                                    to: who,
                                    amount: shares->Ok_0,
                                },
                                Op::TransferFrom {
                                    id: exchange.token_id,
                                    spender: exchange.account,
                                    owner: who,
                                    to: exchange.account,
                                    amount: tokens->Ok_0,
                                },
                            ],
                            payment,
                            pay_at: 0,
                            event: Event::LiquidityAdded(
                                exchange_id,
                                who,
                                currency_amount,
                                tokens->Ok_0,
                            ),
                        },
                    )
                }
            } else {
                Ok(
                    Plan {
                        ops: seq![
                            Op::Mint {
                                id: exchange.liquidity_id,
                                to: who,
                                amount: saturate(
                                    after_payment(
                                        currency_reserve(currency, exchange),
                                        payment,
                                        exchange.account,
                                    ),
                                ),
                            },
                            Op::TransferFrom {
                                id: exchange.token_id,
                                spender: exchange.account,
                                owner: who,
                                to: exchange.account,
                                amount: max_tokens,
                            },
                        ],
                        payment,
                        pay_at: 0,
                        event: Event::LiquidityAdded(exchange_id, who, currency_amount, max_tokens),
                    },
                )
            }
        }
    }

    /// The plan of `remove_liquidity`.
    ///
    /// The deadline must lie after `now`, shares must be named, the pool
    /// must exist and have shares. Out of the pool comes the same part of
    /// either reserve as the shares are of all shares, rounded down, and no
    /// less than the provider asks for. The shares are burned first, then
    /// the currency is paid, then the tokens move.
    pub open spec fn remove_liquidity<C: Currency>(
        self,
        assets: State,
        currency: C,
        who: AccountId,
        exchange_id: ExchangeId,
        zlk_to_burn: TokenBalance,
        min_currency: Balance,
        min_tokens: TokenBalance,
        deadline: BlockNumber,
        now: BlockNumber,
    ) -> Result<Plan, Error> {
        if deadline <= now {
            Err(Error::Deadline)
        } else if zlk_to_burn == 0 {
            Err(Error::BurnZeroShares)
        } else if self.exchanges[exchange_id] is None {
            Err(Error::ExchangeNotExists)
        } else {
            let exchange = self.exchanges[exchange_id]->Some_0;
            let total_liquidity = assets.supply[exchange.liquidity_id];
            let currency_out = checked_portion(
                zlk_to_burn,
                convert(currency_reserve(currency, exchange)),
                total_liquidity,
            );
            let tokens_out = checked_portion(
                zlk_to_burn,
                token_reserve(assets, exchange),
                total_liquidity,
            );
            if total_liquidity == 0 {
                Err(Error::NoLiquidity)
            } else if currency_out is Err || tokens_out is Err {
                Err(Error::Overflow)
            } else if unconvert(currency_out->Ok_0) < min_currency {
                Err(Error::NotEnoughCurrency)
            } else if tokens_out->Ok_0 < min_tokens {
                Err(Error::NotEnoughTokens)
            } else {
                Ok(
                    Plan {
                        ops: seq![
                            Op::Burn { id: exchange.liquidity_id, from: who, amount: zlk_to_burn },
                            Op::Transfer {
                                id: exchange.token_id,
                                from: exchange.account,
                                to: who,
                                amount: tokens_out->Ok_0,
                            },
                        ],
                        payment: Payment {
                            source: exchange.account,
                            dest: who,
                            value: unconvert(currency_out->Ok_0),
                            requirement: ExistenceRequirement::AllowDeath,
                        },
                        pay_at: 1,
                        event: Event::LiquidityRemoved(
                            exchange_id,
                            who,
                            unconvert(currency_out->Ok_0),
                            tokens_out->Ok_0,
                        ),
                    },
                )
            }
        }
    }

    /// The plan of `currency_to_tokens_input`: exactly `currency_sold` is
    /// paid to the pool, and what the pool pays out for it, no less than
    /// `min_tokens`, moves to the recipient.
    pub open spec fn currency_to_tokens_input<C: Currency>(
        self,
        assets: State,
        currency: C,
        buyer: AccountId,
        exchange_id: ExchangeId,
        currency_sold: Balance,
        min_tokens: TokenBalance,
        deadline: BlockNumber,
        recipient: AccountId,
        now: BlockNumber,
    ) -> Result<Plan, Error> {
        if deadline < now {
            Err(Error::Deadline)
        } else if currency_sold == 0 {
            Err(Error::ZeroCurrency)
        } else if min_tokens == 0 {
            Err(Error::ZeroTokens)
        } else if self.exchanges[exchange_id] is None {
            Err(Error::ExchangeNotExists)
        } else {
            let exchange = self.exchanges[exchange_id]->Some_0;
            let tokens_bought = checked_input_price(
                convert(currency_sold),
                convert(currency_reserve(currency, exchange)),
                token_reserve(assets, exchange),
            );
            if tokens_bought is Err {
                Err(Error::Overflow)
            } else if tokens_bought->Ok_0 < min_tokens {
                Err(Error::NotEnoughTokens)
            } else {
                Ok(
                    Plan {
                        ops: seq![
                            Op::Transfer {
                                id: exchange.token_id,
                                from: exchange.account,
                                to: recipient,
                                amount: tokens_bought->Ok_0,
                            },
                        ],
                        payment: Payment {
                            source: buyer,
                            dest: exchange.account,
                            value: currency_sold,
                            requirement: ExistenceRequirement::KeepAlive,
                        },
                        pay_at: 0,
                        event: Event::TokenPurchase(
                            exchange_id,
                            buyer,
                            currency_sold,
                            tokens_bought->Ok_0,
                            recipient,
                        ),
                    },
                )
            }
        }
    }

    /// The plan of `currency_to_tokens_output`: exactly `tokens_bought` move
    /// to the recipient, and what the pool asks for them, no more than
    /// `max_currency`, is paid to the pool.
    pub open spec fn currency_to_tokens_output<C: Currency>(
        self,
        assets: State,
        currency: C,
        buyer: AccountId,
        exchange_id: ExchangeId,
        tokens_bought: TokenBalance,
        max_currency: Balance,
        deadline: BlockNumber,
        recipient: AccountId,
        now: BlockNumber,
    ) -> Result<Plan, Error> {
        if deadline < now {
            Err(Error::Deadline)
        } else if tokens_bought == 0 {
            Err(Error::ZeroTokens)
        } else if max_currency == 0 {
            Err(Error::ZeroCurrency)
        } else if self.exchanges[exchange_id] is None {
            Err(Error::ExchangeNotExists)
        } else {
            let exchange = self.exchanges[exchange_id]->Some_0;
            let currency_sold = checked_output_price(
                tokens_bought,
                convert(currency_reserve(currency, exchange)),
                token_reserve(assets, exchange),
            );
            if currency_sold is Err {
                Err(Error::Overflow)
            } else if unconvert(currency_sold->Ok_0) > max_currency {
                Err(Error::TooExpensiveCurrency)
            } else {
                Ok(
                    Plan {
                        ops: seq![
                            Op::Transfer {
                                id: exchange.token_id,
                                from: exchange.account,
                                to: recipient,
                                amount: tokens_bought,
                            },
                        ],
                        payment: Payment {
                            source: buyer,
                            dest: exchange.account,
                            value: unconvert(currency_sold->Ok_0),
                            requirement: ExistenceRequirement::KeepAlive,
                        },
                        pay_at: 0,
                        event: Event::TokenPurchase(
                            exchange_id,
                            buyer,
                            unconvert(currency_sold->Ok_0),
                            tokens_bought,
                            recipient,
                        ),
                    },
                )
            }
        }
    }

    /// The plan of `tokens_to_currency_input`: exactly `tokens_sold` are
    /// drawn from the buyer's allowance to the pool, and what the pool pays
    /// out for them, no less than `min_currency`, is paid to the recipient.
    pub open spec fn tokens_to_currency_input<C: Currency>(
        self,
        assets: State,
        currency: C,
        buyer: AccountId,
        exchange_id: ExchangeId,
        tokens_sold: TokenBalance,
        min_currency: Balance,
        deadline: BlockNumber,
        recipient: AccountId,
        now: BlockNumber,
    ) -> Result<Plan, Error> {
        if deadline < now {
            Err(Error::Deadline)
        } else if tokens_sold == 0 {
            Err(Error::ZeroTokens)
        } else if min_currency == 0 {
            Err(Error::ZeroCurrency)
        } else if self.exchanges[exchange_id] is None {
            Err(Error::ExchangeNotExists)
        } else {
            let exchange = self.exchanges[exchange_id]->Some_0;
            let currency_bought = checked_input_price(
                tokens_sold,
                token_reserve(assets, exchange),
                convert(currency_reserve(currency, exchange)),
            );
            if currency_bought is Err {
                Err(Error::Overflow)
            } else if currency_bought->Ok_0 < convert(min_currency) {
                Err(Error::NotEnoughCurrency)
            } else {
                Ok(
                    Plan {
                        ops: seq![
                            Op::TransferFrom {
                                id: exchange.token_id,
                                spender: exchange.account,
                                owner: buyer,
                                to: exchange.account,
                                amount: tokens_sold,
                            },
                        ],
                        payment: Payment {
                            source: exchange.account,
                            dest: recipient,
                            value: unconvert(currency_bought->Ok_0),
                            requirement: ExistenceRequirement::AllowDeath,
                        },
                        pay_at: 0,
                        event: Event::CurrencyPurchase(
                            exchange_id,
                            buyer,
                            unconvert(currency_bought->Ok_0),
                            tokens_sold,
                            recipient,
                        ),
                    },
                )
            }
        }
    }

    /// The plan of `tokens_to_currency_output`: exactly `currency_bought` is
    /// paid to the buyer, and what the pool asks for it, no more than
    /// `max_tokens`, is drawn from the buyer's allowance to the pool. The
    /// recipient is named in the event and takes no part in the trade.
    pub open spec fn tokens_to_currency_output<C: Currency>(
        self,
        assets: State,
        currency: C,
        buyer: AccountId,
        exchange_id: ExchangeId,
        currency_bought: Balance,
        max_tokens: TokenBalance,
        deadline: BlockNumber,
        recipient: AccountId,
        now: BlockNumber,
    ) -> Result<Plan, Error> {
        if deadline < now {
            Err(Error::Deadline)
        } else if max_tokens == 0 {
            Err(Error::ZeroTokens)
        } else if currency_bought == 0 {
            Err(Error::ZeroCurrency)
        } else if self.exchanges[exchange_id] is None {
            Err(Error::ExchangeNotExists)
        } else {
            let exchange = self.exchanges[exchange_id]->Some_0;
            let tokens_sold = checked_output_price(
                convert(currency_bought),
                token_reserve(assets, exchange),
                convert(currency_reserve(currency, exchange)),
            );
            if tokens_sold is Err {
                Err(Error::Overflow)
            } else if max_tokens < tokens_sold->Ok_0 {
                Err(Error::TooExpensiveTokens)
            } else {
                Ok(
                    Plan {
                        ops: seq![
                            Op::TransferFrom {
                                id: exchange.token_id,
                                spender: exchange.account,
                                owner: buyer,
                                to: exchange.account,
                                amount: tokens_sold->Ok_0,
                            },
                        ],
                        payment: Payment {
                            source: exchange.account,
                            dest: buyer,
                            value: currency_bought,
                            requirement: ExistenceRequirement::AllowDeath,
                        },
                        pay_at: 0,
                        event: Event::CurrencyPurchase(
                            exchange_id,
                            buyer,
                            currency_bought,
                            tokens_sold->Ok_0,
                            recipient,
                        ),
                    },
                )
            }
        }
    }

    /// The plan of a sale of tokens for the tokens of another pool, once the
    /// amounts are known: the tokens sold are drawn from the buyer's
    /// allowance to the first pool, the currency is paid from the first
    /// pool to the other, and the other pool's tokens move to the recipient.
    pub open spec fn routed(
        exchange_id: ExchangeId,
        exchange: Exchange,
        other_exchange_id: ExchangeId,
        other_exchange: Exchange,
        buyer: AccountId,
        recipient: AccountId,
        tokens_sold: TokenBalance,
        currency_moved: TokenBalance,
        other_tokens_bought: TokenBalance,
    ) -> Plan {
        Plan {
            ops: seq![
                Op::TransferFrom {
                    id: exchange.token_id,
                    spender: exchange.account,
                    owner: buyer,
                    to: exchange.account,
                    amount: tokens_sold,
                },
                Op::Transfer {
                    id: other_exchange.token_id,
                    from: other_exchange.account,
                    to: recipient,
                    amount: other_tokens_bought,
                },
            ],
            payment: Payment {
                source: exchange.account,
                dest: other_exchange.account,
                value: unconvert(currency_moved),
                requirement: ExistenceRequirement::KeepAlive,
            },
            pay_at: 1,
            event: Event::OtherTokenPurchase(
                exchange_id,
                other_exchange_id,
                buyer,
                tokens_sold,
                other_tokens_bought,
                recipient,
            ),
        }
    }

    /// The plan of `token_to_token_input`: exactly `tokens_sold` are sold to
    /// the first pool; the currency that it pays out buys, at the other
    /// pool's price for a sale, no less than `min_other_tokens`.
    pub open spec fn token_to_token_input<C: Currency>(
        self,
        assets: State,
        currency: C,
        buyer: AccountId,
        exchange_id: ExchangeId,
        other_exchange_id: ExchangeId,
        tokens_sold: TokenBalance,
        min_other_tokens: TokenBalance,
        deadline: BlockNumber,
        recipient: AccountId,
        now: BlockNumber,
    ) -> Result<Plan, Error> {
        if deadline < now {
            Err(Error::Deadline)
        } else if tokens_sold == 0 || min_other_tokens == 0 {
            Err(Error::ZeroTokens)
        } else if self.exchanges[exchange_id] is None || self.exchanges[other_exchange_id] is None {
            Err(Error::ExchangeNotExists)
        } else {
            let exchange = self.exchanges[exchange_id]->Some_0;
            let other_exchange = self.exchanges[other_exchange_id]->Some_0;
            let currency_bought = checked_input_price(
                tokens_sold,
                token_reserve(assets, exchange),
                convert(currency_reserve(currency, exchange)),
            );
            if currency_bought is Err {
                Err(Error::Overflow)
            } else {
                let other_tokens_bought = checked_input_price(
                    currency_bought->Ok_0,
                    convert(currency_reserve(currency, other_exchange)),
                    token_reserve(assets, other_exchange),
                );
                if other_tokens_bought is Err {
                    Err(Error::Overflow)
                } else if other_tokens_bought->Ok_0 < min_other_tokens {
                    Err(Error::NotEnoughTokens)
                } else {
                    Ok(
                        Self::routed(
                            exchange_id,
                            exchange,
                            other_exchange_id,
                            other_exchange,
                            buyer,
                            recipient,
                            tokens_sold,
                            currency_bought->Ok_0,
                            other_tokens_bought->Ok_0,
                        ),
                    )
                }
            }
        }
    }

    /// The plan of `token_to_token_output`: exactly `other_tokens_bought`
    /// are bought from the other pool; the currency that it asks for is
    /// bought from the first pool for no more than `max_tokens`.
    pub open spec fn token_to_token_output<C: Currency>(
        self,
        assets: State,
        currency: C,
        buyer: AccountId,
        exchange_id: ExchangeId,
        other_exchange_id: ExchangeId,
        other_tokens_bought: TokenBalance,
        max_tokens: TokenBalance,
        deadline: BlockNumber,
        recipient: AccountId,
        now: BlockNumber,
    ) -> Result<Plan, Error> {
        if deadline < now {
            Err(Error::Deadline)
        } else if other_tokens_bought == 0 || max_tokens == 0 {
            Err(Error::ZeroTokens)
        } else if self.exchanges[exchange_id] is None || self.exchanges[other_exchange_id] is None {
            Err(Error::ExchangeNotExists)
        } else {
            let exchange = self.exchanges[exchange_id]->Some_0;
            let other_exchange = self.exchanges[other_exchange_id]->Some_0;
            let currency_sold = checked_output_price(
                other_tokens_bought,
                convert(currency_reserve(currency, other_exchange)),
                token_reserve(assets, other_exchange),
            );
            if currency_sold is Err {
                Err(Error::Overflow)
            } else {
                let tokens_sold = checked_output_price(
                    currency_sold->Ok_0,
                    token_reserve(assets, exchange),
                    convert(currency_reserve(currency, exchange)),
                );
                if tokens_sold is Err {
                    Err(Error::Overflow)
                } else if max_tokens < tokens_sold->Ok_0 {
                    Err(Error::TooExpensiveTokens)
                } else {
                    Ok(
                        Self::routed(
                            exchange_id,
                            exchange,
                            other_exchange_id,
                            other_exchange,
                            buyer,
                            recipient,
                            tokens_sold->Ok_0,
                            currency_sold->Ok_0,
                            other_tokens_bought,
                        ),
                    )
                }
            }
        }
    }
}

impl Registry {
    /// The pools fit the ledger: the pools are those with an id below the next
    /// one; each has the account derived from its id, a token and a share asset
    /// that exist and differ, and is the pool of its token; no token has a pool
    /// that is not its own; and no two pools have the same share asset.
    pub open spec fn coherent(self, assets: State) -> bool {
        &&& forall|id: ExchangeId| #[trigger] self.exchanges[id] is Some <==> id < self.next_exchange_id
        &&& forall|id: ExchangeId| #[trigger]
            self.exchanges[id] is Some ==> {
                let exchange = self.exchanges[id]->Some_0;
                &&& exchange.account == account_of(id)
                &&& assets.exists_asset(exchange.token_id)
                &&& assets.exists_asset(exchange.liquidity_id)
                &&& exchange.token_id != exchange.liquidity_id
                &&& self.token_to_exchange[exchange.token_id] == Some(id)
            }
        &&& forall|token: AssetId| #[trigger]
            self.token_to_exchange[token] is Some ==> {
                let id = self.token_to_exchange[token]->Some_0;
                self.exchanges[id] is Some && self.exchanges[id]->Some_0.token_id == token
            }
        &&& forall|first: ExchangeId, second: ExchangeId|
            first != second && #[trigger] self.exchanges[first] is Some
                && #[trigger] self.exchanges[second] is Some ==> self.exchanges[first]->Some_0.liquidity_id
                != self.exchanges[second]->Some_0.liquidity_id
    }

    /// The pool that `create_exchange` makes for `token_id`: its shares are
    /// the next asset of the ledger, its account is that of the next pool
    /// id.
    pub open spec fn new_exchange(self, assets: State, token_id: AssetId) -> Exchange {
        Exchange {
            token_id,
            liquidity_id: assets.next_asset_id,
            account: account_of(self.next_exchange_id),
        }
    }

    /// What `create_exchange` answers: the token must exist and have no
    /// pool, and neither the pool ids nor the asset ids may be used up.
    pub open spec fn create_exchange(
        self,
        assets: State,
        token_id: AssetId,
    ) -> Result<Event, Error> {
        if assets.infos[token_id] is None {
            Err(Error::TokenNotExists)
        } else if self.token_to_exchange[token_id] is Some {
            Err(Error::ExchangeAlreadyExists)
        } else if self.next_exchange_id == u32::MAX || assets.next_asset_id == u32::MAX {
            Err(Error::Overflow)
        } else {
            Ok(Event::ExchangeCreated(self.next_exchange_id, account_of(self.next_exchange_id)))
        }
    }

    /// The pools after `create_exchange`.
    pub open spec fn created(self, assets: State, token_id: AssetId) -> Registry {
        Registry {
            next_exchange_id: (self.next_exchange_id + 1) as ExchangeId,
            exchanges: self.exchanges.insert(
                self.next_exchange_id,
                Some(self.new_exchange(assets, token_id)),
            ),
            token_to_exchange: self.token_to_exchange.insert(token_id, Some(self.next_exchange_id)),
        }
    }
}

/// Carries out what was planned, all of it or nothing.
fn carry_out<C: Currency>(
    assets: &mut crate::assets::Module,
    currency: &mut C,
    planned: Result<Settlement, Error>,
) -> (r: Result<Event, Error>)
    requires
        planned matches Ok(settlement) ==> settlement.pay_at <= settlement.ops@.len(),
    ensures
        carried_out(
            plan_of(planned),
            old(assets)@,
            *old(currency),
            r,
            final(assets)@,
            *final(currency),
        ),
        old(assets)@.conserved() && lawful_plan(plan_of(planned), old(assets)@)
            ==> final(assets)@.conserved(),
{
    match planned {
        Err(e) => Err(e),
        Ok(settlement) => {
            match settle(
                assets,
                currency,
                &settlement.ops,
                &settlement.payment,
                settlement.pay_at,
            ) {
                Err(e) => Err(e),
                Ok(_) => Ok(settlement.event),
            }
        },
    }
}

impl Module {
    /// Creates the pool of the token `token_id`, with a new share asset of
    /// which nothing is issued yet.
    pub fn create_exchange(
        &mut self,
        assets: &mut crate::assets::Module,
        origin: AccountId,
        token_id: AssetId,
    ) -> (r: Result<Event, Error>)
        ensures
            r == old(self)@.create_exchange(old(assets)@, token_id),
            r is Ok ==> final(self)@ == old(self)@.created(old(assets)@, token_id),
            r is Ok ==> final(assets)@ == old(assets)@.issued(
                account_of(old(self)@.next_exchange_id),
                0,
                zlk(),
            ),
            r is Err ==> *final(self) == *old(self),
            r is Err ==> *final(assets) == *old(assets),
            old(assets)@.conserved() ==> final(assets)@.conserved(),
            old(assets)@.conserved() && old(self)@.coherent(old(assets)@) ==> final(self)@.coherent(
                final(assets)@,
            ),
    {
        proof {
            if old(assets)@.conserved() && old(self)@.coherent(old(assets)@) && old(
                self,
            )@.create_exchange(old(assets)@, token_id) is Ok {
                lemma_create_exchange_keeps_coherence(old(self)@, old(assets)@, token_id);
            }
        }
        if assets.asset_info(token_id).is_none() {
            return Err(Error::TokenNotExists);
        }
        if self.token_to_exchange.get(&token_id).is_some() {
            return Err(Error::ExchangeAlreadyExists);
        }
        let exchange_id: ExchangeId = self.next_exchange_id;
        if exchange_id == u32::MAX || assets.next_asset_id() == u32::MAX {
            return Err(Error::Overflow);
        }
        let account: AccountId = pool_account(exchange_id);
        let issued = assets.mint_asset(account, 0, liquidity_info());
        let liquidity_id: AssetId = match issued {
            Ok(id) => id,
            Err(e) => {
                return Err(e);
            },
        };
        let new_exchange = Exchange { token_id, liquidity_id, account };
        self.token_to_exchange.set(token_id, Some(exchange_id));
        self.exchanges.set(exchange_id, Some(new_exchange));
        self.next_exchange_id = exchange_id + 1;
        Ok(Event::ExchangeCreated(exchange_id, account))
    }

    /// Plans `add_liquidity` without changing anything.
    pub fn plan_add_liquidity<C: Currency>(
        &self,
        assets: &crate::assets::Module,
        currency: &C,
        who: AccountId,
        exchange_id: ExchangeId,
        currency_amount: Balance,
        min_liquidity: TokenBalance,
        max_tokens: TokenBalance,
        deadline: BlockNumber,
        now: BlockNumber,
    ) -> (planned: Result<Settlement, Error>)
        ensures
            plan_of(planned) == self@.add_liquidity(
                assets@,
                *currency,
                who,
                exchange_id,
                currency_amount,
                min_liquidity,
                max_tokens,
                deadline,
                now,
            ),
            planned matches Ok(settlement) ==> settlement.pay_at <= settlement.ops@.len(),
    {
        if deadline <= now {
            return Err(Error::Deadline);
        }
        if max_tokens == 0 {
            return Err(Error::ZeroTokens);
        }
        if currency_amount == 0 {
            return Err(Error::ZeroCurrency);
        }
        let exchange = match self.exchanges.get(&exchange_id) {
            Some(exchange) => exchange,
            None => {
                return Err(Error::ExchangeNotExists);
            },
        };
        let total_liquidity: TokenBalance = assets.total_supply(exchange.liquidity_id);
        let payment = Payment {
            source: who,
            dest: exchange.account,
            value: currency_amount,
            requirement: ExistenceRequirement::KeepAlive,
        };
        if total_liquidity > 0 {
            if min_liquidity == 0 {
                return Err(Error::RequestedZeroLiquidity);
            }
            let currency_reserve: TokenBalance = Self::convert(
                Self::get_currency_reserve(currency, &exchange),
            );
            let token_reserve: TokenBalance = Self::get_token_reserve(assets, &exchange);
            let token_amount: TokenBalance = match Self::get_portion(
                Self::convert(currency_amount),
                token_reserve,
                currency_reserve,
            ) {
                Ok(amount) => amount,
                Err(_) => {
                    return Err(Error::Overflow);
                },
            };
            let liquidity_minted: TokenBalance = match Self::get_portion(
                Self::convert(currency_amount),
                total_liquidity,
                currency_reserve,
            ) {
                Ok(amount) => amount,
                Err(_) => {
                    return Err(Error::Overflow);
                },
            };
            if max_tokens < token_amount {
                return Err(Error::TooManyTokens);
            }
            if liquidity_minted < min_liquidity {
                return Err(Error::TooLowLiquidity);
            }
            let ops = vec![
                Op::Mint { id: exchange.liquidity_id, to: who, amount: liquidity_minted },
                Op::TransferFrom {
                    id: exchange.token_id,
                    spender: exchange.account,
                    owner: who,
                    to: exchange.account,
                    amount: token_amount,
                },
            ];
            Ok(
                Settlement {
                    ops,
                    payment,
                    pay_at: 0,
                    event: Event::LiquidityAdded(exchange_id, who, currency_amount, token_amount),
                },
            )
        } else {
            let held: Balance = Self::get_currency_reserve(currency, &exchange);
            let held_after: Balance = if who == exchange.account {
                held
            } else {
                held.saturating_add(currency_amount)
            };
            let initial_liquidity: TokenBalance = Self::convert(held_after);
            let ops = vec![
                Op::Mint { id: exchange.liquidity_id, to: who, amount: initial_liquidity },
                Op::TransferFrom {
                    id: exchange.token_id,
                    spender: exchange.account,
                    owner: who,
                    to: exchange.account,
                    amount: max_tokens,
                },
            ];
            Ok(
                Settlement {
                    ops,
                    payment,
                    pay_at: 0,
                    event: Event::LiquidityAdded(exchange_id, who, currency_amount, max_tokens),
                },
            )
        }
    }

    /// Adds liquidity to a pool: `origin` pays `currency_amount` and the
    /// tokens that go with it, at most `max_tokens`, and receives shares, at
    /// least `min_liquidity`.
    pub fn add_liquidity<C: Currency>(
        &self,
        assets: &mut crate::assets::Module,
        currency: &mut C,
        origin: AccountId,
        exchange_id: ExchangeId,
        currency_amount: Balance,
        min_liquidity: TokenBalance,
        max_tokens: TokenBalance,
        deadline: BlockNumber,
        now: BlockNumber,
    ) -> (r: Result<Event, Error>)
        ensures
            carried_out(
                self@.add_liquidity(
                    old(assets)@,
                    *old(currency),
                    origin,
                    exchange_id,
                    currency_amount,
                    min_liquidity,
                    max_tokens,
                    deadline,
                    now,
                ),
                old(assets)@,
                *old(currency),
                r,
                final(assets)@,
                *final(currency),
            ),
            old(assets)@.conserved() && self@.coherent(old(assets)@) ==> final(assets)@.conserved(),
    {
        let planned = self.plan_add_liquidity(
            assets,
            currency,
            origin,
            exchange_id,
            currency_amount,
            min_liquidity,
            max_tokens,
            deadline,
            now,
        );
        proof {
            if self@.coherent(assets@) && planned is Ok {
                assert(self@.exchanges[exchange_id] is Some);
                let plan = planned->Ok_0@;
                assert forall|j: int| 0 <= j < plan.ops.len() implies assets@.lawful(
                    #[trigger] plan.ops[j],
                ) by {}
            }
        }
        carry_out(assets, currency, planned)
    }
}

impl Module {
    /// Plans `remove_liquidity` without changing anything.
    pub fn plan_remove_liquidity<C: Currency>(
        &self,
        assets: &crate::assets::Module,
        currency: &C,
        who: AccountId,
        exchange_id: ExchangeId,
        zlk_to_burn: TokenBalance,
        min_currency: Balance,
        min_tokens: TokenBalance,
        deadline: BlockNumber,
        now: BlockNumber,
    ) -> (planned: Result<Settlement, Error>)
        ensures
            plan_of(planned) == self@.remove_liquidity(
                assets@,
                *currency,
                who,
                exchange_id,
                zlk_to_burn,
                min_currency,
                min_tokens,
                deadline,
                now,
            ),
            planned matches Ok(settlement) ==> settlement.pay_at <= settlement.ops@.len(),
    {
        if deadline <= now {
            return Err(Error::Deadline);
        }
        if zlk_to_burn == 0 {
            return Err(Error::BurnZeroShares);
        }
        let exchange = match self.exchanges.get(&exchange_id) {
            Some(exchange) => exchange,
            None => {
                return Err(Error::ExchangeNotExists);
            },
        };
        let total_liquidity: TokenBalance = assets.total_supply(exchange.liquidity_id);
        if total_liquidity == 0 {
            return Err(Error::NoLiquidity);
        }
        let token_reserve: TokenBalance = Self::get_token_reserve(assets, &exchange);
        let currency_reserve: TokenBalance = Self::convert(
            Self::get_currency_reserve(currency, &exchange),
        );
        let currency_amount: TokenBalance = match Self::get_portion(
            zlk_to_burn,
            currency_reserve,
            total_liquidity,
        ) {
            Ok(amount) => amount,
            Err(_) => {
                return Err(Error::Overflow);
            },
        };
        let token_amount: TokenBalance = match Self::get_portion(
            zlk_to_burn,
            token_reserve,
            total_liquidity,
        ) {
            Ok(amount) => amount,
            Err(_) => {
                return Err(Error::Overflow);
            },
        };
        if Self::unconvert(currency_amount) < min_currency {
            return Err(Error::NotEnoughCurrency);
        }
        if token_amount < min_tokens {
            return Err(Error::NotEnoughTokens);
        }
        let ops = vec![
            Op::Burn { id: exchange.liquidity_id, from: who, amount: zlk_to_burn },
            Op::Transfer {
                id: exchange.token_id,
                from: exchange.account,
                to: who,
                amount: token_amount,
            },
        ];
        Ok(
            Settlement {
                ops,
                payment: Payment {
                    source: exchange.account,
                    dest: who,
                    value: Self::unconvert(currency_amount),
                    requirement: ExistenceRequirement::AllowDeath,
                },
                pay_at: 1,
                event: Event::LiquidityRemoved(
                    exchange_id,
                    who,
                    Self::unconvert(currency_amount),
                    token_amount,
                ),
            },
        )
    }

    /// Removes liquidity from a pool: `who` gives up `zlk_to_burn` shares
    /// and receives their part of the currency, at least `min_currency`,
    /// and of the tokens, at least `min_tokens`.
    pub fn remove_liquidity<C: Currency>(
        &self,
        assets: &mut crate::assets::Module,
        currency: &mut C,
        who: AccountId,
        exchange_id: ExchangeId,
        zlk_to_burn: TokenBalance,
        min_currency: Balance,
        min_tokens: TokenBalance,
        deadline: BlockNumber,
        now: BlockNumber,
    ) -> (r: Result<Event, Error>)
        ensures
            carried_out(
                self@.remove_liquidity(
                    old(assets)@,
                    *old(currency),
                    who,
                    exchange_id,
                    zlk_to_burn,
                    min_currency,
                    min_tokens,
                    deadline,
                    now,
                ),
                old(assets)@,
                *old(currency),
                r,
                final(assets)@,
                *final(currency),
            ),
            old(assets)@.conserved() ==> final(assets)@.conserved(),
    {
        let planned = self.plan_remove_liquidity(
            assets,
            currency,
            who,
            exchange_id,
            zlk_to_burn,
            min_currency,
            min_tokens,
            deadline,
            now,
        );
        carry_out(assets, currency, planned)
    }

    /// Plans `currency_to_tokens_input` without changing anything.
    pub fn plan_currency_to_tokens_input<C: Currency>(
        &self,
        assets: &crate::assets::Module,
        currency: &C,
        buyer: AccountId,
        exchange_id: ExchangeId,
        currency_sold: Balance,
        min_tokens: TokenBalance,
        deadline: BlockNumber,
        recipient: AccountId,
        now: BlockNumber,
    ) -> (planned: Result<Settlement, Error>)
        ensures
            plan_of(planned) == self@.currency_to_tokens_input(
                assets@,
                *currency,
                buyer,
                exchange_id,
                currency_sold,
                min_tokens,
                deadline,
                recipient,
                now,
            ),
            planned matches Ok(settlement) ==> settlement.pay_at <= settlement.ops@.len(),
    {
        if deadline < now {
            return Err(Error::Deadline);
        }
        if currency_sold == 0 {
            return Err(Error::ZeroCurrency);
        }
        if min_tokens == 0 {
            return Err(Error::ZeroTokens);
        }
        let exchange = match self.exchanges.get(&exchange_id) {
            Some(exchange) => exchange,
            None => {
                return Err(Error::ExchangeNotExists);
            },
        };
        let token_reserve: TokenBalance = Self::get_token_reserve(assets, &exchange);
        let currency_reserve: TokenBalance = Self::convert(
            Self::get_currency_reserve(currency, &exchange),
        );
        let tokens_bought: TokenBalance = match Self::get_input_price(
            Self::convert(currency_sold),
            currency_reserve,
            token_reserve,
        ) {
            Ok(amount) => amount,
            Err(_) => {
                return Err(Error::Overflow);
            },
        };
        if tokens_bought < min_tokens {
            return Err(Error::NotEnoughTokens);
        }
        let ops = vec![
            Op::Transfer {
                id: exchange.token_id,
                from: exchange.account,
                to: recipient,
                amount: tokens_bought,
            },
        ];
        assert(ops@ =~= seq![
            Op::Transfer {
                id: exchange.token_id,
                from: exchange.account,
                to: recipient,
                amount: tokens_bought,
            },
        ]);
        Ok(
            Settlement {
                ops,
                payment: Payment {
                    source: buyer,
                    dest: exchange.account,
                    value: currency_sold,
                    requirement: ExistenceRequirement::KeepAlive,
                },
                pay_at: 0,
                event: Event::TokenPurchase(
                    exchange_id,
                    buyer,
                    currency_sold,
                    tokens_bought,
                    recipient,
                ),
            },
        )
    }

    /// Sells exactly `currency_sold` of `buyer`'s currency to a pool for
    /// tokens, at least `min_tokens`, which go to `recipient`.
    pub fn currency_to_tokens_input<C: Currency>(
        &self,
        assets: &mut crate::assets::Module,
        currency: &mut C,
        buyer: AccountId,
        exchange_id: ExchangeId,
        currency_sold: Balance,
        min_tokens: TokenBalance,
        deadline: BlockNumber,
        recipient: AccountId,
        now: BlockNumber,
    ) -> (r: Result<Event, Error>)
        ensures
            carried_out(
                self@.currency_to_tokens_input(
                    old(assets)@,
                    *old(currency),
                    buyer,
                    exchange_id,
                    currency_sold,
                    min_tokens,
                    deadline,
                    recipient,
                    now,
                ),
                old(assets)@,
                *old(currency),
                r,
                final(assets)@,
                *final(currency),
            ),
            old(assets)@.conserved() ==> final(assets)@.conserved(),
    {
        let planned = self.plan_currency_to_tokens_input(
            assets,
            currency,
            buyer,
            exchange_id,
            currency_sold,
            min_tokens,
            deadline,
            recipient,
            now,
        );
        carry_out(assets, currency, planned)
    }

    /// Plans `currency_to_tokens_output` without changing anything.
    pub fn plan_currency_to_tokens_output<C: Currency>(
        &self,
        assets: &crate::assets::Module,
        currency: &C,
        buyer: AccountId,
        exchange_id: ExchangeId,
        tokens_bought: TokenBalance,
        max_currency: Balance,
        deadline: BlockNumber,
        recipient: AccountId,
        now: BlockNumber,
    ) -> (planned: Result<Settlement, Error>)
        ensures
            plan_of(planned) == self@.currency_to_tokens_output(
                assets@,
                *currency,
                buyer,
                exchange_id,
                tokens_bought,
                max_currency,
                deadline,
                recipient,
                now,
            ),
            planned matches Ok(settlement) ==> settlement.pay_at <= settlement.ops@.len(),
    {
        if deadline < now {
            return Err(Error::Deadline);
        }
        if tokens_bought == 0 {
            return Err(Error::ZeroTokens);
        }
        if max_currency == 0 {
            return Err(Error::ZeroCurrency);
        }
        let exchange = match self.exchanges.get(&exchange_id) {
            Some(exchange) => exchange,
            None => {
                return Err(Error::ExchangeNotExists);
            },
        };
        let token_reserve: TokenBalance = Self::get_token_reserve(assets, &exchange);
        let currency_reserve: TokenBalance = Self::convert(
            Self::get_currency_reserve(currency, &exchange),
        );
        let currency_sold: TokenBalance = match Self::get_output_price(
            tokens_bought,
            currency_reserve,
            token_reserve,
        ) {
            Ok(amount) => amount,
            Err(_) => {
                return Err(Error::Overflow);
            },
        };
        if Self::unconvert(currency_sold) > max_currency {
            return Err(Error::TooExpensiveCurrency);
        }
        let ops = vec![
            Op::Transfer {
                id: exchange.token_id,
                from: exchange.account,
                to: recipient,
                amount: tokens_bought,
            },
        ];
        assert(ops@ =~= seq![
            Op::Transfer {
                id: exchange.token_id,
                from: exchange.account,
                to: recipient,
                amount: tokens_bought,
            },
        ]);
        Ok(
            Settlement {
                ops,
                payment: Payment {
                    source: buyer,
                    dest: exchange.account,
                    value: Self::unconvert(currency_sold),
                    requirement: ExistenceRequirement::KeepAlive,
                },
                pay_at: 0,
                event: Event::TokenPurchase(
                    exchange_id,
                    buyer,
                    Self::unconvert(currency_sold),
                    tokens_bought,
                    recipient,
                ),
            },
        )
    }

    /// Buys exactly `tokens_bought` tokens from a pool for `recipient`, for
    /// `buyer`'s currency, at most `max_currency`.
    pub fn currency_to_tokens_output<C: Currency>(
        &self,
        assets: &mut crate::assets::Module,
        currency: &mut C,
        buyer: AccountId,
        exchange_id: ExchangeId,
        tokens_bought: TokenBalance,
        max_currency: Balance,
        deadline: BlockNumber,
        recipient: AccountId,
        now: BlockNumber,
    ) -> (r: Result<Event, Error>)
        ensures
            carried_out(
                self@.currency_to_tokens_output(
                    old(assets)@,
                    *old(currency),
                    buyer,
                    exchange_id,
                    tokens_bought,
                    max_currency,
                    deadline,
                    recipient,
                    now,
                ),
                old(assets)@,
                *old(currency),
                r,
                final(assets)@,
                *final(currency),
            ),
            old(assets)@.conserved() ==> final(assets)@.conserved(),
    {
        let planned = self.plan_currency_to_tokens_output(
            assets,
            currency,
            buyer,
            exchange_id,
            tokens_bought,
            max_currency,
            deadline,
            recipient,
            now,
        );
        carry_out(assets, currency, planned)
    }

    /// Plans `tokens_to_currency_input` without changing anything.
    pub fn plan_tokens_to_currency_input<C: Currency>(
        &self,
        assets: &crate::assets::Module,
        currency: &C,
        buyer: AccountId,
        exchange_id: ExchangeId,
        tokens_sold: TokenBalance,
        min_currency: Balance,
        deadline: BlockNumber,
        recipient: AccountId,
        now: BlockNumber,
    ) -> (planned: Result<Settlement, Error>)
        ensures
            plan_of(planned) == self@.tokens_to_currency_input(
                assets@,
                *currency,
                buyer,
                exchange_id,
                tokens_sold,
                min_currency,
                deadline,
                recipient,
                now,
            ),
            planned matches Ok(settlement) ==> settlement.pay_at <= settlement.ops@.len(),
    {
        if deadline < now {
            return Err(Error::Deadline);
        }
        if tokens_sold == 0 {
            return Err(Error::ZeroTokens);
        }
        if min_currency == 0 {
            return Err(Error::ZeroCurrency);
        }
        let exchange = match self.exchanges.get(&exchange_id) {
            Some(exchange) => exchange,
            None => {
                return Err(Error::ExchangeNotExists);
            },
        };
        let token_reserve: TokenBalance = Self::get_token_reserve(assets, &exchange);
        let currency_reserve: TokenBalance = Self::convert(
            Self::get_currency_reserve(currency, &exchange),
        );
        let currency_bought: TokenBalance = match Self::get_input_price(
            tokens_sold,
            token_reserve,
            currency_reserve,
        ) {
            Ok(amount) => amount,
            Err(_) => {
                return Err(Error::Overflow);
            },
        };
        if currency_bought < Self::convert(min_currency) {
            return Err(Error::NotEnoughCurrency);
        }
        let ops = vec![
            Op::TransferFrom {
                id: exchange.token_id,
                spender: exchange.account,
                owner: buyer,
                to: exchange.account,
                amount: tokens_sold,
            },
        ];
        assert(ops@ =~= seq![
            Op::TransferFrom {
                id: exchange.token_id,
                spender: exchange.account,
                owner: buyer,
                to: exchange.account,
                amount: tokens_sold,
            },
        ]);
        Ok(
            Settlement {
                ops,
                payment: Payment {
                    source: exchange.account,
                    dest: recipient,
                    value: Self::unconvert(currency_bought),
                    requirement: ExistenceRequirement::AllowDeath,
                },
                pay_at: 0,
                event: Event::CurrencyPurchase(
                    exchange_id,
                    buyer,
                    Self::unconvert(currency_bought),
                    tokens_sold,
                    recipient,
                ),
            },
        )
    }

    /// Sells exactly `tokens_sold` of `buyer`'s tokens to a pool for
    /// currency, at least `min_currency`, which goes to `recipient`.
    pub fn tokens_to_currency_input<C: Currency>(
        &self,
        assets: &mut crate::assets::Module,
        currency: &mut C,
        buyer: AccountId,
        exchange_id: ExchangeId,
        tokens_sold: TokenBalance,
        min_currency: Balance,
        deadline: BlockNumber,
        recipient: AccountId,
        now: BlockNumber,
    ) -> (r: Result<Event, Error>)
        ensures
            carried_out(
                self@.tokens_to_currency_input(
                    old(assets)@,
                    *old(currency),
                    buyer,
                    exchange_id,
                    tokens_sold,
                    min_currency,
                    deadline,
                    recipient,
                    now,
                ),
                old(assets)@,
                *old(currency),
                r,
                final(assets)@,
                *final(currency),
            ),
            old(assets)@.conserved() ==> final(assets)@.conserved(),
    {
        let planned = self.plan_tokens_to_currency_input(
            assets,
            currency,
            buyer,
            exchange_id,
            tokens_sold,
            min_currency,
            deadline,
            recipient,
            now,
        );
        carry_out(assets, currency, planned)
    }

    /// Plans `tokens_to_currency_output` without changing anything.
    pub fn plan_tokens_to_currency_output<C: Currency>(
        &self,
        assets: &crate::assets::Module,
        currency: &C,
        buyer: AccountId,
        exchange_id: ExchangeId,
        currency_bought: Balance,
        max_tokens: TokenBalance,
        deadline: BlockNumber,
        recipient: AccountId,
        now: BlockNumber,
    ) -> (planned: Result<Settlement, Error>)
        ensures
            plan_of(planned) == self@.tokens_to_currency_output(
                assets@,
                *currency,
                buyer,
                exchange_id,
                currency_bought,
                max_tokens,
                deadline,
                recipient,
                now,
            ),
            planned matches Ok(settlement) ==> settlement.pay_at <= settlement.ops@.len(),
    {
        if deadline < now {
            return Err(Error::Deadline);
        }
        if max_tokens == 0 {
            return Err(Error::ZeroTokens);
        }
        if currency_bought == 0 {
            return Err(Error::ZeroCurrency);
        }
        let exchange = match self.exchanges.get(&exchange_id) {
            Some(exchange) => exchange,
            None => {
                return Err(Error::ExchangeNotExists);
            },
        };
        let token_reserve: TokenBalance = Self::get_token_reserve(assets, &exchange);
        let currency_reserve: TokenBalance = Self::convert(
            Self::get_currency_reserve(currency, &exchange),
        );
        let tokens_sold: TokenBalance = match Self::get_output_price(
            Self::convert(currency_bought),
            token_reserve,
            currency_reserve,
        ) {
            Ok(amount) => amount,
            Err(_) => {
                return Err(Error::Overflow);
            },
        };
        if max_tokens < tokens_sold {
            return Err(Error::TooExpensiveTokens);
        }
        let ops = vec![
            Op::TransferFrom {
                id: exchange.token_id,
                spender: exchange.account,
                owner: buyer,
                to: exchange.account,
                amount: tokens_sold,
            },
        ];
        assert(ops@ =~= seq![
            Op::TransferFrom {
                id: exchange.token_id,
                spender: exchange.account,
                owner: buyer,
                to: exchange.account,
                amount: tokens_sold,
            },
        ]);
        Ok(
            Settlement {
                ops,
                payment: Payment {
                    source: exchange.account,
                    dest: buyer,
                    value: currency_bought,
                    requirement: ExistenceRequirement::AllowDeath,
                },
                pay_at: 0,
                event: Event::CurrencyPurchase(
                    exchange_id,
                    buyer,
                    currency_bought,
                    tokens_sold,
                    recipient,
                ),
            },
        )
    }

    /// Buys exactly `currency_bought` of currency from a pool for `buyer`'s
    /// tokens, at most `max_tokens`. The currency is paid to `buyer`;
    /// `recipient` is reported in the event.
    pub fn tokens_to_currency_output<C: Currency>(
        &self,
        assets: &mut crate::assets::Module,
        currency: &mut C,
        buyer: AccountId,
        exchange_id: ExchangeId,
        currency_bought: Balance,
        max_tokens: TokenBalance,
        deadline: BlockNumber,
        recipient: AccountId,
        now: BlockNumber,
    ) -> (r: Result<Event, Error>)
        ensures
            carried_out(
                self@.tokens_to_currency_output(
                    old(assets)@,
                    *old(currency),
                    buyer,
                    exchange_id,
                    currency_bought,
                    max_tokens,
                    deadline,
                    recipient,
                    now,
                ),
                old(assets)@,
                *old(currency),
                r,
                final(assets)@,
                *final(currency),
            ),
            old(assets)@.conserved() ==> final(assets)@.conserved(),
    {
        let planned = self.plan_tokens_to_currency_output(
            assets,
            currency,
            buyer,
            exchange_id,
            currency_bought,
            max_tokens,
            deadline,
            recipient,
            now,
        );
        carry_out(assets, currency, planned)
    }

    /// Plans `token_to_token_input` without changing anything.
    pub fn plan_token_to_token_input<C: Currency>(
        &self,
        assets: &crate::assets::Module,
        currency: &C,
        buyer: AccountId,
        exchange_id: ExchangeId,
        other_exchange_id: ExchangeId,
        tokens_sold: TokenBalance,
        min_other_tokens: TokenBalance,
        deadline: BlockNumber,
        recipient: AccountId,
        now: BlockNumber,
    ) -> (planned: Result<Settlement, Error>)
        ensures
            plan_of(planned) == self@.token_to_token_input(
                assets@,
                *currency,
                buyer,
                exchange_id,
                other_exchange_id,
                tokens_sold,
                min_other_tokens,
                deadline,
                recipient,
                now,
            ),
            planned matches Ok(settlement) ==> settlement.pay_at <= settlement.ops@.len(),
    {
        if deadline < now {
            return Err(Error::Deadline);
        }
        if tokens_sold == 0 || min_other_tokens == 0 {
            return Err(Error::ZeroTokens);
        }
        let exchange = match self.exchanges.get(&exchange_id) {
            Some(exchange) => exchange,
            None => {
                return Err(Error::ExchangeNotExists);
            },
        };
        let other_exchange = match self.exchanges.get(&other_exchange_id) {
            Some(exchange) => exchange,
            None => {
                return Err(Error::ExchangeNotExists);
            },
        };
        let token_reserve: TokenBalance = Self::get_token_reserve(assets, &exchange);
        let currency_reserve: TokenBalance = Self::convert(
            Self::get_currency_reserve(currency, &exchange),
        );
        let currency_bought: TokenBalance = match Self::get_input_price(
            tokens_sold,
            token_reserve,
            currency_reserve,
        ) {
            Ok(amount) => amount,
            Err(_) => {
                return Err(Error::Overflow);
            },
        };
        let other_token_reserve: TokenBalance = Self::get_token_reserve(assets, &other_exchange);
        let other_currency_reserve: TokenBalance = Self::convert(
            Self::get_currency_reserve(currency, &other_exchange),
        );
        let other_tokens_bought: TokenBalance = match Self::get_input_price(
            currency_bought,
            other_currency_reserve,
            other_token_reserve,
        ) {
            Ok(amount) => amount,
            Err(_) => {
                return Err(Error::Overflow);
            },
        };
        if other_tokens_bought < min_other_tokens {
            return Err(Error::NotEnoughTokens);
        }
        Ok(
            Self::route(
                exchange_id,
                &exchange,
                other_exchange_id,
                &other_exchange,
                buyer,
                recipient,
                tokens_sold,
                currency_bought,
                other_tokens_bought,
            ),
        )
    }

    /// Sells exactly `tokens_sold` of `buyer`'s tokens to one pool and buys
    /// with the proceeds the tokens of another, at least `min_other_tokens`,
    /// which go to `recipient`.
    pub fn token_to_token_input<C: Currency>(
        &self,
        assets: &mut crate::assets::Module,
        currency: &mut C,
        buyer: AccountId,
        exchange_id: ExchangeId,
        other_exchange_id: ExchangeId,
        tokens_sold: TokenBalance,
        min_other_tokens: TokenBalance,
        deadline: BlockNumber,
        recipient: AccountId,
        now: BlockNumber,
    ) -> (r: Result<Event, Error>)
        ensures
            carried_out(
                self@.token_to_token_input(
                    old(assets)@,
                    *old(currency),
                    buyer,
                    exchange_id,
                    other_exchange_id,
                    tokens_sold,
                    min_other_tokens,
                    deadline,
                    recipient,
                    now,
                ),
                old(assets)@,
                *old(currency),
                r,
                final(assets)@,
                *final(currency),
            ),
            old(assets)@.conserved() ==> final(assets)@.conserved(),
    {
        let planned = self.plan_token_to_token_input(
            assets,
            currency,
            buyer,
            exchange_id,
            other_exchange_id,
            tokens_sold,
            min_other_tokens,
            deadline,
            recipient,
            now,
        );
        carry_out(assets, currency, planned)
    }

    /// Plans `token_to_token_output` without changing anything.
    pub fn plan_token_to_token_output<C: Currency>(
        &self,
        assets: &crate::assets::Module,
        currency: &C,
        buyer: AccountId,
        exchange_id: ExchangeId,
        other_exchange_id: ExchangeId,
        other_tokens_bought: TokenBalance,
        max_tokens: TokenBalance,
        deadline: BlockNumber,
        recipient: AccountId,
        now: BlockNumber,
    ) -> (planned: Result<Settlement, Error>)
        ensures
            plan_of(planned) == self@.token_to_token_output(
                assets@,
                *currency,
                buyer,
                exchange_id,
                other_exchange_id,
                other_tokens_bought,
                max_tokens,
                deadline,
                recipient,
                now,
            ),
            planned matches Ok(settlement) ==> settlement.pay_at <= settlement.ops@.len(),
    {
        if deadline < now {
            return Err(Error::Deadline);
        }
        if other_tokens_bought == 0 || max_tokens == 0 {
            return Err(Error::ZeroTokens);
        }
        let exchange = match self.exchanges.get(&exchange_id) {
            Some(exchange) => exchange,
            None => {
                return Err(Error::ExchangeNotExists);
            },
        };
        let other_exchange = match self.exchanges.get(&other_exchange_id) {
            Some(exchange) => exchange,
            None => {
                return Err(Error::ExchangeNotExists);
            },
        };
        let other_token_reserve: TokenBalance = Self::get_token_reserve(assets, &other_exchange);
        let other_currency_reserve: TokenBalance = Self::convert(
            Self::get_currency_reserve(currency, &other_exchange),
        );
        let currency_sold: TokenBalance = match Self::get_output_price(
            other_tokens_bought,
            other_currency_reserve,
            other_token_reserve,
        ) {
            Ok(amount) => amount,
            Err(_) => {
                return Err(Error::Overflow);
            },
        };
        let token_reserve: TokenBalance = Self::get_token_reserve(assets, &exchange);
        let currency_reserve: TokenBalance = Self::convert(
            Self::get_currency_reserve(currency, &exchange),
        );
        let tokens_sold: TokenBalance = match Self::get_output_price(
            currency_sold,
            token_reserve,
            currency_reserve,
        ) {
            Ok(amount) => amount,
            Err(_) => {
                return Err(Error::Overflow);
            },
        };
        if max_tokens < tokens_sold {
            return Err(Error::TooExpensiveTokens);
        }
        Ok(
            Self::route(
                exchange_id,
                &exchange,
                other_exchange_id,
                &other_exchange,
                buyer,
                recipient,
                tokens_sold,
                currency_sold,
                other_tokens_bought,
            ),
        )
    }

    /// Buys exactly `other_tokens_bought` tokens of one pool for
    /// `recipient`, for the currency that `buyer`'s tokens, at most
    /// `max_tokens`, fetch at another.
    pub fn token_to_token_output<C: Currency>(
        &self,
        assets: &mut crate::assets::Module,
        currency: &mut C,
        buyer: AccountId,
        exchange_id: ExchangeId,
        other_exchange_id: ExchangeId,
        other_tokens_bought: TokenBalance,
        max_tokens: TokenBalance,
        deadline: BlockNumber,
        recipient: AccountId,
        now: BlockNumber,
    ) -> (r: Result<Event, Error>)
        ensures
            carried_out(
                self@.token_to_token_output(
                    old(assets)@,
                    *old(currency),
                    buyer,
                    exchange_id,
                    other_exchange_id,
                    other_tokens_bought,
                    max_tokens,
                    deadline,
                    recipient,
                    now,
                ),
                old(assets)@,
                *old(currency),
                r,
                final(assets)@,
                *final(currency),
            ),
            old(assets)@.conserved() ==> final(assets)@.conserved(),
    {
        let planned = self.plan_token_to_token_output(
            assets,
            currency,
            buyer,
            exchange_id,
            other_exchange_id,
            other_tokens_bought,
            max_tokens,
            deadline,
            recipient,
            now,
        );
        carry_out(assets, currency, planned)
    }

    fn route(
        exchange_id: ExchangeId,
        exchange: &Exchange,
        other_exchange_id: ExchangeId,
        other_exchange: &Exchange,
        buyer: AccountId,
        recipient: AccountId,
        tokens_sold: TokenBalance,
        currency_moved: TokenBalance,
        other_tokens_bought: TokenBalance,
    ) -> (settlement: Settlement)
        ensures
            settlement@ == Registry::routed(
                exchange_id,
                *exchange,
                other_exchange_id,
                *other_exchange,
                buyer,
                recipient,
                tokens_sold,
                currency_moved,
                other_tokens_bought,
            ),
            settlement.pay_at <= settlement.ops@.len(),
    {
        let ops = vec![
            Op::TransferFrom {
                id: exchange.token_id,
                spender: exchange.account,
                owner: buyer,
                to: exchange.account,
                amount: tokens_sold,
            },
            Op::Transfer {
                id: other_exchange.token_id,
                from: other_exchange.account,
                to: recipient,
                amount: other_tokens_bought,
            },
        ];
        Settlement {
            ops,
            payment: Payment {
                source: exchange.account,
                dest: other_exchange.account,
                value: Self::unconvert(currency_moved),
                requirement: ExistenceRequirement::KeepAlive,
            },
            pay_at: 1,
            event: Event::OtherTokenPurchase(
                exchange_id,
                other_exchange_id,
                buyer,
                tokens_sold,
                other_tokens_bought,
                recipient,
            ),
        }
    }
}

impl Module {
    /// The tokens that a sale of `currency_sold` to the pool would fetch;
    /// none for a sale of nothing.
    pub fn get_currency_to_token_input_price<C: Currency>(
        assets: &crate::assets::Module,
        currency: &C,
        exchange: &Exchange,
        currency_sold: Balance,
    ) -> (r: Result<TokenBalance, Error>)
        ensures
            r == if currency_sold == 0 {
                Ok(0)
            } else {
                checked_input_price(
                    convert(currency_sold),
                    convert(currency_reserve(*currency, *exchange)),
                    token_reserve(assets@, *exchange),
                )
            },
    {
        if currency_sold == 0 {
            return Ok(0);
        }
        let token_reserve: TokenBalance = Self::get_token_reserve(assets, exchange);
        let currency_reserve: Balance = Self::get_currency_reserve(currency, exchange);
        Self::get_input_price(
            Self::convert(currency_sold),
            Self::convert(currency_reserve),
            token_reserve,
        )
    }

    /// The currency that a purchase of `tokens_bought` from the pool would
    /// cost; none for a purchase of nothing.
    pub fn get_currency_to_token_output_price<C: Currency>(
        assets: &crate::assets::Module,
        currency: &C,
        exchange: &Exchange,
        tokens_bought: TokenBalance,
    ) -> (r: Result<TokenBalance, Error>)
        ensures
            r == if tokens_bought == 0 {
                Ok(0)
            } else {
                checked_output_price(
                    tokens_bought,
                    convert(currency_reserve(*currency, *exchange)),
                    token_reserve(assets@, *exchange),
                )
            },
    {
        if tokens_bought == 0 {
            return Ok(0);
        }
        let token_reserve: TokenBalance = Self::get_token_reserve(assets, exchange);
        let currency_reserve: Balance = Self::get_currency_reserve(currency, exchange);
        Self::get_output_price(tokens_bought, Self::convert(currency_reserve), token_reserve)
    }

    /// The currency that a sale of `tokens_sold` to the pool would fetch;
    /// none for a sale of nothing.
    pub fn get_token_to_currency_input_price<C: Currency>(
        assets: &crate::assets::Module,
        currency: &C,
        exchange: &Exchange,
        tokens_sold: TokenBalance,
    ) -> (r: Result<TokenBalance, Error>)
        ensures
            r == if tokens_sold == 0 {
                Ok(0)
            } else {
                checked_input_price(
                    tokens_sold,
                    token_reserve(assets@, *exchange),
                    convert(currency_reserve(*currency, *exchange)),
                )
            },
    {
        if tokens_sold == 0 {
            return Ok(0);
        }
        let token_reserve: TokenBalance = Self::get_token_reserve(assets, exchange);
        let currency_reserve: Balance = Self::get_currency_reserve(currency, exchange);
        Self::get_input_price(tokens_sold, token_reserve, Self::convert(currency_reserve))
    }

    /// The tokens that a purchase of `currency_bought` from the pool would
    /// cost; none for a purchase of nothing.
    pub fn get_token_to_currency_output_price<C: Currency>(
        assets: &crate::assets::Module,
        currency: &C,
        exchange: &Exchange,
        currency_bought: Balance,
    ) -> (r: Result<TokenBalance, Error>)
        ensures
            r == if currency_bought == 0 {
                Ok(0)
            } else {
                checked_output_price(
                    convert(currency_bought),
                    token_reserve(assets@, *exchange),
                    convert(currency_reserve(*currency, *exchange)),
                )
            },
    {
        if currency_bought == 0 {
            return Ok(0);
        }
        let token_reserve: TokenBalance = Self::get_token_reserve(assets, exchange);
        let currency_reserve: Balance = Self::get_currency_reserve(currency, exchange);
        Self::get_output_price(
            Self::convert(currency_bought),
            token_reserve,
            Self::convert(currency_reserve),
        )
    }
}

/// An operation on existing pools, without the account that asks for it.
#[derive(Clone, Copy, Debug, PartialEq, Eq, Structural)]
pub enum Call {
    AddLiquidity {
        exchange_id: ExchangeId,
        currency_amount: Balance,
        min_liquidity: TokenBalance,
        max_tokens: TokenBalance,
        deadline: BlockNumber,
    },
    RemoveLiquidity {
        exchange_id: ExchangeId,
        zlk_to_burn: TokenBalance,
        min_currency: Balance,
        min_tokens: TokenBalance,
        deadline: BlockNumber,
    },
    CurrencyToTokensInput {
        exchange_id: ExchangeId,
        currency_sold: Balance,
        min_tokens: TokenBalance,
        deadline: BlockNumber,
        recipient: AccountId,
    },
    CurrencyToTokensOutput {
        exchange_id: ExchangeId,
        tokens_bought: TokenBalance,
        max_currency: Balance,
        deadline: BlockNumber,
        recipient: AccountId,
    },
    TokensToCurrencyInput {
        exchange_id: ExchangeId,
        tokens_sold: TokenBalance,
        min_currency: Balance,
        deadline: BlockNumber,
        recipient: AccountId,
    },
    TokensToCurrencyOutput {
        exchange_id: ExchangeId,
        currency_bought: Balance,
        max_tokens: TokenBalance,
        deadline: BlockNumber,
        recipient: AccountId,
    },
    TokenToTokenInput {
        exchange_id: ExchangeId,
        other_exchange_id: ExchangeId,
        tokens_sold: TokenBalance,
        min_other_tokens: TokenBalance,
        deadline: BlockNumber,
        recipient: AccountId,
    },
    TokenToTokenOutput {
        exchange_id: ExchangeId,
        other_exchange_id: ExchangeId,
        other_tokens_bought: TokenBalance,
        max_tokens: TokenBalance,
        deadline: BlockNumber,
        recipient: AccountId,
    },
}

impl Call {
    /// Whether the call is one of the six swaps.
    pub open spec fn is_swap(self) -> bool {
        !(self is AddLiquidity) && !(self is RemoveLiquidity)
    }

    /// The pool that the call is made to.
    pub open spec fn pool(self) -> ExchangeId {
        match self {
            Call::AddLiquidity { exchange_id, .. } => exchange_id,
            Call::RemoveLiquidity { exchange_id, .. } => exchange_id,
            Call::CurrencyToTokensInput { exchange_id, .. } => exchange_id,
            Call::CurrencyToTokensOutput { exchange_id, .. } => exchange_id,
            Call::TokensToCurrencyInput { exchange_id, .. } => exchange_id,
            Call::TokensToCurrencyOutput { exchange_id, .. } => exchange_id,
            Call::TokenToTokenInput { exchange_id, .. } => exchange_id,
            Call::TokenToTokenOutput { exchange_id, .. } => exchange_id,
        }
    }

    /// The pool from which a swap through two pools buys; for any other
    /// call, the pool that it is made to.
    pub open spec fn other_pool(self) -> ExchangeId {
        match self {
            Call::TokenToTokenInput { other_exchange_id, .. } => other_exchange_id,
            Call::TokenToTokenOutput { other_exchange_id, .. } => other_exchange_id,
            _ => self.pool(),
        }
    }

    /// The account that the call names as its recipient; for the provider
    /// of liquidity, `origin` itself.
    pub open spec fn recipient(self, origin: AccountId) -> AccountId {
        match self {
            Call::AddLiquidity { .. } => origin,
            Call::RemoveLiquidity { .. } => origin,
            Call::CurrencyToTokensInput { recipient, .. } => recipient,
            Call::CurrencyToTokensOutput { recipient, .. } => recipient,
            Call::TokensToCurrencyInput { recipient, .. } => recipient,
            Call::TokensToCurrencyOutput { recipient, .. } => recipient,
            Call::TokenToTokenInput { recipient, .. } => recipient,
            Call::TokenToTokenOutput { recipient, .. } => recipient,
        }
    }
}

impl Registry {
    /// The plan of `call`, made by `origin` at block `now`: that of the
    /// operation which the call names.
    pub open spec fn plan<C: Currency>(
        self,
        assets: State,
        currency: C,
        origin: AccountId,
        call: Call,
        now: BlockNumber,
    ) -> Result<Plan, Error> {
        match call {
            Call::AddLiquidity {
                exchange_id,
                currency_amount,
                min_liquidity,
                max_tokens,
                deadline,
            } => self.add_liquidity(
                assets,
                currency,
                origin,
                exchange_id,
                currency_amount,
                min_liquidity,
                max_tokens,
                deadline,
                now,
            ),
            Call::RemoveLiquidity {
                exchange_id,
                zlk_to_burn,
                min_currency,
                min_tokens,
                deadline,
            } => self.remove_liquidity(
                assets,
                currency,
                origin,
                exchange_id,
                zlk_to_burn,
                min_currency,
                min_tokens,
                deadline,
                now,
            ),
            Call::CurrencyToTokensInput {
                exchange_id,
                currency_sold,
                min_tokens,
                deadline,
                recipient,
            } => self.currency_to_tokens_input(
                assets,
                currency,
                origin,
                exchange_id,
                currency_sold,
                min_tokens,
                deadline,
                recipient,
                now,
            ),
            Call::CurrencyToTokensOutput {
                exchange_id,
                tokens_bought,
                max_currency,
                deadline,
                recipient,
            } => self.currency_to_tokens_output(
                assets,
                currency,
                origin,
                exchange_id,
                tokens_bought,
                max_currency,
                deadline,
                recipient,
                now,
            ),
            Call::TokensToCurrencyInput {
                exchange_id,
                tokens_sold,
                min_currency,
                deadline,
                recipient,
            } => self.tokens_to_currency_input(
                assets,
                currency,
                origin,
                exchange_id,
                tokens_sold,
                min_currency,
                deadline,
                recipient,
                now,
            ),
            Call::TokensToCurrencyOutput {
                exchange_id,
                currency_bought,
                max_tokens,
                deadline,
                recipient,
            } => self.tokens_to_currency_output(
                assets,
                currency,
                origin,
                exchange_id,
                currency_bought,
                max_tokens,
                deadline,
                recipient,
                now,
            ),
            Call::TokenToTokenInput {
                exchange_id,
                other_exchange_id,
                tokens_sold,
                min_other_tokens,
                deadline,
                recipient,
            } => self.token_to_token_input(
                assets,
                currency,
                origin,
                exchange_id,
                other_exchange_id,
                tokens_sold,
                min_other_tokens,
                deadline,
                recipient,
                now,
            ),
            Call::TokenToTokenOutput {
                exchange_id,
                other_exchange_id,
                other_tokens_bought,
                max_tokens,
                deadline,
                recipient,
            } => self.token_to_token_output(
                assets,
                currency,
                origin,
                exchange_id,
                other_exchange_id,
                other_tokens_bought,
                max_tokens,
                deadline,
                recipient,
                now,
            ),
        }
    }
}

impl Module {
    /// Carries out `call` for `origin` at block `now`.
    pub fn dispatch<C: Currency>(
        &self,
        assets: &mut crate::assets::Module,
        currency: &mut C,
        origin: AccountId,
        call: Call,
        now: BlockNumber,
    ) -> (r: Result<Event, Error>)
        ensures
            carried_out(
                self@.plan(old(assets)@, *old(currency), origin, call, now),
                old(assets)@,
                *old(currency),
                r,
                final(assets)@,
                *final(currency),
            ),
            old(assets)@.conserved() && self@.coherent(old(assets)@) ==> final(assets)@.conserved(),
    {
        match call {
            Call::AddLiquidity {
                exchange_id,
                currency_amount,
                min_liquidity,
                max_tokens,
                deadline,
            } => self.add_liquidity(
                assets,
                currency,
                origin,
                exchange_id,
                currency_amount,
                min_liquidity,
                max_tokens,
                deadline,
                now,
            ),
            Call::RemoveLiquidity {
                exchange_id,
                zlk_to_burn,
                min_currency,
                min_tokens,
                deadline,
            } => self.remove_liquidity(
                assets,
                currency,
                origin,
                exchange_id,
                zlk_to_burn,
                min_currency,
                min_tokens,
                deadline,
                now,
            ),
            Call::CurrencyToTokensInput {
                exchange_id,
                currency_sold,
                min_tokens,
                deadline,
                recipient,
            } => self.currency_to_tokens_input(
                assets,
                currency,
                origin,
                exchange_id,
                currency_sold,
                min_tokens,
                deadline,
                recipient,
                now,
            ),
            Call::CurrencyToTokensOutput {
                exchange_id,
                tokens_bought,
                max_currency,
                deadline,
                recipient,
            } => self.currency_to_tokens_output(
                assets,
                currency,
                origin,
                exchange_id,
                tokens_bought,
                max_currency,
                deadline,
                recipient,
                now,
            ),
            Call::TokensToCurrencyInput {
                exchange_id,
                tokens_sold,
                min_currency,
                deadline,
                recipient,
            } => self.tokens_to_currency_input(
                assets,
                currency,
                origin,
                exchange_id,
                tokens_sold,
                min_currency,
                deadline,
                recipient,
                now,
            ),
            Call::TokensToCurrencyOutput {
                exchange_id,
                currency_bought,
                max_tokens,
                deadline,
                recipient,
            } => self.tokens_to_currency_output(
                assets,
                currency,
                origin,
                exchange_id,
                currency_bought,
                max_tokens,
                deadline,
                recipient,
                now,
            ),
            Call::TokenToTokenInput {
                exchange_id,
                other_exchange_id,
                tokens_sold,
                min_other_tokens,
                deadline,
                recipient,
            } => self.token_to_token_input(
                assets,
                currency,
                origin,
                exchange_id,
                other_exchange_id,
                tokens_sold,
                min_other_tokens,
                deadline,
                recipient,
                now,
            ),
            Call::TokenToTokenOutput {
                exchange_id,
                other_exchange_id,
                other_tokens_bought,
                max_tokens,
                deadline,
                recipient,
            } => self.token_to_token_output(
                assets,
                currency,
                origin,
                exchange_id,
                other_exchange_id,
                other_tokens_bought,
                max_tokens,
                deadline,
                recipient,
                now,
            ),
        }
    }
}

} // verus!
