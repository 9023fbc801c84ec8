//! Currency identifiers and ordered trading pairs.

use vstd::prelude::*;

verus! {

/// The symbols of the tokens known to the chain, in their declared order.
#[derive(Clone, Copy, Debug, PartialEq, Eq, PartialOrd, Ord, Structural)]
pub enum TokenSymbol {
    ZLK,
    ZUSD,
    DOT,
    XBTC,
    LDOT,
    RENBTC,
}

/// A currency: a plain token, or the share token of the pool of two tokens.
#[derive(Clone, Copy, Debug, PartialEq, Eq, PartialOrd, Ord, Structural)]
pub enum CurrencyId {
    Token(TokenSymbol),
    DEXShare(TokenSymbol, TokenSymbol),
}

/// Two currencies, the smaller one first.
#[derive(Clone, Copy, Debug, PartialEq, Eq, PartialOrd, Ord, Structural)]
pub struct TradingPair(pub CurrencyId, pub CurrencyId);

impl TokenSymbol {
    /// Position of the symbol in the declaration, which is its order.
    pub open spec fn rank(self) -> int {
        match self {
            TokenSymbol::ZLK => 0,
            TokenSymbol::ZUSD => 1,
            TokenSymbol::DOT => 2,
            TokenSymbol::XBTC => 3,
            TokenSymbol::LDOT => 4,
            TokenSymbol::RENBTC => 5,
        }
    }

    /// The rank as a machine integer.
    pub fn index(self) -> (r: u8)
        ensures
            r == self.rank(),
    {
        match self {
            TokenSymbol::ZLK => 0,
            TokenSymbol::ZUSD => 1,
            TokenSymbol::DOT => 2,
            TokenSymbol::XBTC => 3,
            TokenSymbol::LDOT => 4,
            TokenSymbol::RENBTC => 5,
        }
    }
}

impl CurrencyId {
    /// The order of currencies: every plain token comes before every share
    /// token; plain tokens go by rank, share tokens by the ranks of their two
    /// symbols, the first deciding before the second.
    pub open spec fn precedes(self, other: CurrencyId) -> bool {
        match (self, other) {
            (CurrencyId::Token(a), CurrencyId::Token(b)) => a.rank() < b.rank(),
            (CurrencyId::Token(_), CurrencyId::DEXShare(_, _)) => true,
            (CurrencyId::DEXShare(_, _), CurrencyId::Token(_)) => false,
            (CurrencyId::DEXShare(a0, a1), CurrencyId::DEXShare(b0, b1)) => a0.rank() < b0.rank()
                || (a0.rank() == b0.rank() && a1.rank() < b1.rank()),
        }
    }

    /// Whether `self` comes strictly before `other`.
    pub fn is_before(self, other: CurrencyId) -> (r: bool)
        ensures
            r == self.precedes(other),
    {
        match (self, other) {
            (CurrencyId::Token(a), CurrencyId::Token(b)) => a.index() < b.index(),
            (CurrencyId::Token(_), CurrencyId::DEXShare(_, _)) => true,
            (CurrencyId::DEXShare(_, _), CurrencyId::Token(_)) => false,
            (CurrencyId::DEXShare(a0, a1), CurrencyId::DEXShare(b0, b1)) => {
                let x0: u8 = a0.index();
                let y0: u8 = b0.index();
                x0 < y0 || (x0 == y0 && a1.index() < b1.index())
            },
        }
    }
}

impl TradingPair {
    /// The pair of the two currencies with the smaller one first.
    pub open spec fn ordered(a: CurrencyId, b: CurrencyId) -> TradingPair {
        if b.precedes(a) {
            TradingPair(b, a)
        } else {
            TradingPair(a, b)
        }
    }

    /// Builds the pair of `currency_id_a` and `currency_id_b` in order.
    pub fn new(currency_id_a: CurrencyId, currency_id_b: CurrencyId) -> (pair: TradingPair)
        ensures
            pair == Self::ordered(currency_id_a, currency_id_b),
    {
        if currency_id_b.is_before(currency_id_a) {
            TradingPair(currency_id_b, currency_id_a)
        } else {
            TradingPair(currency_id_a, currency_id_b)
        }
    }

    /// The share token of a pair of two plain tokens.
    pub open spec fn share_id(self) -> Option<CurrencyId> {
        match (self.0, self.1) {
            (CurrencyId::Token(first), CurrencyId::Token(second)) => Some(
                CurrencyId::DEXShare(first, second),
            ),
            _ => None,
        }
    }

    /// The share token of this pair's pool: defined when both sides are plain
    /// tokens, and then made of their two symbols in the pair's order.
    pub fn get_dex_share_currency_id(&self) -> (id: Option<CurrencyId>)
        ensures
            id == self.share_id(),
    {
        match (self.0, self.1) {
            (CurrencyId::Token(token_symbol_0), CurrencyId::Token(token_symbol_1)) => Some(
                CurrencyId::DEXShare(token_symbol_0, token_symbol_1),
            ),
            _ => None,
        }
    }
}

/// The pair does not depend on the order in which its currencies are given.
pub proof fn lemma_pair_is_symmetric(a: CurrencyId, b: CurrencyId)
    ensures
        TradingPair::ordered(a, b) == TradingPair::ordered(b, a),
{
    lemma_rank_is_injective();
}

/// A pair is in order: its second currency never precedes its first.
pub proof fn lemma_pair_is_sorted(a: CurrencyId, b: CurrencyId)
    ensures
        !TradingPair::ordered(a, b).1.precedes(TradingPair::ordered(a, b).0),
{
}

/// Distinct symbols have distinct ranks.
pub proof fn lemma_rank_is_injective()
    ensures
        forall|a: TokenSymbol, b: TokenSymbol| a.rank() == b.rank() ==> a == b,
{
}

} // verus!
