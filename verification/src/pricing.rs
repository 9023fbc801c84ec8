//! The prices of a constant-product pool with a fee of three in a thousand,
//! and the shares of its reserves.
//!
//! Prices are exact on the natural numbers. The executable functions compute
//! them in 128 bits and answer `Overflow` where that is not enough.

use crate::types::{Error, TokenBalance};
use vstd::prelude::*;

verus! {

/// What a pool pays out for exactly `input_amount`, rounded down.
pub open spec fn input_price(input_amount: nat, input_reserve: nat, output_reserve: nat) -> nat {
    ((input_amount * 997 * output_reserve) / (input_reserve * 1000 + input_amount * 997)) as nat
}

/// What a pool asks for exactly `output_amount`: the quotient rounded down,
/// and one more.
pub open spec fn output_price(output_amount: nat, input_reserve: nat, output_reserve: nat) -> nat {
    ((input_reserve * output_amount * 1000) as int / ((output_reserve - output_amount) * 997)
        + 1) as nat
}

/// Whether `input_price` can be computed in 128 bits: the divisor is not
/// zero and the dividend fits.
pub open spec fn input_price_fits(
    input_amount: nat,
    input_reserve: nat,
    output_reserve: nat,
) -> bool {
    &&& input_reserve * 1000 + input_amount * 997 > 0
    &&& input_amount * 997 * output_reserve <= u128::MAX
}

/// Whether `output_price` can be computed in 128 bits and fits a balance:
/// the pool holds more than is asked for, the dividend fits, and so does
/// the price.
pub open spec fn output_price_fits(
    output_amount: nat,
    input_reserve: nat,
    output_reserve: nat,
) -> bool {
    &&& output_amount < output_reserve
    &&& input_reserve * output_amount * 1000 <= u128::MAX
    &&& output_price(output_amount, input_reserve, output_reserve) <= u64::MAX
}

/// `input_price` as the executable function answers it.
pub open spec fn checked_input_price(
    input_amount: TokenBalance,
    input_reserve: TokenBalance,
    output_reserve: TokenBalance,
) -> Result<TokenBalance, Error> {
    if input_price_fits(input_amount as nat, input_reserve as nat, output_reserve as nat) {
        Ok(input_price(input_amount as nat, input_reserve as nat, output_reserve as nat) as TokenBalance)
    } else {
        Err(Error::Overflow)
    }
}

/// `output_price` as the executable function answers it.
pub open spec fn checked_output_price(
    output_amount: TokenBalance,
    input_reserve: TokenBalance,
    output_reserve: TokenBalance,
) -> Result<TokenBalance, Error> {
    if output_price_fits(output_amount as nat, input_reserve as nat, output_reserve as nat) {
        Ok(
            output_price(output_amount as nat, input_reserve as nat, output_reserve as nat) as TokenBalance,
        )
    } else {
        Err(Error::Overflow)
    }
}

/// The part of `part` that `amount` out of `whole` stands for, rounded down.
pub open spec fn portion(amount: nat, part: nat, whole: nat) -> nat {
    ((amount * part) / whole) as nat
}

/// `portion` as the executable function answers it: `Overflow` where
/// `whole` is zero or the result does not fit a balance.
pub open spec fn checked_portion(
    amount: TokenBalance,
    part: TokenBalance,
    whole: TokenBalance,
) -> Result<
    TokenBalance,
    Error,
> {
    if whole == 0 || portion(amount as nat, part as nat, whole as nat) > u64::MAX {
        Err(Error::Overflow)
    } else {
        Ok(portion(amount as nat, part as nat, whole as nat) as TokenBalance)
    }
}

/// A quotient rounded down is the one number `q` with
/// `q * d <= n < (q + 1) * d`.
pub proof fn lemma_floor(n: int, d: int)
    by (nonlinear_arith)
    requires
        0 <= n,
        0 < d,
    ensures
        0 <= n / d,
        (n / d) * d <= n,
        n < (n / d + 1) * d,
{
}

/// A quotient rounded down is at least `q` when, and only when, the dividend
/// is at least `q * d`.
pub proof fn lemma_floor_at_least(n: int, d: int, q: int)
    by (nonlinear_arith)
    requires
        0 <= n,
        0 < d,
    ensures
        q <= n / d <==> q * d <= n,
{
    lemma_floor(n, d);
}

/// The computation of `input_price`: with a positive divisor the price is
/// at most the output reserve.
pub proof fn lemma_input_price_within_reserve(
    input_amount: nat,
    input_reserve: nat,
    output_reserve: nat,
)
    requires
        input_reserve * 1000 + input_amount * 997 > 0,
    ensures
        input_price(input_amount, input_reserve, output_reserve) <= output_reserve,
        input_reserve > 0 && output_reserve > 0 ==> input_price(
            input_amount,
            input_reserve,
            output_reserve,
        ) < output_reserve,
{
    let n = (input_amount * 997 * output_reserve) as int;
    let d = (input_reserve * 1000 + input_amount * 997) as int;
    let q = n / d;
    assert(0 <= n) by (nonlinear_arith)
        requires
            n == input_amount * 997 * output_reserve,
    ;
    lemma_floor(n, d);
    assert(q <= output_reserve) by (nonlinear_arith)
        requires
            q * d <= n,
            n == input_amount * 997 * output_reserve,
            d == input_reserve * 1000 + input_amount * 997,
            d > 0,
            q >= 0,
    ;
    if input_reserve > 0 && output_reserve > 0 {
        assert(q < output_reserve) by (nonlinear_arith)
            requires
                q * d <= n,
                n == input_amount * 997 * output_reserve,
                d == input_reserve * 1000 + input_amount * 997,
                input_reserve > 0,
                output_reserve > 0,
                q >= 0,
        ;
    }
}

/// A sale at `input_price` does not lower the product of the reserves, and
/// raises it when something is sold into a pool that holds both sides.
pub proof fn lemma_input_price_keeps_product(
    input_amount: nat,
    input_reserve: nat,
    output_reserve: nat,
)
    requires
        input_reserve * 1000 + input_amount * 997 > 0,
    ensures
        input_price(input_amount, input_reserve, output_reserve) <= output_reserve,
        (input_reserve + input_amount) * (output_reserve - input_price(
            input_amount,
            input_reserve,
            output_reserve,
        )) >= input_reserve * output_reserve,
        input_amount > 0 && input_reserve > 0 && output_reserve > 0 ==> (input_reserve
            + input_amount) * (output_reserve - input_price(
            input_amount,
            input_reserve,
            output_reserve,
        )) > input_reserve * output_reserve,
{
    let n = (input_amount * 997 * output_reserve) as int;
    let d = (input_reserve * 1000 + input_amount * 997) as int;
    let q = n / d;
    assert(0 <= n) by (nonlinear_arith)
        requires
            n == input_amount * 997 * output_reserve,
    ;
    lemma_floor(n, d);
    lemma_input_price_within_reserve(input_amount, input_reserve, output_reserve);
    let i = input_amount as int;
    let a = input_reserve as int;
    let b = output_reserve as int;
    assert(1000 * ((a + i) * (b - q) - a * b) == 3 * i * (b - q) + (n - q * d))
        by (nonlinear_arith)
        requires
            n == i * 997 * b,
            d == a * 1000 + i * 997,
    ;
    assert(3 * i * (b - q) >= 0) by (nonlinear_arith)
        requires
            i >= 0,
            q <= b,
    ;
    if input_amount > 0 && input_reserve > 0 && output_reserve > 0 {
        assert(3 * i * (b - q) > 0) by (nonlinear_arith)
            requires
                i > 0,
                q < b,
        ;
    }
}

/// A purchase at `output_price` raises the product of the reserves.
pub proof fn lemma_output_price_keeps_product(
    output_amount: nat,
    input_reserve: nat,
    output_reserve: nat,
)
    requires
        output_amount < output_reserve,
    ensures
        output_price(output_amount, input_reserve, output_reserve) * ((output_reserve
            - output_amount) * 997) > input_reserve * output_amount * 1000,
        (input_reserve + output_price(output_amount, input_reserve, output_reserve)) * (
        output_reserve - output_amount) > input_reserve * output_reserve,
{
    let n = (input_reserve * output_amount * 1000) as int;
    let d = ((output_reserve - output_amount) * 997) as int;
    let p = n / d + 1;
    assert(0 <= n) by (nonlinear_arith)
        requires
            n == input_reserve * output_amount * 1000,
    ;
    lemma_floor(n, d);
    let o = output_amount as int;
    let a = input_reserve as int;
    let b = output_reserve as int;
    assert(997 * ((a + p) * (b - o) - a * b) == (p * d - n) + 3 * a * o) by (nonlinear_arith)
        requires
            n == a * o * 1000,
            d == (b - o) * 997,
    ;
    assert(3 * a * o >= 0) by (nonlinear_arith)
        requires
            a >= 0,
            o >= 0,
    ;
}

/// Paying the price asked for `amount` buys at least `amount`; it buys no
/// more exactly when the stated bound holds.
pub proof fn lemma_price_of_purchase_buys_it(amount: nat, input_reserve: nat, output_reserve: nat)
    requires
        amount < output_reserve,
    ensures
        input_price(
            output_price(amount, input_reserve, output_reserve),
            input_reserve,
            output_reserve,
        ) >= amount,
        input_price(
            output_price(amount, input_reserve, output_reserve),
            input_reserve,
            output_reserve,
        ) <= amount <==> 997 * output_price(amount, input_reserve, output_reserve) * (output_reserve
            - amount - 1) < 1000 * input_reserve * (amount + 1),
{
    let p = output_price(amount, input_reserve, output_reserve) as int;
    lemma_output_price_keeps_product(amount, input_reserve, output_reserve);
    let x = amount as int;
    let a = input_reserve as int;
    let b = output_reserve as int;
    assert(p >= 1) by {
        let n = (input_reserve * amount * 1000) as int;
        let d = ((output_reserve - amount) * 997) as int;
        assert(0 <= n) by (nonlinear_arith)
            requires
                n == input_reserve * amount * 1000,
        ;
        lemma_floor(n, d);
    }
    let n2 = p * 997 * b;
    let d2 = a * 1000 + p * 997;
    assert(n2 >= 0) by (nonlinear_arith)
        requires
            n2 == p * 997 * b,
            p >= 1,
            b >= 0,
    ;
    assert(x * d2 <= n2) by (nonlinear_arith)
        requires
            p * ((b - x) * 997) > a * x * 1000,
            n2 == p * 997 * b,
            d2 == a * 1000 + p * 997,
    ;
    lemma_floor_at_least(n2, d2, x);
    lemma_floor_at_least(n2, d2, x + 1);
    assert(((x + 1) * d2 <= n2) <==> !(997 * p * (b - x - 1) < 1000 * a * (x + 1)))
        by (nonlinear_arith)
        requires
            n2 == p * 997 * b,
            d2 == a * 1000 + p * 997,
    ;
}

/// What is asked for the proceeds of a sale of `amount` is at most `amount`
/// and one more; it is at least `amount` exactly when the stated bound
/// holds.
pub proof fn lemma_price_of_proceeds_is_paid(amount: nat, input_reserve: nat, output_reserve: nat)
    requires
        input_reserve > 0,
        output_reserve > 0,
    ensures
        input_price(amount, input_reserve, output_reserve) < output_reserve,
        output_price(
            input_price(amount, input_reserve, output_reserve),
            input_reserve,
            output_reserve,
        ) <= amount + 1,
        output_price(
            input_price(amount, input_reserve, output_reserve),
            input_reserve,
            output_reserve,
        ) >= amount <==> 1000 * input_reserve * input_price(amount, input_reserve, output_reserve)
            >= (amount - 1) * 997 * (output_reserve - input_price(
            amount,
            input_reserve,
            output_reserve,
        )),
{
    let y = input_price(amount, input_reserve, output_reserve) as int;
    lemma_input_price_within_reserve(amount, input_reserve, output_reserve);
    let x = amount as int;
    let a = input_reserve as int;
    let b = output_reserve as int;
    let n = x * 997 * b;
    let d = a * 1000 + x * 997;
    assert(0 <= n) by (nonlinear_arith)
        requires
            n == x * 997 * b,
            x >= 0,
            b >= 0,
    ;
    assert(n == (amount * 997 * output_reserve) as int) by (nonlinear_arith)
        requires
            n == x * 997 * b,
            x == amount,
            b == output_reserve,
    ;
    lemma_floor(n, d);
    assert(y * d <= n);
    let m = a * y * 1000;
    let e = (b - y) * 997;
    assert(m >= 0) by (nonlinear_arith)
        requires
            m == a * y * 1000,
            a >= 0,
            y >= 0,
    ;
    assert(m == (input_reserve * (y as nat) * 1000) as int) by (nonlinear_arith)
        requires
            m == a * y * 1000,
            a == input_reserve,
            y >= 0,
    ;
    assert(m < (x + 1) * e) by (nonlinear_arith)
        requires
            y * d <= n,
            n == x * 997 * b,
            d == a * 1000 + x * 997,
            m == a * y * 1000,
            e == (b - y) * 997,
            y < b,
    ;
    lemma_floor(m, e);
    assert(m / e <= x) by (nonlinear_arith)
        requires
            (m / e) * e <= m,
            m < (x + 1) * e,
            e > 0,
    ;
    lemma_floor_at_least(m, e, x - 1);
    assert(((x - 1) * e <= m) <==> (1000 * a * y >= (x - 1) * 997 * (b - y))) by (nonlinear_arith)
        requires
            m == a * y * 1000,
            e == (b - y) * 997,
    ;
}

/// A portion for no more than the whole is no more than the part, and less
/// where the amount is less than the whole and there is something to share.
pub proof fn lemma_portion_within_part(amount: nat, part: nat, whole: nat)
    requires
        0 < whole,
        amount <= whole,
    ensures
        portion(amount, part, whole) <= part,
        amount < whole && part > 0 ==> portion(amount, part, whole) < part,
{
    let n = (amount * part) as int;
    let d = whole as int;
    assert(0 <= n) by (nonlinear_arith)
        requires
            n == amount * part,
    ;
    lemma_floor(n, d);
    let q = n / d;
    assert(q <= part) by (nonlinear_arith)
        requires
            q * d <= n,
            n == amount * part,
            amount <= d,
            d > 0,
            q >= 0,
    ;
    if amount < whole && part > 0 {
        assert(q < part) by (nonlinear_arith)
            requires
                q * d <= n,
                n == amount * part,
                amount < d,
                part > 0,
                d > 0,
                q >= 0,
        ;
    }
}

/// Selling and selling back returns no more than was sold.
pub proof fn lemma_sale_and_sale_back(amount: nat, input_reserve: nat, output_reserve: nat)
    requires
        input_reserve > 0,
        output_reserve > 0,
    ensures
        input_price(
            input_price(amount, input_reserve, output_reserve),
            output_reserve,
            input_reserve,
        ) <= amount,
{
    let x = amount as int;
    let a = input_reserve as int;
    let b = output_reserve as int;
    let y = input_price(amount, input_reserve, output_reserve) as int;
    let z = input_price(y as nat, output_reserve, input_reserve) as int;
    let n1 = x * 997 * b;
    let d1 = a * 1000 + x * 997;
    assert(0 <= n1) by (nonlinear_arith)
        requires
            n1 == x * 997 * b,
            x >= 0,
            b >= 0,
    ;
    assert(n1 == (amount * 997 * output_reserve) as int) by (nonlinear_arith)
        requires
            n1 == x * 997 * b,
            x == amount,
            b == output_reserve,
    ;
    lemma_floor(n1, d1);
    let n2 = y * 997 * a;
    let d2 = b * 1000 + y * 997;
    assert(0 <= n2) by (nonlinear_arith)
        requires
            n2 == y * 997 * a,
            y >= 0,
            a >= 0,
    ;
    assert(n2 == ((y as nat) * 997 * input_reserve) as int) by (nonlinear_arith)
        requires
            n2 == y * 997 * a,
            y >= 0,
            a == input_reserve,
    ;
    lemma_floor(n2, d2);
    assert(1000 * y * a <= 997 * x * b) by (nonlinear_arith)
        requires
            y * d1 <= n1,
            n1 == x * 997 * b,
            d1 == a * 1000 + x * 997,
            x >= 0,
            y >= 0,
    ;
    assert(1000 * z * b <= 997 * y * a) by (nonlinear_arith)
        requires
            z * d2 <= n2,
            n2 == y * 997 * a,
            d2 == b * 1000 + y * 997,
            z >= 0,
            y >= 0,
    ;
    assert(z <= x) by (nonlinear_arith)
        requires
            1000 * y * a <= 997 * x * b,
            1000 * z * b <= 997 * y * a,
            b > 0,
            x >= 0,
            z >= 0,
    ;
}

/// Buying what a purchase costs costs no less than was bought.
pub proof fn lemma_purchase_of_the_price(amount: nat, input_reserve: nat, output_reserve: nat)
    requires
        amount < output_reserve,
        output_price(amount, input_reserve, output_reserve) < input_reserve,
    ensures
        output_price(
            output_price(amount, input_reserve, output_reserve),
            output_reserve,
            input_reserve,
        ) >= amount,
{
    let x = amount as int;
    let a = input_reserve as int;
    let b = output_reserve as int;
    let c = output_price(amount, input_reserve, output_reserve) as int;
    let t = output_price(c as nat, output_reserve, input_reserve) as int;
    lemma_output_price_keeps_product(amount, input_reserve, output_reserve);
    lemma_output_price_keeps_product(c as nat, output_reserve, input_reserve);
    assert(c * ((b - x) * 997) > a * x * 1000);
    assert(t * ((a - c) * 997) > b * c * 1000);
    assert(t >= x) by (nonlinear_arith)
        requires
            c * ((b - x) * 997) > a * x * 1000,
            t * ((a - c) * 997) > b * c * 1000,
            0 <= x < b,
            0 <= c < a,
            t >= 0,
    ;
}

/// Liquidity that is added to a pool and taken out again, with nothing in
/// between, returns no more of either side than went in. It returns all but
/// at most one unit of the currency exactly when the remainder of the share
/// computation is at most the shares then outstanding, and all but at most
/// one token exactly when the stated bound holds.
pub proof fn lemma_liquidity_added_and_removed(
    currency_amount: nat,
    shares: nat,
    currency_reserve: nat,
    token_reserve: nat,
)
    requires
        shares > 0,
        currency_reserve > 0,
    ensures
        ({
            let minted = portion(currency_amount, shares, currency_reserve);
            let tokens = portion(currency_amount, token_reserve, currency_reserve);
            let currency_out = portion(
                minted,
                currency_reserve + currency_amount,
                shares + minted,
            );
            let tokens_out = portion(minted, token_reserve + tokens, shares + minted);
            &&& currency_out <= currency_amount
            &&& tokens_out <= tokens
            &&& currency_amount - currency_out <= 1 <==> (currency_amount * shares) % currency_reserve
                <= shares + minted
            &&& tokens - tokens_out <= 1 <==> minted * token_reserve + shares + minted >= tokens
                * shares
        }),
{
    let c = currency_amount as int;
    let l = shares as int;
    let cr = currency_reserve as int;
    let tr = token_reserve as int;
    let m = portion(currency_amount, shares, currency_reserve) as int;
    let t = portion(currency_amount, token_reserve, currency_reserve) as int;
    let n1 = c * l;
    assert(0 <= n1 && n1 == (currency_amount * shares) as int) by (nonlinear_arith)
        requires
            n1 == c * l,
            c == currency_amount,
            l == shares,
    ;
    lemma_floor(n1, cr);
    vstd::arithmetic::div_mod::lemma_fundamental_div_mod(n1, cr);
    let r = n1 % cr;
    assert(n1 == cr * m + r);
    let n2 = c * tr;
    assert(0 <= n2 && n2 == (currency_amount * token_reserve) as int) by (nonlinear_arith)
        requires
            n2 == c * tr,
            c == currency_amount,
            tr == token_reserve,
    ;
    lemma_floor(n2, cr);
    let d = l + m;
    let n3 = m * (cr + c);
    assert(0 <= n3 && n3 == ((m as nat) * ((currency_reserve + currency_amount) as nat)) as int)
        by (nonlinear_arith)
        requires
            n3 == m * (cr + c),
            m >= 0,
            cr == currency_reserve,
            c == currency_amount,
    ;
    let n4 = m * (tr + t);
    assert(0 <= n4 && n4 == ((m as nat) * ((token_reserve + t) as nat)) as int) by (nonlinear_arith)
        requires
            n4 == m * (tr + t),
            m >= 0,
            t >= 0,
            tr == token_reserve,
    ;
    let currency_out = n3 / d;
    let tokens_out = n4 / d;
    assert(n3 == c * d - r) by (nonlinear_arith)
        requires
            n3 == m * (cr + c),
            d == l + m,
            n1 == c * l,
            n1 == cr * m + r,
    ;
    lemma_floor_at_least(n3, d, c + 1);
    lemma_floor_at_least(n3, d, c - 1);
    assert(!((c + 1) * d <= n3)) by (nonlinear_arith)
        requires
            n3 == c * d - r,
            r >= 0,
            d > 0,
    ;
    assert(((c - 1) * d <= n3) <==> r <= d) by (nonlinear_arith)
        requires
            n3 == c * d - r,
    ;
    lemma_floor_at_least(n4, d, t + 1);
    lemma_floor_at_least(n4, d, t - 1);
    assert(m * tr < (t + 1) * l) by (nonlinear_arith)
        requires
            m * cr <= n1,
            n1 == c * l,
            n2 < (t + 1) * cr,
            n2 == c * tr,
            cr > 0,
            l > 0,
            m >= 0,
            tr >= 0,
            t >= 0,
            c >= 0,
    ;
    assert(!((t + 1) * d <= n4)) by (nonlinear_arith)
        requires
            n4 == m * (tr + t),
            d == l + m,
            m * tr < (t + 1) * l,
            m >= 0,
    ;
    assert(((t - 1) * d <= n4) <==> (m * tr + l + m >= t * l)) by (nonlinear_arith)
        requires
            n4 == m * (tr + t),
            d == l + m,
    ;
}

} // verus!
