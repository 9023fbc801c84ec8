use zenlink::dex::Module;
use zenlink::types::Error;

#[test]
fn input_price_is_the_quotient_rounded_down() {
    // 10 * 997 * 1000 / (100 * 1000 + 10 * 997) = 9970000 / 109970 = 90.66
    assert_eq!(Module::get_input_price(10, 100, 1000), Ok(90));
    // 100 * 997 * 100 / (1000 * 1000 + 100 * 997) = 9970000 / 1099700 = 9.06
    assert_eq!(Module::get_input_price(100, 1000, 100), Ok(9));
    assert_eq!(Module::get_input_price(0, 1000, 100), Ok(0));
    assert_eq!(Module::get_input_price(1, 1000, 1000), Ok(0));
    assert_eq!(Module::get_input_price(5, 0, 77), Ok(77));
}

#[test]
fn output_price_is_the_quotient_rounded_down_and_one_more() {
    // 100 * 100 * 1000 / (900 * 997) = 10000000 / 897300 = 11.14
    assert_eq!(Module::get_output_price(100, 100, 1000), Ok(12));
    // 1000 * 10 * 1000 / (90 * 997) = 10000000 / 89730 = 111.4
    assert_eq!(Module::get_output_price(10, 1000, 100), Ok(112));
    assert_eq!(Module::get_output_price(0, 1000, 100), Ok(1));
    assert_eq!(Module::get_output_price(1, 0, 100), Ok(1));
}

#[test]
fn prices_outside_the_domain_are_overflows() {
    assert_eq!(Module::get_input_price(0, 0, 100), Err(Error::Overflow));
    assert_eq!(Module::get_input_price(u64::MAX, 1, u64::MAX), Err(Error::Overflow));
    assert_eq!(Module::get_output_price(100, 1000, 100), Err(Error::Overflow));
    assert_eq!(Module::get_output_price(101, 1000, 100), Err(Error::Overflow));
    assert_eq!(Module::get_output_price(u64::MAX - 1, u64::MAX, u64::MAX), Err(Error::Overflow));
    assert_eq!(Module::get_output_price(99, u64::MAX, 100), Err(Error::Overflow));
}

#[test]
fn large_prices_are_exact() {
    let reserve = 1u64 << 58;
    // 2^58 * 997 * 2^58 / (2^58 * 1000 + 2^58 * 997) = 2^58 * 997 / 1997
    assert_eq!(
        Module::get_input_price(reserve, reserve, reserve),
        Ok(((reserve as u128) * 997 / 1997) as u64)
    );
    assert_eq!(
        Module::get_output_price(reserve / 2, reserve, reserve),
        Ok(((reserve as u128) * 1000 / 997 + 1) as u64)
    );
}

#[test]
fn portions_are_rounded_down() {
    assert_eq!(Module::get_portion(100, 1000, 100), Ok(1000));
    assert_eq!(Module::get_portion(7, 1330, 133), Ok(70));
    assert_eq!(Module::get_portion(1, 19, 10), Ok(1));
    assert_eq!(Module::get_portion(0, 19, 10), Ok(0));
    assert_eq!(Module::get_portion(1, 1, 0), Err(Error::Overflow));
    assert_eq!(Module::get_portion(u64::MAX, 2, 1), Err(Error::Overflow));
    assert_eq!(Module::get_portion(u64::MAX, u64::MAX, u64::MAX), Ok(u64::MAX));
}

#[test]
fn a_swap_never_lowers_the_product_of_the_reserves() {
    for (amount, input_reserve, output_reserve) in
        [(10u64, 100u64, 1000u64), (1, 1, 1), (999, 5, 7), (3, 1_000_000, 2), (50, 77, 13)]
    {
        let bought = Module::get_input_price(amount, input_reserve, output_reserve).unwrap();
        assert!(
            (input_reserve + amount) as u128 * (output_reserve - bought) as u128
                >= input_reserve as u128 * output_reserve as u128
        );
    }
    for (amount, input_reserve, output_reserve) in
        [(100u64, 100u64, 1000u64), (1, 1, 2), (6, 5, 7), (1, 1_000_000, 2), (12, 77, 13)]
    {
        let sold = Module::get_output_price(amount, input_reserve, output_reserve).unwrap();
        assert!(
            (input_reserve + sold) as u128 * (output_reserve - amount) as u128
                > input_reserve as u128 * output_reserve as u128
        );
    }
}

#[test]
fn paying_the_price_of_a_purchase_buys_it() {
    for (amount, input_reserve, output_reserve) in
        [(100u64, 1000u64, 1000u64), (1, 1000, 1000), (1, 1, 1000), (12, 77, 13), (6, 5, 7)]
    {
        let price = Module::get_output_price(amount, input_reserve, output_reserve).unwrap();
        let bought = Module::get_input_price(price, input_reserve, output_reserve).unwrap();
        assert!(bought >= amount);
    }
    // Where the pool is lopsided, the smallest price buys much more.
    assert_eq!(Module::get_output_price(1, 1, 1000), Ok(1));
    assert_eq!(Module::get_input_price(1, 1, 1000), Ok(499));
    // Where it is not, it buys exactly what was asked for.
    assert_eq!(Module::get_output_price(100, 1000, 1000), Ok(112));
    assert_eq!(Module::get_input_price(112, 1000, 1000), Ok(100));
}

#[test]
fn the_price_of_the_proceeds_is_at_most_one_more_than_was_sold() {
    for (amount, input_reserve, output_reserve) in
        [(100u64, 1000u64, 1000u64), (2, 1000, 1000), (5, 1000, 1), (50, 77, 13), (999, 5, 7)]
    {
        let proceeds = Module::get_input_price(amount, input_reserve, output_reserve).unwrap();
        let price = Module::get_output_price(proceeds, input_reserve, output_reserve).unwrap();
        assert!(price <= amount + 1);
    }
    // A sale that fetches nothing: the price of nothing is one.
    assert_eq!(Module::get_input_price(5, 1000, 1), Ok(0));
    assert_eq!(Module::get_output_price(0, 1000, 1), Ok(1));
    // A sale whose proceeds cost exactly what was sold.
    assert_eq!(Module::get_input_price(100, 1000, 1000), Ok(90));
    assert_eq!(Module::get_output_price(90, 1000, 1000), Ok(100));
}
