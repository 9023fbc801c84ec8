use zenlink::assets::{AssetInfo, Event, Module, Op};
use zenlink::types::Error;

fn test_token() -> AssetInfo {
    AssetInfo { name: *b"zenlinktesttoken", symbol: *b"TEST____", decimals: 0 }
}

/// The balances, supply and allowance that the tests below look at.
fn observed(assets: &Module) -> Vec<u64> {
    vec![
        assets.balance(0, 1),
        assets.balance(0, 2),
        assets.balance(0, 3),
        assets.total_supply(0),
        assets.allowances(0, 1, 2),
        assets.next_asset_id() as u64,
    ]
}

#[test]
fn issuing_asset_units_to_issuer_should_work() {
    let mut assets = Module::new();
    assert!(assets.issue(1, 100, test_token()).is_ok());
    assert_eq!(assets.balance(0, 1), 100);
}

#[test]
fn querying_total_supply_should_work() {
    let mut assets = Module::new();
    assert!(assets.issue(1, 100, test_token()).is_ok());
    assert_eq!(assets.balance(0, 1), 100);
    assert!(assets.transfer(1, 0, 2, 50).is_ok());
    assert_eq!(assets.balance(0, 1), 50);
    assert_eq!(assets.balance(0, 2), 50);
    assert!(assets.transfer(2, 0, 3, 31).is_ok());
    assert_eq!(assets.balance(0, 1), 50);
    assert_eq!(assets.balance(0, 2), 19);
    assert_eq!(assets.balance(0, 3), 31);
    assert_eq!(assets.total_supply(0), 100);
}

#[test]
fn transferring_amount_above_available_balance_should_work() {
    let mut assets = Module::new();
    assert!(assets.issue(1, 100, test_token()).is_ok());
    assert_eq!(assets.balance(0, 1), 100);
    assert!(assets.transfer(1, 0, 2, 50).is_ok());
    assert_eq!(assets.balance(0, 1), 50);
    assert_eq!(assets.balance(0, 2), 50);
}

#[test]
fn transferring_less_than_one_unit_should_not_work() {
    let mut assets = Module::new();
    assert!(assets.issue(1, 100, test_token()).is_ok());
    assert_eq!(assets.balance(0, 1), 100);
    let before = observed(&assets);
    assert_eq!(assets.transfer(1, 0, 2, 0), Err(Error::AmountZero));
    assert_eq!(observed(&assets), before);
}

#[test]
fn transferring_more_units_than_total_supply_should_not_work() {
    let mut assets = Module::new();
    assert!(assets.issue(1, 100, test_token()).is_ok());
    assert_eq!(assets.balance(0, 1), 100);
    let before = observed(&assets);
    assert_eq!(assets.transfer(1, 0, 2, 101), Err(Error::BalanceLow));
    assert_eq!(observed(&assets), before);
}

#[test]
fn allowances_should_work() {
    let mut assets = Module::new();
    assert!(assets.issue(1, 100, test_token()).is_ok());
    assert_eq!(assets.balance(0, 1), 100);
    assert_eq!(assets.balance(0, 2), 0);
    assert_eq!(assets.balance(0, 3), 0);
    assert_eq!(assets.allow(1, 0, 2, 20), Event::Approval(0, 1, 2, 20));
    assert_eq!(assets.allowances(0, 1, 2), 20);
    assert_eq!(assets.balance(0, 1), 100);
    assert_eq!(assets.balance(0, 2), 0);
    assert_eq!(assets.balance(0, 3), 0);
}

#[test]
fn transfer_from_should_work() {
    let mut assets = Module::new();
    assert!(assets.issue(1, 100, test_token()).is_ok());
    assert_eq!(assets.balance(0, 1), 100);
    assert_eq!(assets.balance(0, 2), 0);
    assert_eq!(assets.balance(0, 3), 0);

    assert_eq!(assets.allow(1, 0, 2, 20), Event::Approval(0, 1, 2, 20));
    assert_eq!(assets.allowances(0, 1, 2), 20);

    assert_eq!(assets.balance(0, 1), 100);
    assert_eq!(assets.balance(0, 2), 0);
    assert_eq!(assets.balance(0, 3), 0);
    assert!(assets.transfer_from(2, 0, 1, 3, 10).is_ok());
    assert_eq!(assets.balance(0, 1), 90);
    assert_eq!(assets.balance(0, 2), 0);
    assert_eq!(assets.balance(0, 3), 10);
}

#[test]
fn transfer_from_should_not_work() {
    let mut assets = Module::new();
    assert!(assets.issue(1, 100, test_token()).is_ok());
    assert_eq!(assets.allow(1, 0, 2, 20), Event::Approval(0, 1, 2, 20));
    assert_eq!(assets.allowances(0, 1, 2), 20);

    let before = observed(&assets);
    assert_eq!(assets.transfer_from(2, 0, 1, 3, 100), Err(Error::AllowanceLow));
    assert_eq!(observed(&assets), before);
}

#[test]
fn issue_reports_the_new_asset() {
    let mut assets = Module::new();
    assert_eq!(assets.next_asset_id(), 0);
    assert_eq!(assets.asset_info(0), None);
    assert_eq!(assets.issue(7, 100, test_token()), Ok(Event::Issued(0, 7, 100)));
    assert_eq!(assets.issue(8, 5, AssetInfo::default()), Ok(Event::Issued(1, 8, 5)));
    assert_eq!(assets.next_asset_id(), 2);
    assert_eq!(assets.asset_info(0), Some(test_token()));
    assert_eq!(assets.asset_info(1), Some(AssetInfo::default()));
    assert_eq!(assets.asset_info(2), None);
    assert_eq!(assets.total_supply(0), 100);
    assert_eq!(assets.total_supply(1), 5);
    assert_eq!(assets.balance(1, 8), 5);
    assert_eq!(assets.balance(1, 7), 0);
}

#[test]
fn transfer_reports_the_move() {
    let mut assets = Module::new();
    assets.issue(1, 100, test_token()).unwrap();
    assert_eq!(assets.transfer(1, 0, 2, 50), Ok(Event::Transferred(0, 1, 2, 50)));
    assert_eq!(assets.transfer_from(2, 0, 1, 3, 0), Err(Error::AmountZero));
}

#[test]
fn transfer_to_oneself_changes_no_balance() {
    let mut assets = Module::new();
    assets.issue(1, 100, test_token()).unwrap();
    assert_eq!(assets.transfer(1, 0, 1, 40), Ok(Event::Transferred(0, 1, 1, 40)));
    assert_eq!(assets.balance(0, 1), 100);
    assert_eq!(assets.total_supply(0), 100);
    assert_eq!(assets.transfer(1, 0, 1, 101), Err(Error::BalanceLow));
}

#[test]
fn transfer_of_an_asset_that_was_not_issued_fails() {
    let mut assets = Module::new();
    assert_eq!(assets.transfer(1, 5, 2, 1), Err(Error::BalanceLow));
    assert_eq!(assets.transfer(1, 5, 2, 0), Err(Error::AmountZero));
}

#[test]
fn allow_overwrites_and_clears() {
    let mut assets = Module::new();
    assets.issue(1, 100, test_token()).unwrap();
    assets.allow(1, 0, 2, 20);
    assets.allow(1, 0, 2, 5);
    assert_eq!(assets.allowances(0, 1, 2), 5);
    assert_eq!(assets.allowances(0, 2, 1), 0);
    assets.allow(1, 0, 2, 0);
    assert_eq!(assets.allowances(0, 1, 2), 0);
    assert_eq!(assets.transfer_from(2, 0, 1, 3, 1), Err(Error::AllowanceLow));
}

#[test]
fn delegated_transfer_draws_the_allowance_down() {
    let mut assets = Module::new();
    assets.issue(1, 100, test_token()).unwrap();
    assets.allow(1, 0, 2, 20);
    assert_eq!(assets.transfer_from(2, 0, 1, 3, 10), Ok(Event::Transferred(0, 1, 3, 10)));
    assert_eq!(assets.balance(0, 1), 90);
    assert_eq!(assets.balance(0, 3), 10);
    assert_eq!(assets.allowances(0, 1, 2), 10);
    assert_eq!(assets.transfer_from(2, 0, 1, 3, 100), Err(Error::AllowanceLow));
    assert_eq!(assets.allowances(0, 1, 2), 10);
}

#[test]
fn delegated_transfer_that_fails_keeps_the_allowance() {
    let mut assets = Module::new();
    assets.issue(1, 100, test_token()).unwrap();
    assets.allow(1, 0, 2, 500);
    assert_eq!(assets.transfer_from(2, 0, 1, 3, 101), Err(Error::BalanceLow));
    assert_eq!(assets.allowances(0, 1, 2), 500);
    assert_eq!(assets.balance(0, 1), 100);
}

#[test]
fn mint_and_burn_change_balance_and_supply() {
    let mut assets = Module::new();
    assert_eq!(assets.mint_asset(9, 0, test_token()), Ok(0));
    assert_eq!(assets.mint(0, 4, 30), Ok(()));
    assert_eq!(assets.balance(0, 4), 30);
    assert_eq!(assets.total_supply(0), 30);
    assert_eq!(assets.burn(0, 4, 31), Err(Error::BalanceLow));
    assert_eq!(assets.burn(0, 4, 10), Ok(()));
    assert_eq!(assets.balance(0, 4), 20);
    assert_eq!(assets.total_supply(0), 20);
    assert_eq!(assets.mint(0, 5, u64::MAX - 19), Err(Error::Overflow));
    assert_eq!(assets.total_supply(0), 20);
    assert_eq!(assets.balance(0, 5), 0);
    assert_eq!(assets.mint(0, 5, u64::MAX - 20), Ok(()));
    assert_eq!(assets.total_supply(0), u64::MAX);
}

#[test]
fn supply_is_the_sum_of_the_balances() {
    let mut assets = Module::new();
    assets.issue(1, 100, test_token()).unwrap();
    assets.transfer(1, 0, 2, 50).unwrap();
    assets.transfer(2, 0, 3, 31).unwrap();
    assets.mint(0, 4, 7).unwrap();
    assets.burn(0, 1, 20).unwrap();
    assets.allow(3, 0, 1, 30);
    assets.transfer_from(1, 0, 3, 5, 30).unwrap();
    let sum: u64 = (0..10u128).map(|who| assets.balance(0, who)).sum();
    assert_eq!(sum, 87);
    assert_eq!(assets.total_supply(0), 87);
}

#[test]
fn operations_as_values_do_what_the_methods_do() {
    let mut assets = Module::new();
    assets.issue(1, 100, test_token()).unwrap();
    let transfer = Op::Transfer { id: 0, from: 1, to: 2, amount: 60 };
    assert_eq!(assets.can_apply(&transfer), Ok(()));
    assert_eq!(assets.apply(&transfer), Ok(()));
    assert_eq!(assets.can_apply(&transfer), Err(Error::BalanceLow));
    assert_eq!(assets.apply(&transfer), Err(Error::BalanceLow));
    assert_eq!(assets.balance(0, 2), 60);
    assert_eq!(assets.apply(&Op::Mint { id: 0, to: 3, amount: 1 }), Ok(()));
    assert_eq!(assets.apply(&Op::Burn { id: 0, from: 2, amount: 10 }), Ok(()));
    assets.allow(2, 0, 9, 50);
    let delegated = Op::TransferFrom { id: 0, spender: 9, owner: 2, to: 4, amount: 50 };
    assert_eq!(assets.can_transfer_from(0, 9, 2, 4, 51), Err(Error::AllowanceLow));
    assert_eq!(assets.apply(&delegated), Ok(()));
    assert_eq!(assets.balance(0, 2), 0);
    assert_eq!(assets.balance(0, 4), 50);
    assert_eq!(assets.total_supply(0), 91);
    assert_eq!(assets.can_mint(0, 1, u64::MAX), Err(Error::Overflow));
    assert_eq!(assets.can_burn(0, 1, 41), Err(Error::BalanceLow));
    assert_eq!(assets.can_transfer(0, 1, 2, 0), Err(Error::AmountZero));
}
