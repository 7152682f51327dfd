use openbook_v2::account::OpenOrdersAccount;
use openbook_v2::book::Side;
use openbook_v2::client::{next_account_num, unique_signer_keys, JupiterSwapMode, TransactionBuilderConfig};
use openbook_v2::decimal::{Decimal, FRAC_SCALE};
use openbook_v2::engine::{check_place_order_accounts, create_market, MarketAccounts};
use openbook_v2::error::OpenBookError;
use openbook_v2::market::{KeyedOracle, Market};
use openbook_v2::oracle::{OracleConfig, OracleState};
use openbook_v2::pubkey::{NonZeroPubkeyOption, Pubkey};

fn key(n: u8) -> Pubkey {
    Pubkey::new_from_array([n; 32])
}

fn market(oracle_a: Option<Pubkey>, oracle_b: Option<Pubkey>, admin: Option<Pubkey>) -> Market {
    let accounts = MarketAccounts {
        market_authority: key(1),
        collect_fee_admin: key(2),
        open_orders_admin: admin,
        consume_events_admin: None,
        close_market_admin: None,
        bids: key(4),
        asks: key(5),
        event_heap: key(6),
        oracle_a,
        oracle_b,
        base_mint: key(9),
        quote_mint: key(10),
        market_base_vault: key(11),
        market_quote_vault: key(12),
    };
    let config = OracleConfig { conf_filter: Decimal { bits: FRAC_SCALE / 10 }, max_staleness_slots: -1 };
    create_market(&accounts, 0, 6, 6, &vec![], config, 10, 100, 0, 0, 0, 0).unwrap()
}

fn reading(n: u8, price: i64) -> KeyedOracle {
    KeyedOracle {
        key: key(n),
        state: OracleState { price: Decimal::from_int(price), deviation: Decimal::zero(), last_update_slot: 0 },
    }
}

#[test]
fn signers_are_deduplicated_in_order() {
    let keys = vec![key(3), key(1), key(3), key(2), key(1)];
    assert_eq!(unique_signer_keys(&keys), vec![key(3), key(1), key(2)]);
    assert_eq!(unique_signer_keys(&vec![]), Vec::<Pubkey>::new());
}

#[test]
fn account_numbers_count_up() {
    assert_eq!(next_account_num(&vec![]), Some(0));
    assert_eq!(next_account_num(&vec![3, 7, 1]), Some(8));
    assert_eq!(next_account_num(&vec![u32::MAX]), None);
}

#[test]
fn config_types() {
    let c = TransactionBuilderConfig { prioritization_micro_lamports: Some(5) };
    assert_eq!(c.prioritization_micro_lamports, Some(5));
    assert!(JupiterSwapMode::ExactIn != JupiterSwapMode::ExactOut);
}

#[test]
fn swap_side_and_related_accounts() {
    let m = market(Some(key(7)), None, None);
    assert_eq!(m.swap_side(&key(10)), Side::Bid);
    assert_eq!(m.swap_side(&key(9)), Side::Ask);
    let r = m.related_accounts(&key(99));
    assert_eq!(r, vec![key(4), key(5), key(6), key(11), key(12), key(99), key(7)]);
    let m = market(None, None, None);
    assert_eq!(m.related_accounts(&key(99)).len(), 6);
}

#[test]
fn oracle_selection() {
    let none = market(None, None, None);
    assert_eq!(none.oracle_price(None, None, 0), Ok(None));

    let one = market(Some(key(7)), None, None);
    assert_eq!(one.oracle_price(Some(reading(7, 4)), None, 0), Ok(Some(Decimal::from_int(4))));
    assert_eq!(one.oracle_price(Some(reading(8, 4)), None, 0), Err(OpenBookError::InvalidOracleAccount));
    assert_eq!(one.oracle_price(None, None, 0), Err(OpenBookError::InvalidOracleAccount));

    let two = market(Some(key(7)), Some(key(8)), None);
    assert_eq!(two.oracle_price(Some(reading(7, 6)), Some(reading(8, 3)), 0), Ok(Some(Decimal::from_int(2))));
    assert_eq!(two.oracle_price(Some(reading(7, 6)), None, 0), Err(OpenBookError::InvalidOracleAccount));
}

#[test]
fn place_order_accounts_are_checked() {
    let m = market(Some(key(7)), None, Some(key(40)));
    let owner = key(20);
    let delegate = key(21);
    let account = OpenOrdersAccount::new(key(30), owner, key(50), NonZeroPubkeyOption::from_option(Some(delegate)), 0);
    let ok = check_place_order_accounts(&m, &key(50), &account, &owner, Some(key(40)), &key(11), Some(key(7)), None);
    assert_eq!(ok, Ok(()));
    let by_delegate = check_place_order_accounts(&m, &key(50), &account, &delegate, Some(key(40)), &key(12), Some(key(7)), None);
    assert_eq!(by_delegate, Ok(()));
    assert_eq!(
        check_place_order_accounts(&m, &key(51), &account, &owner, Some(key(40)), &key(11), Some(key(7)), None),
        Err(OpenBookError::InvalidMarket)
    );
    assert_eq!(
        check_place_order_accounts(&m, &key(50), &account, &key(22), Some(key(40)), &key(11), Some(key(7)), None),
        Err(OpenBookError::NoOwnerOrDelegate)
    );
    assert_eq!(
        check_place_order_accounts(&m, &key(50), &account, &owner, Some(key(40)), &key(11), None, None),
        Err(OpenBookError::InvalidOracleAccount)
    );
    assert_eq!(
        check_place_order_accounts(&m, &key(50), &account, &owner, None, &key(11), Some(key(7)), None),
        Err(OpenBookError::InvalidOpenOrdersAdmin)
    );
    assert_eq!(
        check_place_order_accounts(&m, &key(50), &account, &owner, Some(key(40)), &key(13), Some(key(7)), None),
        Err(OpenBookError::InvalidMarketVault)
    );
}
