use openbook_v2::book::Side;
use openbook_v2::decimal::{power_of_ten, Decimal, FRAC_SCALE};
use openbook_v2::engine::{create_market, MarketAccounts};
use openbook_v2::error::OpenBookError;
use openbook_v2::market::Market;
use openbook_v2::oracle::{OracleConfig, OracleState};
use openbook_v2::pubkey::Pubkey;

fn key(n: u8) -> Pubkey {
    Pubkey::new_from_array([n; 32])
}

fn accounts() -> MarketAccounts {
    MarketAccounts {
        market_authority: key(1),
        collect_fee_admin: key(2),
        open_orders_admin: None,
        consume_events_admin: None,
        close_market_admin: Some(key(3)),
        bids: key(4),
        asks: key(5),
        event_heap: key(6),
        oracle_a: Some(key(7)),
        oracle_b: Some(key(8)),
        base_mint: key(9),
        quote_mint: key(10),
        market_base_vault: key(11),
        market_quote_vault: key(12),
    }
}

fn config() -> OracleConfig {
    // deviation may reach 10% of the price; staleness is not checked
    OracleConfig { conf_filter: Decimal { bits: FRAC_SCALE / 10 }, max_staleness_slots: -1 }
}

fn market(quote_lot_size: i64, base_lot_size: i64, maker_fee: i64, taker_fee: i64) -> Market {
    create_market(&accounts(), 255, 6, 6, &b"SOL-USDC".to_vec(), config(), quote_lot_size, base_lot_size, maker_fee, taker_fee, 0, 1000)
        .unwrap()
}

fn dec(n: i64) -> Decimal {
    Decimal::from_int(n)
}

#[test]
fn create_market_checks_fees() {
    let r = create_market(&accounts(), 0, 6, 6, &vec![], config(), 10, 100, 0, -1, 0, 1000);
    assert_eq!(r.unwrap_err(), OpenBookError::InvalidInputMarketFees);
    let r = create_market(&accounts(), 0, 6, 6, &vec![], config(), 10, 100, -500, 400, 0, 1000);
    assert_eq!(r.unwrap_err(), OpenBookError::InvalidInputMarketFees);
    let r = create_market(&accounts(), 0, 6, 6, &vec![], config(), 10, 100, 500, 400, 0, 1000);
    assert_eq!(r.unwrap_err(), OpenBookError::InvalidInputMarketFees);
    let r = create_market(&accounts(), 0, 6, 6, &vec![], config(), 10, 100, -400, 400, 0, 1000);
    assert!(r.is_ok());
}

#[test]
fn create_market_checks_expiry_lots_and_name() {
    let r = create_market(&accounts(), 0, 6, 6, &vec![], config(), 10, 100, 0, 0, 999, 1000);
    assert_eq!(r.unwrap_err(), OpenBookError::InvalidInputMarketExpired);
    let r = create_market(&accounts(), 0, 6, 6, &vec![], config(), 0, 100, 0, 0, 0, 1000);
    assert_eq!(r.unwrap_err(), OpenBookError::InvalidInputLots);
    let r = create_market(&accounts(), 0, 6, 6, &vec![], config(), 10, -1, 0, 0, 0, 1000);
    assert_eq!(r.unwrap_err(), OpenBookError::InvalidInputLots);
    let r = create_market(&accounts(), 0, 6, 6, &vec![b'x'; 17], config(), 10, 100, 0, 0, 0, 1000);
    assert_eq!(r.unwrap_err(), OpenBookError::InvalidInput);
    let r = create_market(&accounts(), 0, 0, 13, &vec![], config(), 10, 100, 0, 0, 0, 1000);
    assert_eq!(r.unwrap_err(), OpenBookError::InvalidInput);
}

#[test]
fn new_market_starts_empty() {
    let m = market(10, 100, 200, 400);
    assert_eq!(m.seq_num, 0);
    assert_eq!(m.registration_time, 1000);
    assert!(m.is_empty());
    assert_eq!(m.name(), b"SOL-USDC".to_vec());
    assert!(m.open_orders_admin.is_none());
    assert!(m.close_market_admin.eq_key(&key(3)));
    assert!(m.is_market_vault(&key(11)));
    assert!(m.is_market_vault(&key(12)));
    assert!(!m.is_market_vault(&key(13)));
}

#[test]
fn name_drops_padding() {
    let mut m = market(10, 100, 0, 0);
    m.name = [0, 0, b'a', 0, b'b', 0, 0, 0, 0, 0, 0, 0, 0, 0, 0, 0];
    assert_eq!(m.name(), vec![b'a', 0, b'b']);
    m.name = [0; 16];
    assert_eq!(m.name(), Vec::<u8>::new());
}

#[test]
fn expiry() {
    let mut m = market(10, 100, 0, 0);
    assert!(!m.is_expired(i64::MAX));
    m.time_expiry = 50;
    assert!(!m.is_expired(50));
    assert!(m.is_expired(51));
}

#[test]
fn order_ids_follow_the_sequence() {
    let mut m = market(10, 100, 0, 0);
    let bid = m.gen_order_id(Side::Bid, 7);
    assert_eq!(m.seq_num, 1);
    assert_eq!(bid, (7u128 << 64) | (u64::MAX - 1) as u128);
    let ask = m.gen_order_id(Side::Ask, 7);
    assert_eq!(m.seq_num, 2);
    assert_eq!(ask, (7u128 << 64) | 2);
}

#[test]
fn lot_limits() {
    let m = market(10, 100, 0, 0);
    assert_eq!(m.max_base_lots(), i64::MAX / 100);
    assert_eq!(m.max_quote_lots(), i64::MAX / 10);
}

#[test]
fn price_conversions() {
    let m = market(10, 10000, 0, 0);
    assert_eq!(m.native_price_to_lot(Decimal::one()), Ok(1000));
    assert_eq!(m.native_price_to_lot(dec(3)), Ok(3000));
    // 1.5 native is 1500 lots
    assert_eq!(m.native_price_to_lot(Decimal { bits: FRAC_SCALE * 3 / 2 }), Ok(1500));
    assert_eq!(m.native_price_to_lot(Decimal::max_value()), Err(OpenBookError::InvalidOraclePrice));
    // one lot price is 10 / 10000 native
    let p = m.lot_to_native_price(1000).unwrap();
    assert_eq!(p, Decimal::one());
    assert_eq!(m.lot_to_native_price(1500), Some(Decimal { bits: FRAC_SCALE * 3 / 2 }));
}

#[test]
fn fee_rounding() {
    let m = market(10, 100, 200, 400);
    // 400 ppm of 100_000 is exactly 40
    assert_eq!(m.taker_fees_ceil(100_000), 40);
    assert_eq!(m.taker_fees_floor(100_000), 40);
    // 400 ppm of 1 rounds up to 1 for the taker and down to 0 otherwise
    assert_eq!(m.taker_fees_ceil(1), 1);
    assert_eq!(m.taker_fees_floor(1), 0);
    assert_eq!(m.maker_fees_floor(100_000), 20);
    assert_eq!(m.maker_fees_ceil(100_001), 21);
    assert_eq!(m.maker_rebate_floor(100_000), 0);
    assert_eq!(m.subtract_taker_fees(100_000_000), 99_960_015);

    let r = market(10, 100, -300, 400);
    assert_eq!(r.maker_fees_floor(100_000), 0);
    assert_eq!(r.maker_fees_ceil(100_000), 0);
    assert_eq!(r.maker_rebate_floor(100_000), 30);
    assert_eq!(r.maker_rebate_floor(3), 0);
}

#[test]
fn rebate_never_exceeds_taker_fee() {
    let m = market(10, 100, -400, 400);
    for q in [0u64, 1, 2, 999, 2499, 2500, 2501, 1_000_000, 123_456_789] {
        assert!(m.maker_rebate_floor(q) <= m.taker_fees_ceil(q));
    }
}

#[test]
fn powers_of_ten() {
    assert_eq!(power_of_ten(0), Decimal::one());
    assert_eq!(power_of_ten(3), dec(1000));
    assert_eq!(power_of_ten(-2), Decimal { bits: FRAC_SCALE / 100 });
}

#[test]
fn decimal_arithmetic() {
    let half = Decimal { bits: FRAC_SCALE / 2 };
    assert_eq!(dec(3).checked_mul(half), Some(Decimal { bits: FRAC_SCALE * 3 / 2 }));
    assert_eq!(dec(3).checked_div(dec(2)), Some(Decimal { bits: FRAC_SCALE * 3 / 2 }));
    assert_eq!(dec(3).checked_div(Decimal::zero()), None);
    assert_eq!(Decimal::max_value().checked_add(Decimal { bits: 1 }), None);
    assert_eq!(Decimal { bits: -FRAC_SCALE * 5 / 2 }.checked_to_i64(), Some(-3));
    assert_eq!(Decimal { bits: FRAC_SCALE * 5 / 2 }.checked_to_i64(), Some(2));
    assert_eq!(Decimal::max_value().checked_to_i64(), None);
}

fn reading(price: i64, deviation_bits: i128, slot: u64) -> OracleState {
    OracleState { price: dec(price), deviation: Decimal { bits: deviation_bits }, last_update_slot: slot }
}

#[test]
fn oracle_from_one_feed() {
    let mut m = market(10, 100, 0, 0);
    let ok = reading(2, 0, 100);
    assert_eq!(m.oracle_price_from_a(&key(7), &ok, 100), Ok(dec(2)));

    m.oracle_config.max_staleness_slots = 10;
    assert_eq!(m.oracle_price_from_a(&key(7), &ok, 110), Ok(dec(2)));
    assert_eq!(m.oracle_price_from_a(&key(7), &ok, 111), Err(OpenBookError::OracleStale));

    // deviation above 10% of the price
    let wide = reading(2, FRAC_SCALE / 4, 100);
    assert_eq!(m.oracle_price_from_a(&key(7), &wide, 100), Err(OpenBookError::OracleConfidence));

    // quote decimals three above base decimals scale the price by 1000
    m.quote_decimals = 9;
    assert_eq!(m.oracle_price_from_a(&key(7), &ok, 100), Ok(dec(2000)));
}

#[test]
fn oracle_from_two_feeds() {
    let m = market(10, 100, 0, 0);
    let a = reading(6, 0, 100);
    let b = reading(2, 0, 100);
    assert_eq!(m.oracle_price_from_a_and_b(&key(7), &a, &key(8), &b, 100), Ok(dec(3)));

    let zero = reading(0, 0, 100);
    assert_eq!(m.oracle_price_from_a_and_b(&key(7), &a, &key(8), &zero, 100), Err(OpenBookError::InvalidOraclePrice));

    // sigma_a * B = 2 * 2 = 4, squared 16, above (0.1 * 2)^2 * 2 * 2 = 0.16
    let noisy = reading(6, 2 * FRAC_SCALE, 100);
    assert_eq!(m.oracle_price_from_a_and_b(&key(7), &noisy, &key(8), &b, 100), Err(OpenBookError::OracleConfidence));

    let mut stale = m;
    stale.oracle_config.max_staleness_slots = 0;
    assert_eq!(stale.oracle_price_from_a_and_b(&key(7), &a, &key(8), &b, 101), Err(OpenBookError::OracleStale));
}
