use openbook_v2::account::{OpenOrdersAccount, SideAndOrderTree};
use openbook_v2::book::{OrderPrice, OrderTreeType, Side};
use openbook_v2::decimal::{Decimal, FRAC_SCALE};
use openbook_v2::engine::{
    cancel_order, cancel_order_by_client_order_id, consume_events, create_market, deposit, place_order, settle_funds,
    MarketAccounts, Orderbook, PlaceOrderArgs,
};
use openbook_v2::error::OpenBookError;
use openbook_v2::events::{AnyEvent, EventQueue, OutEvent};
use openbook_v2::market::Market;
use openbook_v2::matching::{PlaceOrderType, SelfTradeBehavior};
use openbook_v2::oracle::OracleConfig;
use openbook_v2::pubkey::{NonZeroPubkeyOption, Pubkey};

fn key(n: u8) -> Pubkey {
    Pubkey::new_from_array([n; 32])
}

struct Env {
    market: Market,
    book: Orderbook,
    queue: EventQueue,
    accounts: Vec<OpenOrdersAccount>,
}

fn filler() -> AnyEvent {
    AnyEvent::Out(OutEvent {
        side: Side::Bid,
        owner_slot: 0,
        timestamp: 0,
        owner: Pubkey::zeroed(),
        order_id: 0,
        quantity: 0,
        lock_released: 0,
    })
}

fn env(quote_lot_size: i64, base_lot_size: i64, maker_fee: i64, taker_fee: i64, with_oracle: bool) -> Env {
    let accounts = MarketAccounts {
        market_authority: key(1),
        collect_fee_admin: key(2),
        open_orders_admin: None,
        consume_events_admin: None,
        close_market_admin: None,
        bids: key(4),
        asks: key(5),
        event_heap: key(6),
        oracle_a: if with_oracle { Some(key(7)) } else { None },
        oracle_b: None,
        base_mint: key(9),
        quote_mint: key(10),
        market_base_vault: key(11),
        market_quote_vault: key(12),
    };
    let config = OracleConfig { conf_filter: Decimal { bits: FRAC_SCALE / 10 }, max_staleness_slots: -1 };
    let mut market = create_market(&accounts, 0, 6, 6, &b"TEST".to_vec(), config, quote_lot_size, base_lot_size, maker_fee, taker_fee, 0, 0).unwrap();
    let mut a1 = OpenOrdersAccount::new(key(21), key(20), key(30), NonZeroPubkeyOption::none(), 0);
    let mut a2 = OpenOrdersAccount::new(key(22), key(20), key(30), NonZeroPubkeyOption::none(), 1);
    deposit(&mut a1, &mut market, 1_000_000_000_000, 1_000_000_000_000).unwrap();
    deposit(&mut a2, &mut market, 1_000_000_000_000, 1_000_000_000_000).unwrap();
    Env { market, book: Orderbook::new(64), queue: EventQueue::new(64, filler()), accounts: vec![a1, a2] }
}

/// `n / 1000` native, rounded up to the fixed-point grid.
fn price_milli(n: i64) -> Decimal {
    Decimal { bits: (n as i128 * FRAC_SCALE + 999) / 1000 }
}

fn pegged(side: Side, price_offset_lots: i64, peg_limit: i64, max_base_lots: i64, max_quote: i64, client_order_id: u64) -> PlaceOrderArgs {
    PlaceOrderArgs {
        side,
        price: OrderPrice::Pegged { price_offset_lots, peg_limit },
        max_base_lots,
        max_quote_lots_including_fees: max_quote,
        client_order_id,
        order_type: PlaceOrderType::Limit,
        expiry_timestamp: 0,
        self_trade_behavior: SelfTradeBehavior::DecrementTake,
        limit: 10,
    }
}

fn fixed(side: Side, price_lots: i64, max_base_lots: i64, max_quote: i64, client_order_id: u64) -> PlaceOrderArgs {
    PlaceOrderArgs {
        side,
        price: OrderPrice::Fixed { price_lots },
        max_base_lots,
        max_quote_lots_including_fees: max_quote,
        client_order_id,
        order_type: PlaceOrderType::Limit,
        expiry_timestamp: 0,
        self_trade_behavior: SelfTradeBehavior::DecrementTake,
        limit: 10,
    }
}

fn place(e: &mut Env, who: usize, args: PlaceOrderArgs, oracle: Option<Decimal>) -> Result<openbook_v2::engine::PlaceOrderOutcome, OpenBookError> {
    place_order(&mut e.market, &mut e.book, &mut e.queue, &mut e.accounts[who], &args, oracle, 1)
}

fn assert_no_orders(account: &OpenOrdersAccount) {
    for oo in account.open_orders.iter() {
        assert!(oo.id == 0);
        assert!(oo.side_and_tree == SideAndOrderTree::BidFixed);
        assert!(oo.client_id == 0);
    }
}

#[test]
fn test_oracle_peg_enabled() {
    let mut e = env(10, 100, 0, 0, false);
    assert!(place(&mut e, 0, pegged(Side::Bid, -1, 1, 1, 100_000, 0), None).is_err());
    assert_eq!(place(&mut e, 0, pegged(Side::Bid, -1, 1, 1, 100_000, 0), None), Err(OpenBookError::DisabledOraclePeg));
}

#[test]
fn test_oracle_peg() {
    let market_base_lot_size = 10000;
    let market_quote_lot_size = 10;
    let mut e = env(market_quote_lot_size, market_base_lot_size, 0, 0, true);
    let one = Some(Decimal::one());

    let price_lots = e.market.native_price_to_lot(Decimal::one()).unwrap();
    assert_eq!(price_lots, market_base_lot_size / market_quote_lot_size);

    // posting orders outside their peg limit is skipped
    let out = place(&mut e, 0, pegged(Side::Bid, -1, 1, 1, 100_000, 0), one).unwrap();
    assert_eq!(out.order_id, None);
    assert_eq!(e.book.bids.leaf_count(OrderTreeType::OraclePegged), 0);

    // but not inside it
    let out = place(&mut e, 0, pegged(Side::Bid, -1, 1000, 1, 100_000, 0), one).unwrap();
    assert_eq!(e.book.bids.leaf_count(OrderTreeType::OraclePegged), 1);
    assert_eq!(e.book.bids.leaf_count(OrderTreeType::Fixed), 0);
    let order = e.accounts[0].open_orders[0];
    assert_eq!(order.side_and_tree, SideAndOrderTree::BidOraclePegged);
    assert_eq!(Some(order.id), out.order_id);

    cancel_order(&mut e.book, &mut e.accounts[0], order.id).unwrap();
    assert_no_orders(&e.accounts[0]);

    // a pegged bid taken by a fixed and a pegged ask, then events consumed
    let balance_before = e.accounts[0].position.quote_free_native;
    let max_quote_lots_including_fees = 100_000;
    place(&mut e, 0, pegged(Side::Bid, 0, price_lots, 2, max_quote_lots_including_fees, 5), one).unwrap();
    let balance_after = e.accounts[0].position.quote_free_native;
    assert!(balance_before - (max_quote_lots_including_fees as u64) * (market_quote_lot_size as u64) <= balance_after);

    let out = place(&mut e, 1, fixed(Side::Ask, price_lots, 1, 100_000, 6), one).unwrap();
    assert_eq!(out.base_matched_lots, 1);
    let out = place(&mut e, 1, pegged(Side::Ask, 0, price_lots, 1, 100_000, 7), one).unwrap();
    assert_eq!(out.base_matched_lots, 1);
    assert_eq!(consume_events(&mut e.queue, &mut e.accounts, 10), Ok(2));
    assert_no_orders(&e.accounts[0]);

    // an ask at the oracle price does not match a bid pegged one lot below it
    place(&mut e, 0, pegged(Side::Bid, -1, 2000, 2, 100_000, 5), one).unwrap();
    let out = place(&mut e, 1, fixed(Side::Ask, price_lots, 1, 100_000, 60), one).unwrap();
    assert_eq!(out.base_matched_lots, 0);
    cancel_order_by_client_order_id(&mut e.book, &mut e.accounts[1], 60).unwrap();

    // once the oracle moves up, the same ask matches
    let moved = Some(price_milli(1002));
    assert_eq!(e.market.native_price_to_lot(price_milli(1002)), Ok(1002));
    let out = place(&mut e, 1, fixed(Side::Ask, price_lots, 2, 100_000, 61), moved).unwrap();
    assert_eq!(out.base_matched_lots, 2);
    assert_eq!(out.quote_matched_lots, 2 * 1001);
    assert_eq!(consume_events(&mut e.queue, &mut e.accounts, 10), Ok(1));
    assert_no_orders(&e.accounts[0]);

    // a pegged bid still matches exactly at its peg limit
    place(&mut e, 0, pegged(Side::Bid, -1, price_lots + 2, 2, 100_000, 5), one).unwrap();
    let out = place(&mut e, 1, fixed(Side::Ask, price_lots + 2, 1, 100_000, 62), Some(price_milli(1003))).unwrap();
    assert_eq!(out.base_matched_lots, 1);
    assert!(cancel_order_by_client_order_id(&mut e.book, &mut e.accounts[1], 62).is_err());

    // but not once its price passes the limit
    let out = place(&mut e, 1, fixed(Side::Ask, price_lots + 3, 1, 100_000, 63), Some(price_milli(1004))).unwrap();
    assert_eq!(out.base_matched_lots, 0);
    cancel_order_by_client_order_id(&mut e.book, &mut e.accounts[1], 63).unwrap();
    assert_eq!(consume_events(&mut e.queue, &mut e.accounts, 10), Ok(1));
    // the bid rests with the lot left, matchable again when the oracle returns
    assert_eq!(e.book.bids.orders.len(), 1);
    assert_eq!(e.book.bids.orders[0].quantity, 1);
}

#[test]
fn test_oracle_peg_limit() {
    let market_base_lot_size = 10000;
    let market_quote_lot_size = 10;
    let mut e = env(market_quote_lot_size, market_base_lot_size, 0, 0, true);
    let one = Some(Decimal::one());
    let price_lots = e.market.native_price_to_lot(Decimal::one()).unwrap();
    assert_eq!(price_lots, market_base_lot_size / market_quote_lot_size);

    let balance_before = e.accounts[0].position.quote_free_native;

    // the budget cannot reserve one lot at the peg limit: nothing rests
    place(&mut e, 0, pegged(Side::Bid, -100, price_lots + 100_000, 2, 100_000, 5), one).unwrap();
    assert_no_orders(&e.accounts[0]);

    let max_quote_lots_including_fees = 101_000;
    place(&mut e, 0, pegged(Side::Bid, -100, price_lots + 100_000, 2, max_quote_lots_including_fees, 5), one).unwrap();
    assert_eq!(e.book.bids.leaf_count(OrderTreeType::OraclePegged), 1);

    let balance_after = e.accounts[0].position.quote_free_native;
    assert_eq!(
        balance_before - ((max_quote_lots_including_fees as u64) * (market_quote_lot_size as u64)),
        balance_after
    );
}

#[test]
fn test_locked_amounts() {
    let quote_lot_size = 10;
    let base_lot_size = 100;
    let maker_fee = 200;
    let taker_fee = 400;
    let mut e = env(quote_lot_size, base_lot_size, maker_fee, taker_fee, true);
    let one = Some(Decimal::one());

    let place_bid_0 = pegged(Side::Bid, 0, 30, 1_000, 100_000_000, 0);
    let place_ask_1 = pegged(Side::Ask, 0, 10, 1_000, 100_000_000, 0);

    let init_0 = e.accounts[0].position;
    let init_1 = e.accounts[1].position;

    // cancel a bid
    {
        place(&mut e, 0, place_bid_0, one).unwrap();
        let p = e.accounts[0].position;
        assert_eq!((p.base_free_native, p.quote_free_native + 300_000 + 60), (init_0.base_free_native, init_0.quote_free_native));
        assert_eq!(p.quote_locked_native, 300_060);
        let id = e.accounts[0].open_orders[0].id;
        cancel_order(&mut e.book, &mut e.accounts[0], id).unwrap();
        assert_eq!(e.accounts[0].position, init_0);
    }

    // cancel an ask
    {
        place(&mut e, 1, place_ask_1, one).unwrap();
        let p = e.accounts[1].position;
        assert_eq!((p.base_free_native + 100_000, p.quote_free_native), (init_1.base_free_native, init_1.quote_free_native));
        let id = e.accounts[1].open_orders[0].id;
        cancel_order(&mut e.book, &mut e.accounts[1], id).unwrap();
        assert_eq!(e.accounts[1].position, init_1);
    }

    // place and take a bid
    {
        place(&mut e, 0, place_bid_0, one).unwrap();
        let out = place(&mut e, 1, place_ask_1, one).unwrap();
        assert_eq!(out.base_matched_lots, 1_000);
        assert_eq!(out.taker_fee_native, 40);
        assert_eq!(consume_events(&mut e.queue, &mut e.accounts, 10), Ok(1));

        let p0 = e.accounts[0].position;
        let p1 = e.accounts[1].position;
        // the maker paid 100_000 and a 20 maker fee out of 300_060 reserved
        assert_eq!(p0.quote_free_native, init_0.quote_free_native - 100_000 - 20);
        assert_eq!(p0.base_free_native, init_0.base_free_native + 100_000);
        assert_eq!(p0.quote_locked_native, 0);
        assert_eq!(p1.quote_free_native, init_1.quote_free_native + 100_000 - 40);
        assert_eq!(p1.base_free_native, init_1.base_free_native - 100_000);
        assert_no_orders(&e.accounts[0]);
        assert_no_orders(&e.accounts[1]);
        assert_eq!(e.market.fees_accrued, 60);
    }

    let before = e.market.quote_deposit_total;
    let settled = settle_funds(&mut e.accounts[1], &mut e.market).unwrap();
    assert_eq!(settled.quote_native, init_1.quote_free_native + 100_000 - 40);
    assert_eq!(e.accounts[1].position.quote_free_native, 0);
    assert_eq!(e.market.quote_deposit_total, before - settled.quote_native);
}
