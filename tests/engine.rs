use openbook_v2::account::{OpenOrdersAccount, SideAndOrderTree};
use openbook_v2::book::{OrderPrice, Side};
use openbook_v2::decimal::{Decimal, FRAC_SCALE};
use openbook_v2::engine::{
    cancel_order, cancel_order_by_client_order_id, consume_events, create_market, deposit, place_order, settle_funds,
    MarketAccounts, Orderbook, PlaceOrderArgs,
};
use openbook_v2::error::OpenBookError;
use openbook_v2::events::{AnyEvent, EventQueue, OutEvent};
use openbook_v2::market::Market;
use openbook_v2::matching::{PlaceOrderType, SelfTradeBehavior};
use openbook_v2::oracle::OracleConfig;
use openbook_v2::pubkey::{NonZeroPubkeyOption, Pubkey};
use openbook_v2::engine::{quote, PlaceOrderOutcome, SwapQuote};
use openbook_v2::book::{order_price_now, BookSide, LeafNode};

fn key(n: u8) -> Pubkey {
    Pubkey::new_from_array([n; 32])
}

struct Env {
    market: Market,
    book: Orderbook,
    queue: EventQueue,
    accounts: Vec<OpenOrdersAccount>,
}

fn filler() -> AnyEvent {
    AnyEvent::Out(OutEvent {
        side: Side::Bid,
        owner_slot: 0,
        timestamp: 0,
        owner: Pubkey::zeroed(),
        order_id: 0,
        quantity: 0,
        lock_released: 0,
    })
}

fn env(quote_lot_size: i64, base_lot_size: i64, maker_fee: i64, taker_fee: i64, with_oracle: bool) -> Env {
    let accounts = MarketAccounts {
        market_authority: key(1),
        collect_fee_admin: key(2),
        open_orders_admin: None,
        consume_events_admin: None,
        close_market_admin: None,
        bids: key(4),
        asks: key(5),
        event_heap: key(6),
        oracle_a: if with_oracle { Some(key(7)) } else { None },
        oracle_b: None,
        base_mint: key(9),
        quote_mint: key(10),
        market_base_vault: key(11),
        market_quote_vault: key(12),
    };
    let config = OracleConfig { conf_filter: Decimal { bits: FRAC_SCALE / 10 }, max_staleness_slots: -1 };
    let mut market = create_market(&accounts, 0, 6, 6, &b"TEST".to_vec(), config, quote_lot_size, base_lot_size, maker_fee, taker_fee, 0, 0).unwrap();
    let mut a1 = OpenOrdersAccount::new(key(21), key(20), key(30), NonZeroPubkeyOption::none(), 0);
    let mut a2 = OpenOrdersAccount::new(key(22), key(20), key(30), NonZeroPubkeyOption::none(), 1);
    deposit(&mut a1, &mut market, 1_000_000_000_000, 1_000_000_000_000).unwrap();
    deposit(&mut a2, &mut market, 1_000_000_000_000, 1_000_000_000_000).unwrap();
    Env { market, book: Orderbook::new(64), queue: EventQueue::new(64, filler()), accounts: vec![a1, a2] }
}

/// `n / 1000` native, rounded up to the fixed-point grid.
fn price_milli(n: i64) -> Decimal {
    Decimal { bits: (n as i128 * FRAC_SCALE + 999) / 1000 }
}

fn pegged(side: Side, price_offset_lots: i64, peg_limit: i64, max_base_lots: i64, max_quote: i64, client_order_id: u64) -> PlaceOrderArgs {
    PlaceOrderArgs {
        side,
        price: OrderPrice::Pegged { price_offset_lots, peg_limit },
        max_base_lots,
        max_quote_lots_including_fees: max_quote,
        client_order_id,
        order_type: PlaceOrderType::Limit,
        expiry_timestamp: 0,
        self_trade_behavior: SelfTradeBehavior::DecrementTake,
        limit: 10,
    }
}

fn fixed(side: Side, price_lots: i64, max_base_lots: i64, max_quote: i64, client_order_id: u64) -> PlaceOrderArgs {
    PlaceOrderArgs {
        side,
        price: OrderPrice::Fixed { price_lots },
        max_base_lots,
        max_quote_lots_including_fees: max_quote,
        client_order_id,
        order_type: PlaceOrderType::Limit,
        expiry_timestamp: 0,
        self_trade_behavior: SelfTradeBehavior::DecrementTake,
        limit: 10,
    }
}

fn place(e: &mut Env, who: usize, args: PlaceOrderArgs, oracle: Option<Decimal>) -> Result<PlaceOrderOutcome, OpenBookError> {
    place_order(&mut e.market, &mut e.book, &mut e.queue, &mut e.accounts[who], &args, oracle, 1)
}

fn assert_no_orders(account: &OpenOrdersAccount) {
    for oo in account.open_orders.iter() {
        assert!(oo.id == 0);
        assert!(oo.side_and_tree == SideAndOrderTree::BidFixed);
        assert!(oo.client_id == 0);
    }
}


fn fill_at(e: &AnyEvent) -> (i64, i64, u64) {
    match e {
        AnyEvent::Fill(f) => (f.price, f.quantity, f.maker_seq_num),
        AnyEvent::Out(_) => panic!("expected a fill"),
    }
}

fn events_of(q: &EventQueue) -> Vec<AnyEvent> {
    let mut out = Vec::new();
    for i in 0..q.count {
        out.push(q.buf[(q.head + i) % q.buf.len()]);
    }
    out
}

#[test]
fn fills_follow_price_then_time_priority() {
    let mut e = env(1, 1, 0, 0, true);
    // asks: 12 first, then 10, then 11, then another 10
    place(&mut e, 1, fixed(Side::Ask, 12, 1, 1_000, 1), None).unwrap();
    place(&mut e, 1, fixed(Side::Ask, 10, 1, 1_000, 2), None).unwrap();
    place(&mut e, 1, fixed(Side::Ask, 11, 1, 1_000, 3), None).unwrap();
    place(&mut e, 1, fixed(Side::Ask, 10, 1, 1_000, 4), None).unwrap();
    let out = place(&mut e, 0, fixed(Side::Bid, 11, 10, 1_000, 5), None).unwrap();
    assert_eq!(out.base_matched_lots, 3);
    assert_eq!(out.quote_matched_lots, 10 + 10 + 11);
    let evs = events_of(&e.queue);
    assert_eq!(evs.len(), 3);
    assert_eq!(fill_at(&evs[0]), (10, 1, 2));
    assert_eq!(fill_at(&evs[1]), (10, 1, 4));
    assert_eq!(fill_at(&evs[2]), (11, 1, 3));
    // the ask at 12 stays; the rest of the bid rests at 11
    assert_eq!(e.book.asks.orders.len(), 1);
    assert_eq!(out.posted_base_lots, 7);
    assert_eq!(e.book.bids.orders[0].quantity, 7);
}

#[test]
fn quote_budget_bounds_the_match() {
    let mut e = env(1, 1, 0, 0, true);
    place(&mut e, 1, fixed(Side::Ask, 7, 100, 1_000, 1), None).unwrap();
    let mut ioc = fixed(Side::Bid, 7, 100, 50, 2);
    ioc.order_type = PlaceOrderType::ImmediateOrCancel;
    let out = place(&mut e, 0, ioc, None).unwrap();
    // 50 quote lots buy 7 lots at 7
    assert_eq!(out.base_matched_lots, 7);
    assert_eq!(out.quote_matched_lots, 49);
    assert!(out.base_matched_lots * 7 <= 50);
    assert_eq!(out.order_id, None);
    assert_eq!(e.book.asks.orders[0].quantity, 93);
}

#[test]
fn taker_fee_is_charged_on_top_of_a_bid() {
    let mut e = env(10, 100, -200, 400, true);
    place(&mut e, 1, fixed(Side::Ask, 5, 1_000, 1_000_000, 1), None).unwrap();
    let before = e.accounts[0].position;
    let mut ioc = fixed(Side::Bid, 5, 1_000, 1_000_000, 2);
    ioc.order_type = PlaceOrderType::ImmediateOrCancel;
    let out = place(&mut e, 0, ioc, None).unwrap();
    assert_eq!(out.quote_matched_lots, 5_000);
    // 50_000 native quote; fee 400 ppm = 20; rebate 200 ppm = 10
    assert_eq!(out.taker_fee_native, 20);
    assert_eq!(out.maker_rebates_native, 10);
    assert_eq!(e.accounts[0].position.quote_free_native, before.quote_free_native - 50_000 - 20);
    assert_eq!(e.accounts[0].position.base_free_native, before.base_free_native + 100_000);
    assert_eq!(e.market.fees_accrued, 10);
    let maker_before = e.accounts[1].position;
    assert_eq!(consume_events(&mut e.queue, &mut e.accounts, 5), Ok(1));
    assert_eq!(e.accounts[1].position.quote_free_native, maker_before.quote_free_native + 50_000 + 10);
    assert_eq!(e.accounts[1].position.base_locked_native, 0);
}

#[test]
fn self_trade_behaviours() {
    let mut e = env(1, 1, 0, 0, true);
    place(&mut e, 0, fixed(Side::Ask, 10, 5, 1_000, 1), None).unwrap();
    let mut abort = fixed(Side::Bid, 10, 5, 1_000, 2);
    abort.self_trade_behavior = SelfTradeBehavior::AbortTransaction;
    let book_before = e.book.asks.orders.len();
    assert_eq!(place(&mut e, 0, abort, None), Err(OpenBookError::WouldSelfTrade));
    assert_eq!(e.book.asks.orders.len(), book_before);
    assert_eq!(e.queue.count, 0);

    let mut cancel = fixed(Side::Bid, 10, 5, 1_000, 3);
    cancel.self_trade_behavior = SelfTradeBehavior::CancelProvide;
    let out = place(&mut e, 0, cancel, None).unwrap();
    assert_eq!(out.base_matched_lots, 0);
    assert_eq!(e.book.asks.orders.len(), 0);
    assert!(matches!(events_of(&e.queue)[0], AnyEvent::Out(_)));
    // the bid rests once the own ask is gone
    assert_eq!(out.posted_base_lots, 5);
    let locked = e.accounts[0].position.base_locked_native;
    assert_eq!(consume_events(&mut e.queue, &mut e.accounts, 5), Ok(1));
    assert_eq!(e.accounts[0].position.base_locked_native, locked - 5);
}

#[test]
fn post_only_never_takes() {
    let mut e = env(1, 1, 0, 0, true);
    place(&mut e, 1, fixed(Side::Ask, 10, 5, 1_000, 1), None).unwrap();
    let mut post = fixed(Side::Bid, 10, 5, 1_000, 2);
    post.order_type = PlaceOrderType::PostOnly;
    let out = place(&mut e, 0, post, None).unwrap();
    assert_eq!(out.order_id, None);
    assert_eq!(e.book.bids.orders.len(), 0);
    post.price = OrderPrice::Fixed { price_lots: 9 };
    let out = place(&mut e, 0, post, None).unwrap();
    assert_eq!(out.posted_base_lots, 5);
    assert_eq!(e.book.bids.orders.len(), 1);
}

#[test]
fn market_order_ignores_price_and_never_rests() {
    let mut e = env(1, 1, 0, 0, true);
    place(&mut e, 1, fixed(Side::Ask, 50, 2, 1_000, 1), None).unwrap();
    let mut mkt = fixed(Side::Bid, 1, 5, 1_000, 2);
    mkt.order_type = PlaceOrderType::Market;
    let out = place(&mut e, 0, mkt, None).unwrap();
    assert_eq!(out.base_matched_lots, 2);
    assert_eq!(out.posted_base_lots, 0);
    assert_eq!(e.book.bids.orders.len(), 0);
}

#[test]
fn match_limit_caps_fills() {
    let mut e = env(1, 1, 0, 0, true);
    for i in 0..4 {
        place(&mut e, 1, fixed(Side::Ask, 10, 1, 1_000, i), None).unwrap();
    }
    let mut bid = fixed(Side::Bid, 10, 4, 1_000, 9);
    bid.limit = 2;
    bid.order_type = PlaceOrderType::ImmediateOrCancel;
    let out = place(&mut e, 0, bid, None).unwrap();
    assert_eq!(out.base_matched_lots, 2);
    assert_eq!(e.book.asks.orders.len(), 2);
}

#[test]
fn placement_errors_change_nothing() {
    let mut e = env(1, 1, 0, 0, true);
    assert_eq!(place(&mut e, 0, fixed(Side::Bid, 0, 1, 10, 1), None), Err(OpenBookError::InvalidInput));
    assert_eq!(place(&mut e, 0, fixed(Side::Bid, 10, 0, 10, 1), None), Err(OpenBookError::InvalidInput));
    assert_eq!(place(&mut e, 0, fixed(Side::Bid, 10, 1, 0, 1), None), Err(OpenBookError::InvalidInput));
    let p = e.accounts[0].position;
    assert_eq!(
        place(&mut e, 0, fixed(Side::Bid, 10, 1, 2_000_000_000_000, 1), None),
        Err(OpenBookError::InsufficientFunds)
    );
    assert_eq!(
        place(&mut e, 0, fixed(Side::Ask, 10, 2_000_000_000_000, 10, 1), None),
        Err(OpenBookError::InsufficientFunds)
    );
    assert_eq!(e.accounts[0].position, p);
    e.market.time_expiry = 1;
    assert_eq!(place_order(&mut e.market, &mut e.book, &mut e.queue, &mut e.accounts[0], &fixed(Side::Bid, 10, 1, 10, 1), None, 2), Err(OpenBookError::MarketExpired));
    assert_eq!(place(&mut e, 0, fixed(Side::Bid, 10, 1, 10, 1), Some(Decimal::max_value())), Err(OpenBookError::InvalidOraclePrice));
}

#[test]
fn full_book_and_full_slots() {
    let mut e = env(1, 1, 0, 0, true);
    e.book = Orderbook::new(2);
    place(&mut e, 0, fixed(Side::Bid, 1, 1, 10, 1), None).unwrap();
    place(&mut e, 0, fixed(Side::Bid, 2, 1, 10, 2), None).unwrap();
    assert_eq!(place(&mut e, 0, fixed(Side::Bid, 3, 1, 10, 3), None), Err(OpenBookError::BookFull));
    assert_eq!(e.book.bids.orders.len(), 2);

    let mut e = env(1, 1, 0, 0, true);
    for i in 0..24 {
        place(&mut e, 0, fixed(Side::Bid, 1, 1, 10, i), None).unwrap();
    }
    assert_eq!(place(&mut e, 0, fixed(Side::Bid, 1, 1, 10, 99), None), Err(OpenBookError::OpenOrdersFull));
}

#[test]
fn full_event_queue_refuses_pushes() {
    let mut q = EventQueue::new(2, filler());
    let ev = |n: u128| AnyEvent::Out(OutEvent {
        side: Side::Ask,
        owner_slot: 1,
        timestamp: 5,
        owner: key(3),
        order_id: n,
        quantity: 1,
        lock_released: 0,
    });
    assert_eq!(q.push_back(ev(1)), Ok(()));
    assert_eq!(q.push_back(ev(2)), Ok(()));
    assert!(q.is_full());
    let (head, count, seq) = (q.head, q.count, q.seq_num);
    assert_eq!(q.push_back(ev(3)), Err(OpenBookError::EventQueueFull));
    assert_eq!((q.head, q.count, q.seq_num), (head, count, seq));
    let order_ids: Vec<u128> = events_of(&q)
        .iter()
        .map(|e| match e {
            AnyEvent::Out(o) => o.order_id,
            AnyEvent::Fill(_) => 0,
        })
        .collect();
    assert_eq!(order_ids, vec![1, 2]);
    // after one pop the ring wraps around
    q.pop_front();
    assert_eq!(q.push_back(ev(4)), Ok(()));
    assert_eq!(q.free_slots(), 0);
    assert!(matches!(q.front(), Some(AnyEvent::Out(o)) if o.order_id == 2));
}

#[test]
fn event_count_overflow_is_refused() {
    let mut q = EventQueue::new(2, filler());
    q.seq_num = u64::MAX;
    assert_eq!(q.push_back(filler()), Err(OpenBookError::Overflow));
    assert_eq!((q.head, q.count, q.seq_num), (0, 0, u64::MAX));
}

#[test]
fn full_event_queue_throttles_matching() {
    let mut e = env(1, 1, 0, 0, true);
    e.queue = EventQueue::new(1, filler());
    place(&mut e, 1, fixed(Side::Ask, 10, 1, 1_000, 1), None).unwrap();
    place(&mut e, 1, fixed(Side::Ask, 10, 1, 1_000, 2), None).unwrap();
    let mut bid = fixed(Side::Bid, 10, 2, 1_000, 3);
    bid.order_type = PlaceOrderType::ImmediateOrCancel;
    let out = place(&mut e, 0, bid, None).unwrap();
    assert_eq!(out.base_matched_lots, 1);
    let (head, seq) = (e.queue.head, e.queue.seq_num);
    assert_eq!(seq, 1);
    let out = place(&mut e, 0, bid, None).unwrap();
    assert_eq!(out.base_matched_lots, 0);
    assert_eq!((e.queue.head, e.queue.seq_num, e.queue.count), (head, seq, 1));
    assert_eq!(consume_events(&mut e.queue, &mut e.accounts, 1), Ok(1));
    let out = place(&mut e, 0, bid, None).unwrap();
    assert_eq!(out.base_matched_lots, 1);
}

#[test]
fn consume_stops_at_a_missing_account() {
    let mut e = env(1, 1, 0, 0, true);
    place(&mut e, 1, fixed(Side::Ask, 10, 1, 1_000, 1), None).unwrap();
    let mut bid = fixed(Side::Bid, 10, 1, 1_000, 2);
    bid.order_type = PlaceOrderType::ImmediateOrCancel;
    place(&mut e, 0, bid, None).unwrap();
    let maker = e.accounts.pop().unwrap();
    assert_eq!(consume_events(&mut e.queue, &mut e.accounts, 5), Ok(0));
    assert_eq!(e.queue.count, 1);
    e.accounts.push(maker);
    assert_eq!(consume_events(&mut e.queue, &mut e.accounts, 5), Ok(1));
    assert_eq!(e.queue.count, 0);
    assert_eq!(e.accounts[1].position.asks_base_lots, 0);
}

#[test]
fn place_then_cancel_restores_balances() {
    let mut e = env(10, 100, 300, 500, true);
    let before = e.accounts[0].position;
    let out = place(&mut e, 0, fixed(Side::Bid, 33, 7, 1_000, 1), None).unwrap();
    assert_eq!(out.locked_native, 7 * 33 * 10 + (7 * 33 * 10 * 300) / 1_000_000);
    assert_ne!(e.accounts[0].position, before);
    cancel_order(&mut e.book, &mut e.accounts[0], out.order_id.unwrap()).unwrap();
    assert_eq!(e.accounts[0].position, before);
    assert_eq!(cancel_order(&mut e.book, &mut e.accounts[0], out.order_id.unwrap()).unwrap_err(), OpenBookError::OrderNotFound);

    let out = place(&mut e, 0, fixed(Side::Ask, 33, 7, 1_000, 1), None).unwrap();
    assert_eq!(out.locked_native, 700);
    cancel_order_by_client_order_id(&mut e.book, &mut e.accounts[0], 1).unwrap();
    assert_eq!(e.accounts[0].position, before);
}

#[test]
fn settle_moves_free_balances_out() {
    let mut e = env(1, 1, 0, 0, true);
    let p = e.accounts[0].position;
    let s = settle_funds(&mut e.accounts[0], &mut e.market).unwrap();
    assert_eq!((s.base_native, s.quote_native), (p.base_free_native, p.quote_free_native));
    assert_eq!(e.accounts[0].position.base_free_native, 0);
    let s = settle_funds(&mut e.accounts[0], &mut e.market).unwrap();
    assert_eq!((s.base_native, s.quote_native), (0, 0));
    e.accounts[1].position.base_free_native = u64::MAX;
    assert_eq!(settle_funds(&mut e.accounts[1], &mut e.market).unwrap_err(), OpenBookError::InsufficientFunds);
    assert_eq!(deposit(&mut e.accounts[1], &mut e.market, 1, 0), Err(OpenBookError::Overflow));
}

#[test]
fn quote_simulates_without_changes() {
    let mut e = env(10, 100, 0, 400, true);
    place(&mut e, 1, fixed(Side::Ask, 5, 10, 1_000, 1), None).unwrap();
    place(&mut e, 1, fixed(Side::Ask, 6, 10, 1_000, 2), None).unwrap();
    let asks_before = e.book.asks.orders.clone();
    // 1_000 native quote is 100 lots, 99 net of the fee: 10 lots at 5, then 8 lots at 6;
    // 980 native plus a fee of 400 ppm rounded up
    let q = quote(&e.market, &e.book, Side::Bid, 1_000, None, 1, 8).unwrap();
    assert_eq!(q, SwapQuote { in_amount: 980 + 1, out_amount: 18 * 100, fee_amount: 1 });
    assert_eq!(e.book.asks.orders.len(), asks_before.len());
    let q = quote(&e.market, &e.book, Side::Ask, 250, None, 1, 8).unwrap();
    assert_eq!(q, SwapQuote { in_amount: 0, out_amount: 0, fee_amount: 0 });
}

#[test]
fn pegged_price_follows_the_oracle() {
    let peg = OrderPrice::Pegged { price_offset_lots: -5, peg_limit: 100 };
    assert_eq!(order_price_now(Side::Bid, peg, Some(50)), Some(45));
    assert_eq!(order_price_now(Side::Bid, peg, Some(105)), Some(100));
    assert_eq!(order_price_now(Side::Bid, peg, Some(106)), None);
    assert_eq!(order_price_now(Side::Bid, peg, Some(5)), None);
    assert_eq!(order_price_now(Side::Bid, peg, None), None);
    let ask = OrderPrice::Pegged { price_offset_lots: 5, peg_limit: 100 };
    assert_eq!(order_price_now(Side::Ask, ask, Some(94)), None);
    assert_eq!(order_price_now(Side::Ask, ask, Some(95)), Some(100));
    assert_eq!(order_price_now(Side::Ask, OrderPrice::Fixed { price_lots: 3 }, Some(95)), Some(3));
}

#[test]
fn best_order_skips_expired_and_out_of_limit() {
    let leaf = |seq: u64, price: OrderPrice, expiry: u64| LeafNode {
        key: seq as u128,
        seq_num: seq,
        owner: key(1),
        owner_slot: 0,
        quantity: 1,
        client_order_id: 0,
        timestamp: 0,
        expiry_timestamp: expiry,
        price,
        locked_native: 0,
    };
    let mut side = BookSide::new(Side::Bid, 8);
    side.insert_leaf(leaf(1, OrderPrice::Fixed { price_lots: 10 }, 0)).unwrap();
    side.insert_leaf(leaf(2, OrderPrice::Fixed { price_lots: 12 }, 5)).unwrap();
    side.insert_leaf(leaf(3, OrderPrice::Pegged { price_offset_lots: 1, peg_limit: 11 }, 0)).unwrap();
    side.insert_leaf(leaf(4, OrderPrice::Fixed { price_lots: 11 }, 0)).unwrap();
    // before expiry the bid at 12 leads
    assert_eq!(side.best_valid(4, Some(10)), Some(1));
    // after it, the pegged bid at 11 leads the fixed bid at 11 by time
    assert_eq!(side.best_valid(5, Some(10)), Some(2));
    // with the oracle at 11 the pegged bid passes its limit
    assert_eq!(side.best_valid(5, Some(11)), Some(3));
    assert_eq!(side.find_by_key(4), Some(3));
    assert_eq!(side.remove_by_key(4).map(|l| l.seq_num), Some(4));
    assert_eq!(side.find_by_key(4), None);
}
