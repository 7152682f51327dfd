use vstd::prelude::*;

use crate::account::{
    free_slot, position_after_fill, position_after_lock, position_after_out, position_after_release, side_and_tree,
    side_and_tree_spec, slot_side, OpenOrder, OpenOrdersAccount, Position,
};
use crate::book::{
    effective_price, find_best, is_matchable, leaves_wf, lock_price, node_key_spec, opposite, order_price_now,
    precedes_at, tree_of, BookSide, LeafNode, OrderPrice, OrderTreeType, Side,
};
use crate::decimal::Decimal;
use crate::error::OpenBookError;
use crate::events::{AnyEvent, EventQueue, OutEvent};
use crate::market::{fee_ceil, fee_floor, native_price_to_lot_spec, Market, FEES_SCALE_FACTOR};
use crate::matching::{
    all_reserved, crosses, event_ok, fills_base, fills_in_priority, fills_maker_fee, fills_quote, fills_rebate,
    leaf_reserved, lemma_bid_cost_within_budget, maker_fee_rate, match_orders, nothing_skipped, rebate_rate, walk_from,
    walk_params, walk_stopped, MatchResult, WalkState, PlaceOrderType, SelfTradeBehavior, WalkParams,
};
use crate::oracle::OracleConfig;
use crate::pubkey::{NonZeroPubkeyOption, Pubkey};

verus! {

/// Both sides of a market's book.
#[derive(Debug)]
pub struct Orderbook {
    pub bids: BookSide,
    pub asks: BookSide,
}

impl Orderbook {
    pub open spec fn wf(&self) -> bool {
        &&& self.bids.wf()
        &&& self.asks.wf()
        &&& self.bids.side == Side::Bid
        &&& self.asks.side == Side::Ask
    }

    /// Two empty sides that hold up to `capacity` orders each.
    pub fn new(capacity: usize) -> (r: Orderbook)
        ensures
            r.wf(),
            r.bids.capacity == capacity,
            r.asks.capacity == capacity,
            r.bids.orders@.len() == 0,
            r.asks.orders@.len() == 0,
    {
        Orderbook { bids: BookSide::new(Side::Bid, capacity), asks: BookSide::new(Side::Ask, capacity) }
    }
}

/// The address of the account an event must be applied to.
pub open spec fn event_account(e: AnyEvent) -> Seq<u8> {
    match e {
        AnyEvent::Fill(f) => f.maker.bytes@,
        AnyEvent::Out(o) => o.owner.bytes@,
    }
}

/// `r` is the first position in `accounts` of the account with address `key`, or `None`.
pub open spec fn account_lookup(accounts: Seq<OpenOrdersAccount>, key: Seq<u8>, r: Option<usize>) -> bool {
    match r {
        Some(i) => 0 <= i < accounts.len() && accounts[i as int].key.bytes@ == key && forall|j: int|
            0 <= j < i ==> (#[trigger] accounts[j]).key.bytes@ != key,
        None => forall|j: int| 0 <= j < accounts.len() ==> (#[trigger] accounts[j]).key.bytes@ != key,
    }
}

/// `after` is `before` with event `e` applied to the account at position `i`.
pub open spec fn event_applied(before: Seq<OpenOrdersAccount>, after: Seq<OpenOrdersAccount>, e: AnyEvent, i: int) -> bool {
    &&& 0 <= i < before.len()
    &&& after.len() == before.len()
    &&& forall|j: int| 0 <= j < before.len() && j != i ==> after[j] == #[trigger] before[j]
    &&& after[i].key == before[i].key
    &&& after[i].owner == before[i].owner
    &&& match e {
        AnyEvent::Fill(f) => position_after_fill(before[i].position, f) == Some(after[i].position)
            && after[i].open_orders@ == (if f.maker_out && (f.maker_slot as int) < before[i].open_orders@.len() {
            before[i].open_orders@.update(f.maker_slot as int, free_slot())
        } else {
            before[i].open_orders@
        }),
        AnyEvent::Out(o) => position_after_out(before[i].position, o) == Some(after[i].position)
            && after[i].open_orders@ == (if (o.owner_slot as int) < before[i].open_orders@.len() {
            before[i].open_orders@.update(o.owner_slot as int, free_slot())
        } else {
            before[i].open_orders@
        }),
    }
}

/// `states` walks from its first element to its last by applying `events` one by one, each
/// to the first account with the event's address.
pub open spec fn applied_in_order(states: Seq<Seq<OpenOrdersAccount>>, events: Seq<AnyEvent>) -> bool {
    &&& states.len() == events.len() + 1
    &&& forall|k: int| 0 <= k < events.len() ==> #[trigger] step_applied(states[k], states[k + 1], events[k])
}

/// `after` is `before` with `e` applied to the first account with the event's address.
pub open spec fn step_applied(before: Seq<OpenOrdersAccount>, after: Seq<OpenOrdersAccount>, e: AnyEvent) -> bool {
    exists|i: usize| account_lookup(before, event_account(e), Some(i)) && event_applied(before, after, e, i as int)
}

/// The account that `e` names is present, and applying `e` to it would take a balance out of
/// range.
pub open spec fn step_fails(accounts: Seq<OpenOrdersAccount>, e: AnyEvent) -> bool {
    exists|i: usize|
        account_lookup(accounts, event_account(e), Some(i)) && match e {
            AnyEvent::Fill(f) => position_after_fill(accounts[i as int].position, f) is None,
            AnyEvent::Out(o) => position_after_out(accounts[i as int].position, o) is None,
        }
}

pub fn find_account(accounts: &Vec<OpenOrdersAccount>, key: &Pubkey) -> (r: Option<usize>)
    ensures
        account_lookup(accounts@, key.bytes@, r),
{
    let mut i: usize = 0;
    while i < accounts.len()
        invariant
            0 <= i <= accounts@.len(),
            forall|j: int| 0 <= j < i ==> (#[trigger] accounts@[j]).key.bytes@ != key.bytes@,
        decreases accounts@.len() - i,
    {
        if accounts[i].key.same_key(key) {
            return Some(i);
        }
        i = i + 1;
    }
    None
}

/// Applies up to `limit` events from the head of the queue to the accounts they name and
/// removes them. It stops early, leaving the event in place, at an event whose account is
/// not among `accounts`; it fails with `InvariantViolation` at an event that would take a
/// balance out of range, after the events before it were applied. Returns the number
/// applied.
pub fn consume_events(queue: &mut EventQueue, accounts: &mut Vec<OpenOrdersAccount>, limit: usize) -> (r: Result<
    usize,
    OpenBookError,
>)
    requires
        old(queue).wf(),
    ensures
        final(queue).wf(),
        final(queue).capacity() == old(queue).capacity(),
        final(accounts)@.len() == old(accounts)@.len(),
        exists|n: int, states: Seq<Seq<OpenOrdersAccount>>|
            0 <= n <= limit && n <= old(queue)@.len() && final(queue)@ == old(queue)@.skip(n)
                && applied_in_order(states, old(queue)@.take(n)) && states[0] == old(accounts)@
                && states[n] == final(accounts)@ && match r {
                Ok(c) => c == n && (n == limit || n == old(queue)@.len() || account_lookup(
                    final(accounts)@,
                    event_account(old(queue)@[n]),
                    None,
                )),
                Err(e) => e == OpenBookError::InvariantViolation && n < limit && n < old(queue)@.len() && step_fails(
                    final(accounts)@,
                    old(queue)@[n],
                ),
            },
{
    let ghost q0 = queue@;
    let ghost a0 = accounts@;
    let ghost mut states: Seq<Seq<OpenOrdersAccount>> = seq![accounts@];
    let mut n: usize = 0;
    while n < limit
        invariant
            queue.wf(),
            queue.capacity() == old(queue).capacity(),
            0 <= n <= limit,
            n <= q0.len(),
            queue@ == q0.skip(n as int),
            accounts@.len() == a0.len(),
            applied_in_order(states, q0.take(n as int)),
            states[0] == a0,
            states[n as int] == accounts@,
            a0 == old(accounts)@,
            q0 == old(queue)@,
        decreases limit - n,
    {
        let event = match queue.front() {
            Some(e) => e,
            None => {
                proof {
                    assert(n == q0.len());
                }
                return Ok(n);
            },
        };
        let key = match event {
            AnyEvent::Fill(f) => f.maker,
            AnyEvent::Out(o) => o.owner,
        };
        let i = match find_account(accounts, &key) {
            Some(i) => i,
            None => {
                return Ok(n);
            },
        };
        let ghost before = accounts@;
        let mut account = accounts.remove(i);
        let res = match event {
            AnyEvent::Fill(f) => account.apply_fill(&f),
            AnyEvent::Out(o) => account.apply_out(&o),
        };
        accounts.insert(i, account);
        if res.is_err() {
            proof {
                assert(accounts@ =~= before);
                assert(event == q0[n as int]);
                assert(account_lookup(accounts@, event_account(event), Some(i)));
            }
            return Err(OpenBookError::InvariantViolation);
        }
        let ghost after = accounts@;
        proof {
            assert(after =~= before.update(i as int, after[i as int]));
            assert(event == q0[n as int]);
            assert(q0.take(n + 1)[n as int] == q0[n as int]);
            assert(account_lookup(before, event_account(event), Some(i)));
            assert(event_applied(before, after, event, i as int));
        }
        queue.pop_front();
        proof {
            let ghost old_states = states;
            states = states.push(accounts@);
            assert(q0.take(n + 1).drop_last() =~= q0.take(n as int));
            assert(queue@ =~= q0.skip(n + 1));
            assert forall|k: int| 0 <= k < n + 1 implies #[trigger] step_applied(states[k], states[k + 1], q0.take(n + 1)[k]) by {
                if k < n {
                    assert(states[k] == old_states[k]);
                    assert(states[k + 1] == old_states[k + 1]);
                    assert(q0.take(n + 1)[k] == q0.take(n as int)[k]);
                    assert(step_applied(old_states[k], old_states[k + 1], q0.take(n as int)[k]));
                } else {
                    assert(states[k] == before);
                    assert(states[k + 1] == after);
                    assert(account_lookup(states[k], event_account(q0.take(n + 1)[k]), Some(i)));
                    assert(event_applied(states[k], states[k + 1], q0.take(n + 1)[k], i as int));
                }
            }
        }
        n = n + 1;
    }
    Ok(n)
}


/// Removes the order `order_id` from `side_book` and hands its reservation back to
/// `account`, whose slot `slot` refers to it.
fn cancel_on_side(side_book: &mut BookSide, account: &mut OpenOrdersAccount, slot: usize, side: Side, order_id: u128) -> (r:
    Result<LeafNode, OpenBookError>)
    requires
        old(side_book).wf(),
        slot < old(account).open_orders@.len(),
        slot < 256,
    ensures
        final(side_book).wf(),
        final(side_book).side == old(side_book).side,
        final(side_book).capacity == old(side_book).capacity,
        final(account).key == old(account).key,
        final(account).owner == old(account).owner,
        cancel_result(*old(side_book), *final(side_book), *old(account), *final(account), slot, side, order_id, r),
{
    let idx = match side_book.find_by_key(order_id) {
        Some(idx) => idx,
        None => {
            return Err(OpenBookError::OrderNotFound);
        },
    };
    let leaf = side_book.orders[idx];
    if !leaf.owner.same_key(&account.key) {
        return Err(OpenBookError::OrderNotFound);
    }
    let out = OutEvent {
        side,
        owner_slot: slot as u8,
        timestamp: 0,
        owner: account.key,
        order_id,
        quantity: leaf.quantity,
        lock_released: leaf.locked_native,
    };
    match account.apply_out(&out) {
        Ok(()) => {},
        Err(e) => {
            return Err(e);
        },
    }
    let removed = side_book.remove_by_key(order_id);
    proof {
        assert(removed == Some(leaf));
    }
    Ok(leaf)
}

/// What cancelling `order_id` through slot `slot` did: on success the order left the
/// side, its reservation moved back to free and the slot is free; on failure nothing
/// changed.
pub open spec fn cancel_result(
    book0: BookSide,
    book1: BookSide,
    acc0: OpenOrdersAccount,
    acc1: OpenOrdersAccount,
    slot: usize,
    side: Side,
    order_id: u128,
    r: Result<LeafNode, OpenBookError>,
) -> bool {
    match r {
        Ok(leaf) => exists|i: int|
            #![trigger book0.orders@[i]]
            0 <= i < book0.orders@.len() && book0.orders@[i] == leaf && leaf.key == order_id
                && leaf.owner.bytes@ == acc0.key.bytes@ && book1.orders@ == book0.orders@.remove(i)
                && position_after_release(acc0.position, side, leaf.quantity as int, leaf.locked_native as int)
                == Some(acc1.position) && acc1.open_orders@ == acc0.open_orders@.update(slot as int, free_slot()),
        Err(e) => book1 == book0 && acc1 == acc0 && (e == OpenBookError::OrderNotFound || e
            == OpenBookError::InvariantViolation) && (e == OpenBookError::OrderNotFound <==> forall|i: int|
            0 <= i < book0.orders@.len() ==> (#[trigger] book0.orders@[i]).key != order_id
                || book0.orders@[i].owner.bytes@ != acc0.key.bytes@ || exists|j: int| 0 <= j < i && (#[trigger] book0.orders@[j]).key == order_id),
    }
}

/// What `cancel_order` promises for `order_id`: nothing changes when no slot in use refers to
/// it; else the order is cancelled on its slot's side, as `cancel_result` states.
pub open spec fn cancelled(
    b0: Orderbook,
    b1: Orderbook,
    acc0: OpenOrdersAccount,
    acc1: OpenOrdersAccount,
    order_id: u128,
    r: Result<LeafNode, OpenBookError>,
) -> bool {
    match acc0.find_slot_spec(order_id) {
        None => r == Err::<LeafNode, OpenBookError>(OpenBookError::OrderNotFound) && b1 == b0
            && acc1 == acc0,
        Some(slot) => match slot_side(acc0.open_orders@[slot].side_and_tree) {
            Side::Bid => b1.asks == b0.asks && cancel_result(
                b0.bids,
                b1.bids,
                acc0,
                acc1,
                slot as usize,
                Side::Bid,
                order_id,
                r,
            ),
            Side::Ask => b1.bids == b0.bids && cancel_result(
                b0.asks,
                b1.asks,
                acc0,
                acc1,
                slot as usize,
                Side::Ask,
                order_id,
                r,
            ),
        },
    }
}

/// `slot` is the first slot in use of `a` that holds client id `client_order_id`.
pub open spec fn first_client_slot(a: OpenOrdersAccount, client_order_id: u64, slot: int) -> bool {
    &&& 0 <= slot < a.open_orders@.len()
    &&& !a.open_orders@[slot].is_free
    &&& a.open_orders@[slot].client_id == client_order_id
    &&& forall|j: int| 0 <= j < slot ==> (#[trigger] a.open_orders@[j]).is_free || a.open_orders@[j].client_id != client_order_id
}

/// Cancels the account's resting order with id `order_id`: the order leaves the book, its
/// reservation returns to the free balances and its slot is freed. `OrderNotFound` when
/// no slot of the account refers to that id or the book holds no such order of the account.
pub fn cancel_order(book: &mut Orderbook, account: &mut OpenOrdersAccount, order_id: u128) -> (r: Result<
    LeafNode,
    OpenBookError,
>)
    requires
        old(book).wf(),
        old(account).wf(),
    ensures
        final(book).wf(),
        final(account).wf(),
        final(account).key == old(account).key,
        final(account).owner == old(account).owner,
        cancelled(*old(book), *final(book), *old(account), *final(account), order_id, r),
{
    let slot = match account.find_order_with_order_id(order_id) {
        Some(i) => i,
        None => {
            return Err(OpenBookError::OrderNotFound);
        },
    };
    proof {
        assert(old(account).find_slot_spec(order_id) == Some(slot as int));
    }
    let side = account.open_orders[slot].side_and_tree.side();
    match side {
        Side::Bid => cancel_on_side(&mut book.bids, account, slot, side, order_id),
        Side::Ask => cancel_on_side(&mut book.asks, account, slot, side, order_id),
    }
}

/// Cancels the account's resting order with client id `client_order_id`, as `cancel_order`.
pub fn cancel_order_by_client_order_id(book: &mut Orderbook, account: &mut OpenOrdersAccount, client_order_id: u64) -> (r:
    Result<LeafNode, OpenBookError>)
    requires
        old(book).wf(),
        old(account).wf(),
    ensures
        final(book).wf(),
        final(account).wf(),
        final(account).key == old(account).key,
        (forall|j: int|
            0 <= j < old(account).open_orders@.len() ==> (#[trigger] old(account).open_orders@[j]).is_free
                || old(account).open_orders@[j].client_id != client_order_id) ==> r
            == Err::<LeafNode, OpenBookError>(OpenBookError::OrderNotFound) && *final(book) == *old(book)
            && *final(account) == *old(account),
        forall|slot: int|
            first_client_slot(*old(account), client_order_id, slot) ==> cancelled(
                *old(book),
                *final(book),
                *old(account),
                *final(account),
                #[trigger] old(account).open_orders@[slot].id,
                r,
            ),
{
    let slot = match account.find_order_with_client_order_id(client_order_id) {
        Some(i) => i,
        None => {
            return Err(OpenBookError::OrderNotFound);
        },
    };
    let order_id = account.open_orders[slot].id;
    proof {
        assert forall|k: int| first_client_slot(*old(account), client_order_id, k) implies k == slot by {
            if k < slot {
                assert(old(account).open_orders@[k].is_free || old(account).open_orders@[k].client_id != client_order_id);
            }
            if slot < k {
                assert(old(account).open_orders@[slot as int].is_free || old(account).open_orders@[slot as int].client_id != client_order_id);
            }
        }
    }
    cancel_order(book, account, order_id)
}


/// An incoming order.
#[derive(Clone, Copy, Debug)]
pub struct PlaceOrderArgs {
    pub side: Side,
    /// A fixed price, or an offset from the oracle's price with a peg limit.
    pub price: OrderPrice,
    pub max_base_lots: i64,
    /// For a bid, the whole quote budget, taker fee included; for an ask, the most quote
    /// it takes in.
    pub max_quote_lots_including_fees: i64,
    pub client_order_id: u64,
    pub order_type: PlaceOrderType,
    /// 0 for no expiry.
    pub expiry_timestamp: u64,
    pub self_trade_behavior: SelfTradeBehavior,
    /// Most resting orders to walk.
    pub limit: u8,
}

/// What placing an order did.
#[derive(Clone, Copy, Debug, PartialEq, Eq, Structural)]
pub struct PlaceOrderOutcome {
    /// Id of the order left resting, if any.
    pub order_id: Option<u128>,
    pub posted_base_lots: i64,
    pub base_matched_lots: i64,
    pub quote_matched_lots: i64,
    pub taker_fee_native: u64,
    pub maker_rebates_native: u64,
    pub maker_fees_native: u64,
    /// Reservation of the resting order.
    pub locked_native: u64,
}

/// Positive budgets whose native amounts fit an `i64`, and a positive price (peg limit for a
/// pegged order).
pub open spec fn args_valid(m: Market, a: PlaceOrderArgs) -> bool {
    &&& 0 < a.max_base_lots
    &&& a.max_base_lots as int * m.base_lot_size as int <= i64::MAX
    &&& 0 < a.max_quote_lots_including_fees
    &&& a.max_quote_lots_including_fees as int * m.quote_lot_size as int <= i64::MAX
    &&& match a.price {
        OrderPrice::Fixed { price_lots } => price_lots >= 1,
        OrderPrice::Pegged { peg_limit, .. } => peg_limit >= 1,
    }
}

pub open spec fn market_expired_at(m: Market, now_ts: u64) -> bool {
    m.time_expiry != 0 && m.time_expiry < now_ts
}

/// The free balance the order needs up front: a bid's quote budget or an ask's base.
pub open spec fn funds_ok(m: Market, a: PlaceOrderArgs, p: Position) -> bool {
    match a.side {
        Side::Bid => p.quote_free_native >= a.max_quote_lots_including_fees as int * m.quote_lot_size as int,
        Side::Ask => p.base_free_native >= a.max_base_lots as int * m.base_lot_size as int,
    }
}

/// The oracle's price in lots, when an oracle price is given.
pub open spec fn oracle_lots_spec(m: Market, oracle_price: Option<Decimal>) -> Option<i64> {
    match oracle_price {
        Some(p) => match native_price_to_lot_spec(m, p) {
            Ok(l) => Some(l),
            Err(_) => None,
        },
        None => None,
    }
}

/// The failure found before any matching, in the order the checks run.
pub open spec fn precheck(m: Market, a: PlaceOrderArgs, p: Position, oracle_price: Option<Decimal>, now_ts: u64) -> Option<
    OpenBookError,
> {
    if !args_valid(m, a) {
        Some(OpenBookError::InvalidInput)
    } else if market_expired_at(m, now_ts) {
        Some(OpenBookError::MarketExpired)
    } else if a.price is Pegged && oracle_price is None {
        Some(OpenBookError::DisabledOraclePeg)
    } else if oracle_price is Some && native_price_to_lot_spec(m, oracle_price.unwrap()) is Err {
        Some(OpenBookError::InvalidOraclePrice)
    } else if !funds_ok(m, a, p) {
        Some(OpenBookError::InsufficientFunds)
    } else {
        None
    }
}

/// The taker's price limit: none for a market order, the literal price for a fixed order,
/// and the oracle's price plus the offset for a pegged one, which has no limit (and so
/// neither matches nor rests) outside its peg limit.
pub open spec fn taker_limit(a: PlaceOrderArgs, oracle_lots: Option<i64>) -> Option<int> {
    if a.order_type == PlaceOrderType::Market {
        Some(
            match a.side {
                Side::Bid => i64::MAX as int,
                Side::Ask => 1,
            },
        )
    } else {
        effective_price(a.side, a.price, oracle_lots)
    }
}

/// A bid's quote budget net of the taker fee; an ask's quote budget as given.
pub open spec fn quote_budget(m: Market, a: PlaceOrderArgs) -> int {
    match a.side {
        Side::Bid => (a.max_quote_lots_including_fees as int * FEES_SCALE_FACTOR) / (FEES_SCALE_FACTOR + m.taker_fee as int),
        Side::Ask => a.max_quote_lots_including_fees as int,
    }
}

/// Taker's position after matching `base` lots for `quote` lots with fee `fee`, before any
/// reservation.
pub open spec fn position_after_take(p: Position, side: Side, base_native: int, quote_native: int, fee: int) -> Position {
    match side {
        Side::Bid => Position {
            base_free_native: (p.base_free_native + base_native) as u64,
            quote_free_native: (p.quote_free_native - quote_native - fee) as u64,
            ..p
        },
        Side::Ask => Position {
            base_free_native: (p.base_free_native - base_native) as u64,
            quote_free_native: (p.quote_free_native + quote_native - fee) as u64,
            ..p
        },
    }
}

pub open spec fn book_side(b: Orderbook, side: Side) -> BookSide {
    match side {
        Side::Bid => b.bids,
        Side::Ask => b.asks,
    }
}

/// The market's and the taker's running totals can take the largest amounts this order
/// can bring: its base budget, its quote budget, and twice the quote budget in fees.
pub open spec fn ledgers_have_headroom(m: Market, p: Position, a: PlaceOrderArgs) -> bool {
    let base = a.max_base_lots as int * m.base_lot_size as int;
    let quote = a.max_quote_lots_including_fees as int * m.quote_lot_size as int;
    &&& m.seq_num < u64::MAX
    &&& m.fees_accrued + 2 * quote <= u64::MAX
    &&& m.fees_available + 2 * quote <= u64::MAX
    &&& m.maker_volume + quote <= u64::MAX
    &&& p.base_free_native + base <= u64::MAX
    &&& p.quote_free_native + quote <= u64::MAX
    &&& p.base_locked_native + base <= u64::MAX
    &&& p.quote_locked_native + quote <= u64::MAX
    &&& p.bids_base_lots as int + a.max_base_lots as int <= i64::MAX
    &&& p.asks_base_lots as int + a.max_base_lots as int <= i64::MAX
}

fn no_outcome() -> (r: PlaceOrderOutcome)
    ensures
        r.order_id is None,
        r.posted_base_lots == 0,
        r.base_matched_lots == 0,
        r.quote_matched_lots == 0,
        r.taker_fee_native == 0,
        r.maker_rebates_native == 0,
        r.maker_fees_native == 0,
        r.locked_native == 0,
{
    PlaceOrderOutcome {
        order_id: None,
        posted_base_lots: 0,
        base_matched_lots: 0,
        quote_matched_lots: 0,
        taker_fee_native: 0,
        maker_rebates_native: 0,
        maker_fees_native: 0,
        locked_native: 0,
    }
}


/// The base lots that rest after matching: none for an order type that does not rest;
/// for an ask, all base left; for a bid, the base left as far as the quote left pays for
/// it at the reservation price.
pub open spec fn rest_quantity(m: Market, a: PlaceOrderArgs, base_matched: int, quote_matched: int) -> int {
    if a.order_type == PlaceOrderType::Limit || a.order_type == PlaceOrderType::PostOnly {
        match a.side {
            Side::Ask => a.max_base_lots - base_matched,
            Side::Bid => {
                let by_quote = (quote_budget(m, a) - quote_matched) / lock_price(a.price);
                if a.max_base_lots - base_matched < by_quote { a.max_base_lots - base_matched } else { by_quote }
            },
        }
    } else {
        0
    }
}

/// The native amount a resting order of `quantity` lots reserves: for a bid its quote at the
/// reservation price plus the maker fee on it (rounded down), for an ask its base.
pub open spec fn rest_lock(m: Market, a: PlaceOrderArgs, quantity: int) -> int {
    match a.side {
        Side::Bid => {
            let q = quantity * lock_price(a.price) * m.quote_lot_size as int;
            q + fee_floor(q, maker_fee_rate(m))
        },
        Side::Ask => quantity * m.base_lot_size as int,
    }
}

/// The walk of the opposing side an order makes: its side, account and self-trade rule, its
/// price limit `lim`, its base budget and its quote budget net of the taker fee for a bid.
pub open spec fn place_walk(m: Market, a: PlaceOrderArgs, taker: Pubkey, lim: int, now_ts: u64, oracle_lots: Option<i64>) -> WalkParams {
    walk_params(
        a.side,
        taker,
        a.client_order_id,
        a.self_trade_behavior,
        lim as i64,
        a.max_base_lots,
        quote_budget(m, a) as i64,
        now_ts,
        oracle_lots,
    )
}

/// The most events an order may add: none for a post-only order, else its limit, capped at
/// the queue's free room.
pub open spec fn place_max_events(a: PlaceOrderArgs, q: EventQueue) -> int {
    if a.order_type == PlaceOrderType::PostOnly {
        0
    } else if a.limit < q.capacity() - q@.len() {
        a.limit as int
    } else {
        q.capacity() - q@.len()
    }
}

/// Everything a successful placement promises, given its price limit `lim`.
pub open spec fn placed(
    m0: Market,
    m1: Market,
    b0: Orderbook,
    b1: Orderbook,
    q0: EventQueue,
    q1: EventQueue,
    acc0: OpenOrdersAccount,
    acc1: OpenOrdersAccount,
    a: PlaceOrderArgs,
    oracle_lots: Option<i64>,
    now_ts: u64,
    lim: int,
    out: PlaceOrderOutcome,
) -> bool {
    let side = a.side;
    let maker_side = opposite(side);
    let qn = out.quote_matched_lots as int * m0.quote_lot_size as int;
    let bn = out.base_matched_lots as int * m0.base_lot_size as int;
    let own0 = book_side(b0, side);
    let own1 = book_side(b1, side);
    &&& 0 <= out.base_matched_lots <= a.max_base_lots
    &&& 0 <= out.quote_matched_lots <= quote_budget(m0, a)
    &&& exists|evs: Seq<AnyEvent>|
        {
            &&& q1@ == q0@ + evs
            &&& evs.len() <= a.limit
            &&& fills_base(evs) == out.base_matched_lots
            &&& fills_quote(evs) == out.quote_matched_lots
            &&& fills_rebate(evs) == out.maker_rebates_native
            &&& fills_maker_fee(evs) == out.maker_fees_native
            &&& forall|k: int| 0 <= k < evs.len() ==> event_ok(#[trigger] evs[k], side, lim, m0, acc0.key)
            &&& fills_in_priority(evs, maker_side)
            &&& nothing_skipped(evs, book_side(b1, maker_side).orders@, maker_side, now_ts, oracle_lots)
            &&& a.order_type == PlaceOrderType::PostOnly ==> evs.len() == 0
            &&& walk_from(
                m0,
                place_walk(m0, a, acc0.key, lim, now_ts, oracle_lots),
                (book_side(b0, maker_side).orders@, Seq::empty(), 0, 0),
                (book_side(b1, maker_side).orders@, evs, out.base_matched_lots as int, out.quote_matched_lots as int),
            )
            &&& walk_stopped(
                m0,
                place_walk(m0, a, acc0.key, lim, now_ts, oracle_lots),
                place_max_events(a, q0),
                (book_side(b1, maker_side).orders@, evs, out.base_matched_lots as int, out.quote_matched_lots as int),
            )
            &&& q1.head == q0.head
            &&& q1.seq_num == q0.seq_num + evs.len()
        }
    &&& out.taker_fee_native == fee_ceil(qn, m0.taker_fee as int)
    &&& out.maker_rebates_native <= out.taker_fee_native
    &&& out.posted_base_lots == (if rest_quantity(m0, a, out.base_matched_lots as int, out.quote_matched_lots as int) > 0 {
        rest_quantity(m0, a, out.base_matched_lots as int, out.quote_matched_lots as int)
    } else {
        0
    })
    &&& out.locked_native == rest_lock(m0, a, out.posted_base_lots as int)
    &&& position_after_lock(
        position_after_take(acc0.position, side, bn, qn, out.taker_fee_native as int),
        side,
        out.posted_base_lots as int,
        out.locked_native as int,
    ) == Some(acc1.position)
    &&& (out.posted_base_lots > 0) == (out.order_id is Some)
    &&& out.posted_base_lots > 0 ==> {
        let id = out.order_id.unwrap();
        &&& m1.seq_num == m0.seq_num + 1
        &&& id == node_key_spec(side, order_price_data(a.price), m1.seq_num)
        &&& own1.orders@.len() == own0.orders@.len() + 1
        &&& own1.orders@.drop_last() == own0.orders@
        &&& own1.orders@.last().key == id
        &&& own1.orders@.last().owner == acc0.key
        &&& own1.orders@.last().quantity == out.posted_base_lots
        &&& own1.orders@.last().price == a.price
        &&& own1.orders@.last().locked_native == out.locked_native
        &&& own1.orders@.last().client_order_id == a.client_order_id
        &&& own1.orders@.last().expiry_timestamp == a.expiry_timestamp
        &&& exists|i: int|
            0 <= i < acc0.open_orders@.len() && acc0.open_orders@[i].is_free && acc1.open_orders@ == acc0.open_orders@.update(
                i,
                OpenOrder {
                    id,
                    client_id: a.client_order_id,
                    locked_price: lock_price(a.price) as i64,
                    is_free: false,
                    side_and_tree: side_and_tree_spec(side, tree_of(a.price)),
                },
            ) && own1.orders@.last().owner_slot == i
    }
    &&& out.posted_base_lots == 0 ==> m1.seq_num == m0.seq_num && own1 == own0 && acc1.open_orders@ == acc0.open_orders@
    &&& m1.fees_accrued == m0.fees_accrued + out.taker_fee_native + out.maker_fees_native - out.maker_rebates_native
    &&& m1.fees_available == m0.fees_available + out.taker_fee_native + out.maker_fees_native - out.maker_rebates_native
    &&& m1.maker_volume == m0.maker_volume + qn
    &&& m1 == (Market { seq_num: m1.seq_num, fees_accrued: m1.fees_accrued, fees_available: m1.fees_available, maker_volume: m1.maker_volume, ..m0 })
}

/// The price part of a new order's id: the price for a fixed order, the offset shifted to
/// unsigned for a pegged one.
pub open spec fn order_price_data(price: OrderPrice) -> u64 {
    match price {
        OrderPrice::Fixed { price_lots } => price_lots as u64,
        OrderPrice::Pegged { price_offset_lots, .. } => (price_offset_lots as int - i64::MIN as int) as u64,
    }
}

fn price_data(price: OrderPrice) -> (r: u64)
    ensures
        r == order_price_data(price),
{
    match price {
        OrderPrice::Fixed { price_lots } => price_lots as u64,
        OrderPrice::Pegged { price_offset_lots, .. } => (price_offset_lots as i128 - i64::MIN as i128) as u64,
    }
}


proof fn lemma_i64_product_fits(a: int, b: int)
    requires
        i64::MIN <= a <= i64::MAX,
        1 <= b <= i64::MAX,
    ensures
        i128::MIN <= a * b <= i128::MAX,
{
    assert(i128::MIN <= a * b <= i128::MAX) by (nonlinear_arith)
        requires
            -0x8000_0000_0000_0000 <= a <= 0x7fff_ffff_ffff_ffff,
            1 <= b <= 0x7fff_ffff_ffff_ffff,
    ;
}

/// Some order of the side opposite `side` can match now at a price that crosses `lim`.
pub open spec fn book_crosses(b: Orderbook, side: Side, lim: int, now_ts: u64, oracle_lots: Option<i64>) -> bool {
    let maker_side = opposite(side);
    let orders = book_side(b, maker_side).orders@;
    exists|j: int|
        0 <= j < orders.len() && is_matchable(maker_side, #[trigger] orders[j], now_ts, oracle_lots) && crosses(
            side,
            effective_price(maker_side, orders[j].price, oracle_lots).unwrap(),
            lim,
        )
}

/// Every resting order of both sides holds a reservation that covers it.
pub open spec fn book_reserved(b: Orderbook, m: Market) -> bool {
    &&& all_reserved(Side::Bid, b.bids.orders@, m)
    &&& all_reserved(Side::Ask, b.asks.orders@, m)
}

pub open spec fn is_no_outcome(out: PlaceOrderOutcome) -> bool {
    &&& out.order_id is None
    &&& out.posted_base_lots == 0
    &&& out.base_matched_lots == 0
    &&& out.quote_matched_lots == 0
    &&& out.taker_fee_native == 0
    &&& out.maker_rebates_native == 0
    &&& out.maker_fees_native == 0
    &&& out.locked_native == 0
}

/// Places an order for `account`: checks it, matches it against the opposing side in
/// price-time priority, charges the taker fee (rounded up) and credits the taker at once,
/// queues one event per fill for the makers, and rests what is left where the order type
/// allows. A pegged order whose price falls outside its peg limit, and a post-only order
/// that would match, do nothing. Every failure leaves all four structures unchanged.
#[verifier::rlimit(100)]
pub fn place_order(
    market: &mut Market,
    book: &mut Orderbook,
    queue: &mut EventQueue,
    account: &mut OpenOrdersAccount,
    args: &PlaceOrderArgs,
    oracle_price: Option<Decimal>,
    now_ts: u64,
) -> (r: Result<PlaceOrderOutcome, OpenBookError>)
    requires
        old(market).wf(),
        old(book).wf(),
        old(queue).wf(),
        old(account).wf(),
    ensures
        final(market).wf(),
        final(book).wf(),
        final(queue).wf(),
        final(account).wf(),
        final(queue).capacity() == old(queue).capacity(),
        final(book).bids.capacity == old(book).bids.capacity,
        final(book).asks.capacity == old(book).asks.capacity,
        final(account).key == old(account).key,
        final(account).owner == old(account).owner,
        r is Err ==> *final(market) == *old(market) && *final(book) == *old(book) && *final(queue) == *old(queue)
            && *final(account) == *old(account),
        r is Ok && book_reserved(*old(book), *old(market)) ==> book_reserved(*final(book), *final(market)),
        match precheck(*old(market), *args, old(account).position, oracle_price, now_ts) {
            Some(e) => r == Err::<PlaceOrderOutcome, OpenBookError>(e),
            None => {
                let oracle_lots = oracle_lots_spec(*old(market), oracle_price);
                match taker_limit(*args, oracle_lots) {
                    None => r is Ok && is_no_outcome(r->Ok_0) && *final(market) == *old(market) && *final(book)
                        == *old(book) && *final(queue) == *old(queue) && *final(account) == *old(account),
                    Some(lim) => if args.order_type == PlaceOrderType::PostOnly && book_crosses(
                        *old(book),
                        args.side,
                        lim,
                        now_ts,
                        oracle_lots,
                    ) {
                        r is Ok && is_no_outcome(r->Ok_0) && *final(market) == *old(market) && *final(book)
                            == *old(book) && *final(queue) == *old(queue) && *final(account) == *old(account)
                    } else {
                        match r {
                            Ok(out) => placed(
                                *old(market),
                                *final(market),
                                *old(book),
                                *final(book),
                                *old(queue),
                                *final(queue),
                                *old(account),
                                *final(account),
                                *args,
                                oracle_lots,
                                now_ts,
                                lim,
                                out,
                            ),
                            Err(e) => (e == OpenBookError::WouldSelfTrade && args.self_trade_behavior
                                == SelfTradeBehavior::AbortTransaction) || (e == OpenBookError::OpenOrdersFull
                                && forall|j: int|
                                0 <= j < old(account).open_orders@.len() ==> !(#[trigger] old(
                                    account,
                                ).open_orders@[j]).is_free) || (e == OpenBookError::BookFull && book_side(
                                *old(book),
                                args.side,
                            ).orders@.len() >= book_side(*old(book), args.side).capacity) || (e
                                == OpenBookError::Overflow && (old(queue).seq_num + args.limit > u64::MAX
                                || !ledgers_have_headroom(*old(market), old(account).position, *args))) || (e == OpenBookError::InvariantViolation && !all_reserved(
                                opposite(args.side),
                                book_side(*old(book), opposite(args.side)).orders@,
                                *old(market),
                            )),
                        }
                    },
                }
            },
        },
{
    let side = args.side;
    let maker_side = side.invert();
    let bls = market.base_lot_size;
    let qls = market.quote_lot_size;
    proof {
        lemma_i64_product_fits(args.max_base_lots as int, bls as int);
        lemma_i64_product_fits(args.max_quote_lots_including_fees as int, qls as int);
    }
    let price_ok = match args.price {
        OrderPrice::Fixed { price_lots } => price_lots >= 1,
        OrderPrice::Pegged { peg_limit, .. } => peg_limit >= 1,
    };
    if !(args.max_base_lots > 0 && (args.max_base_lots as i128) * (bls as i128) <= i64::MAX as i128
        && args.max_quote_lots_including_fees > 0 && (args.max_quote_lots_including_fees as i128) * (qls as i128)
        <= i64::MAX as i128 && price_ok) {
        return Err(OpenBookError::InvalidInput);
    }
    if market.time_expiry != 0 && (market.time_expiry as i128) < (now_ts as i128) {
        return Err(OpenBookError::MarketExpired);
    }
    let is_pegged = match args.price {
        OrderPrice::Fixed { .. } => false,
        OrderPrice::Pegged { .. } => true,
    };
    if is_pegged && oracle_price.is_none() {
        return Err(OpenBookError::DisabledOraclePeg);
    }
    let oracle_lots: Option<i64> = match oracle_price {
        Some(p) => match market.native_price_to_lot(p) {
            Ok(l) => Some(l),
            Err(e) => {
                return Err(e);
            },
        },
        None => None,
    };
    let max_base = args.max_base_lots;
    let budget = args.max_quote_lots_including_fees;
    let base_cap: u64 = (max_base as i128 * bls as i128) as u64;
    let quote_cap: u64 = (budget as i128 * qls as i128) as u64;
    let funded = match side {
        Side::Bid => account.position.quote_free_native >= quote_cap,
        Side::Ask => account.position.base_free_native >= base_cap,
    };
    if !funded {
        return Err(OpenBookError::InsufficientFunds);
    }
    let lim: i64 = if args.order_type == PlaceOrderType::Market {
        match side {
            Side::Bid => i64::MAX,
            Side::Ask => 1,
        }
    } else {
        match order_price_now(side, args.price, oracle_lots) {
            Some(p) => p,
            None => {
                return Ok(no_outcome());
            },
        }
    };
    let opposing: &Vec<LeafNode> = match side {
        Side::Bid => &book.asks.orders,
        Side::Ask => &book.bids.orders,
    };
    if args.order_type == PlaceOrderType::PostOnly {
        match find_best(maker_side, opposing, now_ts, oracle_lots) {
            Some(i) => {
                let bp = match order_price_now(maker_side, opposing[i].price, oracle_lots) {
                    Some(bp) => bp,
                    None => 0,
                };
                let crossing = match side {
                    Side::Bid => bp <= lim,
                    Side::Ask => bp >= lim,
                };
                if crossing {
                    return Ok(no_outcome());
                }
                proof {
                    let orders = opposing@;
                    assert forall|j: int|
                        0 <= j < orders.len() && is_matchable(maker_side, #[trigger] orders[j], now_ts, oracle_lots)
                            implies !crosses(side, effective_price(maker_side, orders[j].price, oracle_lots).unwrap(), lim as int) by {
                        assert(!precedes_at(
                            maker_side,
                            effective_price(maker_side, orders[j].price, oracle_lots).unwrap(),
                            orders[j].seq_num as int,
                            effective_price(maker_side, orders[i as int].price, oracle_lots).unwrap(),
                            orders[i as int].seq_num as int,
                        ));
                    }
                }
            },
            None => {},
        }
    }
    execute_order(market, book, queue, account, args, oracle_lots, now_ts, lim)
}

/// Matches an order that passed its checks and whose price limit is `lim`, and writes the
/// outcome; the second half of `place_order`.
#[verifier::rlimit(100)]
fn execute_order(
    market: &mut Market,
    book: &mut Orderbook,
    queue: &mut EventQueue,
    account: &mut OpenOrdersAccount,
    args: &PlaceOrderArgs,
    oracle_lots: Option<i64>,
    now_ts: u64,
    lim: i64,
) -> (r: Result<PlaceOrderOutcome, OpenBookError>)
    requires
        old(market).wf(),
        old(book).wf(),
        old(queue).wf(),
        old(account).wf(),
        args_valid(*old(market), *args),
        funds_ok(*old(market), *args, old(account).position),
    ensures
        final(market).wf(),
        final(book).wf(),
        final(queue).wf(),
        final(account).wf(),
        final(queue).capacity() == old(queue).capacity(),
        final(book).bids.capacity == old(book).bids.capacity,
        final(book).asks.capacity == old(book).asks.capacity,
        final(account).key == old(account).key,
        final(account).owner == old(account).owner,
        r is Err ==> *final(market) == *old(market) && *final(book) == *old(book) && *final(queue) == *old(queue)
            && *final(account) == *old(account),
        r is Ok && book_reserved(*old(book), *old(market)) ==> book_reserved(*final(book), *final(market)),
        match r {
            Ok(out) => placed(
                *old(market),
                *final(market),
                *old(book),
                *final(book),
                *old(queue),
                *final(queue),
                *old(account),
                *final(account),
                *args,
                oracle_lots,
                now_ts,
                lim as int,
                out,
            ),
            Err(e) => (e == OpenBookError::WouldSelfTrade && args.self_trade_behavior
                == SelfTradeBehavior::AbortTransaction) || (e == OpenBookError::OpenOrdersFull && forall|j: int|
                0 <= j < old(account).open_orders@.len() ==> !(#[trigger] old(account).open_orders@[j]).is_free) || (e
                == OpenBookError::BookFull && book_side(*old(book), args.side).orders@.len() >= book_side(
                *old(book),
                args.side,
            ).capacity) || (e == OpenBookError::Overflow && (old(queue).seq_num + args.limit > u64::MAX || !ledgers_have_headroom(
                *old(market),
                old(account).position,
                *args,
            ))) || (e == OpenBookError::InvariantViolation && !all_reserved(
                opposite(args.side),
                book_side(*old(book), opposite(args.side)).orders@,
                *old(market),
            )),
        },
{
    let side = args.side;
    let maker_side = side.invert();
    let bls = market.base_lot_size;
    let qls = market.quote_lot_size;
    let max_base = args.max_base_lots;
    let budget = args.max_quote_lots_including_fees;
    let base_cap: u64 = (max_base as i128 * bls as i128) as u64;
    let quote_cap: u64 = (budget as i128 * qls as i128) as u64;
    let opposing: &Vec<LeafNode> = match side {
        Side::Bid => &book.asks.orders,
        Side::Ask => &book.bids.orders,
    };
    let max_quote: i64 = match side {
        Side::Bid => market.subtract_taker_fees(budget),
        Side::Ask => budget,
    };
    let free = queue.free_slots();
    let max_events: usize = if args.order_type == PlaceOrderType::PostOnly {
        0
    } else if (args.limit as usize) < free {
        args.limit as usize
    } else {
        free
    };
    proof {
        assert(max_quote as int * qls as int <= i64::MAX) by (nonlinear_arith)
            requires
                0 <= max_quote <= budget,
                budget as int * qls as int <= i64::MAX,
                qls >= 1,
        ;
    }
    let m = match match_orders(
        market,
        opposing,
        &account.key,
        args.client_order_id,
        side,
        args.self_trade_behavior,
        lim,
        max_base,
        max_quote,
        max_events,
        now_ts,
        oracle_lots,
    ) {
        Ok(m) => m,
        Err(e) => {
            return Err(e);
        },
    };
    proof {
        assert(0 <= m.quote_matched_lots as int * qls as int <= i64::MAX) by (nonlinear_arith)
            requires
                0 <= m.quote_matched_lots <= max_quote,
                max_quote as int * qls as int <= i64::MAX,
                qls >= 1,
        ;
        assert(0 <= m.base_matched_lots as int * bls as int <= max_base as int * bls as int) by (nonlinear_arith)
            requires
                0 <= m.base_matched_lots <= max_base,
                bls >= 1,
        ;
    }
    let qn: u64 = (m.quote_matched_lots as i128 * qls as i128) as u64;
    let bn: u64 = (m.base_matched_lots as i128 * bls as i128) as u64;
    let taker_fee = market.taker_fees_ceil(qn);
    let lprice: i64 = match args.price {
        OrderPrice::Fixed { price_lots } => price_lots,
        OrderPrice::Pegged { peg_limit, .. } => peg_limit,
    };
    let rem_base: i64 = max_base - m.base_matched_lots;
    let mut posted: i64 = 0;
    if args.order_type == PlaceOrderType::Limit || args.order_type == PlaceOrderType::PostOnly {
        match side {
            Side::Ask => {
                posted = rem_base;
            },
            Side::Bid => {
                let by_quote: i64 = (max_quote - m.quote_matched_lots) / lprice;
                posted = if rem_base < by_quote { rem_base } else { by_quote };
            },
        }
    }
    if posted < 0 {
        posted = 0;
    }
    proof {
        if side == Side::Bid {
            assert(0 <= posted as int * lprice as int <= max_quote - m.quote_matched_lots) by (nonlinear_arith)
                requires
                    0 <= posted,
                    posted <= (max_quote - m.quote_matched_lots) as int / lprice as int,
                    lprice >= 1,
                    max_quote - m.quote_matched_lots >= 0,
            ;
            assert(0 <= posted as int * lprice as int * qls as int <= max_quote as int * qls as int) by (nonlinear_arith)
                requires
                    0 <= posted as int * lprice as int <= max_quote,
                    qls >= 1,
            ;
        } else {
            assert(0 <= posted as int * bls as int <= max_base as int * bls as int) by (nonlinear_arith)
                requires
                    0 <= posted <= max_base,
                    bls >= 1,
            ;
        }
    }
    let lock: u64 = match side {
        Side::Bid => {
            let q: u64 = (posted as i128 * lprice as i128 * qls as i128) as u64;
            proof {
                assert(q as int == posted as int * lprice as int * qls as int);
                assert(fee_floor(q as int, 0) == 0);
            }
            q + market.maker_fees_floor(q)
        },
        Side::Ask => (posted as i128 * bls as i128) as u64,
    };
    let mut slot: usize = 0;
    if posted > 0 {
        slot = match account.next_free_slot() {
            Some(i) => i,
            None => {
                return Err(OpenBookError::OpenOrdersFull);
            },
        };
        let own_full = match side {
            Side::Bid => book.bids.is_full(),
            Side::Ask => book.asks.is_full(),
        };
        if own_full {
            return Err(OpenBookError::BookFull);
        }
        if market.seq_num == u64::MAX {
            return Err(OpenBookError::Overflow);
        }
    }
    // the taker's new balances
    let p0 = account.position;
    proof {
        assert(bn <= base_cap);
        assert(posted <= max_base);
        assert(qn <= quote_cap) by (nonlinear_arith)
            requires
                qn == m.quote_matched_lots as int * qls as int,
                m.quote_matched_lots <= max_quote <= budget,
                quote_cap == budget as int * qls as int,
                qls >= 1,
        ;
    }
    proof {
        if side == Side::Bid {
            lemma_bid_cost_within_budget(
                m.quote_matched_lots as int,
                posted as int * lprice as int,
                budget as int,
                qls as int,
                market.taker_fee as int,
                maker_fee_rate(*market),
            );
            assert(lock as int <= quote_cap);
        } else {
            assert(bn as int + posted as int * bls as int <= max_base as int * bls as int) by (nonlinear_arith)
                requires
                    bn == m.base_matched_lots as int * bls as int,
                    m.base_matched_lots + posted <= max_base,
                    bls >= 1,
                    posted >= 0,
            ;
            assert(lock as int <= base_cap);
        }
    }
    let new_p = match side {
        Side::Bid => {
            if p0.base_free_native as u128 + bn as u128 > u64::MAX as u128 || p0.quote_locked_native as u128
                + lock as u128 > u64::MAX as u128 || p0.bids_base_lots as i128 + posted as i128 > i64::MAX as i128 {
                return Err(OpenBookError::Overflow);
            }
            Position {
                base_free_native: p0.base_free_native + bn,
                quote_free_native: p0.quote_free_native - qn - taker_fee - lock,
                quote_locked_native: p0.quote_locked_native + lock,
                bids_base_lots: p0.bids_base_lots + posted,
                ..p0
            }
        },
        Side::Ask => {
            if p0.quote_free_native as u128 + qn as u128 > u64::MAX as u128 || p0.base_locked_native as u128
                + lock as u128 > u64::MAX as u128 || p0.asks_base_lots as i128 + posted as i128 > i64::MAX as i128 {
                return Err(OpenBookError::Overflow);
            }
            Position {
                base_free_native: p0.base_free_native - bn - lock,
                quote_free_native: p0.quote_free_native + qn - taker_fee,
                base_locked_native: p0.base_locked_native + lock,
                asks_base_lots: p0.asks_base_lots + posted,
                ..p0
            }
        },
    };
    // the market's totals
    proof {

        lemma_rebates_within_taker_fee(qn as int, rebate_rate(*market), market.taker_fee as int);
    }
    if market.fees_accrued as u128 + taker_fee as u128 + m.maker_fees_native as u128 > u64::MAX as u128
        || market.fees_available as u128 + taker_fee as u128 + m.maker_fees_native as u128 > u64::MAX as u128
        || market.maker_volume as u128 + qn as u128 > u64::MAX as u128 {
        proof {
            assert(taker_fee <= quote_cap && m.maker_fees_native <= quote_cap);
            assert(!ledgers_have_headroom(*old(market), old(account).position, *args));
        }
        return Err(OpenBookError::Overflow);
    }
    if queue.seq_num as u128 + m.events.len() as u128 > u64::MAX as u128 {
        return Err(OpenBookError::Overflow);
    }
    let fees_accrued: u64 = market.fees_accrued + taker_fee + m.maker_fees_native - m.maker_rebates_native;
    let fees_available: u64 = market.fees_available + taker_fee + m.maker_fees_native - m.maker_rebates_native;
    let maker_volume: u64 = market.maker_volume + qn;
    let rebates = m.maker_rebates_native;
    let maker_fees = m.maker_fees_native;
    let base_matched = m.base_matched_lots;
    let quote_matched = m.quote_matched_lots;
    let ghost evs = m.events@;
    let ghost remaining = m.remaining@;
    let ghost wp = walk_params(
        side,
        old(account).key,
        args.client_order_id,
        args.self_trade_behavior,
        lim,
        max_base,
        max_quote,
        now_ts,
        oracle_lots,
    );
    let order_id = commit(
        market,
        book,
        queue,
        account,
        args,
        m,
        new_p,
        fees_accrued,
        fees_available,
        maker_volume,
        posted,
        lock,
        slot,
        lprice,
        now_ts,
    );
    let out = PlaceOrderOutcome {
        order_id,
        posted_base_lots: posted,
        base_matched_lots: base_matched,
        quote_matched_lots: quote_matched,
        taker_fee_native: taker_fee,
        maker_rebates_native: rebates,
        maker_fees_native: maker_fees,
        locked_native: lock,
    };
    proof {
        assert(quote_budget(*old(market), *args) == max_quote);
        assert(0 <= out.quote_matched_lots <= quote_budget(*old(market), *args));
        assert(queue@ == old(queue)@ + evs);
        assert(out.taker_fee_native == fee_ceil(out.quote_matched_lots as int * qls as int, old(market).taker_fee as int));
        assert(out.maker_rebates_native <= out.taker_fee_native);
        assert(rest_quantity(*old(market), *args, base_matched as int, quote_matched as int) == posted || (posted == 0 && rest_quantity(*old(market), *args, base_matched as int, quote_matched as int) <= 0));
        assert(lock_price(args.price) == lprice);
        assert(out.locked_native == rest_lock(*old(market), *args, out.posted_base_lots as int));
        assert(evs.len() <= args.limit);
        assert(forall|k: int| 0 <= k < evs.len() ==> event_ok(#[trigger] evs[k], side, lim as int, *old(market), old(account).key));
        assert(nothing_skipped(evs, book_side(*book, maker_side).orders@, maker_side, now_ts, oracle_lots));
        assert(args.order_type == PlaceOrderType::PostOnly ==> evs.len() == 0);
        assert(out.posted_base_lots == (if rest_quantity(*old(market), *args, out.base_matched_lots as int, out.quote_matched_lots as int) > 0 {
            rest_quantity(*old(market), *args, out.base_matched_lots as int, out.quote_matched_lots as int)
        } else {
            0
        }));
        assert(position_after_lock(
            position_after_take(old(account).position, side, bn as int, qn as int, out.taker_fee_native as int),
            side,
            out.posted_base_lots as int,
            out.locked_native as int,
        ) == Some(account.position));
        assert(market.fees_accrued == old(market).fees_accrued + out.taker_fee_native + out.maker_fees_native - out.maker_rebates_native);
        assert(market.maker_volume == old(market).maker_volume + qn);
        assert(*market == (Market { seq_num: market.seq_num, fees_accrued: market.fees_accrued, fees_available: market.fees_available, maker_volume: market.maker_volume, ..*old(market) }));
        if posted > 0 {
            let own0 = book_side(*old(book), side);
            let own1 = book_side(*book, side);
            assert(own1.orders@.drop_last() == own0.orders@);
            assert(exists|i: int|
                0 <= i < old(account).open_orders@.len() && old(account).open_orders@[i].is_free && account.open_orders@ == old(account).open_orders@.update(
                    i,
                    OpenOrder {
                        id: out.order_id.unwrap(),
                        client_id: args.client_order_id,
                        locked_price: lock_price(args.price) as i64,
                        is_free: false,
                        side_and_tree: side_and_tree_spec(side, tree_of(args.price)),
                    },
                ) && own1.orders@.last().owner_slot == i) by {
                assert(own1.orders@.last().owner_slot == slot as int);
            }
        }
        if book_reserved(*old(book), *old(market)) {
            let own0 = book_side(*old(book), side);
            let own1 = book_side(*book, side);
            assert(all_reserved(maker_side, book_side(*book, maker_side).orders@, *market));
            assert forall|j: int| 0 <= j < own1.orders@.len() implies leaf_reserved(side, #[trigger] own1.orders@[j], *market) by {
                if posted > 0 && j == own0.orders@.len() {
                    assert(own1.orders@[j].locked_native == lock);
                } else {
                    if posted > 0 {
                        assert(own1.orders@[j] == own0.orders@[j]);
                    }
                    assert(leaf_reserved(side, own0.orders@[j], *old(market)));
                }
            }
            assert(book_reserved(*book, *market));
        }
        assert(max_events == place_max_events(*args, *old(queue)));
        assert(wp == place_walk(*old(market), *args, old(account).key, lim as int, now_ts, oracle_lots));
        assert(queue@ == old(queue)@ + evs
            && evs.len() <= args.limit
            && fills_base(evs) == out.base_matched_lots
            && fills_quote(evs) == out.quote_matched_lots
            && fills_rebate(evs) == out.maker_rebates_native
            && fills_maker_fee(evs) == out.maker_fees_native
            && (forall|k: int| 0 <= k < evs.len() ==> event_ok(#[trigger] evs[k], side, lim as int, *old(market), old(account).key))
            && fills_in_priority(evs, maker_side)
            && nothing_skipped(evs, book_side(*book, maker_side).orders@, maker_side, now_ts, oracle_lots)
            && (args.order_type == PlaceOrderType::PostOnly ==> evs.len() == 0));
    }
    Ok(out)
}


/// Writes a placement's outcome: the opposing side's orders, the events, the market's
/// totals, the taker's position, and the resting order with its slot.
#[verifier::rlimit(40)]
fn commit(
    market: &mut Market,
    book: &mut Orderbook,
    queue: &mut EventQueue,
    account: &mut OpenOrdersAccount,
    args: &PlaceOrderArgs,
    m: MatchResult,
    new_p: Position,
    fees_accrued: u64,
    fees_available: u64,
    maker_volume: u64,
    posted: i64,
    lock: u64,
    slot: usize,
    lprice: i64,
    now_ts: u64,
) -> (r: Option<u128>)
    requires
        old(market).wf(),
        old(book).wf(),
        old(queue).wf(),
        old(account).wf(),
        leaves_wf(m.remaining@),
        m.remaining@.len() <= book_side(*old(book), opposite(args.side)).capacity,
        m.events@.len() <= old(queue).capacity() - old(queue)@.len(),
        old(queue).seq_num + m.events@.len() <= u64::MAX,
        posted >= 0,
        posted > 0 ==> slot < old(account).open_orders@.len() && slot < 256 && old(account).open_orders@[slot as int].is_free
            && book_side(*old(book), args.side).orders@.len() < book_side(*old(book), args.side).capacity
            && old(market).seq_num < u64::MAX,
    ensures
        final(market).wf(),
        final(book).wf(),
        final(queue).wf(),
        final(account).wf(),
        final(queue).capacity() == old(queue).capacity(),
        final(book).bids.capacity == old(book).bids.capacity,
        final(book).asks.capacity == old(book).asks.capacity,
        final(account).key == old(account).key,
        final(account).owner == old(account).owner,
        final(account).position == new_p,
        final(queue)@ == old(queue)@ + m.events@,
        final(queue).head == old(queue).head,
        final(queue).seq_num == old(queue).seq_num + m.events@.len(),
        book_side(*final(book), opposite(args.side)).orders@ == m.remaining@,
        *final(market) == (Market {
            seq_num: final(market).seq_num,
            fees_accrued,
            fees_available,
            maker_volume,
            ..*old(market)
        }),
        (posted > 0) == (r is Some),
        posted > 0 ==> {
            let id = r.unwrap();
            let own0 = book_side(*old(book), args.side);
            let own1 = book_side(*final(book), args.side);
            &&& final(market).seq_num == old(market).seq_num + 1
            &&& id == node_key_spec(args.side, order_price_data(args.price), final(market).seq_num)
            &&& own1.orders@ == own0.orders@.push(LeafNode {
                key: id,
                seq_num: final(market).seq_num,
                owner: old(account).key,
                owner_slot: slot as u8,
                quantity: posted,
                client_order_id: args.client_order_id,
                timestamp: now_ts,
                expiry_timestamp: args.expiry_timestamp,
                price: args.price,
                locked_native: lock,
            })
            &&& final(account).open_orders@ == old(account).open_orders@.update(
                slot as int,
                OpenOrder {
                    id,
                    client_id: args.client_order_id,
                    locked_price: lprice,
                    is_free: false,
                    side_and_tree: side_and_tree_spec(args.side, tree_of(args.price)),
                },
            )
        },
        posted == 0 ==> final(market).seq_num == old(market).seq_num && book_side(*final(book), args.side)
            == book_side(*old(book), args.side) && final(account).open_orders@ == old(account).open_orders@,
{
    // commit
    let ghost q0 = queue@;
    match args.side {
        Side::Bid => {
            book.asks.orders = m.remaining;
        },
        Side::Ask => {
            book.bids.orders = m.remaining;
        },
    }
    let mut k: usize = 0;
    while k < m.events.len()
        invariant
            queue.wf(),
            queue.capacity() == old(queue).capacity(),
            q0 == old(queue)@,
            0 <= k <= m.events@.len(),
            m.events@.len() <= old(queue).capacity() - q0.len(),
            queue@ == q0 + m.events@.take(k as int),
            queue.head == old(queue).head,
            queue.seq_num == old(queue).seq_num + k,
            old(queue).seq_num + m.events@.len() <= u64::MAX,
        decreases m.events@.len() - k,
    {
        let _ = queue.push_back(m.events[k]);
        proof {
            assert(m.events@.take(k + 1) =~= m.events@.take(k as int).push(m.events@[k as int]));
            assert(q0 + m.events@.take(k + 1) =~= (q0 + m.events@.take(k as int)).push(m.events@[k as int]));
        }
        k = k + 1;
    }
    proof {
        assert(m.events@.take(m.events@.len() as int) =~= m.events@);
    }
    market.fees_accrued = fees_accrued;
    market.fees_available = fees_available;
    market.maker_volume = maker_volume;
    account.position = new_p;
    if posted > 0 {
        let id = market.gen_order_id(args.side, price_data(args.price));
        let leaf = LeafNode {
            key: id,
            seq_num: market.seq_num,
            owner: account.key,
            owner_slot: slot as u8,
            quantity: posted,
            client_order_id: args.client_order_id,
            timestamp: now_ts,
            expiry_timestamp: args.expiry_timestamp,
            price: args.price,
            locked_native: lock,
        };
        let _ = match args.side {
            Side::Bid => book.bids.insert_leaf(leaf),
            Side::Ask => book.asks.insert_leaf(leaf),
        };
        let tree = match args.price {
            OrderPrice::Fixed { .. } => OrderTreeType::Fixed,
            OrderPrice::Pegged { .. } => OrderTreeType::OraclePegged,
        };
        account.open_orders.set(
            slot,
            OpenOrder {
                id,
                client_id: args.client_order_id,
                locked_price: lprice,
                is_free: false,
                side_and_tree: side_and_tree(args.side, tree),
            },
        );
        Some(id)
    } else {
        None
    }
}

/// Maker rebates on a quote amount never exceed the taker fee on it: the rebate rate is at
/// most the taker rate, and the rebate rounds down while the fee rounds up.
pub proof fn lemma_rebates_within_taker_fee(q: int, rebate: int, taker: int)
    requires
        q >= 0,
        0 <= rebate <= taker,
    ensures
        fee_floor(q, rebate) <= fee_ceil(q, taker),
{
    assert(q * rebate <= q * taker) by (nonlinear_arith)
        requires
            q >= 0,
            rebate <= taker,
    ;
    assert((q * rebate) / 1_000_000 <= (q * taker + 999_999) / 1_000_000) by (nonlinear_arith)
        requires
            q * rebate <= q * taker,
            q * rebate >= 0,
    ;
}


/// Credits deposited native amounts to the account's free balances and the market's
/// deposit totals; `Overflow` and no change when a total would not fit.
pub fn deposit(account: &mut OpenOrdersAccount, market: &mut Market, base_amount: u64, quote_amount: u64) -> (r: Result<
    (),
    OpenBookError,
>)
    ensures
        final(account).key == old(account).key,
        final(account).owner == old(account).owner,
        final(account).open_orders@ == old(account).open_orders@,
        ({
            let fits = old(account).position.base_free_native + base_amount <= u64::MAX
                && old(account).position.quote_free_native + quote_amount <= u64::MAX
                && old(market).base_deposit_total + base_amount <= u64::MAX
                && old(market).quote_deposit_total + quote_amount <= u64::MAX;
            if fits {
                r is Ok && final(account).position == (Position {
                    base_free_native: (old(account).position.base_free_native + base_amount) as u64,
                    quote_free_native: (old(account).position.quote_free_native + quote_amount) as u64,
                    ..old(account).position
                }) && *final(market) == (Market {
                    base_deposit_total: (old(market).base_deposit_total + base_amount) as u64,
                    quote_deposit_total: (old(market).quote_deposit_total + quote_amount) as u64,
                    ..*old(market)
                })
            } else {
                r == Err::<(), OpenBookError>(OpenBookError::Overflow) && final(account).position == old(
                    account,
                ).position && *final(market) == *old(market)
            }
        }),
{
    let p = account.position;
    if p.base_free_native as u128 + base_amount as u128 > u64::MAX as u128 || p.quote_free_native as u128
        + quote_amount as u128 > u64::MAX as u128 || market.base_deposit_total as u128 + base_amount as u128
        > u64::MAX as u128 || market.quote_deposit_total as u128 + quote_amount as u128 > u64::MAX as u128 {
        return Err(OpenBookError::Overflow);
    }
    account.position = Position {
        base_free_native: p.base_free_native + base_amount,
        quote_free_native: p.quote_free_native + quote_amount,
        ..p
    };
    market.base_deposit_total = market.base_deposit_total + base_amount;
    market.quote_deposit_total = market.quote_deposit_total + quote_amount;
    Ok(())
}

/// Amounts that settling moves out of the market to the owner's wallets.
#[derive(Clone, Copy, Debug, PartialEq, Eq, Structural)]
pub struct SettleAmounts {
    pub base_native: u64,
    pub quote_native: u64,
}

/// Zeroes the account's free balances and returns them, read once, as the amounts to
/// transfer out; the market's deposit totals drop by the same amounts.
/// `InsufficientFunds` and no change when a deposit total is smaller than the balance.
pub fn settle_funds(account: &mut OpenOrdersAccount, market: &mut Market) -> (r: Result<SettleAmounts, OpenBookError>)
    ensures
        final(account).key == old(account).key,
        final(account).owner == old(account).owner,
        final(account).open_orders@ == old(account).open_orders@,
        ({
            let p = old(account).position;
            if p.base_free_native <= old(market).base_deposit_total && p.quote_free_native
                <= old(market).quote_deposit_total {
                r == Ok::<SettleAmounts, OpenBookError>(
                    SettleAmounts { base_native: p.base_free_native, quote_native: p.quote_free_native },
                ) && final(account).position == (Position {
                    base_free_native: 0,
                    quote_free_native: 0,
                    ..p
                }) && *final(market) == (Market {
                    base_deposit_total: (old(market).base_deposit_total - p.base_free_native) as u64,
                    quote_deposit_total: (old(market).quote_deposit_total - p.quote_free_native) as u64,
                    ..*old(market)
                })
            } else {
                r == Err::<SettleAmounts, OpenBookError>(OpenBookError::InsufficientFunds)
                    && final(account).position == p && *final(market) == *old(market)
            }
        }),
{
    let p = account.position;
    let base = p.base_free_native;
    let quote = p.quote_free_native;
    if base > market.base_deposit_total || quote > market.quote_deposit_total {
        return Err(OpenBookError::InsufficientFunds);
    }
    account.position = Position { base_free_native: 0, quote_free_native: 0, ..p };
    market.base_deposit_total = market.base_deposit_total - base;
    market.quote_deposit_total = market.quote_deposit_total - quote;
    Ok(SettleAmounts { base_native: base, quote_native: quote })
}

/// The addresses a new market is created with.
#[derive(Clone, Copy, Debug)]
pub struct MarketAccounts {
    pub market_authority: Pubkey,
    pub collect_fee_admin: Pubkey,
    pub open_orders_admin: Option<Pubkey>,
    pub consume_events_admin: Option<Pubkey>,
    pub close_market_admin: Option<Pubkey>,
    pub bids: Pubkey,
    pub asks: Pubkey,
    pub event_heap: Pubkey,
    pub oracle_a: Option<Pubkey>,
    pub oracle_b: Option<Pubkey>,
    pub base_mint: Pubkey,
    pub quote_mint: Pubkey,
    pub market_base_vault: Pubkey,
    pub market_quote_vault: Pubkey,
}

pub open spec fn option_key_view(o: Option<Pubkey>) -> Option<Seq<u8>> {
    match o {
        Some(k) => if k.is_zero_spec() { None } else { Some(k.bytes@) },
        None => None,
    }
}

/// The failure of a market creation, in the order the checks run.
pub open spec fn create_market_check(
    name_len: int,
    quote_lot_size: i64,
    base_lot_size: i64,
    maker_fee: i64,
    taker_fee: i64,
    time_expiry: i64,
    now_ts: i64,
    base_decimals: u8,
    quote_decimals: u8,
) -> Option<OpenBookError> {
    if !(0 <= taker_fee <= FEES_SCALE_FACTOR && -taker_fee <= maker_fee <= taker_fee) {
        Some(OpenBookError::InvalidInputMarketFees)
    } else if !(time_expiry == 0 || time_expiry > now_ts) {
        Some(OpenBookError::InvalidInputMarketExpired)
    } else if !(quote_lot_size > 0 && base_lot_size > 0) {
        Some(OpenBookError::InvalidInputLots)
    } else if name_len > 16 || !(-12 <= quote_decimals as int - base_decimals as int <= 12) {
        Some(OpenBookError::InvalidInput)
    } else {
        None
    }
}

/// A new market: the configuration is checked (`0 <= taker_fee <= 10^6`, a fee of at most
/// the whole amount, which keeps every fee within the amount it is taken from, and
/// `|maker_fee| <= taker_fee`, an expiry of 0 or in the future, positive lot sizes, a name
/// of at most 16 bytes, decimals at most 12 apart), then the market starts with no orders
/// seen and all totals zero.
pub fn create_market(
    accounts: &MarketAccounts,
    bump: u8,
    base_decimals: u8,
    quote_decimals: u8,
    name: &Vec<u8>,
    oracle_config: OracleConfig,
    quote_lot_size: i64,
    base_lot_size: i64,
    maker_fee: i64,
    taker_fee: i64,
    time_expiry: i64,
    now_ts: i64,
) -> (r: Result<Market, OpenBookError>)
    ensures
        match create_market_check(name@.len() as int, quote_lot_size, base_lot_size, maker_fee, taker_fee, time_expiry, now_ts, base_decimals, quote_decimals) {
            Some(e) => r == Err::<Market, OpenBookError>(e),
            None => r is Ok && {
                let m = r->Ok_0;
                &&& m.wf()
                &&& m.decimals_in_range()
                &&& m.name@ == name@ + Seq::new((16 - name@.len()) as nat, |i: int| 0u8)
                &&& m.quote_lot_size == quote_lot_size && m.base_lot_size == base_lot_size
                &&& m.maker_fee == maker_fee && m.taker_fee == taker_fee
                &&& m.time_expiry == time_expiry && m.registration_time == now_ts
                &&& m.bump == bump && m.base_decimals == base_decimals && m.quote_decimals == quote_decimals
                &&& m.oracle_config == oracle_config
                &&& m.seq_num == 0
                &&& m.fees_accrued == 0 && m.fees_to_referrers == 0 && m.referrer_rebates_accrued == 0
                &&& m.fees_available == 0 && m.maker_volume == 0 && m.taker_volume_wo_oo == 0
                &&& m.base_deposit_total == 0 && m.quote_deposit_total == 0
                &&& m.open_orders_admin.view_option() == option_key_view(accounts.open_orders_admin)
                &&& m.consume_events_admin.view_option() == option_key_view(accounts.consume_events_admin)
                &&& m.close_market_admin.view_option() == option_key_view(accounts.close_market_admin)
                &&& m.oracle_a.view_option() == option_key_view(accounts.oracle_a)
                &&& m.oracle_b.view_option() == option_key_view(accounts.oracle_b)
                &&& m.market_authority == accounts.market_authority
                &&& m.collect_fee_admin == accounts.collect_fee_admin
                &&& m.bids == accounts.bids && m.asks == accounts.asks && m.event_heap == accounts.event_heap
                &&& m.base_mint == accounts.base_mint && m.quote_mint == accounts.quote_mint
                &&& m.market_base_vault == accounts.market_base_vault
                &&& m.market_quote_vault == accounts.market_quote_vault
            },
        },
{
    if !(taker_fee >= 0 && taker_fee as i128 <= FEES_SCALE_FACTOR && maker_fee >= -taker_fee && maker_fee <= taker_fee) {
        return Err(OpenBookError::InvalidInputMarketFees);
    }
    if !(time_expiry == 0 || time_expiry > now_ts) {
        return Err(OpenBookError::InvalidInputMarketExpired);
    }
    if !(quote_lot_size > 0 && base_lot_size > 0) {
        return Err(OpenBookError::InvalidInputLots);
    }
    let d: i16 = quote_decimals as i16 - base_decimals as i16;
    if name.len() > 16 || d < -12 || d > 12 {
        return Err(OpenBookError::InvalidInput);
    }
    let mut name_bytes: [u8; 16] = [0u8; 16];
    let mut i: usize = 0;
    while i < name.len()
        invariant
            name@.len() <= 16,
            0 <= i <= name@.len(),
            name_bytes@.len() == 16,
            forall|j: int| 0 <= j < i ==> name_bytes@[j] == name@[j],
            forall|j: int| i <= j < 16 ==> name_bytes@[j] == 0u8,
        decreases name@.len() - i,
    {
        name_bytes[i] = name[i];
        i = i + 1;
    }
    proof {
        assert(name_bytes@ =~= name@ + Seq::new((16 - name@.len()) as nat, |i: int| 0u8));
    }
    Ok(Market {
        bump,
        base_decimals,
        quote_decimals,
        market_authority: accounts.market_authority,
        time_expiry,
        collect_fee_admin: accounts.collect_fee_admin,
        open_orders_admin: NonZeroPubkeyOption::from_option(accounts.open_orders_admin),
        consume_events_admin: NonZeroPubkeyOption::from_option(accounts.consume_events_admin),
        close_market_admin: NonZeroPubkeyOption::from_option(accounts.close_market_admin),
        name: name_bytes,
        bids: accounts.bids,
        asks: accounts.asks,
        event_heap: accounts.event_heap,
        oracle_a: NonZeroPubkeyOption::from_option(accounts.oracle_a),
        oracle_b: NonZeroPubkeyOption::from_option(accounts.oracle_b),
        oracle_config,
        quote_lot_size,
        base_lot_size,
        seq_num: 0,
        registration_time: now_ts,
        maker_fee,
        taker_fee,
        fees_accrued: 0,
        fees_to_referrers: 0,
        referrer_rebates_accrued: 0,
        fees_available: 0,
        maker_volume: 0,
        taker_volume_wo_oo: 0,
        base_mint: accounts.base_mint,
        quote_mint: accounts.quote_mint,
        market_base_vault: accounts.market_base_vault,
        base_deposit_total: 0,
        market_quote_vault: accounts.market_quote_vault,
        quote_deposit_total: 0,
    })
}


/// The amounts of a simulated swap against the book.
#[derive(Clone, Copy, Debug, PartialEq, Eq, Structural)]
pub struct SwapQuote {
    /// Native units the swapper pays: quote for a bid (taker fee included), base for an ask.
    pub in_amount: u64,
    /// Native units the swapper receives: base for a bid, quote net of the taker fee for an ask.
    pub out_amount: u64,
    /// Taker fee in native quote.
    pub fee_amount: u64,
}

/// The start of a walk of one side of `b`: all its orders, no events, nothing matched.
pub open spec fn book_walk_start(b: Orderbook, maker_side: Side) -> WalkState {
    (book_side(b, maker_side).orders@, Seq::empty(), 0, 0)
}

/// The walk a swap quote makes: a market order of `side` whose budget is `in_amount` native
/// units of its input token (capped at the market's lot limits), net of the taker fee for a
/// bid, matching every owner's orders.
pub open spec fn quote_walk(m: Market, side: Side, in_amount: u64, taker: Pubkey, now_ts: u64, oracle_lots: Option<i64>) -> WalkParams {
    let all_base = i64::MAX as int / m.base_lot_size as int;
    let all_quote = i64::MAX as int / m.quote_lot_size as int;
    let by_base = in_amount as int / m.base_lot_size as int;
    let by_quote = in_amount as int / m.quote_lot_size as int;
    let max_base = match side {
        Side::Bid => all_base,
        Side::Ask => if by_base < all_base { by_base } else { all_base },
    };
    let budget = match side {
        Side::Bid => if by_quote < all_quote { by_quote } else { all_quote },
        Side::Ask => all_quote,
    };
    let max_quote = match side {
        Side::Bid => (budget * FEES_SCALE_FACTOR) / (FEES_SCALE_FACTOR + m.taker_fee as int),
        Side::Ask => budget,
    };
    walk_params(
        side,
        taker,
        0,
        SelfTradeBehavior::DecrementTake,
        match side {
            Side::Bid => i64::MAX,
            Side::Ask => 1,
        },
        max_base as i64,
        max_quote as i64,
        now_ts,
        oracle_lots,
    )
}

/// The result of spending `in_amount` native units of the input token against the book
/// as a market order of `side`, walking at most `max_taken_orders` orders, without changing
/// anything. Resting orders of every owner match, as with `DecrementTake`.
pub fn quote(
    market: &Market,
    book: &Orderbook,
    side: Side,
    in_amount: u64,
    oracle_price_lots: Option<i64>,
    now_ts: u64,
    max_taken_orders: usize,
) -> (r: Result<SwapQuote, OpenBookError>)
    requires
        market.wf(),
        book.wf(),
    ensures
        match r {
            Ok(q) => exists|taker: Pubkey, rest: Seq<LeafNode>, evs: Seq<AnyEvent>|
                #![trigger walk_from(*market, quote_walk(*market, side, in_amount, taker, now_ts, oracle_price_lots), book_walk_start(*book, opposite(side)), (rest, evs, fills_base(evs), fills_quote(evs)))]
                {
                    let wp = quote_walk(*market, side, in_amount, taker, now_ts, oracle_price_lots);
                    let base = fills_base(evs);
                    let quote = fills_quote(evs);
                    &&& taker.is_zero_spec()
                    &&& walk_from(*market, wp, book_walk_start(*book, opposite(side)), (rest, evs, base, quote))
                    &&& walk_stopped(*market, wp, max_taken_orders as int, (rest, evs, base, quote))
                    &&& q.fee_amount == fee_ceil(quote * market.quote_lot_size, market.taker_fee as int)
                    &&& match side {
                        Side::Bid => q.in_amount == quote * market.quote_lot_size + q.fee_amount && q.out_amount == base
                            * market.base_lot_size && q.in_amount <= in_amount,
                        Side::Ask => q.in_amount == base * market.base_lot_size && q.out_amount == quote
                            * market.quote_lot_size - q.fee_amount && q.in_amount <= in_amount,
                    }
                },
            Err(e) => e == OpenBookError::InvariantViolation && !all_reserved(
                opposite(side),
                book_side(*book, opposite(side)).orders@,
                *market,
            ),
        },
{
    let bls = market.base_lot_size;
    let qls = market.quote_lot_size;
    let max_base_all = market.max_base_lots();
    let max_quote_all = market.max_quote_lots();
    let (max_base, budget): (i64, i64) = match side {
        Side::Bid => {
            let lots = in_amount / (qls as u64);
            (max_base_all, if lots < max_quote_all as u64 { lots as i64 } else { max_quote_all })
        },
        Side::Ask => {
            let lots = in_amount / (bls as u64);
            (if lots < max_base_all as u64 { lots as i64 } else { max_base_all }, max_quote_all)
        },
    };
    proof {
        assert(max_base as int * bls as int <= i64::MAX) by (nonlinear_arith)
            requires
                0 <= max_base <= i64::MAX / bls,
                bls >= 1,
        ;
        assert(budget as int * qls as int <= i64::MAX) by (nonlinear_arith)
            requires
                0 <= budget <= i64::MAX / qls,
                qls >= 1,
        ;
        match side {
            Side::Bid => {
                assert(budget as int * qls as int <= in_amount) by (nonlinear_arith)
                    requires
                        budget <= in_amount as int / qls as int,
                        qls >= 1,
                        budget >= 0,
                ;
            },
            Side::Ask => {
                assert(max_base as int * bls as int <= in_amount) by (nonlinear_arith)
                    requires
                        max_base <= in_amount as int / bls as int,
                        bls >= 1,
                        max_base >= 0,
                ;
            },
        }
    }
    let max_quote: i64 = match side {
        Side::Bid => market.subtract_taker_fees(budget),
        Side::Ask => budget,
    };
    let lim: i64 = match side {
        Side::Bid => i64::MAX,
        Side::Ask => 1,
    };
    let opposing: &Vec<LeafNode> = match side {
        Side::Bid => &book.asks.orders,
        Side::Ask => &book.bids.orders,
    };
    proof {
        assert(max_quote as int * qls as int <= i64::MAX) by (nonlinear_arith)
            requires
                0 <= max_quote <= budget,
                budget as int * qls as int <= i64::MAX,
                qls >= 1,
        ;
    }
    let nobody = Pubkey::zeroed();
    let m = match match_orders(
        market,
        opposing,
        &nobody,
        0,
        side,
        SelfTradeBehavior::DecrementTake,
        lim,
        max_base,
        max_quote,
        max_taken_orders,
        now_ts,
        oracle_price_lots,
    ) {
        Ok(m) => m,
        Err(e) => {
            return Err(e);
        },
    };
    proof {
        assert(0 <= m.quote_matched_lots as int * qls as int <= max_quote as int * qls as int) by (nonlinear_arith)
            requires
                0 <= m.quote_matched_lots <= max_quote,
                qls >= 1,
        ;
        assert(0 <= m.base_matched_lots as int * bls as int <= max_base as int * bls as int) by (nonlinear_arith)
            requires
                0 <= m.base_matched_lots <= max_base,
                bls >= 1,
        ;
        if side == Side::Bid {
            lemma_bid_cost_within_budget(m.quote_matched_lots as int, 0, budget as int, qls as int, market.taker_fee as int, 0);
        }
    }
    let qn: u64 = (m.quote_matched_lots as i128 * qls as i128) as u64;
    let bn: u64 = (m.base_matched_lots as i128 * bls as i128) as u64;
    let fee = market.taker_fees_ceil(qn);
    proof {
        assert(fills_base(m.events@) == m.base_matched_lots);
        let wp = quote_walk(*market, side, in_amount, nobody, now_ts, oracle_price_lots);
        assert(wp == walk_params(side, nobody, 0, SelfTradeBehavior::DecrementTake, lim, max_base, max_quote, now_ts, oracle_price_lots));
        assert(book_walk_start(*book, opposite(side)).0 == opposing@);
        assert(book_walk_start(*book, opposite(side)) == (opposing@, Seq::<AnyEvent>::empty(), 0int, 0int));
    }
    match side {
        Side::Bid => Ok(SwapQuote { in_amount: qn + fee, out_amount: bn, fee_amount: fee }),
        Side::Ask => Ok(SwapQuote { in_amount: bn, out_amount: qn - fee, fee_amount: fee }),
    }
}


/// Placing an order that rests without matching and cancelling it at once restores the
/// account's free and locked balances and lot counters exactly: `place_order` leaves the
/// position at `placed`, and `cancel_order` hands back the same reservation for the same
/// quantity.
pub proof fn lemma_place_cancel_round_trip(p: Position, side: Side, quantity: int, lock: int, placed: Position)
    requires
        position_after_lock(position_after_take(p, side, 0, 0, 0), side, quantity, lock) == Some(placed),
    ensures
        position_after_release(placed, side, quantity, lock) == Some(p),
{
    assert(position_after_take(p, side, 0, 0, 0) == p);
}


/// The accounts handed to an order placement belong together: the open-orders account is
/// on this market and the signer owns it or is its delegate, the oracles and the open-orders
/// admin are the market's, and the vault is one of the market's. Each failed check has its
/// own error, in that order.
pub fn check_place_order_accounts(
    market: &Market,
    market_key: &Pubkey,
    account: &OpenOrdersAccount,
    signer: &Pubkey,
    open_orders_admin: Option<Pubkey>,
    market_vault: &Pubkey,
    oracle_a: Option<Pubkey>,
    oracle_b: Option<Pubkey>,
) -> (r: Result<(), OpenBookError>)
    ensures
        r == (if account.market.bytes@ != market_key.bytes@ {
            Err(OpenBookError::InvalidMarket)
        } else if !(signer.bytes@ == account.owner.bytes@ || account.delegate.view_option() == Some(signer.bytes@)) {
            Err(OpenBookError::NoOwnerOrDelegate)
        } else if market.oracle_a.view_option() != option_key_view(oracle_a) || market.oracle_b.view_option()
            != option_key_view(oracle_b) {
            Err(OpenBookError::InvalidOracleAccount)
        } else if market.open_orders_admin.view_option() != option_key_view(open_orders_admin) {
            Err(OpenBookError::InvalidOpenOrdersAdmin)
        } else if !(market_vault.bytes@ == market.market_quote_vault.bytes@ || market_vault.bytes@
            == market.market_base_vault.bytes@) {
            Err(OpenBookError::InvalidMarketVault)
        } else {
            Ok(())
        }),
{
    if !account.market.same_key(market_key) {
        return Err(OpenBookError::InvalidMarket);
    }
    if !account.is_owner_or_delegate(signer) {
        return Err(OpenBookError::NoOwnerOrDelegate);
    }
    if !same_option(&market.oracle_a, oracle_a) || !same_option(&market.oracle_b, oracle_b) {
        return Err(OpenBookError::InvalidOracleAccount);
    }
    if !same_option(&market.open_orders_admin, open_orders_admin) {
        return Err(OpenBookError::InvalidOpenOrdersAdmin);
    }
    if !market.is_market_vault(market_vault) {
        return Err(OpenBookError::InvalidMarketVault);
    }
    Ok(())
}

/// The stored key option and the given one name the same address, or both none.
fn same_option(stored: &NonZeroPubkeyOption, given: Option<Pubkey>) -> (r: bool)
    ensures
        r == (stored.view_option() == option_key_view(given)),
{
    match given {
        Some(k) => {
            if k.is_zero() {
                stored.is_none()
            } else {
                stored.eq_key(&k)
            }
        },
        None => stored.is_none(),
    }
}

} // verus!
