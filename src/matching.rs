use vstd::prelude::*;

use crate::book::{
    best_valid_index, effective_price, find_best, is_matchable, leaves_wf, lock_price, opposite, order_price_now, precedes_at, LeafNode,
    Side,
};
use crate::error::OpenBookError;
use crate::events::{AnyEvent, FillEvent, OutEvent};
use crate::market::{fee_floor, Market};
use crate::pubkey::Pubkey;

verus! {

/// What an incoming order does with the part it cannot match at once.
#[derive(Clone, Copy, Debug, PartialEq, Eq, Structural)]
pub enum PlaceOrderType {
    /// Match, then rest the remainder.
    Limit,
    /// Match, then drop the remainder.
    ImmediateOrCancel,
    /// Rest only; dropped whole when it would match.
    PostOnly,
    /// Match at any price, then drop the remainder.
    Market,
}

/// What happens when an incoming order meets a resting order of its own account.
#[derive(Clone, Copy, Debug, PartialEq, Eq, Structural)]
pub enum SelfTradeBehavior {
    /// Match as with anyone else; both orders decrease.
    DecrementTake,
    /// Take the resting order out of the book and go on.
    CancelProvide,
    /// Fail the whole operation.
    AbortTransaction,
}

/// The effect of walking the opposing side for an incoming order.
#[derive(Debug)]
pub struct MatchResult {
    /// The opposing side's orders afterwards.
    pub remaining: Vec<LeafNode>,
    /// Fill and out events, in the order they happened.
    pub events: Vec<AnyEvent>,
    pub base_matched_lots: i64,
    pub quote_matched_lots: i64,
    pub maker_rebates_native: u64,
    pub maker_fees_native: u64,
}

/// A maker at `maker_price` is acceptable to a taker of `taker_side` with limit `limit`.
pub open spec fn crosses(taker_side: Side, maker_price: int, limit: int) -> bool {
    match taker_side {
        Side::Bid => maker_price <= limit,
        Side::Ask => maker_price >= limit,
    }
}

/// Rate of the maker rebate, 0 when makers pay a fee.
pub open spec fn rebate_rate(m: Market) -> int {
    if m.maker_fee > 0 { 0 } else { -m.maker_fee as int }
}

/// Rate of the maker fee, 0 when makers get a rebate.
pub open spec fn maker_fee_rate(m: Market) -> int {
    if m.maker_fee > 0 { m.maker_fee as int } else { 0 }
}

pub open spec fn fills_base(s: Seq<AnyEvent>) -> int
    decreases s.len(),
{
    if s.len() == 0 {
        0
    } else {
        fills_base(s.drop_last()) + match s.last() {
            AnyEvent::Fill(f) => f.quantity as int,
            AnyEvent::Out(_) => 0,
        }
    }
}

pub open spec fn fills_quote(s: Seq<AnyEvent>) -> int
    decreases s.len(),
{
    if s.len() == 0 {
        0
    } else {
        fills_quote(s.drop_last()) + match s.last() {
            AnyEvent::Fill(f) => f.quantity as int * f.price as int,
            AnyEvent::Out(_) => 0,
        }
    }
}

pub open spec fn fills_rebate(s: Seq<AnyEvent>) -> int
    decreases s.len(),
{
    if s.len() == 0 {
        0
    } else {
        fills_rebate(s.drop_last()) + match s.last() {
            AnyEvent::Fill(f) => f.maker_rebate_native as int,
            AnyEvent::Out(_) => 0,
        }
    }
}

pub open spec fn fills_maker_fee(s: Seq<AnyEvent>) -> int
    decreases s.len(),
{
    if s.len() == 0 {
        0
    } else {
        fills_maker_fee(s.drop_last()) + match s.last() {
            AnyEvent::Fill(f) => f.maker_fee_native as int,
            AnyEvent::Out(_) => 0,
        }
    }
}

/// A resting order's reservation covers what its remaining quantity can still cost on
/// market `m`: for a bid, its quote at the reservation price plus the maker fee on it; for an
/// ask, its base.
pub open spec fn leaf_reserved(maker_side: Side, leaf: LeafNode, m: Market) -> bool {
    match maker_side {
        Side::Bid => {
            let q = leaf.quantity as int * lock_price(leaf.price) * m.quote_lot_size as int;
            &&& lock_price(leaf.price) >= 1
            &&& leaf.locked_native as int >= q + fee_floor(q, maker_fee_rate(m))
        },
        Side::Ask => leaf.locked_native as int >= leaf.quantity as int * m.base_lot_size as int,
    }
}

pub open spec fn all_reserved(maker_side: Side, s: Seq<LeafNode>, m: Market) -> bool {
    forall|i: int| 0 <= i < s.len() ==> leaf_reserved(maker_side, #[trigger] s[i], m)
}

/// Filling `f` of `total` reserved lots at a price no worse than the reservation's spends no
/// more than the reservation holds, and what stays covers the lots that stay.
proof fn lemma_reservation_covers_fill(f: int, total: int, p: int, l: int, qls: int, r: int, locked: int)
    requires
        0 <= f <= total,
        1 <= p <= l,
        qls >= 1,
        0 <= r <= 1_000_000,
        locked >= total * l * qls + fee_floor(total * l * qls, r),
    ensures
        f * p * qls + fee_floor(f * p * qls, r) <= locked,
        locked - (f * p * qls + fee_floor(f * p * qls, r)) >= (total - f) * l * qls + fee_floor(
            (total - f) * l * qls,
            r,
        ),
{
    let a = f * p * qls;
    let b = f * l * qls;
    let c = (total - f) * l * qls;
    assert(0 <= a <= b) by (nonlinear_arith)
        requires
            a == f * p * qls,
            b == f * l * qls,
            0 <= f,
            1 <= p <= l,
            qls >= 1,
    ;
    assert(c >= 0 && b + c == total * l * qls) by (nonlinear_arith)
        requires
            c == (total - f) * l * qls,
            b == f * l * qls,
            f <= total,
            l >= 1,
            qls >= 1,
    ;
    assert(fee_floor(a, r) <= fee_floor(b, r)) by (nonlinear_arith)
        requires
            0 <= a <= b,
            r >= 0,
            fee_floor(a, r) == (a * r) / 1_000_000,
            fee_floor(b, r) == (b * r) / 1_000_000,
    ;
    lemma_fee_floor_superadditive(b, c, r);
}
/// A fill of a taker of `side` with limit `limit` on market `m`: it crosses, and its
/// amounts and fees follow from its price and quantity.
pub open spec fn fill_ok(f: FillEvent, side: Side, limit: int, m: Market) -> bool {
    let q = f.quantity as int * f.price as int * m.quote_lot_size as int;
    &&& f.taker_side == side
    &&& f.quantity > 0
    &&& f.price >= 1
    &&& crosses(side, f.price as int, limit)
    &&& f.base_native == f.quantity as int * m.base_lot_size as int
    &&& f.quote_native == q
    &&& f.maker_fee_native == fee_floor(q, maker_fee_rate(m))
    &&& f.maker_rebate_native == fee_floor(q, rebate_rate(m))
}

pub open spec fn event_ok(e: AnyEvent, side: Side, limit: int, m: Market, taker: Pubkey) -> bool {
    match e {
        AnyEvent::Fill(f) => fill_ok(f, side, limit, m),
        AnyEvent::Out(o) => o.side == opposite(side) && o.owner.bytes@ == taker.bytes@ && o.quantity > 0,
    }
}

/// Each fill's resting order does not come after a later fill's in price-time priority.
pub open spec fn fills_in_priority(s: Seq<AnyEvent>, maker_side: Side) -> bool {
    forall|a: int, b: int|
        0 <= a < b < s.len() && (#[trigger] s[a]) is Fill && (#[trigger] s[b]) is Fill ==> !precedes_at(
            maker_side,
            s[b]->Fill_0.price as int,
            s[b]->Fill_0.maker_seq_num as int,
            s[a]->Fill_0.price as int,
            s[a]->Fill_0.maker_seq_num as int,
        )
}

/// No order left in `orders` that can still match comes before a resting order that filled.
pub open spec fn nothing_skipped(s: Seq<AnyEvent>, orders: Seq<LeafNode>, maker_side: Side, now_ts: u64, oracle_price_lots: Option<i64>) -> bool {
    forall|a: int, j: int|
        0 <= a < s.len() && 0 <= j < orders.len() && (#[trigger] s[a]) is Fill && is_matchable(
            maker_side,
            #[trigger] orders[j],
            now_ts,
            oracle_price_lots,
        ) ==> !precedes_at(
            maker_side,
            effective_price(maker_side, orders[j].price, oracle_price_lots).unwrap(),
            orders[j].seq_num as int,
            s[a]->Fill_0.price as int,
            s[a]->Fill_0.maker_seq_num as int,
        )
}

proof fn lemma_fee_floor_superadditive(a: int, b: int, r: int)
    requires
        a >= 0,
        b >= 0,
        r >= 0,
    ensures
        fee_floor(a, r) + fee_floor(b, r) <= fee_floor(a + b, r),
{
    assert((a * r) / 1_000_000 + (b * r) / 1_000_000 <= (a * r + b * r) / 1_000_000) by (nonlinear_arith)
        requires
            a * r >= 0,
            b * r >= 0,
    ;
    assert((a + b) * r == a * r + b * r) by (nonlinear_arith);
}

proof fn lemma_fill_bounds(f: int, p: int, rem_quote: int, quote_matched: int, max_quote: int, qls: int)
    requires
        f >= 0,
        p >= 1,
        f <= rem_quote / p,
        rem_quote == max_quote - quote_matched,
        0 <= quote_matched,
        rem_quote >= 0,
        qls >= 1,
        max_quote * qls <= i64::MAX,
    ensures
        f * p <= rem_quote,
        0 <= f * p,
        (quote_matched + f * p) * qls <= i64::MAX,
        0 <= f * p * qls <= i64::MAX,
        (quote_matched + f * p) * qls == quote_matched * qls + f * p * qls,
{
    assert(f * p <= (rem_quote / p) * p) by (nonlinear_arith)
        requires
            f <= rem_quote / p,
            p >= 1,
    ;
    assert((rem_quote / p) * p <= rem_quote) by (nonlinear_arith)
        requires
            rem_quote >= 0,
            p >= 1,
    ;
    assert(0 <= f * p) by (nonlinear_arith)
        requires
            f >= 0,
            p >= 1,
    ;
    assert((quote_matched + f * p) * qls <= max_quote * qls) by (nonlinear_arith)
        requires
            quote_matched + f * p <= max_quote,
            qls >= 1,
    ;
    assert(0 <= f * p * qls <= (quote_matched + f * p) * qls) by (nonlinear_arith)
        requires
            0 <= f * p,
            0 <= quote_matched,
            qls >= 1,
    ;
    assert((quote_matched + f * p) * qls == quote_matched * qls + f * p * qls) by (nonlinear_arith);
}

proof fn lemma_base_bounds(f: int, base_matched: int, max_base: int, bls: int)
    requires
        0 <= f,
        0 <= base_matched,
        base_matched + f <= max_base,
        bls >= 1,
        max_base * bls <= i64::MAX,
    ensures
        0 <= f * bls <= i64::MAX,
{
    assert(0 <= f * bls <= max_base * bls) by (nonlinear_arith)
        requires
            0 <= f,
            f <= max_base,
            bls >= 1,
    ;
}

/// The inputs of a walk of the opposing side that stay fixed while it runs.
#[derive(Clone, Copy, Debug)]
pub struct WalkParams {
    pub side: Side,
    pub taker: Pubkey,
    pub taker_client_order_id: u64,
    pub self_trade_behavior: SelfTradeBehavior,
    pub limit_price: i64,
    pub max_base: i64,
    pub max_quote: i64,
    pub now_ts: u64,
    pub oracle_price_lots: Option<i64>,
}

pub open spec fn walk_params(
    side: Side,
    taker: Pubkey,
    taker_client_order_id: u64,
    self_trade_behavior: SelfTradeBehavior,
    limit_price: i64,
    max_base: i64,
    max_quote: i64,
    now_ts: u64,
    oracle_price_lots: Option<i64>,
) -> WalkParams {
    WalkParams {
        side,
        taker,
        taker_client_order_id,
        self_trade_behavior,
        limit_price,
        max_base,
        max_quote,
        now_ts,
        oracle_price_lots,
    }
}

/// A point of a walk: the opposing orders left, the events so far, and the base and quote
/// lots matched so far.
pub type WalkState = (Seq<LeafNode>, Seq<AnyEvent>, int, int);

/// The resting order belongs to the taker's account and is to be taken out of the book.
pub open spec fn self_cancels(p: WalkParams, leaf: LeafNode) -> bool {
    leaf.owner.bytes@ == p.taker.bytes@ && p.self_trade_behavior == SelfTradeBehavior::CancelProvide
}

/// The resting order belongs to the taker's account and the whole operation is to fail.
pub open spec fn self_aborts(p: WalkParams, leaf: LeafNode) -> bool {
    leaf.owner.bytes@ == p.taker.bytes@ && p.self_trade_behavior == SelfTradeBehavior::AbortTransaction
}

/// `min(base left, the order's quantity, quote left / price)`.
pub open spec fn fill_quantity(p: WalkParams, leaf: LeafNode, price: int, base: int, quote: int) -> int {
    let by_base = p.max_base - base;
    let by_quote = (p.max_quote - quote) / price;
    let a = if leaf.quantity < by_base { leaf.quantity as int } else { by_base };
    if by_quote < a { by_quote } else { a }
}

/// The part of a resting order's reservation that a fill of `f` lots at `price` spends: for a
/// resting bid its quote plus the maker fee (rounded down), for a resting ask its base.
pub open spec fn lock_spent(m: Market, taker_side: Side, f: int, price: int) -> int {
    let q = f * price * m.quote_lot_size as int;
    match taker_side {
        Side::Ask => q + fee_floor(q, maker_fee_rate(m)),
        Side::Bid => f * m.base_lot_size as int,
    }
}

pub open spec fn fill_event_of(m: Market, p: WalkParams, leaf: LeafNode, price: int, f: int) -> FillEvent {
    let q = f * price * m.quote_lot_size as int;
    let spent = lock_spent(m, p.side, f, price);
    let out = f == leaf.quantity;
    FillEvent {
        taker_side: p.side,
        maker_out: out,
        maker_slot: leaf.owner_slot,
        timestamp: p.now_ts,
        maker: leaf.owner,
        maker_order_id: leaf.key,
        maker_seq_num: leaf.seq_num,
        maker_client_order_id: leaf.client_order_id,
        taker: p.taker,
        taker_client_order_id: p.taker_client_order_id,
        price: price as i64,
        quantity: f as i64,
        base_native: (f * m.base_lot_size as int) as u64,
        quote_native: q as u64,
        maker_fee_native: fee_floor(q, maker_fee_rate(m)) as u64,
        maker_rebate_native: fee_floor(q, rebate_rate(m)) as u64,
        lock_spent: spent as u64,
        lock_released: if out { (leaf.locked_native - spent) as u64 } else { 0 },
    }
}

pub open spec fn out_event_of(maker_side: Side, leaf: LeafNode, now_ts: u64) -> OutEvent {
    OutEvent {
        side: maker_side,
        owner_slot: leaf.owner_slot,
        timestamp: now_ts,
        owner: leaf.owner,
        order_id: leaf.key,
        quantity: leaf.quantity,
        lock_released: leaf.locked_native,
    }
}

/// One step of the walk at the best order `i` of `s`: it crosses the limit, and either it is
/// the taker's own order under `CancelProvide` and leaves the book with an out event, or it
/// fills by `fill_quantity > 0` lots at its effective price: removed when filled in full, else
/// reduced, with its reservation reduced by what the fill spends.
pub open spec fn step_at(m: Market, p: WalkParams, s: WalkState, i: int, t: WalkState) -> bool {
    let maker_side = opposite(p.side);
    let leaf = s.0[i];
    let price = effective_price(maker_side, leaf.price, p.oracle_price_lots).unwrap();
    &&& crosses(p.side, price, p.limit_price as int)
    &&& !self_aborts(p, leaf)
    &&& if self_cancels(p, leaf) {
        t == (s.0.remove(i), s.1.push(AnyEvent::Out(out_event_of(maker_side, leaf, p.now_ts))), s.2, s.3)
    } else {
        let f = fill_quantity(p, leaf, price, s.2, s.3);
        let spent = lock_spent(m, p.side, f, price);
        &&& f > 0
        &&& leaf.locked_native >= spent
        &&& t == (
            if f == leaf.quantity {
                s.0.remove(i)
            } else {
                s.0.update(
                    i,
                    LeafNode { quantity: (leaf.quantity - f) as i64, locked_native: (leaf.locked_native - spent) as u64, ..leaf },
                )
            },
            s.1.push(AnyEvent::Fill(fill_event_of(m, p, leaf, price, f))),
            s.2 + f,
            s.3 + f * price,
        )
    }
}

/// `t` follows `s` by one step at a best order of `s`, with budget left on both sides.
pub open spec fn walk_step(m: Market, p: WalkParams, s: WalkState, t: WalkState) -> bool {
    &&& s.2 < p.max_base
    &&& s.3 < p.max_quote
    &&& exists|i: usize|
        best_valid_index(opposite(p.side), s.0, p.now_ts, p.oracle_price_lots, Some(i)) && step_at(m, p, s, i as int, t)
}

/// `fin` is reached from `init` by steps of the walk.
pub open spec fn walk_from(m: Market, p: WalkParams, init: WalkState, fin: WalkState) -> bool {
    exists|states: Seq<WalkState>|
        {
            &&& states.len() >= 1
            &&& states[0] == init
            &&& states.last() == fin
            &&& forall|k: int| 0 <= k < states.len() - 1 ==> #[trigger] walk_step(m, p, states[k], states[k + 1])
        }
}

/// The walk may not go on from `s`: the event budget or a lot budget is used up, no order
/// can match, or the best order does not cross or cannot take one lot of what is left.
pub open spec fn walk_stopped(m: Market, p: WalkParams, max_events: int, s: WalkState) -> bool {
    let maker_side = opposite(p.side);
    ||| s.1.len() >= max_events
    ||| s.2 >= p.max_base
    ||| s.3 >= p.max_quote
    ||| best_valid_index(maker_side, s.0, p.now_ts, p.oracle_price_lots, None)
    ||| exists|i: usize|
        best_valid_index(maker_side, s.0, p.now_ts, p.oracle_price_lots, Some(i)) && {
            let leaf = s.0[i as int];
            let price = effective_price(maker_side, leaf.price, p.oracle_price_lots).unwrap();
            !crosses(p.side, price, p.limit_price as int) || (!self_cancels(p, leaf) && !self_aborts(p, leaf)
                && fill_quantity(p, leaf, price, s.2, s.3) <= 0)
        }
}

/// Walks the opposing orders in price-time priority for a taker of `side` that accepts
/// prices up to `limit_price` (down to it for an ask), for at most `max_base` base lots,
/// `max_quote` quote lots and `max_events` events. Each step fills the best order that can
/// match, by `min(base left, the order's quantity, quote left / price)`, or, for an order
/// of the taker's own account under `CancelProvide`, takes it out of the book. It stops
/// at the first order that does not cross, or when a budget runs out. Nothing is changed:
/// the outcome is returned.
pub fn match_orders(
    market: &Market,
    opposing: &Vec<LeafNode>,
    taker: &Pubkey,
    taker_client_order_id: u64,
    side: Side,
    self_trade_behavior: SelfTradeBehavior,
    limit_price: i64,
    max_base: i64,
    max_quote: i64,
    max_events: usize,
    now_ts: u64,
    oracle_price_lots: Option<i64>,
) -> (r: Result<MatchResult, OpenBookError>)
    requires
        market.wf(),
        leaves_wf(opposing@),
        0 <= max_base,
        max_base as int * market.base_lot_size as int <= i64::MAX,
        0 <= max_quote,
        max_quote as int * market.quote_lot_size as int <= i64::MAX,
    ensures
        match r {
            Ok(m) => {
                &&& 0 <= m.base_matched_lots <= max_base
                &&& 0 <= m.quote_matched_lots <= max_quote
                &&& m.events@.len() <= max_events
                &&& fills_base(m.events@) == m.base_matched_lots
                &&& fills_quote(m.events@) == m.quote_matched_lots
                &&& fills_rebate(m.events@) == m.maker_rebates_native
                &&& fills_maker_fee(m.events@) == m.maker_fees_native
                &&& m.maker_rebates_native <= fee_floor(
                    m.quote_matched_lots as int * market.quote_lot_size as int,
                    rebate_rate(*market),
                )
                &&& m.maker_fees_native <= m.quote_matched_lots as int * market.quote_lot_size as int
                &&& forall|k: int|
                    0 <= k < m.events@.len() ==> event_ok(#[trigger] m.events@[k], side, limit_price as int, *market, *taker)
                &&& self_trade_behavior != SelfTradeBehavior::CancelProvide ==> forall|k: int|
                    0 <= k < m.events@.len() ==> (#[trigger] m.events@[k]) is Fill
                &&& fills_in_priority(m.events@, opposite(side))
                &&& nothing_skipped(m.events@, m.remaining@, opposite(side), now_ts, oracle_price_lots)
                &&& leaves_wf(m.remaining@)
                &&& m.remaining@.len() <= opposing@.len()
                &&& all_reserved(opposite(side), opposing@, *market) ==> all_reserved(opposite(side), m.remaining@, *market)
                &&& walk_from(
                    *market,
                    walk_params(side, *taker, taker_client_order_id, self_trade_behavior, limit_price, max_base, max_quote, now_ts, oracle_price_lots),
                    (opposing@, Seq::empty(), 0, 0),
                    (m.remaining@, m.events@, m.base_matched_lots as int, m.quote_matched_lots as int),
                )
                &&& walk_stopped(
                    *market,
                    walk_params(side, *taker, taker_client_order_id, self_trade_behavior, limit_price, max_base, max_quote, now_ts, oracle_price_lots),
                    max_events as int,
                    (m.remaining@, m.events@, m.base_matched_lots as int, m.quote_matched_lots as int),
                )
            },
            Err(e) => (e == OpenBookError::WouldSelfTrade && self_trade_behavior == SelfTradeBehavior::AbortTransaction)
                || (e == OpenBookError::InvariantViolation && !all_reserved(opposite(side), opposing@, *market)),
        },
{
    let maker_side = side.invert();
    let bls = market.base_lot_size;
    let qls = market.quote_lot_size;
    let mut opp: Vec<LeafNode> = Vec::new();
    let mut c: usize = 0;
    while c < opposing.len()
        invariant
            0 <= c <= opposing@.len(),
            opp@ == opposing@.subrange(0, c as int),
        decreases opposing@.len() - c,
    {
        opp.push(opposing[c]);
        proof {
            assert(opp@ =~= opposing@.subrange(0, c + 1));
        }
        c = c + 1;
    }
    proof {
        assert(opp@ =~= opposing@);
    }
    let mut events: Vec<AnyEvent> = Vec::new();
    let mut base_matched: i64 = 0;
    let mut quote_matched: i64 = 0;
    let mut rebates: u64 = 0;
    let mut maker_fees: u64 = 0;
    let ghost wp = walk_params(
        side,
        *taker,
        taker_client_order_id,
        self_trade_behavior,
        limit_price,
        max_base,
        max_quote,
        now_ts,
        oracle_price_lots,
    );
    let ghost mut states: Seq<WalkState> = seq![(opp@, events@, 0int, 0int)];
    proof {
        assert(events@ =~= Seq::<AnyEvent>::empty());
    }
    while events.len() < max_events
        invariant
            wp == walk_params(
                side,
                *taker,
                taker_client_order_id,
                self_trade_behavior,
                limit_price,
                max_base,
                max_quote,
                now_ts,
                oracle_price_lots,
            ),
            states.len() >= 1,
            states[0] == (opposing@, Seq::<AnyEvent>::empty(), 0int, 0int),
            states.last() == (opp@, events@, base_matched as int, quote_matched as int),
            forall|k: int| 0 <= k < states.len() - 1 ==> #[trigger] walk_step(*market, wp, states[k], states[k + 1]),
            maker_side == opposite(side),
            bls == market.base_lot_size,
            qls == market.quote_lot_size,
            market.wf(),
            0 <= max_base,
            max_base as int * bls as int <= i64::MAX,
            0 <= max_quote,
            max_quote as int * qls as int <= i64::MAX,
            events@.len() <= max_events,
            0 <= base_matched <= max_base,
            0 <= quote_matched <= max_quote,
            fills_base(events@) == base_matched,
            fills_quote(events@) == quote_matched,
            fills_rebate(events@) == rebates,
            fills_maker_fee(events@) == maker_fees,
            rebates <= fee_floor(quote_matched as int * qls as int, rebate_rate(*market)),
            maker_fees <= quote_matched as int * qls as int,
            rebates <= quote_matched as int * qls as int,
            forall|k: int| 0 <= k < events@.len() ==> event_ok(#[trigger] events@[k], side, limit_price as int, *market, *taker),
            fills_in_priority(events@, maker_side),
            self_trade_behavior != SelfTradeBehavior::CancelProvide ==> forall|k: int|
                0 <= k < events@.len() ==> (#[trigger] events@[k]) is Fill,
            nothing_skipped(events@, opp@, maker_side, now_ts, oracle_price_lots),
            leaves_wf(opp@),
            opp@.len() <= opposing@.len(),
            all_reserved(maker_side, opposing@, *market) ==> all_reserved(maker_side, opp@, *market),
        ensures
            walk_stopped(*market, wp, max_events as int, (opp@, events@, base_matched as int, quote_matched as int)),
        decreases max_events - events@.len(),
    {
        if base_matched >= max_base || quote_matched >= max_quote {
            break;
        }
        let i = match find_best(maker_side, &opp, now_ts, oracle_price_lots) {
            Some(i) => i,
            None => {
                break;
            },
        };
        let leaf = opp[i];
        let p = match order_price_now(maker_side, leaf.price, oracle_price_lots) {
            Some(p) => p,
            None => {
                break;
            },
        };
        let crossing = match side {
            Side::Bid => p <= limit_price,
            Side::Ask => p >= limit_price,
        };
        if !crossing {
            proof {
                assert(best_valid_index(maker_side, opp@, now_ts, oracle_price_lots, Some(i)));
                assert(!crosses(side, effective_price(maker_side, opp@[i as int].price, oracle_price_lots).unwrap(), limit_price as int));
            }
            break;
        }
        let ghost old_events = events@;
        let ghost old_opp = opp@;
        if leaf.owner.same_key(taker) {
            match self_trade_behavior {
                SelfTradeBehavior::AbortTransaction => {
                    return Err(OpenBookError::WouldSelfTrade);
                },
                SelfTradeBehavior::CancelProvide => {
                    opp.remove(i);
                    let out = OutEvent {
                        side: maker_side,
                        owner_slot: leaf.owner_slot,
                        timestamp: now_ts,
                        owner: leaf.owner,
                        order_id: leaf.key,
                        quantity: leaf.quantity,
                        lock_released: leaf.locked_native,
                    };
                    events.push(AnyEvent::Out(out));
                    proof {
                        assert(events@.drop_last() =~= old_events);
                        assert forall|j: int| 0 <= j < opp@.len() implies #[trigger] opp@[j].quantity > 0 && (all_reserved(maker_side, opposing@, *market) ==> leaf_reserved(maker_side, opp@[j], *market)) by {
                            if j < i {
                                assert(opp@[j] == old_opp[j]);
                            } else {
                                assert(opp@[j] == old_opp[j + 1]);
                            }
                        }
                        assert forall|k: int| 0 <= k < events@.len() implies event_ok(#[trigger] events@[k], side, limit_price as int, *market, *taker) by {
                            if k < old_events.len() {
                                assert(events@[k] == old_events[k]);
                            }
                        }
                        assert forall|a: int, b: int|
                            0 <= a < b < events@.len() && (#[trigger] events@[a]) is Fill && (#[trigger] events@[b]) is Fill implies !precedes_at(
                                maker_side,
                                events@[b]->Fill_0.price as int,
                                events@[b]->Fill_0.maker_seq_num as int,
                                events@[a]->Fill_0.price as int,
                                events@[a]->Fill_0.maker_seq_num as int,
                            ) by {
                            assert(events@[a] == old_events[a]);
                            assert(events@[b] == old_events[b]);
                        }
                        assert forall|a: int, j: int|
                            0 <= a < events@.len() && 0 <= j < opp@.len() && (#[trigger] events@[a]) is Fill && is_matchable(
                                maker_side,
                                #[trigger] opp@[j],
                                now_ts,
                                oracle_price_lots,
                            ) implies !precedes_at(
                                maker_side,
                                effective_price(maker_side, opp@[j].price, oracle_price_lots).unwrap(),
                                opp@[j].seq_num as int,
                                events@[a]->Fill_0.price as int,
                                events@[a]->Fill_0.maker_seq_num as int,
                            ) by {
                            assert(events@[a] == old_events[a]);
                            if j < i {
                                assert(opp@[j] == old_opp[j]);
                            } else {
                                assert(opp@[j] == old_opp[j + 1]);
                            }
                        }
                        let ghost cur = (old_opp, old_events, base_matched as int, quote_matched as int);
                        let ghost next = (opp@, events@, base_matched as int, quote_matched as int);
                        assert(out == out_event_of(maker_side, leaf, now_ts));
                        assert(step_at(*market, wp, cur, i as int, next));
                        assert(walk_step(*market, wp, cur, next));
                        let ghost prev = states;
                        states = states.push(next);
                        assert forall|k: int| 0 <= k < states.len() - 1 implies #[trigger] walk_step(*market, wp, states[k], states[k + 1]) by {
                            if k < prev.len() - 1 {
                                assert(states[k] == prev[k] && states[k + 1] == prev[k + 1]);
                            }
                        }
                    }
                    continue;
                },
                SelfTradeBehavior::DecrementTake => {},
            }
        }
        let rem_base: i64 = max_base - base_matched;
        let rem_quote: i64 = max_quote - quote_matched;
        let by_quote: i64 = rem_quote / p;
        let mut f: i64 = rem_base;
        if leaf.quantity < f {
            f = leaf.quantity;
        }
        if by_quote < f {
            f = by_quote;
        }
        if f <= 0 {
            proof {
                assert(best_valid_index(maker_side, opp@, now_ts, oracle_price_lots, Some(i)));
                assert(fill_quantity(wp, opp@[i as int], p as int, base_matched as int, quote_matched as int) <= 0);
            }
            break;
        }
        proof {
            lemma_fill_bounds(f as int, p as int, rem_quote as int, quote_matched as int, max_quote as int, qls as int);
            lemma_base_bounds(f as int, base_matched as int, max_base as int, bls as int);
        }
        let q_lots: i64 = f * p;
        let quote_native: u64 = (q_lots * qls) as u64;
        let base_native: u64 = (f * bls) as u64;
        let fee: u64 = market.maker_fees_floor(quote_native);
        let rebate: u64 = market.maker_rebate_floor(quote_native);
        let spent: u64 = match side {
            Side::Ask => quote_native + fee,
            Side::Bid => base_native,
        };
        proof {
            if all_reserved(maker_side, opposing@, *market) {
                assert(leaf_reserved(maker_side, old_opp[i as int], *market));
                if side == Side::Ask {
                    lemma_reservation_covers_fill(
                        f as int,
                        leaf.quantity as int,
                        p as int,
                        lock_price(leaf.price),
                        qls as int,
                        maker_fee_rate(*market),
                        leaf.locked_native as int,
                    );
                } else {
                    assert(f as int * bls as int <= leaf.quantity as int * bls as int) by (nonlinear_arith)
                        requires
                            0 <= f <= leaf.quantity,
                            bls >= 1,
                    ;
                    assert((leaf.quantity - f) as int * bls as int == leaf.quantity as int * bls as int - f as int * bls as int) by (nonlinear_arith);
                }
            }
        }
        if leaf.locked_native < spent {
            return Err(OpenBookError::InvariantViolation);
        }
        let left: u64 = leaf.locked_native - spent;
        let out = f == leaf.quantity;
        if out {
            opp.remove(i);
        } else {
            opp.set(i, LeafNode { quantity: leaf.quantity - f, locked_native: left, ..leaf });
        }
        let fill = FillEvent {
            taker_side: side,
            maker_out: out,
            maker_slot: leaf.owner_slot,
            timestamp: now_ts,
            maker: leaf.owner,
            maker_order_id: leaf.key,
            maker_seq_num: leaf.seq_num,
            maker_client_order_id: leaf.client_order_id,
            taker: *taker,
            taker_client_order_id,
            price: p,
            quantity: f,
            base_native,
            quote_native,
            maker_fee_native: fee,
            maker_rebate_native: rebate,
            lock_spent: spent,
            lock_released: if out { left } else { 0 },
        };
        events.push(AnyEvent::Fill(fill));
        proof {
            assert(events@.drop_last() =~= old_events);
            lemma_fee_floor_superadditive(quote_matched as int * qls as int, q_lots as int * qls as int, rebate_rate(*market));
            assert(quote_native as int == f as int * p as int * qls as int);
            assert(fill_ok(fill, side, limit_price as int, *market));
            assert forall|j: int| 0 <= j < opp@.len() implies #[trigger] opp@[j].quantity > 0 && (all_reserved(maker_side, opposing@, *market) ==> leaf_reserved(maker_side, opp@[j], *market)) by {
                if out {
                    if j < i {
                        assert(opp@[j] == old_opp[j]);
                    } else {
                        assert(opp@[j] == old_opp[j + 1]);
                    }
                } else if j != i {
                    assert(opp@[j] == old_opp[j]);
                }
            }
            assert forall|k: int| 0 <= k < events@.len() implies event_ok(#[trigger] events@[k], side, limit_price as int, *market, *taker) by {
                if k < old_events.len() {
                    assert(events@[k] == old_events[k]);
                }
            }
            if self_trade_behavior != SelfTradeBehavior::CancelProvide {
                assert forall|k: int| 0 <= k < events@.len() implies (#[trigger] events@[k]) is Fill by {
                    if k < old_events.len() {
                        assert(events@[k] == old_events[k]);
                    }
                }
            }
            assert forall|a: int, b: int|
                0 <= a < b < events@.len() && (#[trigger] events@[a]) is Fill && (#[trigger] events@[b]) is Fill implies !precedes_at(
                    maker_side,
                    events@[b]->Fill_0.price as int,
                    events@[b]->Fill_0.maker_seq_num as int,
                    events@[a]->Fill_0.price as int,
                    events@[a]->Fill_0.maker_seq_num as int,
                ) by {
                assert(events@[a] == old_events[a]);
                if b < old_events.len() {
                    assert(events@[b] == old_events[b]);
                } else {
                    assert(is_matchable(maker_side, old_opp[i as int], now_ts, oracle_price_lots));
                }
            }
            assert forall|a: int, j: int|
                0 <= a < events@.len() && 0 <= j < opp@.len() && (#[trigger] events@[a]) is Fill && is_matchable(
                    maker_side,
                    #[trigger] opp@[j],
                    now_ts,
                    oracle_price_lots,
                ) implies !precedes_at(
                    maker_side,
                    effective_price(maker_side, opp@[j].price, oracle_price_lots).unwrap(),
                    opp@[j].seq_num as int,
                    events@[a]->Fill_0.price as int,
                    events@[a]->Fill_0.maker_seq_num as int,
                ) by {
                let jj = if out && j >= i { j + 1 } else { j };
                assert(opp@[j].price == old_opp[jj].price && opp@[j].seq_num == old_opp[jj].seq_num
                    && opp@[j].expiry_timestamp == old_opp[jj].expiry_timestamp);
                assert(is_matchable(maker_side, old_opp[jj], now_ts, oracle_price_lots));
                if a < old_events.len() {
                    assert(events@[a] == old_events[a]);
                }
            }
        }
        let ghost cur = (old_opp, old_events, base_matched as int, quote_matched as int);
        base_matched = base_matched + f;
        quote_matched = quote_matched + q_lots;
        rebates = rebates + rebate;
        maker_fees = maker_fees + fee;
        proof {
            let next = (opp@, events@, base_matched as int, quote_matched as int);
            assert(fee_floor(quote_native as int, 0) == 0);
            assert(fill == fill_event_of(*market, wp, leaf, p as int, f as int));
            assert(step_at(*market, wp, cur, i as int, next));
            assert(walk_step(*market, wp, cur, next));
            let prev = states;
            states = states.push(next);
            assert forall|k: int| 0 <= k < states.len() - 1 implies #[trigger] walk_step(*market, wp, states[k], states[k + 1]) by {
                if k < prev.len() - 1 {
                    assert(states[k] == prev[k] && states[k + 1] == prev[k + 1]);
                }
            }
        }
    }
    proof {
        assert(walk_from(*market, wp, states[0], states.last()));
    }
    Ok(MatchResult {
        remaining: opp,
        events,
        base_matched_lots: base_matched,
        quote_matched_lots: quote_matched,
        maker_rebates_native: rebates,
        maker_fees_native: maker_fees,
    })
}


proof fn lemma_ceil_plus_floor(a: int, b: int)
    requires
        a >= 0,
        b >= 0,
    ensures
        (a + 999_999) / 1_000_000 + b / 1_000_000 <= (a + b + 999_999) / 1_000_000,
{
    assert((a + 999_999) / 1_000_000 + b / 1_000_000 <= (a + b + 999_999) / 1_000_000) by (nonlinear_arith)
        requires
            a >= 0,
            b >= 0,
    ;
}

/// What a bid pays never exceeds its budget: with `qm + rest <= floor(budget * 10^6 /
/// (10^6 + t))` quote lots, the matched quote plus its taker fee (rounded up) plus the
/// resting part's quote and maker fee (rounded down, at rate `m <= t`) fit in
/// `budget * quote_lot_size`.
pub proof fn lemma_bid_cost_within_budget(qm: int, rest: int, budget: int, qls: int, t: int, m: int)
    requires
        qm >= 0,
        rest >= 0,
        budget >= 0,
        qls >= 1,
        0 <= m <= t <= 1_000_000,
        qm + rest <= (budget * 1_000_000) / (1_000_000 + t),
    ensures
        qm * qls + fee_ceil_int(qm * qls, t) + rest * qls + fee_floor(rest * qls, m) <= budget * qls,
{
    let a = qm * qls;
    let b = rest * qls;
    let x = a + b;
    let s = 1_000_000int;
    assert(a >= 0 && b >= 0) by (nonlinear_arith)
        requires
            qm >= 0,
            rest >= 0,
            qls >= 1,
            a == qm * qls,
            b == rest * qls,
    ;
    assert(b * m <= b * t) by (nonlinear_arith)
        requires
            b >= 0,
            m <= t,
    ;
    assert(fee_floor(b, m) <= fee_floor(b, t)) by (nonlinear_arith)
        requires
            0 <= b * m <= b * t,
            fee_floor(b, m) == (b * m) / 1_000_000,
            fee_floor(b, t) == (b * t) / 1_000_000,
    ;
    assert(a * t >= 0 && b * t >= 0) by (nonlinear_arith)
        requires
            a >= 0,
            b >= 0,
            t >= 0,
    ;
    lemma_ceil_plus_floor(a * t, b * t);
    assert(x * t == a * t + b * t) by (nonlinear_arith)
        requires
            x == a + b,
    ;
    let n = (budget * s) / (s + t);
    assert(n * (s + t) <= budget * s) by (nonlinear_arith)
        requires
            n == (budget * s) / (s + t),
            s + t > 0,
            budget >= 0,
    ;
    assert(x == (qm + rest) * qls) by (nonlinear_arith)
        requires
            x == a + b,
            a == qm * qls,
            b == rest * qls,
    ;
    assert(x * (s + t) <= budget * qls * s) by (nonlinear_arith)
        requires
            x == (qm + rest) * qls,
            qm + rest <= n,
            n * (s + t) <= budget * s,
            qls >= 1,
            qm + rest >= 0,
            s + t > 0,
    ;
    assert(x * t <= (budget * qls - x) * s) by (nonlinear_arith)
        requires
            x * (s + t) <= budget * qls * s,
    ;
    assert((x * t + 999_999) / 1_000_000 <= budget * qls - x) by (nonlinear_arith)
        requires
            x * t <= (budget * qls - x) * 1_000_000,
            x * t >= 0,
    ;
}

/// `amount * rate / 10^6`, rounded up.
pub open spec fn fee_ceil_int(amount: int, rate: int) -> int {
    (amount * rate + 999_999) / 1_000_000
}

} // verus!
