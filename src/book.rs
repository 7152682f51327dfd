use vstd::prelude::*;

use crate::error::OpenBookError;
use crate::pubkey::Pubkey;

verus! {

#[derive(Clone, Copy, Debug, PartialEq, Eq, Structural)]
pub enum Side {
    Bid,
    Ask,
}

pub open spec fn opposite(side: Side) -> Side {
    match side {
        Side::Bid => Side::Ask,
        Side::Ask => Side::Bid,
    }
}

impl Side {
    pub fn invert(self) -> (r: Side)
        ensures
            r == opposite(self),
    {
        match self {
            Side::Bid => Side::Ask,
            Side::Ask => Side::Bid,
        }
    }
}

pub open spec fn node_key_spec(side: Side, price_data: u64, seq_num: u64) -> int {
    price_data as int * 0x1_0000_0000_0000_0000 + (match side {
        Side::Bid => u64::MAX - seq_num,
        Side::Ask => seq_num as int,
    })
}

/// Of two orders at the same price on the same side, the earlier (smaller sequence number)
/// ranks first by id: its key is larger for bids and smaller for asks.
pub proof fn lemma_earlier_order_id_ranks_first(side: Side, price_data: u64, earlier: u64, later: u64)
    requires
        earlier < later,
    ensures
        side == Side::Bid ==> node_key_spec(side, price_data, earlier) > node_key_spec(side, price_data, later),
        side == Side::Ask ==> node_key_spec(side, price_data, earlier) < node_key_spec(side, price_data, later),
{
}

/// The order id: the price data in the upper 64 bits and the sequence number in the
/// lower 64, inverted for bids so that the earlier of two equal bids has the larger key.
pub fn new_node_key(side: Side, price_data: u64, seq_num: u64) -> (r: u128)
    ensures
        r as int == node_key_spec(side, price_data, seq_num),
{
    let low: u64 = match side {
        Side::Bid => u64::MAX - seq_num,
        Side::Ask => seq_num,
    };
    proof {
        assert(price_data as int * 0x1_0000_0000_0000_0000 + low as int <= u128::MAX)
            by (nonlinear_arith)
            requires
                price_data <= u64::MAX,
                low <= u64::MAX,
        ;
    }
    (price_data as u128) * 0x1_0000_0000_0000_0000u128 + low as u128
}


/// The two families of resting orders within one side.
#[derive(Clone, Copy, Debug, PartialEq, Eq, Structural)]
pub enum OrderTreeType {
    Fixed,
    OraclePegged,
}

/// How a resting order is priced.
#[derive(Clone, Copy, Debug, PartialEq, Eq, Structural)]
pub enum OrderPrice {
    /// A literal price in lots.
    Fixed { price_lots: i64 },
    /// The oracle's price in lots plus an offset; the order cannot match beyond `peg_limit`
    /// (above it for a bid, below it for an ask).
    Pegged { price_offset_lots: i64, peg_limit: i64 },
}

/// A resting order.
#[derive(Clone, Copy, Debug)]
pub struct LeafNode {
    /// The order id.
    pub key: u128,
    pub seq_num: u64,
    /// Address of the open-orders account that owns the order.
    pub owner: Pubkey,
    /// Index of the owner's open-order slot that refers to the order.
    pub owner_slot: u8,
    /// Remaining quantity in base lots.
    pub quantity: i64,
    pub client_order_id: u64,
    pub timestamp: u64,
    /// 0 for no expiry; else the order cannot match from this timestamp on.
    pub expiry_timestamp: u64,
    pub price: OrderPrice,
    /// Native amount still reserved for the order: quote for a bid, base for an ask.
    pub locked_native: u64,
}

pub open spec fn tree_of(price: OrderPrice) -> OrderTreeType {
    match price {
        OrderPrice::Fixed { .. } => OrderTreeType::Fixed,
        OrderPrice::Pegged { .. } => OrderTreeType::OraclePegged,
    }
}

/// The price at which a pegged order stands when the oracle's price in lots is
/// `oracle_price_lots`: their sum, if it is positive, fits an `i64` and lies within the
/// peg limit; else the order cannot match.
pub open spec fn pegged_price(
    side: Side,
    oracle_price_lots: int,
    price_offset_lots: int,
    peg_limit: int,
) -> Option<int> {
    let p = oracle_price_lots + price_offset_lots;
    if 1 <= p <= i64::MAX && (match side {
        Side::Bid => p <= peg_limit,
        Side::Ask => p >= peg_limit,
    }) {
        Some(p)
    } else {
        None
    }
}

/// The price of an order of `side` now, or `None` when it cannot match.
pub open spec fn effective_price(side: Side, price: OrderPrice, oracle_price_lots: Option<i64>) -> Option<int> {
    match price {
        OrderPrice::Fixed { price_lots } => if price_lots >= 1 { Some(price_lots as int) } else { None },
        OrderPrice::Pegged { price_offset_lots, peg_limit } => match oracle_price_lots {
            Some(o) => pegged_price(side, o as int, price_offset_lots as int, peg_limit as int),
            None => None,
        },
    }
}

/// The price in lots a bid's reservation is computed at: its price, or its peg limit.
pub open spec fn lock_price(price: OrderPrice) -> int {
    match price {
        OrderPrice::Fixed { price_lots } => price_lots as int,
        OrderPrice::Pegged { peg_limit, .. } => peg_limit as int,
    }
}

pub open spec fn is_expired_at(leaf: LeafNode, now_ts: u64) -> bool {
    leaf.expiry_timestamp != 0 && now_ts >= leaf.expiry_timestamp
}

pub open spec fn is_matchable(side: Side, leaf: LeafNode, now_ts: u64, oracle_price_lots: Option<i64>) -> bool {
    !is_expired_at(leaf, now_ts) && effective_price(side, leaf.price, oracle_price_lots) is Some
}

/// `a` is a better price than `b` for orders of `side`.
pub open spec fn better_price(side: Side, a: int, b: int) -> bool {
    match side {
        Side::Bid => a > b,
        Side::Ask => a < b,
    }
}

/// Price-time priority: `a` matches before `b` when its price is better, or equal with an
/// earlier sequence number.
pub open spec fn precedes(side: Side, a: LeafNode, b: LeafNode, oracle_price_lots: Option<i64>) -> bool {
    precedes_at(
        side,
        effective_price(side, a.price, oracle_price_lots).unwrap(),
        a.seq_num as int,
        effective_price(side, b.price, oracle_price_lots).unwrap(),
        b.seq_num as int,
    )
}

/// Price-time priority between an order at price `pa` with sequence number `sa` and one
/// at `pb` with `sb`.
pub open spec fn precedes_at(side: Side, pa: int, sa: int, pb: int, sb: int) -> bool {
    better_price(side, pa, pb) || (pa == pb && sa < sb)
}

/// Number of orders of one family in `s`.
pub open spec fn count_tree(s: Seq<LeafNode>, tree: OrderTreeType) -> nat
    decreases s.len(),
{
    if s.len() == 0 {
        0
    } else {
        count_tree(s.drop_last(), tree) + if tree_of(s.last().price) == tree { 1nat } else { 0nat }
    }
}

/// The price and quantity of an order with `price` on `side` when the oracle stands at
/// `oracle_price_lots`; used to re-test a pegged order after the oracle moved.
pub fn order_price_now(side: Side, price: OrderPrice, oracle_price_lots: Option<i64>) -> (r: Option<i64>)
    ensures
        match r {
            Some(p) => effective_price(side, price, oracle_price_lots) == Some(p as int),
            None => effective_price(side, price, oracle_price_lots) is None,
        },
{
    match price {
        OrderPrice::Fixed { price_lots } => if price_lots >= 1 { Some(price_lots) } else { None },
        OrderPrice::Pegged { price_offset_lots, peg_limit } => match oracle_price_lots {
            Some(o) => {
                let p: i128 = o as i128 + price_offset_lots as i128;
                let within = match side {
                    Side::Bid => p <= peg_limit as i128,
                    Side::Ask => p >= peg_limit as i128,
                };
                if 1 <= p && p <= i64::MAX as i128 && within {
                    Some(p as i64)
                } else {
                    None
                }
            },
            None => None,
        },
    }
}

/// The resting orders of one side of the book, bounded by `capacity`.
#[derive(Debug)]
pub struct BookSide {
    pub side: Side,
    pub capacity: usize,
    pub orders: Vec<LeafNode>,
}

pub open spec fn leaves_wf(s: Seq<LeafNode>) -> bool {
    forall|i: int| 0 <= i < s.len() ==> #[trigger] s[i].quantity > 0
}

impl BookSide {
    pub open spec fn wf(&self) -> bool {
        &&& self.orders@.len() <= self.capacity
        &&& leaves_wf(self.orders@)
    }

    pub fn new(side: Side, capacity: usize) -> (r: BookSide)
        ensures
            r.wf(),
            r.side == side,
            r.capacity == capacity,
            r.orders@ == Seq::<LeafNode>::empty(),
    {
        BookSide { side, capacity, orders: Vec::new() }
    }

    pub fn is_full(&self) -> (r: bool)
        ensures
            r == (self.orders@.len() >= self.capacity),
    {
        self.orders.len() >= self.capacity
    }

    /// Number of resting orders of one family.
    pub fn leaf_count(&self, tree: OrderTreeType) -> (r: usize)
        ensures
            r == count_tree(self.orders@, tree),
    {
        let mut n: usize = 0;
        let mut i: usize = 0;
        while i < self.orders.len()
            invariant
                0 <= i <= self.orders@.len(),
                n == count_tree(self.orders@.subrange(0, i as int), tree),
                n <= i,
            decreases self.orders@.len() - i,
        {
            proof {
                assert(self.orders@.subrange(0, i + 1).drop_last() =~= self.orders@.subrange(0, i as int));
            }
            let is_pegged = match self.orders[i].price {
                OrderPrice::Fixed { .. } => false,
                OrderPrice::Pegged { .. } => true,
            };
            if is_pegged == (tree == OrderTreeType::OraclePegged) {
                n = n + 1;
            }
            i = i + 1;
        }
        proof {
            assert(self.orders@.subrange(0, i as int) =~= self.orders@);
        }
        n
    }

    /// Index of the order that matches first: among the orders that are not expired and
    /// have a price now, the one that no other precedes.
    pub fn best_valid(&self, now_ts: u64, oracle_price_lots: Option<i64>) -> (r: Option<usize>)
        ensures
            best_valid_index(self.side, self.orders@, now_ts, oracle_price_lots, r),
    {
        find_best(self.side, &self.orders, now_ts, oracle_price_lots)
    }

    /// Adds a resting order; `BookFull` when the side holds `capacity` orders.
    pub fn insert_leaf(&mut self, leaf: LeafNode) -> (r: Result<(), OpenBookError>)
        requires
            old(self).wf(),
            leaf.quantity > 0,
        ensures
            final(self).wf(),
            final(self).side == old(self).side,
            final(self).capacity == old(self).capacity,
            r is Err ==> r == Err::<(), OpenBookError>(OpenBookError::BookFull) && *final(self) == *old(self),
            r is Ok ==> final(self).orders@ == old(self).orders@.push(leaf),
            (r is Err) == (old(self).orders@.len() >= old(self).capacity),
    {
        if self.orders.len() >= self.capacity {
            return Err(OpenBookError::BookFull);
        }
        self.orders.push(leaf);
        proof {
            assert forall|i: int| 0 <= i < self.orders@.len() implies #[trigger] self.orders@[i].quantity > 0 by {
                if i < old(self).orders@.len() {
                    assert(self.orders@[i] == old(self).orders@[i]);
                }
            }
        }
        Ok(())
    }

    /// Position of the order with id `key`, if any rests on this side.
    pub fn find_by_key(&self, key: u128) -> (r: Option<usize>)
        ensures
            find_key_result(self.orders@, key, r),
    {
        let mut i: usize = 0;
        while i < self.orders.len()
            invariant
                0 <= i <= self.orders@.len(),
                forall|j: int| 0 <= j < i ==> (#[trigger] self.orders@[j]).key != key,
            decreases self.orders@.len() - i,
        {
            if self.orders[i].key == key {
                return Some(i);
            }
            i = i + 1;
        }
        None
    }

    /// Takes the order with id `key` out of the book.
    pub fn remove_by_key(&mut self, key: u128) -> (r: Option<LeafNode>)
        requires
            old(self).wf(),
        ensures
            final(self).wf(),
            final(self).side == old(self).side,
            final(self).capacity == old(self).capacity,
            match r {
                Some(leaf) => exists|i: int|
                    find_key_result(old(self).orders@, key, Some(i as usize)) && 0 <= i < old(self).orders@.len()
                        && leaf == old(self).orders@[i] && final(self).orders@ == old(self).orders@.remove(i),
                None => find_key_result(old(self).orders@, key, None) && *final(self) == *old(self),
            },
    {
        match self.find_by_key(key) {
            Some(i) => {
                let leaf = self.orders.remove(i);
                proof {
                    assert forall|j: int| 0 <= j < self.orders@.len() implies #[trigger] self.orders@[j].quantity > 0 by {
                        if j < i {
                            assert(self.orders@[j] == old(self).orders@[j]);
                        } else {
                            assert(self.orders@[j] == old(self).orders@[j + 1]);
                        }
                    }
                }
                Some(leaf)
            },
            None => None,
        }
    }
}

/// `r` is the first position of `key` in `s`, or `None` when `key` is absent.
pub open spec fn find_key_result(s: Seq<LeafNode>, key: u128, r: Option<usize>) -> bool {
    match r {
        Some(i) => 0 <= i < s.len() && s[i as int].key == key && forall|j: int|
            0 <= j < i ==> (#[trigger] s[j]).key != key,
        None => forall|j: int| 0 <= j < s.len() ==> (#[trigger] s[j]).key != key,
    }
}

/// `r` is the order of `s` that matches first, or `None` when no order of `s` can match.
pub open spec fn best_valid_index(
    side: Side,
    s: Seq<LeafNode>,
    now_ts: u64,
    oracle_price_lots: Option<i64>,
    r: Option<usize>,
) -> bool {
    match r {
        Some(i) => {
            &&& 0 <= i < s.len()
            &&& is_matchable(side, s[i as int], now_ts, oracle_price_lots)
            &&& forall|j: int|
                0 <= j < s.len() && is_matchable(side, #[trigger] s[j], now_ts, oracle_price_lots)
                    ==> !precedes(side, s[j], s[i as int], oracle_price_lots)
        },
        None => forall|j: int|
            0 <= j < s.len() ==> !is_matchable(side, #[trigger] s[j], now_ts, oracle_price_lots),
    }
}

pub fn find_best(side: Side, orders: &Vec<LeafNode>, now_ts: u64, oracle_price_lots: Option<i64>) -> (r: Option<usize>)
    ensures
        best_valid_index(side, orders@, now_ts, oracle_price_lots, r),
{
    let mut best: Option<usize> = None;
    let mut best_price: i64 = 0;
    let mut i: usize = 0;
    while i < orders.len()
        invariant
            0 <= i <= orders@.len(),
            match best {
                Some(b) => {
                    &&& 0 <= b < i
                    &&& is_matchable(side, orders@[b as int], now_ts, oracle_price_lots)
                    &&& effective_price(side, orders@[b as int].price, oracle_price_lots) == Some(best_price as int)
                    &&& forall|j: int|
                        0 <= j < i && is_matchable(side, #[trigger] orders@[j], now_ts, oracle_price_lots)
                            ==> !precedes(side, orders@[j], orders@[b as int], oracle_price_lots)
                },
                None => forall|j: int|
                    0 <= j < i ==> !is_matchable(side, #[trigger] orders@[j], now_ts, oracle_price_lots),
            },
        decreases orders@.len() - i,
    {
        let leaf = orders[i];
        let expired = leaf.expiry_timestamp != 0 && now_ts >= leaf.expiry_timestamp;
        if !expired {
            match order_price_now(side, leaf.price, oracle_price_lots) {
                Some(p) => {
                    let take = match best {
                        None => true,
                        Some(b) => {
                            let better = match side {
                                Side::Bid => p > best_price,
                                Side::Ask => p < best_price,
                            };
                            better || (p == best_price && leaf.seq_num < orders[b].seq_num)
                        },
                    };
                    if take {
                        proof {
                            if let Some(b) = best {
                                assert forall|j: int|
                                    0 <= j < i + 1 && is_matchable(side, #[trigger] orders@[j], now_ts, oracle_price_lots)
                                        implies !precedes(side, orders@[j], orders@[i as int], oracle_price_lots) by {
                                    if j < i {
                                        assert(!precedes(side, orders@[j], orders@[b as int], oracle_price_lots));
                                    }
                                }
                            }
                        }
                        best = Some(i);
                        best_price = p;
                    }
                },
                None => {},
            }
        }
        i = i + 1;
    }
    best
}

} // verus!
