use vstd::prelude::*;

use crate::book::{OrderTreeType, Side};
use crate::error::OpenBookError;
use crate::events::{FillEvent, OutEvent};
use crate::pubkey::{NonZeroPubkeyOption, Pubkey};

verus! {

/// Number of open-order slots of an account.
pub const MAX_OPEN_ORDERS: usize = 24;

#[derive(Clone, Copy, Debug, PartialEq, Eq, Structural)]
pub enum SideAndOrderTree {
    BidFixed,
    AskFixed,
    BidOraclePegged,
    AskOraclePegged,
}

pub open spec fn side_and_tree_spec(side: Side, tree: OrderTreeType) -> SideAndOrderTree {
    match (side, tree) {
        (Side::Bid, OrderTreeType::Fixed) => SideAndOrderTree::BidFixed,
        (Side::Ask, OrderTreeType::Fixed) => SideAndOrderTree::AskFixed,
        (Side::Bid, OrderTreeType::OraclePegged) => SideAndOrderTree::BidOraclePegged,
        (Side::Ask, OrderTreeType::OraclePegged) => SideAndOrderTree::AskOraclePegged,
    }
}

pub fn side_and_tree(side: Side, tree: OrderTreeType) -> (r: SideAndOrderTree)
    ensures
        r == side_and_tree_spec(side, tree),
{
    match (side, tree) {
        (Side::Bid, OrderTreeType::Fixed) => SideAndOrderTree::BidFixed,
        (Side::Ask, OrderTreeType::Fixed) => SideAndOrderTree::AskFixed,
        (Side::Bid, OrderTreeType::OraclePegged) => SideAndOrderTree::BidOraclePegged,
        (Side::Ask, OrderTreeType::OraclePegged) => SideAndOrderTree::AskOraclePegged,
    }
}

/// A slot that refers to one resting order of the account.
#[derive(Clone, Copy, Debug, PartialEq, Eq, Structural)]
pub struct OpenOrder {
    pub id: u128,
    pub client_id: u64,
    /// The price the order's reservation was computed at.
    pub locked_price: i64,
    pub is_free: bool,
    pub side_and_tree: SideAndOrderTree,
}

pub open spec fn free_slot() -> OpenOrder {
    OpenOrder {
        id: 0,
        client_id: 0,
        locked_price: 0,
        is_free: true,
        side_and_tree: SideAndOrderTree::BidFixed,
    }
}

impl OpenOrder {
    pub fn new_free() -> (r: OpenOrder)
        ensures
            r == free_slot(),
    {
        OpenOrder {
            id: 0,
            client_id: 0,
            locked_price: 0,
            is_free: true,
            side_and_tree: SideAndOrderTree::BidFixed,
        }
    }
}

/// Balances of one account on one market.
#[derive(Clone, Copy, Debug, PartialEq, Eq, Structural)]
pub struct Position {
    /// Base lots resting in bids.
    pub bids_base_lots: i64,
    /// Base lots resting in asks.
    pub asks_base_lots: i64,
    /// Withdrawable base native.
    pub base_free_native: u64,
    /// Withdrawable quote native.
    pub quote_free_native: u64,
    /// Base native reserved by resting asks.
    pub base_locked_native: u64,
    /// Quote native reserved by resting bids.
    pub quote_locked_native: u64,
}

pub open spec fn in_u64(x: int) -> bool {
    0 <= x <= u64::MAX
}

pub open spec fn in_i64(x: int) -> bool {
    i64::MIN <= x <= i64::MAX
}

/// The maker's position once a fill is applied, or `None` when a balance would leave its
/// range (only a broken ledger gets there).
pub open spec fn position_after_fill(p: Position, e: FillEvent) -> Option<Position> {
    let back = e.lock_spent + e.lock_released;
    match e.taker_side {
        Side::Ask => {
            // the maker bought base with quote it had reserved
            let quote_locked = p.quote_locked_native - back;
            let base_free = p.base_free_native + e.base_native;
            let quote_free = p.quote_free_native + e.maker_rebate_native + e.lock_released;
            let lots = p.bids_base_lots - e.quantity;
            if in_u64(quote_locked) && in_u64(base_free) && in_u64(quote_free) && in_i64(lots) {
                Some(Position {
                    bids_base_lots: lots as i64,
                    base_free_native: base_free as u64,
                    quote_free_native: quote_free as u64,
                    quote_locked_native: quote_locked as u64,
                    ..p
                })
            } else {
                None
            }
        },
        Side::Bid => {
            // the maker sold base it had reserved for quote
            let base_locked = p.base_locked_native - back;
            let base_free = p.base_free_native + e.lock_released;
            let quote_free = p.quote_free_native + e.quote_native - e.maker_fee_native
                + e.maker_rebate_native;
            let lots = p.asks_base_lots - e.quantity;
            if in_u64(base_locked) && in_u64(base_free) && in_u64(quote_free) && in_i64(lots) {
                Some(Position {
                    asks_base_lots: lots as i64,
                    base_free_native: base_free as u64,
                    quote_free_native: quote_free as u64,
                    base_locked_native: base_locked as u64,
                    ..p
                })
            } else {
                None
            }
        },
    }
}

/// The position once a resting order of `side` with `quantity` lots and reservation `lock`
/// is set up: the reservation moves from free to locked.
pub open spec fn position_after_lock(p: Position, side: Side, quantity: int, lock: int) -> Option<Position> {
    match side {
        Side::Bid => {
            let quote_free = p.quote_free_native - lock;
            let quote_locked = p.quote_locked_native + lock;
            let lots = p.bids_base_lots + quantity;
            if in_u64(quote_free) && in_u64(quote_locked) && in_i64(lots) {
                Some(Position {
                    bids_base_lots: lots as i64,
                    quote_free_native: quote_free as u64,
                    quote_locked_native: quote_locked as u64,
                    ..p
                })
            } else {
                None
            }
        },
        Side::Ask => {
            let base_free = p.base_free_native - lock;
            let base_locked = p.base_locked_native + lock;
            let lots = p.asks_base_lots + quantity;
            if in_u64(base_free) && in_u64(base_locked) && in_i64(lots) {
                Some(Position {
                    asks_base_lots: lots as i64,
                    base_free_native: base_free as u64,
                    base_locked_native: base_locked as u64,
                    ..p
                })
            } else {
                None
            }
        },
    }
}

/// The position once a resting order of `side` with `quantity` lots leaves the book and
/// its reservation `lock` moves back from locked to free.
pub open spec fn position_after_release(p: Position, side: Side, quantity: int, lock: int) -> Option<Position> {
    match side {
        Side::Bid => {
            let quote_locked = p.quote_locked_native - lock;
            let quote_free = p.quote_free_native + lock;
            let lots = p.bids_base_lots - quantity;
            if in_u64(quote_locked) && in_u64(quote_free) && in_i64(lots) {
                Some(Position {
                    bids_base_lots: lots as i64,
                    quote_free_native: quote_free as u64,
                    quote_locked_native: quote_locked as u64,
                    ..p
                })
            } else {
                None
            }
        },
        Side::Ask => {
            let base_locked = p.base_locked_native - lock;
            let base_free = p.base_free_native + lock;
            let lots = p.asks_base_lots - quantity;
            if in_u64(base_locked) && in_u64(base_free) && in_i64(lots) {
                Some(Position {
                    asks_base_lots: lots as i64,
                    base_free_native: base_free as u64,
                    base_locked_native: base_locked as u64,
                    ..p
                })
            } else {
                None
            }
        },
    }
}

/// The owner's position once an order that left the book hands back its reservation.
pub open spec fn position_after_out(p: Position, e: OutEvent) -> Option<Position> {
    position_after_release(p, e.side, e.quantity as int, e.lock_released as int)
}

/// The side of the order a slot refers to.
pub open spec fn slot_side(st: SideAndOrderTree) -> Side {
    match st {
        SideAndOrderTree::BidFixed | SideAndOrderTree::BidOraclePegged => Side::Bid,
        SideAndOrderTree::AskFixed | SideAndOrderTree::AskOraclePegged => Side::Ask,
    }
}

impl SideAndOrderTree {
    pub fn side(self) -> (r: Side)
        ensures
            r == slot_side(self),
    {
        match self {
            SideAndOrderTree::BidFixed | SideAndOrderTree::BidOraclePegged => Side::Bid,
            SideAndOrderTree::AskFixed | SideAndOrderTree::AskOraclePegged => Side::Ask,
        }
    }
}

/// One owner's account on one market.
#[derive(Debug)]
pub struct OpenOrdersAccount {
    /// The account's own address.
    pub key: Pubkey,
    pub owner: Pubkey,
    pub market: Pubkey,
    pub delegate: NonZeroPubkeyOption,
    pub account_num: u32,
    pub position: Position,
    pub open_orders: Vec<OpenOrder>,
}

impl OpenOrdersAccount {
    pub open spec fn wf(&self) -> bool {
        self.open_orders@.len() == MAX_OPEN_ORDERS
    }

    /// The first slot in use that refers to order `id`.
    pub open spec fn find_slot_spec(&self, id: u128) -> Option<int> {
        if exists|i: int| 0 <= i < self.open_orders@.len() && #[trigger] self.open_orders@[i].id == id && !self.open_orders@[i].is_free {
            Some(choose|i: int| 0 <= i < self.open_orders@.len() && #[trigger] self.open_orders@[i].id == id
                && !self.open_orders@[i].is_free && forall|j: int| 0 <= j < i ==> (#[trigger] self.open_orders@[j]).is_free
                || self.open_orders@[j].id != id)
        } else {
            None
        }
    }

    /// An account with no balances and every slot free.
    pub fn new(key: Pubkey, owner: Pubkey, market: Pubkey, delegate: NonZeroPubkeyOption, account_num: u32) -> (r:
        OpenOrdersAccount)
        ensures
            r.wf(),
            r.key == key,
            r.owner == owner,
            r.market == market,
            r.delegate == delegate,
            r.account_num == account_num,
            r.position == (Position {
                bids_base_lots: 0,
                asks_base_lots: 0,
                base_free_native: 0,
                quote_free_native: 0,
                base_locked_native: 0,
                quote_locked_native: 0,
            }),
            forall|i: int| 0 <= i < MAX_OPEN_ORDERS ==> #[trigger] r.open_orders@[i] == free_slot(),
    {
        let mut open_orders: Vec<OpenOrder> = Vec::new();
        let mut i: usize = 0;
        while i < MAX_OPEN_ORDERS
            invariant
                i <= MAX_OPEN_ORDERS,
                open_orders@.len() == i,
                forall|j: int| 0 <= j < i ==> #[trigger] open_orders@[j] == free_slot(),
            decreases MAX_OPEN_ORDERS - i,
        {
            open_orders.push(OpenOrder::new_free());
            i = i + 1;
        }
        OpenOrdersAccount {
            key,
            owner,
            market,
            delegate,
            account_num,
            position: Position {
                bids_base_lots: 0,
                asks_base_lots: 0,
                base_free_native: 0,
                quote_free_native: 0,
                base_locked_native: 0,
                quote_locked_native: 0,
            },
            open_orders,
        }
    }

    pub fn is_owner_or_delegate(&self, signer: &Pubkey) -> (r: bool)
        ensures
            r == (signer.bytes@ == self.owner.bytes@ || self.delegate.view_option() == Some(
                signer.bytes@,
            )),
    {
        signer.same_key(&self.owner) || self.delegate.eq_key(signer)
    }

    /// The first free slot, if any.
    pub fn next_free_slot(&self) -> (r: Option<usize>)
        ensures
            match r {
                Some(i) => 0 <= i < self.open_orders@.len() && self.open_orders@[i as int].is_free
                    && forall|j: int| 0 <= j < i ==> !(#[trigger] self.open_orders@[j]).is_free,
                None => forall|j: int| 0 <= j < self.open_orders@.len() ==> !(#[trigger] self.open_orders@[j]).is_free,
            },
    {
        let mut i: usize = 0;
        while i < self.open_orders.len()
            invariant
                0 <= i <= self.open_orders@.len(),
                forall|j: int| 0 <= j < i ==> !(#[trigger] self.open_orders@[j]).is_free,
            decreases self.open_orders@.len() - i,
        {
            if self.open_orders[i].is_free {
                return Some(i);
            }
            i = i + 1;
        }
        None
    }

    /// The slot that refers to the order with id `id`, if any.
    pub fn find_order_with_order_id(&self, id: u128) -> (r: Option<usize>)
        ensures
            match r {
                Some(i) => 0 <= i < self.open_orders@.len() && !self.open_orders@[i as int].is_free
                    && self.open_orders@[i as int].id == id && forall|j: int|
                    0 <= j < i ==> (#[trigger] self.open_orders@[j]).is_free || self.open_orders@[j].id != id,
                None => forall|j: int|
                    0 <= j < self.open_orders@.len() ==> (#[trigger] self.open_orders@[j]).is_free
                        || self.open_orders@[j].id != id,
            },
    {
        let mut i: usize = 0;
        while i < self.open_orders.len()
            invariant
                0 <= i <= self.open_orders@.len(),
                forall|j: int| 0 <= j < i ==> (#[trigger] self.open_orders@[j]).is_free || self.open_orders@[j].id != id,
            decreases self.open_orders@.len() - i,
        {
            if !self.open_orders[i].is_free && self.open_orders[i].id == id {
                return Some(i);
            }
            i = i + 1;
        }
        None
    }

    /// The slot that refers to an order with client id `client_id`, if any.
    pub fn find_order_with_client_order_id(&self, client_id: u64) -> (r: Option<usize>)
        ensures
            match r {
                Some(i) => 0 <= i < self.open_orders@.len() && !self.open_orders@[i as int].is_free
                    && self.open_orders@[i as int].client_id == client_id && forall|j: int|
                    0 <= j < i ==> (#[trigger] self.open_orders@[j]).is_free || self.open_orders@[j].client_id != client_id,
                None => forall|j: int|
                    0 <= j < self.open_orders@.len() ==> (#[trigger] self.open_orders@[j]).is_free
                        || self.open_orders@[j].client_id != client_id,
            },
    {
        let mut i: usize = 0;
        while i < self.open_orders.len()
            invariant
                0 <= i <= self.open_orders@.len(),
                forall|j: int| 0 <= j < i ==> (#[trigger] self.open_orders@[j]).is_free || self.open_orders@[j].client_id != client_id,
            decreases self.open_orders@.len() - i,
        {
            if !self.open_orders[i].is_free && self.open_orders[i].client_id == client_id {
                return Some(i);
            }
            i = i + 1;
        }
        None
    }

    /// Marks slot `slot` free, when it lies in range.
    pub fn release_slot(&mut self, slot: usize)
        ensures
            final(self).key == old(self).key,
            final(self).owner == old(self).owner,
            final(self).position == old(self).position,
            slot < old(self).open_orders@.len() ==> final(self).open_orders@ == old(self).open_orders@.update(slot as int, free_slot()),
            slot >= old(self).open_orders@.len() ==> final(self).open_orders@ == old(self).open_orders@,
    {
        if slot < self.open_orders.len() {
            self.open_orders.set(slot, OpenOrder::new_free());
        }
    }

    /// Applies a fill to the account as the maker: credits what it received, takes back
    /// the reservation spent, and frees the order's slot when the order left the book.
    /// `InvariantViolation` and no change when a balance would leave its range.
    pub fn apply_fill(&mut self, e: &FillEvent) -> (r: Result<(), OpenBookError>)
        ensures
            final(self).key == old(self).key,
            final(self).owner == old(self).owner,
            match position_after_fill(old(self).position, *e) {
                Some(p) => r is Ok && final(self).position == p && final(self).open_orders@ == (if e.maker_out
                    && (e.maker_slot as int) < old(self).open_orders@.len() {
                    old(self).open_orders@.update(e.maker_slot as int, free_slot())
                } else {
                    old(self).open_orders@
                }),
                None => r == Err::<(), OpenBookError>(OpenBookError::InvariantViolation) && *final(self) == *old(self),
            },
    {
        let p = self.position;
        let back: u128 = e.lock_spent as u128 + e.lock_released as u128;
        let new_p = match e.taker_side {
            Side::Ask => {
                let base_free: u128 = p.base_free_native as u128 + e.base_native as u128;
                let quote_free: u128 = p.quote_free_native as u128 + e.maker_rebate_native as u128 + e.lock_released as u128;
                let lots: i128 = p.bids_base_lots as i128 - e.quantity as i128;
                if back > p.quote_locked_native as u128 || base_free > u64::MAX as u128 || quote_free > u64::MAX as u128
                    || lots < i64::MIN as i128 || lots > i64::MAX as i128 {
                    return Err(OpenBookError::InvariantViolation);
                }
                Position {
                    bids_base_lots: lots as i64,
                    base_free_native: base_free as u64,
                    quote_free_native: quote_free as u64,
                    quote_locked_native: (p.quote_locked_native as u128 - back) as u64,
                    ..p
                }
            },
            Side::Bid => {
                let base_free: u128 = p.base_free_native as u128 + e.lock_released as u128;
                let quote_gain: i128 = e.quote_native as i128 - e.maker_fee_native as i128 + e.maker_rebate_native as i128;
                let quote_free: i128 = p.quote_free_native as i128 + quote_gain;
                let lots: i128 = p.asks_base_lots as i128 - e.quantity as i128;
                if back > p.base_locked_native as u128 || base_free > u64::MAX as u128 || quote_free < 0
                    || quote_free > u64::MAX as i128 || lots < i64::MIN as i128 || lots > i64::MAX as i128 {
                    return Err(OpenBookError::InvariantViolation);
                }
                Position {
                    asks_base_lots: lots as i64,
                    base_free_native: base_free as u64,
                    quote_free_native: quote_free as u64,
                    base_locked_native: (p.base_locked_native as u128 - back) as u64,
                    ..p
                }
            },
        };
        self.position = new_p;
        if e.maker_out {
            self.release_slot(e.maker_slot as usize);
        }
        Ok(())
    }

    /// Applies an order's exit from the book to its owner: hands back its reservation
    /// and frees its slot.
    pub fn apply_out(&mut self, e: &OutEvent) -> (r: Result<(), OpenBookError>)
        ensures
            final(self).key == old(self).key,
            final(self).owner == old(self).owner,
            match position_after_out(old(self).position, *e) {
                Some(p) => r is Ok && final(self).position == p && final(self).open_orders@ == (if (e.owner_slot as int)
                    < old(self).open_orders@.len() {
                    old(self).open_orders@.update(e.owner_slot as int, free_slot())
                } else {
                    old(self).open_orders@
                }),
                None => r == Err::<(), OpenBookError>(OpenBookError::InvariantViolation) && *final(self) == *old(self),
            },
    {
        let p = self.position;
        let lots: i128 = match e.side {
            Side::Bid => p.bids_base_lots as i128 - e.quantity as i128,
            Side::Ask => p.asks_base_lots as i128 - e.quantity as i128,
        };
        if lots < i64::MIN as i128 || lots > i64::MAX as i128 {
            return Err(OpenBookError::InvariantViolation);
        }
        let new_p = match e.side {
            Side::Bid => {
                if e.lock_released > p.quote_locked_native || p.quote_free_native as u128 + e.lock_released as u128 > u64::MAX as u128 {
                    return Err(OpenBookError::InvariantViolation);
                }
                Position {
                    bids_base_lots: lots as i64,
                    quote_free_native: p.quote_free_native + e.lock_released,
                    quote_locked_native: p.quote_locked_native - e.lock_released,
                    ..p
                }
            },
            Side::Ask => {
                if e.lock_released > p.base_locked_native || p.base_free_native as u128 + e.lock_released as u128 > u64::MAX as u128 {
                    return Err(OpenBookError::InvariantViolation);
                }
                Position {
                    asks_base_lots: lots as i64,
                    base_free_native: p.base_free_native + e.lock_released,
                    base_locked_native: p.base_locked_native - e.lock_released,
                    ..p
                }
            },
        };
        self.position = new_p;
        self.release_slot(e.owner_slot as usize);
        Ok(())
    }
}

} // verus!
