use vstd::prelude::*;

use crate::book::Side;
use crate::error::OpenBookError;
use crate::pubkey::Pubkey;

verus! {

/// A match between an incoming order and a resting one, with every amount that the
/// maker's ledger needs, so that applying it reads nothing else.
#[derive(Clone, Copy, Debug)]
pub struct FillEvent {
    pub taker_side: Side,
    /// The resting order left the book with this fill.
    pub maker_out: bool,
    pub maker_slot: u8,
    pub timestamp: u64,
    pub maker: Pubkey,
    pub maker_order_id: u128,
    /// Sequence number of the resting order, its place in time priority.
    pub maker_seq_num: u64,
    pub maker_client_order_id: u64,
    pub taker: Pubkey,
    pub taker_client_order_id: u64,
    pub price: i64,
    pub quantity: i64,
    /// Base native traded: `quantity * base_lot_size`.
    pub base_native: u64,
    /// Quote native traded: `quantity * price * quote_lot_size`.
    pub quote_native: u64,
    /// Fee the maker pays, in quote native.
    pub maker_fee_native: u64,
    /// Rebate the maker receives, in quote native.
    pub maker_rebate_native: u64,
    /// Part of the order's reservation spent by this fill.
    pub lock_spent: u64,
    /// Part of the order's reservation handed back because the order left the book.
    pub lock_released: u64,
}

/// A resting order that left the book without matching.
#[derive(Clone, Copy, Debug)]
pub struct OutEvent {
    pub side: Side,
    pub owner_slot: u8,
    pub timestamp: u64,
    pub owner: Pubkey,
    pub order_id: u128,
    pub quantity: i64,
    /// The order's reservation, handed back to its owner.
    pub lock_released: u64,
}

#[derive(Clone, Copy, Debug)]
pub enum AnyEvent {
    Fill(FillEvent),
    Out(OutEvent),
}

/// A bounded ring buffer of events, oldest first.
#[derive(Debug)]
pub struct EventQueue {
    pub buf: Vec<AnyEvent>,
    pub head: usize,
    pub count: usize,
    pub seq_num: u64,
}

pub open spec fn ring_index(head: int, i: int, cap: int) -> int {
    if head + i < cap { head + i } else { head + i - cap }
}

impl EventQueue {
    pub open spec fn wf(&self) -> bool {
        &&& self.buf@.len() > 0
        &&& self.head < self.buf@.len()
        &&& self.count <= self.buf@.len()
    }

    pub open spec fn capacity(&self) -> nat {
        self.buf@.len()
    }

    /// The events held, oldest first.
    pub open spec fn view(&self) -> Seq<AnyEvent> {
        Seq::new(
            self.count as nat,
            |i: int| self.buf@[ring_index(self.head as int, i, self.buf@.len() as int)],
        )
    }

    /// An empty queue that holds up to `capacity` events; `filler` occupies the unused cells.
    pub fn new(capacity: usize, filler: AnyEvent) -> (r: EventQueue)
        requires
            capacity > 0,
        ensures
            r.wf(),
            r.capacity() == capacity,
            r@ == Seq::<AnyEvent>::empty(),
            r.seq_num == 0,
    {
        let mut buf: Vec<AnyEvent> = Vec::new();
        let mut i: usize = 0;
        while i < capacity
            invariant
                i <= capacity,
                buf@.len() == i,
            decreases capacity - i,
        {
            buf.push(filler);
            i = i + 1;
        }
        let r = EventQueue { buf, head: 0, count: 0, seq_num: 0 };
        assert(r@ =~= Seq::<AnyEvent>::empty());
        r
    }

    pub fn len(&self) -> (r: usize)
        requires
            self.wf(),
        ensures
            r == self@.len(),
    {
        self.count
    }

    pub fn is_full(&self) -> (r: bool)
        requires
            self.wf(),
        ensures
            r == (self@.len() == self.capacity()),
    {
        self.count == self.buf.len()
    }

    pub fn free_slots(&self) -> (r: usize)
        requires
            self.wf(),
        ensures
            r == self.capacity() - self@.len(),
    {
        self.buf.len() - self.count
    }

    /// Appends an event and counts it in `seq_num`. A full queue refuses it with
    /// `EventQueueFull`, and a queue whose count is at `u64::MAX` with `Overflow`; either way
    /// the queue is left as it was.
    pub fn push_back(&mut self, event: AnyEvent) -> (r: Result<(), OpenBookError>)
        requires
            old(self).wf(),
        ensures
            final(self).wf(),
            final(self).capacity() == old(self).capacity(),
            old(self)@.len() == old(self).capacity() ==> r == Err::<(), OpenBookError>(
                OpenBookError::EventQueueFull,
            ) && *final(self) == *old(self),
            old(self)@.len() < old(self).capacity() && old(self).seq_num == u64::MAX ==> r == Err::<
                (),
                OpenBookError,
            >(OpenBookError::Overflow) && *final(self) == *old(self),
            old(self)@.len() < old(self).capacity() && old(self).seq_num < u64::MAX ==> r is Ok && final(self)@
                == old(self)@.push(event) && final(self).seq_num == old(self).seq_num + 1 && final(self).head
                == old(self).head,
    {
        if self.count == self.buf.len() {
            return Err(OpenBookError::EventQueueFull);
        }
        if self.seq_num == u64::MAX {
            return Err(OpenBookError::Overflow);
        }
        let cap = self.buf.len();
        let slot = if self.count < cap - self.head {
            self.head + self.count
        } else {
            self.count - (cap - self.head)
        };
        let ghost before = self@;
        self.buf.set(slot, event);
        self.count = self.count + 1;
        self.seq_num = self.seq_num + 1;
        assert(self@ =~= before.push(event));
        Ok(())
    }

    /// The oldest event, if any.
    pub fn front(&self) -> (r: Option<AnyEvent>)
        requires
            self.wf(),
        ensures
            self@.len() == 0 ==> r is None,
            self@.len() > 0 ==> r == Some(self@[0]),
    {
        if self.count == 0 {
            None
        } else {
            Some(self.buf[self.head])
        }
    }

    /// Removes the oldest event.
    pub fn pop_front(&mut self) -> (r: AnyEvent)
        requires
            old(self).wf(),
            old(self)@.len() > 0,
        ensures
            final(self).wf(),
            final(self).capacity() == old(self).capacity(),
            final(self).seq_num == old(self).seq_num,
            r == old(self)@[0],
            final(self)@ == old(self)@.drop_first(),
    {
        let e = self.buf[self.head];
        let cap = self.buf.len();
        self.head = if self.head + 1 < cap { self.head + 1 } else { 0 };
        self.count = self.count - 1;
        assert(self@ =~= old(self)@.drop_first());
        e
    }
}

} // verus!
