use vstd::prelude::*;

use crate::book::{new_node_key, node_key_spec, Side};
use crate::decimal::{
    div_bits, fits_i128, fits_i64, floor_bits, mul_bits, pow10, power_of_ten, Decimal, FRAC_SCALE,
};
use crate::error::OpenBookError;
use crate::oracle::{is_stale, is_unconfident, OracleConfig, OracleState};
use crate::pubkey::{NonZeroPubkeyOption, Pubkey};

verus! {

/// Fee rates are given in parts per million.
pub const FEES_SCALE_FACTOR: i128 = 1_000_000;

/// `amount * rate / 10^6`, rounded down.
pub open spec fn fee_floor(amount: int, rate: int) -> int {
    (amount * rate) / (FEES_SCALE_FACTOR as int)
}

/// `amount * rate / 10^6`, rounded up.
pub open spec fn fee_ceil(amount: int, rate: int) -> int {
    (amount * rate + (FEES_SCALE_FACTOR as int - 1)) / (FEES_SCALE_FACTOR as int)
}

/// One trading pair: lot sizes, fees, admin keys, oracle references and running totals.
#[derive(Clone, Copy, Debug)]
pub struct Market {
    pub bump: u8,
    /// Decimals of the base token; they scale the oracle's price.
    pub base_decimals: u8,
    pub quote_decimals: u8,
    /// The address that signs for the vaults.
    pub market_authority: Pubkey,
    /// 0 for no expiry; trading stops once a timestamp passes it.
    pub time_expiry: i64,
    pub collect_fee_admin: Pubkey,
    /// Must sign off on all order creations, if set.
    pub open_orders_admin: NonZeroPubkeyOption,
    /// Must sign off on all event consumptions, if set.
    pub consume_events_admin: NonZeroPubkeyOption,
    /// May expire the market, prune orders and close it, if set.
    pub close_market_admin: NonZeroPubkeyOption,
    /// Trailing zero bytes are ignored.
    pub name: [u8; 16],
    pub bids: Pubkey,
    pub asks: Pubkey,
    pub event_heap: Pubkey,
    pub oracle_a: NonZeroPubkeyOption,
    pub oracle_b: NonZeroPubkeyOption,
    pub oracle_config: OracleConfig,
    /// Quote native units in a quote lot.
    pub quote_lot_size: i64,
    /// Base native units in a base lot.
    pub base_lot_size: i64,
    /// Number of orders seen; the source of order ids.
    pub seq_num: u64,
    pub registration_time: i64,
    /// Maker fee in parts per million; negative is a rebate paid out of the taker fee.
    pub maker_fee: i64,
    /// Taker fee in parts per million.
    pub taker_fee: i64,
    /// Fees accrued in native quote.
    pub fees_accrued: u64,
    pub fees_to_referrers: u64,
    pub referrer_rebates_accrued: u64,
    /// Fees available to sweep, in native quote.
    pub fees_available: u64,
    /// Cumulative maker volume in native quote.
    pub maker_volume: u64,
    pub taker_volume_wo_oo: u64,
    pub base_mint: Pubkey,
    pub quote_mint: Pubkey,
    pub market_base_vault: Pubkey,
    pub base_deposit_total: u64,
    pub market_quote_vault: Pubkey,
    pub quote_deposit_total: u64,
}

/// The oracle reading combined with the decimal adjustment fits.
pub open spec fn decimal_adjustment(quote_decimals: u8, base_decimals: u8) -> int {
    let e = quote_decimals as int - base_decimals as int;
    if e >= 0 {
        pow10(e as nat) * FRAC_SCALE as int
    } else {
        (FRAC_SCALE as int) / pow10((-e) as nat)
    }
}

/// The variance bound of a two-feed price, scaled by `B^4`: `(conf_filter * B)^2 * B * B`,
/// or no bound when that overflows.
pub open spec fn scaled_target_var(conf: int, b: int) -> int {
    let s1 = mul_bits(conf, b);
    let s2 = mul_bits(s1, s1);
    let s3 = mul_bits(s2, b);
    let s4 = mul_bits(s3, b);
    if fits_i128(s1) && fits_i128(s2) && fits_i128(s3) && fits_i128(s4) {
        s4
    } else {
        i128::MAX as int
    }
}

/// The variance of a two-feed price, scaled by `B^4`: `(sigma_a * B)^2 + (sigma_b * A)^2`,
/// or `None` when a step overflows.
pub open spec fn scaled_var(sa: int, a: int, sb: int, b: int) -> Option<int> {
    let x = mul_bits(sa, b);
    let y = mul_bits(sb, a);
    let x2 = mul_bits(x, x);
    let y2 = mul_bits(y, y);
    if fits_i128(x) && fits_i128(y) && fits_i128(x2) && fits_i128(y2) && fits_i128(x2 + y2) {
        Some(x2 + y2)
    } else {
        None
    }
}

impl Market {
    /// Lot sizes are positive, `0 <= taker_fee <= 10^6` and `|maker_fee| <= taker_fee`.
    pub open spec fn wf(&self) -> bool {
        &&& self.base_lot_size > 0
        &&& self.quote_lot_size > 0
        &&& 0 <= self.taker_fee <= FEES_SCALE_FACTOR
        &&& -self.taker_fee <= self.maker_fee <= self.taker_fee
    }

    pub open spec fn decimals_in_range(&self) -> bool {
        -12 <= self.quote_decimals as int - self.base_decimals as int <= 12
    }

    pub open spec fn is_expired_spec(&self, timestamp: i64) -> bool {
        self.time_expiry != 0 && self.time_expiry < timestamp
    }

    /// The name's bytes, without the zero bytes that pad it at either end.
    pub fn name(&self) -> (r: Vec<u8>)
        ensures
            exists|s: int, e: int|
                0 <= s <= e <= 16 && r@ == self.name@.subrange(s, e) && (forall|i: int|
                    0 <= i < s ==> self.name@[i] == 0u8) && (forall|i: int|
                    e <= i < 16 ==> self.name@[i] == 0u8) && (s < e ==> self.name@[s] != 0u8
                    && self.name@[e - 1] != 0u8),
    {
        let mut e: usize = 16;
        while e > 0 && self.name[e - 1] == 0
            invariant
                0 <= e <= 16,
                self.name@.len() == 16,
                forall|i: int| e <= i < 16 ==> self.name@[i] == 0u8,
            decreases e,
        {
            e = e - 1;
        }
        let mut s: usize = 0;
        while s < e && self.name[s] == 0
            invariant
                0 <= s <= e <= 16,
                self.name@.len() == 16,
                forall|i: int| 0 <= i < s ==> self.name@[i] == 0u8,
                e > 0 ==> self.name@[e - 1] != 0u8,
            decreases e - s,
        {
            s = s + 1;
        }
        let mut r: Vec<u8> = Vec::new();
        let mut i: usize = s;
        while i < e
            invariant
                s <= i <= e <= 16,
                self.name@.len() == 16,
                r@ == self.name@.subrange(s as int, i as int),
            decreases e - i,
        {
            r.push(self.name[i]);
            proof {
                assert(r@ =~= self.name@.subrange(s as int, i + 1));
            }
            i = i + 1;
        }
        r
    }

    pub fn is_expired(&self, timestamp: i64) -> (r: bool)
        ensures
            r == self.is_expired_spec(timestamp),
    {
        self.time_expiry != 0 && self.time_expiry < timestamp
    }

    /// Nothing deposited and no fees or rebates left to withdraw.
    pub fn is_empty(&self) -> (r: bool)
        ensures
            r == (self.base_deposit_total == 0 && self.quote_deposit_total == 0
                && self.fees_available == 0 && self.referrer_rebates_accrued == 0),
    {
        self.base_deposit_total == 0 && self.quote_deposit_total == 0 && self.fees_available == 0
            && self.referrer_rebates_accrued == 0
    }

    pub fn is_market_vault(&self, pubkey: &Pubkey) -> (r: bool)
        ensures
            r == (pubkey.bytes@ == self.market_quote_vault.bytes@ || pubkey.bytes@
                == self.market_base_vault.bytes@),
    {
        pubkey.same_key(&self.market_quote_vault) || pubkey.same_key(&self.market_base_vault)
    }

    /// Advances the sequence number and returns the id of an order with that number.
    pub fn gen_order_id(&mut self, side: Side, price_data: u64) -> (r: u128)
        requires
            old(self).seq_num < u64::MAX,
        ensures
            final(self).seq_num == old(self).seq_num + 1,
            *final(self) == (Market { seq_num: final(self).seq_num, ..*old(self) }),
            r as int == node_key_spec(side, price_data, final(self).seq_num),
    {
        self.seq_num = self.seq_num + 1;
        new_node_key(side, price_data, self.seq_num)
    }

    pub fn max_base_lots(&self) -> (r: i64)
        requires
            self.base_lot_size > 0,
        ensures
            r == i64::MAX / self.base_lot_size,
    {
        i64::MAX / self.base_lot_size
    }

    pub fn max_quote_lots(&self) -> (r: i64)
        requires
            self.quote_lot_size > 0,
        ensures
            r == i64::MAX / self.quote_lot_size,
    {
        i64::MAX / self.quote_lot_size
    }

    /// The native price of a book price: `price * quote_lot_size / base_lot_size`,
    /// or `None` when a step overflows.
    pub fn lot_to_native_price(&self, price: i64) -> (r: Option<Decimal>)
        requires
            self.wf(),
        ensures
            ({
                let p = price as int * FRAC_SCALE as int;
                let q = self.quote_lot_size as int * FRAC_SCALE as int;
                let b = self.base_lot_size as int * FRAC_SCALE as int;
                r == (if fits_i128(mul_bits(p, q)) && fits_i128(div_bits(mul_bits(p, q), b)) {
                    Some(Decimal { bits: div_bits(mul_bits(p, q), b) as i128 })
                } else {
                    None
                })
            }),
    {
        let p = Decimal::from_int(price);
        let q = Decimal::from_int(self.quote_lot_size);
        let b = Decimal::from_int(self.base_lot_size);
        proof {
            assert(b.bits > 0) by (nonlinear_arith)
                requires
                    b.bits == self.base_lot_size as int * FRAC_SCALE as int,
                    self.base_lot_size > 0,
            ;
        }
        match p.checked_mul(q) {
            Some(pq) => pq.checked_div(b),
            None => None,
        }
    }

    /// The book price of a native price: `price * base_lot_size / quote_lot_size`, rounded
    /// down; `InvalidOraclePrice` when a step overflows.
    pub fn native_price_to_lot(&self, price: Decimal) -> (r: Result<i64, OpenBookError>)
        requires
            self.wf(),
        ensures
            r == native_price_to_lot_spec(*self, price),
    {
        let b = Decimal::from_int(self.base_lot_size);
        let q = Decimal::from_int(self.quote_lot_size);
        proof {
            assert(q.bits > 0) by (nonlinear_arith)
                requires
                    q.bits == self.quote_lot_size as int * FRAC_SCALE as int,
                    self.quote_lot_size > 0,
            ;
        }
        match price.checked_mul(b) {
            Some(x) => match x.checked_div(q) {
                Some(y) => match y.checked_to_i64() {
                    Some(n) => Ok(n),
                    None => Err(OpenBookError::InvalidOraclePrice),
                },
                None => Err(OpenBookError::InvalidOraclePrice),
            },
            None => Err(OpenBookError::InvalidOraclePrice),
        }
    }

    /// The price of one feed, after its staleness and confidence checks, scaled by
    /// `10^(quote_decimals - base_decimals)`.
    pub fn oracle_price_from_a(&self, oracle_key: &Pubkey, oracle: &OracleState, now_slot: u64) -> (r:
        Result<Decimal, OpenBookError>)
        requires
            self.oracle_a.view_option() == Some(oracle_key.bytes@),
            self.decimals_in_range(),
        ensures
            r == oracle_price_from_a_spec(*self, *oracle, now_slot),
    {
        oracle.check_staleness(&self.oracle_config, now_slot)?;
        oracle.check_confidence(&self.oracle_config)?;
        let decimals: i8 = (self.quote_decimals as i16 - self.base_decimals as i16) as i8;
        let adj = power_of_ten(decimals);
        match oracle.price.checked_mul(adj) {
            Some(p) => Ok(p),
            None => Err(OpenBookError::InvalidOraclePrice),
        }
    }

    /// The ratio `A / B` of two feeds, each checked for staleness, with their combined
    /// uncertainty held to the confidence filter, scaled as for one feed.
    pub fn oracle_price_from_a_and_b(
        &self,
        oracle_a_key: &Pubkey,
        oracle_a: &OracleState,
        oracle_b_key: &Pubkey,
        oracle_b: &OracleState,
        now_slot: u64,
    ) -> (r: Result<Decimal, OpenBookError>)
        requires
            self.oracle_a.view_option() == Some(oracle_a_key.bytes@),
            self.oracle_b.view_option() == Some(oracle_b_key.bytes@),
            self.decimals_in_range(),
        ensures
            r == oracle_price_from_a_and_b_spec(*self, *oracle_a, *oracle_b, now_slot),
    {
        oracle_a.check_staleness(&self.oracle_config, now_slot)?;
        oracle_b.check_staleness(&self.oracle_config, now_slot)?;
        let price = match oracle_a.price.checked_div(oracle_b.price) {
            Some(p) => p,
            None => {
                return Err(OpenBookError::InvalidOraclePrice);
            },
        };
        let conf = self.oracle_config.conf_filter;
        let b = oracle_b.price;
        let target = match conf.checked_mul(b) {
            Some(s1) => match s1.checked_mul(s1) {
                Some(s2) => match s2.checked_mul(b) {
                    Some(s3) => match s3.checked_mul(b) {
                        Some(s4) => s4,
                        None => Decimal::max_value(),
                    },
                    None => Decimal::max_value(),
                },
                None => Decimal::max_value(),
            },
            None => Decimal::max_value(),
        };
        let var = match oracle_a.deviation.checked_mul(b) {
            Some(x) => match oracle_b.deviation.checked_mul(oracle_a.price) {
                Some(y) => match x.checked_mul(x) {
                    Some(x2) => match y.checked_mul(y) {
                        Some(y2) => x2.checked_add(y2),
                        None => None,
                    },
                    None => None,
                },
                None => None,
            },
            None => None,
        };
        let var = match var {
            Some(v) => v,
            None => {
                return Err(OpenBookError::InvalidOraclePrice);
            },
        };
        if var.gt(target) {
            return Err(OpenBookError::OracleConfidence);
        }
        let decimals: i8 = (self.quote_decimals as i16 - self.base_decimals as i16) as i8;
        let adj = power_of_ten(decimals);
        match price.checked_mul(adj) {
            Some(p) => Ok(p),
            None => Err(OpenBookError::InvalidOraclePrice),
        }
    }

    /// `quote * 10^6 / (10^6 + taker_fee)`: the part of a budget left once the taker fee on
    /// it is set aside.
    pub fn subtract_taker_fees(&self, quote: i64) -> (r: i64)
        requires
            self.wf(),
            quote >= 0,
        ensures
            r == (quote as int * FEES_SCALE_FACTOR as int) / (FEES_SCALE_FACTOR as int
                + self.taker_fee as int),
            0 <= r <= quote,
    {
        let n: i128 = quote as i128 * FEES_SCALE_FACTOR;
        let d: i128 = FEES_SCALE_FACTOR + self.taker_fee as i128;
        proof {
            lemma_scaled_down(quote as int, FEES_SCALE_FACTOR as int, d as int);
        }
        (n / d) as i64
    }

    pub fn taker_fees_floor(self, amount: u64) -> (r: u64)
        requires
            self.wf(),
        ensures
            r == fee_floor(amount as int, self.taker_fee as int),
    {
        proof {
            lemma_fee_bounds(amount as int, self.taker_fee as int);
        }
        ((amount as i128 * self.taker_fee as i128) / FEES_SCALE_FACTOR) as u64
    }

    /// The maker fee on `amount`, rounded down; 0 when makers get a rebate instead.
    pub fn maker_fees_floor(self, amount: u64) -> (r: u64)
        requires
            self.wf(),
        ensures
            r == (if self.maker_fee > 0 { fee_floor(amount as int, self.maker_fee as int) } else { 0 }),
            r <= amount,
    {
        if self.maker_fee > 0 {
            self.unsigned_maker_fees_floor(amount)
        } else {
            0
        }
    }

    /// The maker rebate on `amount`, rounded down; 0 when makers pay a fee instead.
    pub fn maker_rebate_floor(self, amount: u64) -> (r: u64)
        requires
            self.wf(),
        ensures
            r == (if self.maker_fee > 0 { 0 } else { fee_floor(amount as int, -self.maker_fee as int) }),
            r <= amount,
    {
        if self.maker_fee > 0 {
            0
        } else {
            self.unsigned_maker_fees_floor(amount)
        }
    }

    /// The maker fee on `amount`, rounded up; 0 when makers get a rebate instead.
    pub fn maker_fees_ceil(self, amount: u64) -> (r: u64)
        requires
            self.wf(),
        ensures
            r == (if self.maker_fee > 0 { fee_ceil(amount as int, self.maker_fee as int) } else { 0 }),
    {
        if self.maker_fee > 0 {
            proof {
                lemma_fee_bounds(amount as int, self.maker_fee as int);
            }
            self.ceil_fee_division(amount as i128 * self.maker_fee as i128) as u64
        } else {
            0
        }
    }

    /// The taker fee on `amount`, rounded up, so that the rounding favours the market.
    pub fn taker_fees_ceil(self, amount: u64) -> (r: u64)
        requires
            self.wf(),
        ensures
            r == fee_ceil(amount as int, self.taker_fee as int),
            r <= amount,
    {
        proof {
            lemma_fee_bounds(amount as int, self.taker_fee as int);
        }
        self.ceil_fee_division(amount as i128 * self.taker_fee as i128) as u64
    }

    fn ceil_fee_division(self, numerator: i128) -> (r: i128)
        requires
            0 <= numerator <= u64::MAX as int * FEES_SCALE_FACTOR as int,
        ensures
            r as int == (numerator as int + 999_999) / 1_000_000,
    {
        (numerator + (FEES_SCALE_FACTOR - 1)) / FEES_SCALE_FACTOR
    }

    fn unsigned_maker_fees_floor(self, amount: u64) -> (r: u64)
        requires
            self.wf(),
        ensures
            r == fee_floor(amount as int, if self.maker_fee < 0 { -self.maker_fee as int } else { self.maker_fee as int }),
            r <= amount,
    {
        let rate: i64 = if self.maker_fee < 0 { -self.maker_fee } else { self.maker_fee };
        proof {
            lemma_fee_bounds(amount as int, rate as int);
        }
        ((amount as i128 * rate as i128) / FEES_SCALE_FACTOR) as u64
    }
}

pub open spec fn native_price_to_lot_spec(m: Market, price: Decimal) -> Result<i64, OpenBookError> {
    let x = mul_bits(price.bits as int, m.base_lot_size as int * FRAC_SCALE as int);
    let y = div_bits(x, m.quote_lot_size as int * FRAC_SCALE as int);
    if fits_i128(x) && fits_i128(y) && fits_i64(floor_bits(y)) {
        Ok(floor_bits(y) as i64)
    } else {
        Err(OpenBookError::InvalidOraclePrice)
    }
}

pub open spec fn oracle_price_from_a_spec(m: Market, o: OracleState, now_slot: u64) -> Result<
    Decimal,
    OpenBookError,
> {
    let p = mul_bits(o.price.bits as int, decimal_adjustment(m.quote_decimals, m.base_decimals));
    if is_stale(o, m.oracle_config, now_slot) {
        Err(OpenBookError::OracleStale)
    } else if is_unconfident(o, m.oracle_config) {
        Err(OpenBookError::OracleConfidence)
    } else if !fits_i128(p) {
        Err(OpenBookError::InvalidOraclePrice)
    } else {
        Ok(Decimal { bits: p as i128 })
    }
}

pub open spec fn oracle_price_from_a_and_b_spec(
    m: Market,
    a: OracleState,
    b: OracleState,
    now_slot: u64,
) -> Result<Decimal, OpenBookError> {
    let ratio = div_bits(a.price.bits as int, b.price.bits as int);
    let var = scaled_var(a.deviation.bits as int, a.price.bits as int, b.deviation.bits as int, b.price.bits as int);
    let p = mul_bits(ratio, decimal_adjustment(m.quote_decimals, m.base_decimals));
    if is_stale(a, m.oracle_config, now_slot) || is_stale(b, m.oracle_config, now_slot) {
        Err(OpenBookError::OracleStale)
    } else if b.price.bits == 0 || !fits_i128(ratio) {
        Err(OpenBookError::InvalidOraclePrice)
    } else if var is None {
        Err(OpenBookError::InvalidOraclePrice)
    } else if var.unwrap() > scaled_target_var(m.oracle_config.conf_filter.bits as int, b.price.bits as int) {
        Err(OpenBookError::OracleConfidence)
    } else if !fits_i128(p) {
        Err(OpenBookError::InvalidOraclePrice)
    } else {
        Ok(Decimal { bits: p as i128 })
    }
}

proof fn lemma_fee_bounds(amount: int, rate: int)
    requires
        0 <= amount <= u64::MAX,
        0 <= rate <= 1_000_000,
    ensures
        0 <= amount * rate <= u64::MAX as int * 1_000_000,
        0 <= fee_floor(amount, rate) <= amount,
        0 <= fee_ceil(amount, rate) <= amount,
{
    assert(0 <= amount * rate <= amount * 1_000_000) by (nonlinear_arith)
        requires
            0 <= amount,
            0 <= rate <= 1_000_000,
    ;
    assert(amount * 1_000_000 <= u64::MAX as int * 1_000_000) by (nonlinear_arith)
        requires
            0 <= amount <= u64::MAX,
    ;
    assert((amount * rate + 999_999) / 1_000_000 <= amount) by (nonlinear_arith)
        requires
            0 <= amount * rate <= amount * 1_000_000,
            amount >= 0,
    ;
    assert((amount * rate) / 1_000_000 <= amount) by (nonlinear_arith)
        requires
            0 <= amount * rate <= amount * 1_000_000,
            amount >= 0,
    ;
}

proof fn lemma_scaled_down(q: int, s: int, d: int)
    requires
        0 <= q <= i64::MAX,
        s == 1_000_000,
        s <= d <= 2 * 1_000_000,
    ensures
        0 <= (q * s) / d <= q,
        q * s <= i128::MAX,
{
    assert(q * s <= q * d) by (nonlinear_arith)
        requires
            0 <= q,
            s <= d,
    ;
    assert((q * s) / d <= (q * d) / d) by (nonlinear_arith)
        requires
            0 <= q * s <= q * d,
            d > 0,
    ;
    assert((q * d) / d == q) by (nonlinear_arith)
        requires
            d > 0,
    ;
    assert(q * s <= i128::MAX) by (nonlinear_arith)
        requires
            0 <= q <= i64::MAX,
            s == 1_000_000,
    ;
}


/// Fees favour the market: on any quote amount the taker fee rounds up, a maker rebate
/// rounds down, and the rebate never exceeds the taker fee that funds it, so the market
/// keeps `taker fee - rebate >= 0`.
pub proof fn lemma_fee_conservation(m: Market, quote_native: u64)
    requires
        m.wf(),
    ensures
        ({
            let q = quote_native as int;
            let rebate_rate = if m.maker_fee > 0 { 0 } else { -m.maker_fee as int };
            let fee = fee_ceil(q, m.taker_fee as int);
            let rebate = fee_floor(q, rebate_rate);
            &&& fee * FEES_SCALE_FACTOR >= q * m.taker_fee
            &&& fee * FEES_SCALE_FACTOR < q * m.taker_fee + FEES_SCALE_FACTOR
            &&& rebate * FEES_SCALE_FACTOR <= q * rebate_rate
            &&& rebate <= fee
        }),
{
    let q = quote_native as int;
    let t = m.taker_fee as int;
    let rr = if m.maker_fee > 0 { 0 } else { -m.maker_fee as int };
    assert(q * rr <= q * t && q * rr >= 0) by (nonlinear_arith)
        requires
            q >= 0,
            0 <= rr <= t,
    ;
    assert(q * t >= 0) by (nonlinear_arith)
        requires
            q >= 0,
            t >= 0,
    ;
    let fee = fee_ceil(q, t);
    let rebate = fee_floor(q, rr);
    assert(fee * 1_000_000 >= q * t && fee * 1_000_000 < q * t + 1_000_000) by (nonlinear_arith)
        requires
            fee == (q * t + 999_999) / 1_000_000,
            q * t >= 0,
    ;
    assert(rebate * 1_000_000 <= q * rr) by (nonlinear_arith)
        requires
            rebate == (q * rr) / 1_000_000,
            q * rr >= 0,
    ;
    assert(rebate <= fee) by (nonlinear_arith)
        requires
            rebate == (q * rr) / 1_000_000,
            fee == (q * t + 999_999) / 1_000_000,
            0 <= q * rr <= q * t,
    ;
}


pub open spec fn some_price(r: Result<Decimal, OpenBookError>) -> Result<Option<Decimal>, OpenBookError> {
    match r {
        Ok(p) => Ok(Some(p)),
        Err(e) => Err(e),
    }
}

/// An oracle reading together with the address it was read from.
#[derive(Clone, Copy, Debug)]
pub struct KeyedOracle {
    pub key: Pubkey,
    pub state: OracleState,
}

impl Market {
    /// The side of a swap whose input token is `input_mint`: spending quote buys base.
    pub fn swap_side(&self, input_mint: &Pubkey) -> (r: Side)
        ensures
            r == (if input_mint.bytes@ == self.quote_mint.bytes@ { Side::Bid } else { Side::Ask }),
    {
        if input_mint.same_key(&self.quote_mint) {
            Side::Bid
        } else {
            Side::Ask
        }
    }

    /// The addresses a reader of the market must refresh: both book sides, the event heap,
    /// both vaults, the clock, then each oracle that is set.
    pub fn related_accounts(&self, clock: &Pubkey) -> (r: Vec<Pubkey>)
        ensures
            r@.len() == 6 + (if self.oracle_a.view_option() is Some { 1int } else { 0 }) + (if self.oracle_b.view_option() is Some { 1int } else { 0 }),
            r@[0] == self.bids && r@[1] == self.asks && r@[2] == self.event_heap,
            r@[3] == self.market_base_vault && r@[4] == self.market_quote_vault && r@[5] == *clock,
            self.oracle_a.view_option() is Some ==> r@[6].bytes@ == self.oracle_a.view_option().unwrap(),
            self.oracle_b.view_option() is Some ==> r@[r@.len() - 1].bytes@ == self.oracle_b.view_option().unwrap(),
    {
        let mut r: Vec<Pubkey> = Vec::new();
        r.push(self.bids);
        r.push(self.asks);
        r.push(self.event_heap);
        r.push(self.market_base_vault);
        r.push(self.market_quote_vault);
        r.push(*clock);
        match self.oracle_a.to_option() {
            Some(k) => r.push(k),
            None => {},
        }
        match self.oracle_b.to_option() {
            Some(k) => r.push(k),
            None => {},
        }
        r
    }

    /// The market's oracle price: the ratio of both feeds when both are configured, the first
    /// feed's price when only it is, `None` without an oracle. `InvalidOracleAccount` when a
    /// configured feed is missing or read from another address.
    pub fn oracle_price(&self, oracle_a: Option<KeyedOracle>, oracle_b: Option<KeyedOracle>, now_slot: u64) -> (r:
        Result<Option<Decimal>, OpenBookError>)
        requires
            self.decimals_in_range(),
        ensures
            match (self.oracle_a.view_option(), self.oracle_b.view_option()) {
                (Some(ka), Some(kb)) => match (oracle_a, oracle_b) {
                    (Some(a), Some(b)) => if a.key.bytes@ == ka && b.key.bytes@ == kb {
                        r == some_price(oracle_price_from_a_and_b_spec(*self, a.state, b.state, now_slot))
                    } else {
                        r == Err::<Option<Decimal>, OpenBookError>(OpenBookError::InvalidOracleAccount)
                    },
                    _ => r == Err::<Option<Decimal>, OpenBookError>(OpenBookError::InvalidOracleAccount),
                },
                (Some(ka), None) => match oracle_a {
                    Some(a) => if a.key.bytes@ == ka {
                        r == some_price(oracle_price_from_a_spec(*self, a.state, now_slot))
                    } else {
                        r == Err::<Option<Decimal>, OpenBookError>(OpenBookError::InvalidOracleAccount)
                    },
                    None => r == Err::<Option<Decimal>, OpenBookError>(OpenBookError::InvalidOracleAccount),
                },
                (None, _) => r == Ok::<Option<Decimal>, OpenBookError>(None),
            },
    {
        if self.oracle_a.is_some() && self.oracle_b.is_some() {
            match (oracle_a, oracle_b) {
                (Some(a), Some(b)) => {
                    if !self.oracle_a.eq_key(&a.key) || !self.oracle_b.eq_key(&b.key) {
                        return Err(OpenBookError::InvalidOracleAccount);
                    }
                    match self.oracle_price_from_a_and_b(&a.key, &a.state, &b.key, &b.state, now_slot) {
                        Ok(p) => Ok(Some(p)),
                        Err(e) => Err(e),
                    }
                },
                _ => Err(OpenBookError::InvalidOracleAccount),
            }
        } else if self.oracle_a.is_some() {
            match oracle_a {
                Some(a) => {
                    if !self.oracle_a.eq_key(&a.key) {
                        return Err(OpenBookError::InvalidOracleAccount);
                    }
                    match self.oracle_price_from_a(&a.key, &a.state, now_slot) {
                        Ok(p) => Ok(Some(p)),
                        Err(e) => Err(e),
                    }
                },
                None => Err(OpenBookError::InvalidOracleAccount),
            }
        } else {
            Ok(None)
        }
    }
}

} // verus!
