use vstd::prelude::*;

use crate::decimal::{fits_i128, mul_bits, Decimal};
use crate::error::OpenBookError;
use crate::pubkey::Pubkey;

verus! {

/// Staleness and confidence limits that an oracle reading must meet.
#[derive(Clone, Copy, Debug)]
pub struct OracleConfig {
    /// Largest accepted ratio of deviation to price.
    pub conf_filter: Decimal,
    /// Largest accepted age of a reading in slots; negative disables the check.
    pub max_staleness_slots: i64,
}

/// One reading of a price feed.
#[derive(Clone, Copy, Debug)]
pub struct OracleState {
    pub price: Decimal,
    pub deviation: Decimal,
    pub last_update_slot: u64,
}

/// A price feed whose value an admin sets by hand.
#[derive(Clone, Copy, Debug)]
pub struct StubOracle {
    pub owner: Pubkey,
    pub mint: Pubkey,
    pub price: Decimal,
    pub deviation: Decimal,
    pub last_update_ts: i64,
    pub last_update_slot: u64,
}

impl StubOracle {
    pub fn state(&self) -> (r: OracleState)
        ensures
            r.price == self.price,
            r.deviation == self.deviation,
            r.last_update_slot == self.last_update_slot,
    {
        OracleState {
            price: self.price,
            deviation: self.deviation,
            last_update_slot: self.last_update_slot,
        }
    }
}

pub open spec fn is_stale(s: OracleState, config: OracleConfig, now_slot: u64) -> bool {
    config.max_staleness_slots >= 0 && s.last_update_slot + config.max_staleness_slots < now_slot
}

/// The largest accepted deviation: `conf_filter * price`, or no limit when that overflows.
pub open spec fn confidence_target(s: OracleState, config: OracleConfig) -> int {
    if fits_i128(mul_bits(config.conf_filter.bits as int, s.price.bits as int)) {
        mul_bits(config.conf_filter.bits as int, s.price.bits as int)
    } else {
        i128::MAX as int
    }
}

pub open spec fn is_unconfident(s: OracleState, config: OracleConfig) -> bool {
    s.deviation.bits > confidence_target(s, config)
}

impl OracleState {
    /// Fails with `OracleStale` when the reading is older than the configured limit.
    pub fn check_staleness(&self, config: &OracleConfig, now_slot: u64) -> (r: Result<
        (),
        OpenBookError,
    >)
        ensures
            r == (if is_stale(*self, *config, now_slot) {
                Err(OpenBookError::OracleStale)
            } else {
                Ok(())
            }),
    {
        if config.max_staleness_slots >= 0 {
            let age_limit = self.last_update_slot as u128 + config.max_staleness_slots as u128;
            if age_limit < now_slot as u128 {
                return Err(OpenBookError::OracleStale);
            }
        }
        Ok(())
    }

    /// Fails with `OracleConfidence` when the deviation exceeds `conf_filter * price`.
    pub fn check_confidence(&self, config: &OracleConfig) -> (r: Result<(), OpenBookError>)
        ensures
            r == (if is_unconfident(*self, *config) {
                Err(OpenBookError::OracleConfidence)
            } else {
                Ok(())
            }),
    {
        let target = match config.conf_filter.checked_mul(self.price) {
            Some(t) => t,
            None => Decimal::max_value(),
        };
        if self.deviation.gt(target) {
            Err(OpenBookError::OracleConfidence)
        } else {
            Ok(())
        }
    }
}

} // verus!
