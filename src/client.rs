use itertools::Itertools;
use vstd::prelude::*;

use crate::pubkey::Pubkey;

verus! {

/// How transactions are built for the exchange.
#[derive(Clone, Copy, Debug, PartialEq, Eq, Structural)]
pub struct TransactionBuilderConfig {
    /// When set, a compute-unit price instruction with this price goes in front.
    pub prioritization_micro_lamports: Option<u64>,
}

/// Which side of a swap an aggregator fixes.
#[derive(Clone, Copy, Debug, PartialEq, Eq, Structural)]
pub enum JupiterSwapMode {
    ExactIn,
    ExactOut,
}

pub open spec fn key_bytes(keys: Seq<Pubkey>) -> Seq<Seq<u8>> {
    keys.map_values(|k: Pubkey| k.bytes@)
}

/// `s` without repeats, each element kept where it first occurs.
pub open spec fn first_occurrences(s: Seq<Seq<u8>>) -> Seq<Seq<u8>>
    decreases s.len(),
{
    if s.len() == 0 {
        s
    } else {
        let d = first_occurrences(s.drop_last());
        if d.contains(s.last()) {
            d
        } else {
            d.push(s.last())
        }
    }
}

/// Relies on itertools' `Itertools::unique_by`: the items in their order, each key kept
/// at its first occurrence.
#[verifier::external_body]
fn unique_by_bytes(keys: &Vec<Pubkey>) -> (r: Vec<Pubkey>)
    ensures
        key_bytes(r@) == first_occurrences(key_bytes(keys@)),
{
    keys.iter().copied().unique_by(|k| k.bytes).collect()
}

/// The signers of a transaction, each key once, in the order they were given.
pub fn unique_signer_keys(signers: &Vec<Pubkey>) -> (r: Vec<Pubkey>)
    ensures
        key_bytes(r@) == first_occurrences(key_bytes(signers@)),
{
    unique_by_bytes(signers)
}

/// The number for a new account of an owner: one above the largest existing number, or 0
/// for the first; `None` when the largest is `u32::MAX`.
pub fn next_account_num(existing: &Vec<u32>) -> (r: Option<u32>)
    ensures
        existing@.len() == 0 ==> r == Some(0u32),
        existing@.len() > 0 ==> exists|i: int|
            0 <= i < existing@.len() && (forall|j: int| 0 <= j < existing@.len() ==> #[trigger] existing@[j] <= existing@[i])
                && r == (if existing@[i] == u32::MAX { None } else { Some((existing@[i] + 1) as u32) }),
{
    if existing.len() == 0 {
        return Some(0);
    }
    let mut best: usize = 0;
    let mut i: usize = 1;
    while i < existing.len()
        invariant
            0 < existing@.len(),
            1 <= i <= existing@.len(),
            best < i,
            forall|j: int| 0 <= j < i ==> #[trigger] existing@[j] <= existing@[best as int],
        decreases existing@.len() - i,
    {
        if existing[i] > existing[best] {
            best = i;
        }
        i = i + 1;
    }
    if existing[best] == u32::MAX {
        None
    } else {
        Some(existing[best] + 1)
    }
}

} // verus!
