//! The cache of compile-time evaluation: each block of compile-time code
//! is evaluated once, and its value is used from then on.

use crate::names::FQComptime;
use crate::store::{
    comptime_values_get, comptime_values_insert, new_comptime_values, ComptimeValues,
};
use crate::ty::ResolvedTy;
use vstd::prelude::*;

verus! {

/// The value of a block of compile-time code: its bytes, and the type
/// that it was evaluated at.
#[derive(Debug, Clone, PartialEq, Eq)]
pub struct ComptimeResult {
    pub bytes: Vec<u8>,
    pub ty: ResolvedTy,
}

pub struct ComptimeResultView {
    pub bytes: Seq<u8>,
    pub ty: ResolvedTy,
}

impl View for ComptimeResult {
    type V = ComptimeResultView;

    open spec fn view(&self) -> ComptimeResultView {
        ComptimeResultView { bytes: self.bytes@, ty: self.ty }
    }
}

/// How far the evaluation of a block has come.
pub enum ComptimeState {
    NotEvaluated,
    /// Its value was demanded, and the evaluator runs or is about to.
    Scheduled,
    Evaluated(ComptimeResultView),
}

/// What the one who demands the value of a block has to do.
#[derive(Debug, PartialEq, Eq)]
pub enum Demand {
    /// Evaluate the block, and hand the value in with `finish`.
    Evaluate,
    /// Nothing: the block is being evaluated.
    Wait,
    /// Use the value that the cache holds: `get` has it.
    Cached,
}

/// The key of a block in a table: the keys of its file and of its name,
/// and its index, 32 bits each.
pub open spec fn block_key(block: FQComptime) -> u128 {
    (block.fqn.file.0.0 * 0x1_0000_0000_0000_0000 + block.fqn.name.0.0 * 0x1_0000_0000
        + block.comptime) as u128
}

/// Two blocks have one key only if they are one block.
pub proof fn lemma_block_key_injective(a: FQComptime, b: FQComptime)
    ensures
        block_key(a) == block_key(b) <==> a == b,
{
}

fn key_of(block: FQComptime) -> (key: u128)
    ensures
        key == block_key(block),
{
    block.fqn.file.0.0 as u128 * 0x1_0000_0000_0000_0000 + block.fqn.name.0.0 as u128
        * 0x1_0000_0000 + block.comptime as u128
}

/// The blocks whose value was demanded: each with `None` while it is
/// evaluated, and with its value after.
#[derive(Debug)]
pub struct ComptimeCache {
    values: ComptimeValues,
}

/// The state of the block with the key `key` in a table.
pub open spec fn state_in(values: Map<u128, Option<ComptimeResult>>, key: u128) -> ComptimeState {
    if values.contains_key(key) {
        match values[key] {
            Some(result) => ComptimeState::Evaluated(result@),
            None => ComptimeState::Scheduled,
        }
    } else {
        ComptimeState::NotEvaluated
    }
}

impl ComptimeCache {
    pub closed spec fn values(&self) -> Map<u128, Option<ComptimeResult>> {
        self.values@
    }

    /// How far the evaluation of `key` has come.
    pub open spec fn state(&self, key: FQComptime) -> ComptimeState {
        state_in(self.values(), block_key(key))
    }

    /// A cache in which no block is evaluated.
    pub fn new() -> (cache: ComptimeCache)
        ensures
            forall|key: FQComptime| cache.state(key) is NotEvaluated,
    {
        ComptimeCache { values: new_comptime_values() }
    }

    /// The value of `key`, if the block is evaluated.
    pub fn get(&self, key: FQComptime) -> (result: Option<&ComptimeResult>)
        ensures
            match result {
                Some(result) => self.state(key) == ComptimeState::Evaluated(result@),
                None => !(self.state(key) is Evaluated),
            },
    {
        match comptime_values_get(&self.values, key_of(key)) {
            Some(Some(result)) => Some(result),
            _ => None,
        }
    }

    /// Demands the value of `key`. A block that was never demanded is
    /// scheduled, and the caller has to evaluate it; a block that is
    /// evaluated has its value in the cache, and is not evaluated again.
    pub fn demand(&mut self, key: FQComptime) -> (demand: Demand)
        ensures
            match old(self).state(key) {
                ComptimeState::NotEvaluated => demand == Demand::Evaluate && final(self).state(key)
                    is Scheduled,
                ComptimeState::Scheduled => demand == Demand::Wait && final(self).values()
                    == old(self).values(),
                ComptimeState::Evaluated(_) => demand == Demand::Cached && final(self).values()
                    == old(self).values(),
            },
            forall|other: FQComptime|
                other != key ==> final(self).state(other) == old(self).state(other),
    {
        let found: Demand = match comptime_values_get(&self.values, key_of(key)) {
            Some(Some(_)) => Demand::Cached,
            Some(None) => Demand::Wait,
            None => Demand::Evaluate,
        };
        match found {
            Demand::Evaluate => {
                comptime_values_insert(&mut self.values, key_of(key), None);
                proof {
                    assert forall|other: FQComptime| other != key implies final(self).state(other)
                        == old(self).state(other) by {
                        lemma_block_key_injective(other, key);
                    }
                }
            },
            _ => {},
        }
        found
    }

    /// Hands in the value of the block `key`, which was scheduled.
    pub fn finish(&mut self, key: FQComptime, result: ComptimeResult)
        requires
            old(self).state(key) is Scheduled,
        ensures
            final(self).state(key) == ComptimeState::Evaluated(result@),
            forall|other: FQComptime|
                other != key ==> final(self).state(other) == old(self).state(other),
    {
        comptime_values_insert(&mut self.values, key_of(key), Some(result));
        proof {
            assert forall|other: FQComptime| other != key implies final(self).state(other) == old(
                self,
            ).state(other) by {
                lemma_block_key_injective(other, key);
            }
        }
    }
}

/// Once a block is evaluated, every later demand of its value finds the
/// value in the cache and asks for no evaluation, whatever other
/// blocks were demanded or handed in between: a demand changes only the
/// state of a block that was not evaluated, and only blocks that are
/// scheduled are handed in.
pub proof fn lemma_evaluated_once(
    values: Map<u128, Option<ComptimeResult>>,
    key: FQComptime,
    result: ComptimeResultView,
    later: Map<u128, Option<ComptimeResult>>,
)
    requires
        state_in(values, block_key(key)) == ComptimeState::Evaluated(result),
        forall|k: u128|
            #[trigger] values.contains_key(k) && values[k] is Some ==> later.contains_key(k)
                && later[k] == values[k],
    ensures
        state_in(later, block_key(key)) == ComptimeState::Evaluated(result),
{
}

} // verus!
