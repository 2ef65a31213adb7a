//! The storage that the workers of a parallel execution share.

use std::collections::HashMap;
use vstd::prelude::*;
use crate::primitives::B256;

verus! {

broadcast use vstd::std_specs::hash::group_hash_axioms;

/// What the workers read from memory: the hashes of blocks, by their number.
#[derive(Clone, Debug)]
pub struct InMemoryStorage {
    block_hashes: HashMap<u64, B256>,
}

impl View for InMemoryStorage {
    type V = Map<u64, B256>;

    closed spec fn view(&self) -> Map<u64, B256> {
        self.block_hashes@
    }
}

impl InMemoryStorage {
    /// A storage that knows no block.
    pub fn new() -> (result: InMemoryStorage)
        ensures
            result@ == Map::<u64, B256>::empty(),
    {
        InMemoryStorage { block_hashes: HashMap::new() }
    }

    /// Sets the hash of a block.
    pub fn set_block_hash(&mut self, number: u64, hash: B256)
        ensures
            final(self)@ == old(self)@.insert(number, hash),
    {
        self.block_hashes.insert(number, hash);
    }

    /// The hash of a block, if it is known.
    pub fn block_hash(&self, number: u64) -> (result: Option<B256>)
        ensures
            result == if self@.contains_key(number) {
                Some(self@[number])
            } else {
                None
            },
    {
        match self.block_hashes.get(&number) {
            Some(hash) => Some(*hash),
            None => None,
        }
    }
}

/// A context that an EVM reaches the shared storage through.
pub trait ParallelEvmContextTrait {
    /// The hashes of blocks in the shared storage.
    spec fn block_hashes(&self) -> Map<u64, B256>;

    /// The shared storage.
    fn storage(&self) -> (result: &InMemoryStorage)
        ensures
            result@ == self.block_hashes(),
    ;

    /// Sets the hash of a block in the shared storage.
    fn set_block_hash(&mut self, number: u64, hash: B256)
        ensures
            final(self).block_hashes() == old(self).block_hashes().insert(number, hash),
    ;
}

/// The context of an EVM that runs in parallel with others.
#[derive(Clone, Debug)]
pub struct ParallelEvmContext {
    storage: InMemoryStorage,
}

impl ParallelEvmContext {
    /// A context with a storage.
    pub fn new(storage: InMemoryStorage) -> (result: ParallelEvmContext)
        ensures
            result.block_hashes() == storage@,
    {
        ParallelEvmContext { storage }
    }
}

impl Default for ParallelEvmContext {
    /// A context whose storage knows no block.
    fn default() -> (result: ParallelEvmContext)
        ensures
            result.block_hashes() == Map::<u64, B256>::empty(),
    {
        ParallelEvmContext::new(InMemoryStorage::new())
    }
}

impl ParallelEvmContextTrait for ParallelEvmContext {
    closed spec fn block_hashes(&self) -> Map<u64, B256> {
        self.storage@
    }

    fn storage(&self) -> (result: &InMemoryStorage) {
        &self.storage
    }

    fn set_block_hash(&mut self, number: u64, hash: B256) {
        self.storage.set_block_hash(number, hash);
    }
}

/// Puts the hash of the current block into the shared storage, and gives the storage out.
pub fn prepare_internal_storage<C: ParallelEvmContextTrait>(
    context: &mut C,
    number: u64,
    hash: B256,
) -> (result: &InMemoryStorage)
    ensures
        result@ == old(context).block_hashes().insert(number, hash),
        final(context).block_hashes() == old(context).block_hashes().insert(number, hash),
{
    context.set_block_hash(number, hash);
    context.storage()
}

/// The hash that was set for a block is the one that is read back, and no other block is touched.
pub proof fn lemma_block_hash_is_read_back<C: ParallelEvmContextTrait>(
    before: C,
    after: C,
    number: u64,
    hash: B256,
    other: u64,
)
    requires
        after.block_hashes() == before.block_hashes().insert(number, hash),
    ensures
        after.block_hashes().contains_key(number),
        after.block_hashes()[number] == hash,
        other != number ==> {
            &&& after.block_hashes().contains_key(other) == before.block_hashes().contains_key(
                other,
            )
            &&& after.block_hashes().contains_key(other) ==> after.block_hashes()[other]
                == before.block_hashes()[other]
        },
{
}

} // verus!
